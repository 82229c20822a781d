//! The sandbox vocabulary: the hardware-isolated environment an iteration
//! executes in, created fresh and destroyed with it. Only the mounted
//! workspace survives.

use crate::secrets::SecretValue;
use vstd::prelude::*;

verus! {

/// What a sandbox is built from: the workspace mount and the environment
/// injected at boot.
pub struct SandboxSpec {
    pub workspace: WorkspaceMount,
    /// Injected as environment variables. Values are wrapped as secrets
    /// because anything here may be sensitive, so nothing here may be
    /// printed.
    pub env: Vec<(String, SecretValue)>,
}

/// The persistent workspace, mounted read-write into the sandbox: the only
/// channel through which an iteration's work survives.
#[derive(Debug, Clone, PartialEq, Eq)]
pub struct WorkspaceMount {
    pub host: String,
    pub guest: String,
}

/// Names one live sandbox. Opaque to kernels; only the backend that issued
/// it can interpret it.
#[derive(Debug, PartialEq, Eq)]
pub struct SandboxHandle {
    id: String,
}

impl View for SandboxHandle {
    type V = Seq<char>;

    closed spec fn view(&self) -> Seq<char> {
        self.id@
    }
}

impl SandboxHandle {
    pub fn new(id: &str) -> (r: SandboxHandle)
        ensures
            r@ == id@,
    {
        SandboxHandle { id: id.to_owned() }
    }

    pub fn as_str(&self) -> (s: &str)
        ensures
            s@ == self@,
    {
        self.id.as_str()
    }
}

/// A command to run inside a sandbox, argv-style: no shell in the middle to
/// expand, split, or inject.
#[derive(Debug, Clone, PartialEq, Eq)]
pub struct ExecSpec {
    pub argv: Vec<String>,
    /// Defaults to the workspace mount point when `None`.
    pub cwd: Option<String>,
}

/// One piece of a running command's life. Output chunks are raw bytes
/// arriving at arbitrary boundaries: they can split multibyte codepoints and
/// need not be UTF-8 at all, so decoding to text happens once, in the
/// kernel, not in every backend.
#[derive(Debug, Clone, PartialEq, Eq)]
pub enum ExecEvent {
    Stdout(Vec<u8>),
    Stderr(Vec<u8>),
    Exited(ExitStatus),
}

/// How a command ended.
#[derive(Debug, Clone, Copy, PartialEq, Eq, Structural)]
pub struct ExitStatus {
    /// `None` when the process was killed before it could exit.
    pub code: Option<i32>,
}

impl ExitStatus {
    pub fn success(&self) -> (r: bool)
        ensures
            r == (self.code == Some(0i32)),
    {
        match self.code {
            Some(code) => code == 0,
            None => false,
        }
    }
}

/// Whether a command that ended with `exit` ran to a clean end; one that
/// never said how it ended did not.
pub open spec fn clean_exit(exit: Option<ExitStatus>) -> bool {
    exit matches Some(status) && status.code == Some(0i32)
}

/// [`clean_exit`], computed.
pub fn exited_cleanly(exit: &Option<ExitStatus>) -> (r: bool)
    ensures
        r == clean_exit(*exit),
{
    match exit {
        Some(status) => status.success(),
        None => false,
    }
}

/// A sandbox operation that failed. Opaque by design: kernels react to
/// sandbox failure uniformly, never to its cause.
#[derive(Debug, Clone, PartialEq, Eq)]
pub struct SandboxError(pub String);

impl SandboxError {
    /// The message the failure is told by.
    pub open spec fn message(self) -> Seq<char> {
        "sandbox failure: "@ + self.0@
    }

    pub fn to_text(&self) -> (s: String)
        ensures
            s@ == self.message(),
    {
        let mut s = "sandbox failure: ".to_owned();
        s.append(self.0.as_str());
        s
    }
}

} // verus!
