//! The workspace a kernel works on: the one thing that survives iterations.
//! It is a real directory that the host reaches with real git; what git is
//! asked and what its answers mean is decided here.
//!
//! Scratch under the scratch directory is the exception: it is produced
//! inside the sandbox and read back through the sandbox, never from the
//! host, so kernels keep working even where the guest's view and the host's
//! diverge.

use crate::sandbox::WorkspaceMount;
use crate::text;
use crate::utf8;
use vstd::prelude::*;

verus! {

/// Where the workspace lands inside every sandbox. Fixed so domain prompts
/// and agent muscle memory transfer between flows.
pub const GUEST_ROOT: &'static str = "/workspace";

/// The engine's scratch directory inside the workspace: the agent drops its
/// reports here, so checkpoints must never commit it; scratch is
/// conversation, not the loop's work.
pub const SCRATCH_DIR: &'static str = ".hako";

/// Where a single-prompt agent must write its progress report, relative to
/// the workspace root.
pub const PROGRESS_FILE: &'static str = ".hako/progress.json";

/// Where a stage's agent must write its report, relative to the workspace
/// root. Part of the published agent contract; the prompts quote it.
pub const REPORT_FILE: &'static str = ".hako/report.json";

/// The user-authored, agent-editable prompt file at the workspace root.
/// Re-read every iteration so an agent's edits take effect on the next pass.
pub const DOMAIN_PROMPT_FILE: &'static str = "PROMPT.md";

/// Host-side workspace work that failed: a run-fatal infrastructure error,
/// unlike anything the agent does inside the sandbox.
#[derive(Debug, Clone, PartialEq, Eq)]
pub struct WorkspaceError(pub String);

impl WorkspaceError {
    pub fn to_text(&self) -> (s: String)
        ensures
            s@ == "workspace failure: "@ + self.0@,
    {
        let mut s = "workspace failure: ".to_owned();
        s.append(self.0.as_str());
        s
    }
}

/// A prepared workspace: a git repository the run owns.
#[derive(Debug, Clone, PartialEq, Eq)]
pub struct Workspace {
    pub root: String,
    /// The branch that a push sends to `origin`. `None` pushes nowhere: the
    /// run branch stays inspectable in the workspace itself.
    pub push_branch: Option<String>,
    /// The file that locks a mounted checkout to this run.
    pub lock: Option<String>,
}

/// A path below a directory.
pub open spec fn below(dir: Seq<char>, path: Seq<char>) -> Seq<char> {
    dir + "/"@ + path
}

/// [`below`], computed.
pub fn join(dir: &str, path: &str) -> (s: String)
    ensures
        s@ == below(dir@, path@),
{
    let mut s = dir.to_owned();
    s.append("/");
    s.append(path);
    s
}

impl Workspace {
    pub fn at(root: &str) -> (r: Workspace)
        ensures
            r.root@ == root@,
            r.push_branch is None,
            r.lock is None,
    {
        Workspace { root: root.to_owned(), push_branch: None, lock: None }
    }

    /// How this workspace mounts into a sandbox.
    pub fn mount(&self) -> (r: WorkspaceMount)
        ensures
            r.host@ == self.root@,
            r.guest@ == GUEST_ROOT@,
    {
        WorkspaceMount { host: self.root.clone(), guest: GUEST_ROOT.to_owned() }
    }

    /// Where the progress report lands inside the sandbox: the path a kernel
    /// hands the sandbox, because scratch is read through the guest's view.
    pub fn guest_progress_path(&self) -> (s: String)
        ensures
            s@ == below(GUEST_ROOT@, PROGRESS_FILE@),
    {
        join(GUEST_ROOT, PROGRESS_FILE)
    }

    /// Where a stage's report lands inside the sandbox.
    pub fn guest_report_path(&self) -> (s: String)
        ensures
            s@ == below(GUEST_ROOT@, REPORT_FILE@),
    {
        join(GUEST_ROOT, REPORT_FILE)
    }

    /// Where the domain prompt lies on the host.
    pub fn domain_prompt_path(&self) -> (s: String)
        ensures
            s@ == below(self.root@, DOMAIN_PROMPT_FILE@),
    {
        join(self.root.as_str(), DOMAIN_PROMPT_FILE)
    }
}

/// Both report files lie in the scratch directory, which no checkpoint
/// commits.
pub proof fn reports_lie_in_the_scratch_dir()
    ensures
        text::begins(PROGRESS_FILE@, SCRATCH_DIR@ + "/"@),
        text::begins(REPORT_FILE@, SCRATCH_DIR@ + "/"@),
{
    reveal_strlit(".hako/progress.json");
    reveal_strlit(".hako/report.json");
    reveal_strlit(".hako");
    reveal_strlit("/");
    let dir = SCRATCH_DIR@ + "/"@;
    assert(PROGRESS_FILE@.subrange(0, 6) =~= dir);
    assert(REPORT_FILE@.subrange(0, 6) =~= dir);
}

/// What one run of a host command left behind.
#[derive(Debug, Clone, PartialEq, Eq)]
pub struct CommandOutput {
    /// `None` when the process was killed before it could exit.
    pub code: Option<i32>,
    pub stdout: Vec<u8>,
    pub stderr: Vec<u8>,
}

/// The error for a git command that failed: its name and what it printed.
pub open spec fn git_failure_text(command: Seq<char>, stderr: Seq<u8>) -> Seq<char> {
    "git "@ + command + " failed: "@ + text::trimmed(utf8::text_of(stderr))
}

/// [`git_failure_text`], computed.
pub fn git_failure(command: &str, output: &CommandOutput) -> (r: WorkspaceError)
    ensures
        r.0@ == git_failure_text(command@, output.stderr@),
{
    let mut s = "git ".to_owned();
    s.append(command);
    s.append(" failed: ");
    let stderr = utf8::into_text(copied_bytes(&output.stderr));
    let trimmed = text::trim(stderr.as_str());
    s.append(trimmed.as_str());
    WorkspaceError(s)
}

/// A copy of some bytes.
pub fn copied_bytes(v: &Vec<u8>) -> (r: Vec<u8>)
    ensures
        r@ == v@,
{
    let mut r: Vec<u8> = Vec::new();
    for i in 0..v.len()
        invariant
            r@ == v@.take(i as int),
    {
        r.push(v[i]);
        assert(v@.take(i + 1) =~= v@.take(i as int).push(v@[i as int]));
    }
    assert(v@.take(v@.len() as int) =~= v@);
    r
}

/// What demanding success of a git command gives: its output as text, or the
/// error that names the command.
pub open spec fn demanded(
    args: Seq<Seq<char>>,
    output: CommandOutput,
    r: Result<String, WorkspaceError>,
) -> bool {
    if output.code == Some(0i32) {
        r matches Ok(stdout) && stdout@ == utf8::text_of(output.stdout@)
    } else {
        r matches Err(error) && error.0@ == git_failure_text(
            text::joined(args, " "@),
            output.stderr@,
        )
    }
}

/// Demands success of a git command and hands back its output.
pub fn git_ok(args: &Vec<String>, output: &CommandOutput) -> (r: Result<String, WorkspaceError>)
    ensures
        demanded(text::texts(args@), *output, r),
{
    if succeeded(output) {
        Ok(utf8::into_text(copied_bytes(&output.stdout)))
    } else {
        let command = text::join(args, " ");
        Err(git_failure(command.as_str(), output))
    }
}

/// Whether a command exited zero.
pub fn succeeded(output: &CommandOutput) -> (r: bool)
    ensures
        r == (output.code == Some(0i32)),
{
    match output.code {
        Some(code) => code == 0,
        None => false,
    }
}

/// Where a checkpoint stands: at the git command whose answer it awaits.
#[derive(Debug, Clone, Copy, PartialEq, Eq, Structural)]
pub enum CheckpointAt {
    /// Staging everything but scratch.
    Staging,
    /// Asking whether anything is staged.
    Comparing,
    /// Committing what is staged.
    Committing,
    /// Asking for the commit's hash.
    Resolving,
}

/// A checkpoint under way: commits everything the iteration changed.
/// Committer identity, hooks, and signing are forced off the user's config:
/// a checkpoint is the engine's bookkeeping and must succeed on any host.
pub struct Checkpoint {
    pub message: String,
    pub at: CheckpointAt,
}

/// Where a checkpoint goes: to the next git command, or to its end.
pub enum CheckpointTurn {
    Git(Checkpoint, Vec<String>),
    /// The commit's hash, or `None` when nothing changed, which is what drift
    /// detection watches for.
    End(Result<Option<String>, WorkspaceError>),
}

impl Checkpoint {
    /// The git command whose answer the checkpoint awaits.
    pub open spec fn command(&self) -> Seq<Seq<char>> {
        match self.at {
            CheckpointAt::Staging => seq![
                "add"@,
                "-A"@,
                "--"@,
                "."@,
                ":(exclude)"@ + SCRATCH_DIR@,
            ],
            CheckpointAt::Comparing => seq!["diff"@, "--cached"@, "--quiet"@],
            CheckpointAt::Committing => seq![
                "-c"@,
                "user.name=hako"@,
                "-c"@,
                "user.email=hako@localhost"@,
                "commit"@,
                "--quiet"@,
                "--no-verify"@,
                "--no-gpg-sign"@,
                "-m"@,
                self.message@,
            ],
            CheckpointAt::Resolving => seq!["rev-parse"@, "HEAD"@],
        }
    }

    /// Whether `to` is the checkpoint at its next command.
    pub open spec fn proceeds(&self, at: CheckpointAt, to: CheckpointTurn) -> bool {
        &&& to matches CheckpointTurn::Git(next, args)
        &&& next == Checkpoint { at, ..*self }
        &&& text::texts(args@) == next.command()
    }

    /// Where git's answer takes the checkpoint: staged, compared, committed,
    /// resolved, each only once the one before succeeded. A comparison that
    /// exits zero found nothing to commit, one that exits 1 found something.
    pub open spec fn answered(&self, output: CommandOutput, to: CheckpointTurn) -> bool {
        match self.at {
            CheckpointAt::Comparing => if output.code == Some(0i32) {
                to == CheckpointTurn::End(Ok(None))
            } else if output.code == Some(1i32) {
                self.proceeds(CheckpointAt::Committing, to)
            } else {
                to matches CheckpointTurn::End(Err(error)) && error.0@ == git_failure_text(
                    "diff --cached"@,
                    output.stderr@,
                )
            },
            _ => if output.code != Some(0i32) {
                to matches CheckpointTurn::End(Err(error)) && error.0@ == git_failure_text(
                    text::joined(self.command(), " "@),
                    output.stderr@,
                )
            } else {
                match self.at {
                    CheckpointAt::Staging => self.proceeds(CheckpointAt::Comparing, to),
                    CheckpointAt::Committing => self.proceeds(CheckpointAt::Resolving, to),
                    _ => to matches CheckpointTurn::End(Ok(Some(commit))) && commit@
                        == text::trimmed(utf8::text_of(output.stdout@)),
                }
            },
        }
    }

    /// A checkpoint at its first command.
    pub fn begin(message: &str) -> (r: (Checkpoint, Vec<String>))
        ensures
            r.0.at == CheckpointAt::Staging,
            r.0.message@ == message@,
            text::texts(r.1@) == r.0.command(),
    {
        let checkpoint = Checkpoint { message: message.to_owned(), at: CheckpointAt::Staging };
        let args = checkpoint.args();
        (checkpoint, args)
    }

    /// The arguments of the command at hand.
    fn args(&self) -> (r: Vec<String>)
        ensures
            text::texts(r@) == self.command(),
    {
        let r: Vec<String> = match self.at {
            CheckpointAt::Staging => {
                let mut exclude = ":(exclude)".to_owned();
                exclude.append(SCRATCH_DIR);
                vec!["add".to_owned(), "-A".to_owned(), "--".to_owned(), ".".to_owned(), exclude]
            },
            CheckpointAt::Comparing => vec![
                "diff".to_owned(),
                "--cached".to_owned(),
                "--quiet".to_owned(),
            ],
            CheckpointAt::Committing => vec![
                "-c".to_owned(),
                "user.name=hako".to_owned(),
                "-c".to_owned(),
                "user.email=hako@localhost".to_owned(),
                "commit".to_owned(),
                "--quiet".to_owned(),
                "--no-verify".to_owned(),
                "--no-gpg-sign".to_owned(),
                "-m".to_owned(),
                self.message.clone(),
            ],
            CheckpointAt::Resolving => vec!["rev-parse".to_owned(), "HEAD".to_owned()],
        };
        assert(text::texts(r@) =~= self.command());
        r
    }

    /// Takes git's answer to the command at hand.
    pub fn answer(self, output: CommandOutput) -> (r: CheckpointTurn)
        ensures
            self.answered(output, r),
    {
        let mut next = self;
        match next.at {
            CheckpointAt::Comparing => match output.code {
                Some(0) => return CheckpointTurn::End(Ok(None)),
                Some(1) => {
                    next.at = CheckpointAt::Committing;
                },
                _ => return CheckpointTurn::End(Err(git_failure("diff --cached", &output))),
            },
            at => {
                let args = next.args();
                let stdout = match git_ok(&args, &output) {
                    Ok(stdout) => stdout,
                    Err(error) => return CheckpointTurn::End(Err(error)),
                };
                match at {
                    CheckpointAt::Staging => {
                        next.at = CheckpointAt::Comparing;
                    },
                    CheckpointAt::Committing => {
                        next.at = CheckpointAt::Resolving;
                    },
                    _ => return CheckpointTurn::End(Ok(Some(text::trim(stdout.as_str())))),
                }
            },
        }
        let args = next.args();
        CheckpointTurn::Git(next, args)
    }
}

/// A checkpoint never commits scratch: the only command that stages names
/// the scratch directory as excluded.
pub proof fn scratch_is_never_staged(checkpoint: Checkpoint)
    requires
        checkpoint.command()[0] == "add"@,
    ensures
        checkpoint.command().last() == ":(exclude)"@ + SCRATCH_DIR@,
{
    reveal_strlit("add");
    reveal_strlit("diff");
    reveal_strlit("-c");
    reveal_strlit("rev-parse");
    assert("add"@.len() == 3 && "diff"@.len() == 4 && "-c"@.len() == 2 && "rev-parse"@.len() == 9);
}

/// The git command that pushes the run branch to `origin`; none where the
/// workspace has nowhere to push. The branch is flow-authored in the
/// seed-from-branch case, so it rides behind `--end-of-options`: a name can
/// never steer git.
pub fn push_args(workspace: &Workspace) -> (r: Option<Vec<String>>)
    ensures
        match (workspace.push_branch, r) {
            (Some(branch), Some(args)) => text::texts(args@) == seq![
                "push"@,
                "--quiet"@,
                "--end-of-options"@,
                "origin"@,
                branch@,
            ],
            (None, None) => true,
            _ => false,
        },
{
    match &workspace.push_branch {
        Some(branch) => {
            let args = vec![
                "push".to_owned(),
                "--quiet".to_owned(),
                "--end-of-options".to_owned(),
                "origin".to_owned(),
                branch.clone(),
            ];
            assert(text::texts(args@) =~= seq![
                "push"@,
                "--quiet"@,
                "--end-of-options"@,
                "origin"@,
                branch@,
            ]);
            Some(args)
        },
        None => None,
    }
}

} // verus!
