//! Stand-ins for the sandbox: none at all ([`NoSandbox`]), scripted
//! transcripts over files in memory ([`ScriptedSandbox`]), and a staged agent
//! that leaves reports and gets its checks answered ([`StagedSandbox`]).
//! Each answers the effects that concern a sandbox.

use super::fakes::{self, exec, Transcript, AGENT_BIN};
use crate::json::{self, Json};
use crate::kernel::{Effect, KernelError, Reply};
use crate::sandbox::{ExecEvent, ExecSpec, SandboxError};
use crate::text;
use crate::wire;
use crate::workspace::{self, GUEST_ROOT, REPORT_FILE};
use vstd::prelude::*;
use vstd::utf8::*;

verus! {

/// The report of a skeptic that let a claim pass.
pub const UNREFUTED_SKEPTIC_REPORT: &'static str = r#"{"refuted": false, "findings": []}"#;

/// A failure of the sandbox, as a reply.
fn refused(words: &str) -> (r: Reply)
    ensures
        refuses(r, words@),
{
    Reply::Failed(KernelError::Sandbox(SandboxError(words.to_owned())))
}

/// Whether a reply is a failure of the sandbox that says `words`.
pub open spec fn refuses(r: Reply, words: Seq<char>) -> bool {
    r matches Reply::Failed(KernelError::Sandbox(error)) && error.0@ == words
}

/// A sandbox for runs that boot nothing: every effect is refused.
#[derive(Debug, Clone, Copy, PartialEq, Eq)]
pub struct NoSandbox;

impl NoSandbox {
    pub fn serve(&self, _effect: &Effect) -> (r: Reply)
        ensures
            refuses(r, "this run boots no sandbox"@),
    {
        refused("this run boots no sandbox")
    }
}

/// One more, as far as counting goes.
pub open spec fn one_more(n: u32) -> u32 {
    if n == u32::MAX {
        n
    } else {
        (n + 1) as u32
    }
}

fn count_up(n: u32) -> (r: u32)
    ensures
        r == one_more(n),
{
    if n == u32::MAX {
        n
    } else {
        n + 1
    }
}

/// One less, or none.
pub open spec fn one_less(n: u32) -> u32 {
    if n == 0 {
        n
    } else {
        (n - 1) as u32
    }
}

/// The larger of two counts.
pub open spec fn larger(a: u32, b: u32) -> u32 {
    if a < b {
        b
    } else {
        a
    }
}

/// The files of a sandbox.
pub open spec fn files_view(files: Seq<(String, Vec<u8>)>) -> Map<Seq<char>, Seq<u8>>
    decreases files.len(),
{
    if files.len() == 0 {
        Map::empty()
    } else {
        files_view(files.drop_last()).insert(files.last().0@, files.last().1@)
    }
}

fn put_file(files: &mut Vec<(String, Vec<u8>)>, path: &str, contents: Vec<u8>)
    ensures
        files_view(final(files)@) == files_view(old(files)@).insert(path@, contents@),
{
    let ghost before = files@;
    files.push((path.to_owned(), contents));
    assert(files@.drop_last() =~= before);
}

fn find_file(files: &Vec<(String, Vec<u8>)>, path: &str) -> (r: Option<Vec<u8>>)
    ensures
        match r {
            Some(contents) => files_view(files@).dom().contains(path@) && files_view(
                files@,
            )[path@] == contents@,
            None => !files_view(files@).dom().contains(path@),
        },
{
    let mut i: usize = files.len();
    assert(files@.take(files@.len() as int) =~= files@);
    while i > 0
        invariant
            i <= files@.len(),
            files_view(files@).dom().contains(path@) == files_view(
                files@.take(i as int),
            ).dom().contains(path@),
            files_view(files@.take(i as int)).dom().contains(path@) ==> files_view(files@)[path@]
                == files_view(files@.take(i as int))[path@],
        decreases i,
    {
        i = i - 1;
        assert(files@.take(i + 1).drop_last() =~= files@.take(i as int));
        assert(files@.take(i + 1).last() == files@[i as int]);
        if text::same(files[i].0.as_str(), path) {
            return Some(workspace::copied_bytes(&files[i].1));
        }
    }
    assert(files@.take(0) =~= Seq::empty());
    None
}

fn drop_file(files: &mut Vec<(String, Vec<u8>)>, path: &str)
    ensures
        files_view(final(files)@) == files_view(old(files)@).remove(path@),
{
    let mut kept: Vec<(String, Vec<u8>)> = Vec::new();
    assert(files@.take(0) =~= Seq::empty());
    assert(files_view(kept@) =~= files_view(files@.take(0)).remove(path@));
    for i in 0..files.len()
        invariant
            files_view(kept@) == files_view(files@.take(i as int)).remove(path@),
    {
        assert(files@.take(i + 1).drop_last() =~= files@.take(i as int));
        assert(files@.take(i + 1).last() == files@[i as int]);
        if !text::same(files[i].0.as_str(), path) {
            let contents = workspace::copied_bytes(&files[i].1);
            put_file(&mut kept, files[i].0.as_str(), contents);
        }
        assert(files_view(kept@) =~= files_view(files@.take(i + 1)).remove(path@));
    }
    assert(files@.take(files@.len() as int) =~= files@);
    *files = kept;
}

/// The bytes of a text.
fn bytes_of(words: &str) -> (r: Vec<u8>)
    ensures
        r@ == encode_utf8(words@),
{
    let mut r: Vec<u8> = Vec::new();
    r.extend_from_slice(words.as_bytes());
    r
}

/// A copy of one piece of a transcript.
fn copied_piece(piece: &Result<ExecEvent, SandboxError>) -> (r: Result<ExecEvent, SandboxError>)
    ensures
        same_piece(r, *piece),
{
    match piece {
        Ok(ExecEvent::Stdout(bytes)) => Ok(ExecEvent::Stdout(workspace::copied_bytes(bytes))),
        Ok(ExecEvent::Stderr(bytes)) => Ok(ExecEvent::Stderr(workspace::copied_bytes(bytes))),
        Ok(ExecEvent::Exited(status)) => Ok(ExecEvent::Exited(*status)),
        Err(error) => Err(SandboxError(error.0.clone())),
    }
}

/// Whether two pieces of transcripts say the same.
pub open spec fn same_piece(
    a: Result<ExecEvent, SandboxError>,
    b: Result<ExecEvent, SandboxError>,
) -> bool {
    match (a, b) {
        (Ok(ExecEvent::Stdout(x)), Ok(ExecEvent::Stdout(y))) => x@ == y@,
        (Ok(ExecEvent::Stderr(x)), Ok(ExecEvent::Stderr(y))) => x@ == y@,
        (Ok(ExecEvent::Exited(x)), Ok(ExecEvent::Exited(y))) => x == y,
        (Err(x), Err(y)) => x.0@ == y.0@,
        _ => false,
    }
}

/// Whether two transcripts say the same.
pub open spec fn same_transcript(
    a: Seq<Result<ExecEvent, SandboxError>>,
    b: Seq<Result<ExecEvent, SandboxError>>,
) -> bool {
    a.len() == b.len() && forall|i: int| 0 <= i < a.len() ==> same_piece(#[trigger] a[i], b[i])
}

fn copied_transcript(transcript: &Transcript) -> (r: Transcript)
    ensures
        same_transcript(r@, transcript@),
{
    let mut r: Transcript = Vec::new();
    for i in 0..transcript.len()
        invariant
            r@.len() == i,
            forall|j: int| 0 <= j < i ==> same_piece(#[trigger] r@[j], transcript@[j]),
    {
        r.push(copied_piece(&transcript[i]));
    }
    r
}

/// Whether `r` is the next piece of a transcript, and `rest` what is left.
pub open spec fn plays_on(
    before: Seq<Result<ExecEvent, SandboxError>>,
    rest: Seq<Result<ExecEvent, SandboxError>>,
    r: Reply,
) -> bool {
    if before.len() == 0 {
        r == Reply::OutputEnd && rest == before
    } else {
        rest == before.skip(1) && match before[0] {
            Ok(piece) => r == Reply::Output(piece),
            Err(error) => r == Reply::Failed(KernelError::Sandbox(error)),
        }
    }
}

fn play(output: &mut Transcript) -> (r: Reply)
    ensures
        plays_on(old(output)@, final(output)@, r),
{
    if output.len() == 0 {
        return Reply::OutputEnd;
    }
    let piece = output.remove(0);
    assert(output@ =~= old(output)@.skip(1));
    match piece {
        Ok(piece) => Reply::Output(piece),
        Err(error) => Reply::Failed(KernelError::Sandbox(error)),
    }
}

fn served(contents: Option<Vec<u8>>, path: &str) -> (r: Reply)
    ensures
        match contents {
            Some(bytes) => r == Reply::File(bytes),
            None => refuses(r, "no such file: "@ + path@),
        },
{
    match contents {
        Some(bytes) => Reply::File(bytes),
        None => {
            let mut s = "no such file: ".to_owned();
            s.append(path);
            Reply::Failed(KernelError::Sandbox(SandboxError(s)))
        },
    }
}

/// Replays scripted transcripts in order, records every exec, and serves
/// files from memory.
///
/// There are two layers of files: what [`ScriptedSandbox::seed_file`] plants
/// can be removed, so that freshness (clear the old report, demand a new one)
/// shows; what [`ScriptedSandbox::serve_file`] plants survives removal, as
/// output the scripted exec would have written.
pub struct ScriptedSandbox {
    pub script: Vec<Transcript>,
    /// Served when the script runs dry; without it an unscripted exec is
    /// refused.
    pub fallback: Option<Transcript>,
    pub files: Vec<(String, Vec<u8>)>,
    pub kept: Vec<(String, Vec<u8>)>,
    /// Planted the moment the next exec starts.
    pub on_next_exec: Option<(String, Vec<u8>)>,
    pub execs: Vec<ExecSpec>,
    /// What is left of the running exec's output.
    pub output: Transcript,
    pub created: u32,
    pub destroyed: u32,
    /// How many sandboxes are alive.
    pub active: u32,
    /// The most sandboxes ever alive at once.
    pub max_active: u32,
}

impl ScriptedSandbox {
    /// Replays `script` in order; an exec beyond its end is refused.
    pub fn scripted(script: Vec<Transcript>) -> (r: ScriptedSandbox)
        ensures
            r.script == script,
            r.fallback is None,
            files_view(r.files@) == Map::<Seq<char>, Seq<u8>>::empty(),
            files_view(r.kept@) == Map::<Seq<char>, Seq<u8>>::empty(),
            r.on_next_exec is None,
            r.execs@.len() == 0,
            r.output@.len() == 0,
            r.created == 0,
            r.destroyed == 0,
            r.active == 0,
            r.max_active == 0,
    {
        ScriptedSandbox {
            script,
            fallback: None,
            files: Vec::new(),
            kept: Vec::new(),
            on_next_exec: None,
            execs: Vec::new(),
            output: Vec::new(),
            created: 0,
            destroyed: 0,
            active: 0,
            max_active: 0,
        }
    }

    /// Serves the same transcript on every exec.
    pub fn repeating(transcript: Transcript) -> (r: ScriptedSandbox)
        ensures
            r.script@.len() == 0,
            r.fallback == Some(transcript),
            files_view(r.files@) == Map::<Seq<char>, Seq<u8>>::empty(),
            files_view(r.kept@) == Map::<Seq<char>, Seq<u8>>::empty(),
            r.on_next_exec is None,
            r.execs@.len() == 0,
            r.output@.len() == 0,
            r.created == 0,
            r.destroyed == 0,
            r.active == 0,
            r.max_active == 0,
    {
        let mut r = ScriptedSandbox::scripted(Vec::new());
        r.fallback = Some(transcript);
        r
    }

    /// Plants a guest file that removal clears.
    pub fn seed_file(&mut self, path: &str, contents: Vec<u8>)
        ensures
            files_view(final(self).files@) == files_view(old(self).files@).insert(
                path@,
                contents@,
            ),
            *final(self) == (ScriptedSandbox { files: final(self).files, ..*old(self) }),
    {
        put_file(&mut self.files, path, contents);
    }

    /// Plants a guest file that removal cannot clear.
    pub fn serve_file(&mut self, path: &str, contents: Vec<u8>)
        ensures
            files_view(final(self).kept@) == files_view(old(self).kept@).insert(path@, contents@),
            *final(self) == (ScriptedSandbox { kept: final(self).kept, ..*old(self) }),
    {
        put_file(&mut self.kept, path, contents);
    }

    /// Serves a report at the guest's report path.
    pub fn serve_report(&mut self, report: &str)
        ensures
            files_view(final(self).kept@) == files_view(old(self).kept@).insert(
                workspace::below(GUEST_ROOT@, REPORT_FILE@),
                encode_utf8(report@),
            ),
            *final(self) == (ScriptedSandbox { kept: final(self).kept, ..*old(self) }),
    {
        let path = workspace::join(GUEST_ROOT, REPORT_FILE);
        put_file(&mut self.kept, path.as_str(), bytes_of(report));
    }

    /// Plants a guest file that removal clears, the moment the next exec
    /// starts: output that exec wrote.
    pub fn write_on_next_exec(&mut self, path: &str, contents: Vec<u8>)
        ensures
            final(self).on_next_exec matches Some((p, c)) && p@ == path@ && c == contents,
            *final(self) == (ScriptedSandbox {
                on_next_exec: final(self).on_next_exec,
                ..*old(self)
            }),
    {
        self.on_next_exec = Some((path.to_owned(), contents));
    }

    /// Where a file is looked for: what removal cannot clear comes first.
    pub open spec fn file(&self, path: Seq<char>) -> Option<Seq<u8>> {
        if files_view(self.kept@).dom().contains(path) {
            Some(files_view(self.kept@)[path])
        } else if files_view(self.files@).dom().contains(path) {
            Some(files_view(self.files@)[path])
        } else {
            None
        }
    }

    /// What an exec plants.
    pub open spec fn planted(&self) -> Map<Seq<char>, Seq<u8>> {
        match self.on_next_exec {
            Some((path, contents)) => files_view(self.files@).insert(path@, contents@),
            None => files_view(self.files@),
        }
    }

    /// Whether `r` is how an effect is answered, and `after` what it leaves.
    pub open spec fn serves(&self, effect: Effect, after: ScriptedSandbox, r: Reply) -> bool {
        match effect {
            Effect::Boot { .. } => r == Reply::Done && after == (ScriptedSandbox {
                created: one_more(self.created),
                active: one_more(self.active),
                max_active: larger(self.max_active, one_more(self.active)),
                ..*self
            }),
            Effect::Destroy => r == Reply::Done && after == (ScriptedSandbox {
                destroyed: one_more(self.destroyed),
                active: one_less(self.active),
                ..*self
            }),
            Effect::RemoveFile(path) => r == Reply::Done && files_view(after.files@) == files_view(
                self.files@,
            ).remove(path@) && after == (ScriptedSandbox { files: after.files, ..*self }),
            Effect::ReadFile(path) => after == *self && match self.file(path@) {
                Some(bytes) => r matches Reply::File(contents) && contents@ == bytes,
                None => refuses(r, "no such file: "@ + path@),
            },
            Effect::Exec(spec) => {
                &&& after.execs@ == self.execs@.push(spec)
                &&& after.on_next_exec is None
                &&& files_view(after.files@) == self.planted()
                &&& after.kept == self.kept
                &&& after.fallback == self.fallback
                &&& after.created == self.created
                &&& after.destroyed == self.destroyed
                &&& after.active == self.active
                &&& after.max_active == self.max_active
                &&& if self.script@.len() > 0 {
                    &&& r == Reply::Done
                    &&& after.output == self.script@[0]
                    &&& after.script@ == self.script@.skip(1)
                } else {
                    &&& after.script@ == self.script@
                    &&& match self.fallback {
                        Some(transcript) => r == Reply::Done && same_transcript(
                            after.output@,
                            transcript@,
                        ),
                        None => refuses(r, "an exec ran beyond its script"@),
                    }
                }
            },
            Effect::NextOutput => plays_on(self.output@, after.output@, r) && after == (
            ScriptedSandbox { output: after.output, ..*self }),
            _ => refuses(r, "no business of a sandbox"@) && after == *self,
        }
    }

    /// Answers an effect.
    pub fn serve(&mut self, effect: Effect) -> (r: Reply)
        ensures
            old(self).serves(effect, *final(self), r),
    {
        match effect {
            Effect::Boot { .. } => {
                self.created = count_up(self.created);
                self.active = count_up(self.active);
                if self.max_active < self.active {
                    self.max_active = self.active;
                }
                Reply::Done
            },
            Effect::Destroy => {
                self.destroyed = count_up(self.destroyed);
                if self.active > 0 {
                    self.active = self.active - 1;
                }
                Reply::Done
            },
            Effect::RemoveFile(path) => {
                drop_file(&mut self.files, path.as_str());
                Reply::Done
            },
            Effect::ReadFile(path) => {
                let found = match find_file(&self.kept, path.as_str()) {
                    Some(contents) => Some(contents),
                    None => find_file(&self.files, path.as_str()),
                };
                served(found, path.as_str())
            },
            Effect::Exec(spec) => {
                self.execs.push(spec);
                let mut planted: Option<(String, Vec<u8>)> = None;
                std::mem::swap(&mut planted, &mut self.on_next_exec);
                if let Some((path, contents)) = planted {
                    put_file(&mut self.files, path.as_str(), contents);
                }
                if self.script.len() > 0 {
                    let ghost before = self.script@;
                    self.output = self.script.remove(0);
                    assert(self.script@ =~= before.skip(1));
                    return Reply::Done;
                }
                match &self.fallback {
                    Some(transcript) => {
                        let output = copied_transcript(transcript);
                        self.output = output;
                        Reply::Done
                    },
                    None => refused("an exec ran beyond its script"),
                }
            },
            Effect::NextOutput => play(&mut self.output),
            _ => refused("no business of a sandbox"),
        }
    }

    /// Every exec that ran, in order.
    pub fn execs(&self) -> (r: &Vec<ExecSpec>)
        ensures
            r == self.execs,
    {
        &self.execs
    }

    pub fn created(&self) -> (r: u32)
        ensures
            r == self.created,
    {
        self.created
    }

    pub fn destroyed(&self) -> (r: u32)
        ensures
            r == self.destroyed,
    {
        self.destroyed
    }

    /// The most sandboxes ever alive at once.
    pub fn max_active(&self) -> (r: u32)
        ensures
            r == self.max_active,
    {
        self.max_active
    }
}

/// One agent exec that [`StagedSandbox`] will serve: what it prints, how it
/// exits, and the report it leaves, or `None` to leave none.
#[derive(Debug, Clone, PartialEq, Eq)]
pub struct AgentStep {
    pub stdout: String,
    pub code: i32,
    pub report: Option<String>,
}

/// The report that a clean attempt leaves.
pub open spec fn report_json(status: Seq<char>, summary: Seq<char>) -> json::JsonView {
    json::JsonView::Object(
        json::Members::empty().insert("status"@, json::JsonView::Str(status)).insert(
            "summary"@,
            json::JsonView::Str(summary),
        ),
    )
}

/// A clean attempt: the agent works, exits zero, and leaves this report.
pub fn reports(status: &str, summary: &str) -> (r: AgentStep)
    ensures
        r.stdout@ == "working\n"@,
        r.code == 0,
        r.report matches Some(report) && report@ == json::printed(report_json(status@, summary@)),
{
    let mut fields: Vec<(String, Json)> = Vec::new();
    wire::put(&mut fields, "status", wire::text_json(status));
    wire::put(&mut fields, "summary", wire::text_json(summary));
    let report = Json::Object(fields).to_text();
    AgentStep { stdout: "working\n".to_owned(), code: 0, report: Some(report) }
}

/// An attempt that leaves a report with a member nobody knows, so that the
/// kernel offers its one repair.
pub fn malformed() -> (r: AgentStep)
    ensures
        r.stdout@ == "working\n"@,
        r.code == 0,
        r.report matches Some(report) && report@
            == r#"{"status": "continue", "summary": "x", "mystery": 1}"#@,
{
    AgentStep {
        stdout: "working\n".to_owned(),
        code: 0,
        report: Some(r#"{"status": "continue", "summary": "x", "mystery": 1}"#.to_owned()),
    }
}

/// An attempt that crashes: non-zero exit, nothing to trust.
pub fn crashes() -> (r: AgentStep)
    ensures
        r.stdout@ == "boom\n"@,
        r.code == 1,
        r.report is None,
{
    AgentStep { stdout: "boom\n".to_owned(), code: 1, report: None }
}

/// A clean exit that leaves no report.
pub fn omits_report() -> (r: AgentStep)
    ensures
        r.stdout@ == "forgot to report\n"@,
        r.code == 0,
        r.report is None,
{
    AgentStep { stdout: "forgot to report\n".to_owned(), code: 0, report: None }
}

/// The text of the file that each piece of the agent's work leaves.
pub const WORK: &'static str = "work\n";

/// The file of a workspace that the agent's `n`th piece of work leaves.
pub open spec fn work_file(root: Seq<char>, n: u32) -> Seq<char> {
    workspace::below(root, "work-"@ + text::decimal(n as nat) + ".txt"@)
}

/// Where a path of the guest stands on the host: the workspace is mounted,
/// and a relative path is one below it.
pub open spec fn host_path(root: Seq<char>, guest: Seq<char>) -> Seq<char> {
    if text::begins(guest, workspace::below(GUEST_ROOT@, ""@)) {
        workspace::below(root, guest.skip(workspace::below(GUEST_ROOT@, ""@).len() as int))
    } else if text::begins(guest, "/"@) {
        guest
    } else {
        workspace::below(root, guest)
    }
}

/// A sandbox with an agent at work. Serves a queue of agent steps and a queue
/// of exit codes for verify checks; an exhausted queue of checks passes, so
/// only failures need scripting. Each agent exec drops a work file of its own
/// into the workspace, so that a checkpoint has something to commit, and lays
/// down the step's report. Checks are separate execs, told apart by their
/// argv.
pub struct StagedSandbox {
    pub workspace_root: String,
    pub agent_steps: Vec<AgentStep>,
    pub checks: Vec<i32>,
    pub agent_prompts: Vec<String>,
    /// Served ahead of the workspace.
    pub guest_files: Vec<(String, Vec<u8>)>,
    /// What stands on the host, by its path there.
    pub files: Vec<(String, Vec<u8>)>,
    /// What is left of the running exec's output.
    pub output: Transcript,
    pub created: u32,
    pub destroyed: u32,
    /// How many files the agent's work has left.
    pub work_files: u32,
}

impl StagedSandbox {
    pub fn new(
        workspace_root: String,
        agent_steps: Vec<AgentStep>,
        checks: Vec<i32>,
    ) -> (r: StagedSandbox)
        ensures
            r.workspace_root == workspace_root,
            r.agent_steps == agent_steps,
            r.checks == checks,
            r.agent_prompts@.len() == 0,
            files_view(r.guest_files@) == Map::<Seq<char>, Seq<u8>>::empty(),
            files_view(r.files@) == Map::<Seq<char>, Seq<u8>>::empty(),
            r.output@.len() == 0,
            r.created == 0,
            r.destroyed == 0,
            r.work_files == 0,
    {
        StagedSandbox {
            workspace_root,
            agent_steps,
            checks,
            agent_prompts: Vec::new(),
            guest_files: Vec::new(),
            files: Vec::new(),
            output: Vec::new(),
            created: 0,
            destroyed: 0,
            work_files: 0,
        }
    }

    /// Every prompt the agent was invoked with, in order.
    pub fn agent_prompts(&self) -> (r: &Vec<String>)
        ensures
            r == self.agent_prompts,
    {
        &self.agent_prompts
    }

    /// Plants a guest file served ahead of the workspace: how the guest's
    /// view comes to differ from the host's.
    pub fn seed_guest_file(&mut self, path: &str, contents: Vec<u8>)
        ensures
            files_view(final(self).guest_files@) == files_view(old(self).guest_files@).insert(
                path@,
                contents@,
            ),
            *final(self) == (StagedSandbox { guest_files: final(self).guest_files, ..*old(self) }),
    {
        put_file(&mut self.guest_files, path, contents);
    }

    pub fn created(&self) -> (r: u32)
        ensures
            r == self.created,
    {
        self.created
    }

    pub fn destroyed(&self) -> (r: u32)
        ensures
            r == self.destroyed,
    {
        self.destroyed
    }

    /// Where a file is looked for: what was seeded comes first.
    pub open spec fn file(&self, path: Seq<char>) -> Option<Seq<u8>> {
        if files_view(self.guest_files@).dom().contains(path) {
            Some(files_view(self.guest_files@)[path])
        } else if files_view(self.files@).dom().contains(host_path(self.workspace_root@, path)) {
            Some(files_view(self.files@)[host_path(self.workspace_root@, path)])
        } else {
            None
        }
    }

    /// Whether an exec is the agent's.
    pub open spec fn is_agent(spec: ExecSpec) -> bool {
        spec.argv@.len() > 0 && spec.argv@[0]@ == AGENT_BIN@
    }

    /// The files once the next piece of work is done.
    pub open spec fn worked(&self) -> Map<Seq<char>, Seq<u8>> {
        files_view(self.files@).insert(
            work_file(self.workspace_root@, self.work_files),
            encode_utf8(WORK@),
        )
    }

    /// Whether `r` is how an exec of the agent is answered, and `after` what
    /// it leaves.
    pub open spec fn works(&self, spec: ExecSpec, after: StagedSandbox, r: Reply) -> bool {
        if self.agent_steps@.len() == 0 {
            refuses(r, "an agent exec ran beyond its script"@) && after == *self
        } else {
            let step = self.agent_steps@[0];
            &&& r == Reply::Done
            &&& after.agent_steps@ == self.agent_steps@.skip(1)
            &&& text::texts(after.agent_prompts@) == text::texts(self.agent_prompts@).push(
                match fakes::prompt_in(text::texts(spec.argv@)) {
                    Some(prompt) => prompt,
                    None => Seq::empty(),
                },
            )
            &&& files_view(after.files@) == match step.report {
                Some(report) => self.worked().insert(
                    workspace::below(self.workspace_root@, REPORT_FILE@),
                    encode_utf8(report@),
                ),
                None => self.worked(),
            }
            &&& fakes::prints(after.output@, step.stdout@, step.code)
            &&& after.work_files == one_more(self.work_files)
            &&& after.workspace_root == self.workspace_root
            &&& after.checks == self.checks
            &&& after.guest_files == self.guest_files
            &&& after.created == self.created
            &&& after.destroyed == self.destroyed
        }
    }

    /// Whether `r` is how a check is answered, and `after` what it leaves.
    pub open spec fn checks_out(&self, after: StagedSandbox, r: Reply) -> bool {
        let code = if self.checks@.len() > 0 {
            self.checks@[0]
        } else {
            0i32
        };
        &&& r == Reply::Done
        &&& after.checks@ == (if self.checks@.len() > 0 {
            self.checks@.skip(1)
        } else {
            self.checks@
        })
        &&& fakes::prints(
            after.output@,
            if code == 0 {
                "ok\n"@
            } else {
                "assertion failed: boom\n"@
            },
            code,
        )
        &&& after == (StagedSandbox { checks: after.checks, output: after.output, ..*self })
    }

    /// Whether `r` is how an effect is answered, and `after` what it leaves.
    pub open spec fn serves(&self, effect: Effect, after: StagedSandbox, r: Reply) -> bool {
        match effect {
            Effect::Boot { .. } => r == Reply::Done && after == (StagedSandbox {
                created: one_more(self.created),
                ..*self
            }),
            Effect::Destroy => r == Reply::Done && after == (StagedSandbox {
                destroyed: one_more(self.destroyed),
                ..*self
            }),
            Effect::RemoveFile(path) => r == Reply::Done && files_view(after.files@) == files_view(
                self.files@,
            ).remove(host_path(self.workspace_root@, path@)) && after == (StagedSandbox { files: after.files, ..*self }),
            Effect::ReadFile(path) => after == *self && match self.file(path@) {
                Some(bytes) => r matches Reply::File(contents) && contents@ == bytes,
                None => refuses(
                    r,
                    "no such file "@ + path@ + ": No such file or directory (os error 2)"@,
                ),
            },
            Effect::Exec(spec) => if StagedSandbox::is_agent(spec) {
                self.works(spec, after, r)
            } else {
                self.checks_out(after, r)
            },
            Effect::NextOutput => plays_on(self.output@, after.output@, r) && after == (
            StagedSandbox { output: after.output, ..*self }),
            _ => refuses(r, "no business of a sandbox"@) && after == *self,
        }
    }

    /// [`host_path`], computed.
    fn on_host(&self, guest: &str) -> (s: String)
        ensures
            s@ == host_path(self.workspace_root@, guest@),
    {
        let mount = workspace::join(GUEST_ROOT, "");
        match text::strip_prefix(guest, mount.as_str()) {
            Some(rest) => workspace::join(self.workspace_root.as_str(), rest.as_str()),
            None => match text::strip_prefix(guest, "/") {
                Some(_) => guest.to_owned(),
                None => workspace::join(self.workspace_root.as_str(), guest),
            },
        }
    }

    /// Serves one agent exec: records its prompt, drops a work file, and lays down the report. A previous report is left untouched where the
    /// agent omits one: freshness is not the sandbox's affair.
    fn run_agent(&mut self, spec: &ExecSpec) -> (r: Reply)
        ensures
            old(self).works(*spec, *final(self), r),
    {
        if self.agent_steps.len() == 0 {
            return refused("an agent exec ran beyond its script");
        }
        let step = self.agent_steps.remove(0);
        assert(self.agent_steps@ =~= old(self).agent_steps@.skip(1));
        let prompt = match fakes::prompt_from(&spec.argv) {
            Some(prompt) => prompt.to_owned(),
            None => {
                let none: String = String::new();
                assert(none@ =~= Seq::empty());
                none
            },
        };
        let ghost asked = prompt@;
        self.agent_prompts.push(prompt);
        assert(text::texts(self.agent_prompts@) =~= text::texts(old(self).agent_prompts@).push(
            asked,
        ));
        let mut name = "work-".to_owned();
        let number = text::decimal_of(self.work_files as u64);
        name.append(number.as_str());
        name.append(".txt");
        let left = workspace::join(self.workspace_root.as_str(), name.as_str());
        put_file(&mut self.files, left.as_str(), bytes_of(WORK));
        self.work_files = count_up(self.work_files);
        if let Some(report) = &step.report {
            let path = workspace::join(self.workspace_root.as_str(), REPORT_FILE);
            put_file(&mut self.files, path.as_str(), bytes_of(report.as_str()));
        }
        self.output = exec(step.stdout.as_str(), step.code);
        Reply::Done
    }

    /// Serves one check: its scripted exit code, or a pass where there is
    /// none.
    fn run_check(&mut self) -> (r: Reply)
        ensures
            old(self).checks_out(*final(self), r),
    {
        let code: i32 = if self.checks.len() > 0 {
            self.checks.remove(0)
        } else {
            0
        };
        proof {
            if old(self).checks@.len() > 0 {
                assert(self.checks@ =~= old(self).checks@.skip(1));
            }
        }
        let line = if code == 0 {
            "ok\n"
        } else {
            "assertion failed: boom\n"
        };
        self.output = exec(line, code);
        Reply::Done
    }

    /// Answers an effect.
    pub fn serve(&mut self, effect: Effect) -> (r: Reply)
        ensures
            old(self).serves(effect, *final(self), r),
    {
        match effect {
            Effect::Boot { .. } => {
                self.created = count_up(self.created);
                Reply::Done
            },
            Effect::Destroy => {
                self.destroyed = count_up(self.destroyed);
                Reply::Done
            },
            Effect::RemoveFile(path) => {
                let path = self.on_host(path.as_str());
                drop_file(&mut self.files, path.as_str());
                Reply::Done
            },
            Effect::ReadFile(path) => {
                let found = match find_file(&self.guest_files, path.as_str()) {
                    Some(contents) => Some(contents),
                    None => {
                        let there = self.on_host(path.as_str());
                        find_file(&self.files, there.as_str())
                    },
                };
                match found {
                    Some(contents) => Reply::File(contents),
                    None => {
                        let mut s = "no such file ".to_owned();
                        s.append(path.as_str());
                        s.append(": No such file or directory (os error 2)");
                        refused(s.as_str())
                    },
                }
            },
            Effect::Exec(spec) => {
                let agent = spec.argv.len() > 0 && text::same(spec.argv[0].as_str(), AGENT_BIN);
                if agent {
                    self.run_agent(&spec)
                } else {
                    self.run_check()
                }
            },
            Effect::NextOutput => play(&mut self.output),
            _ => refused("no business of a sandbox"),
        }
    }
}

} // verus!
