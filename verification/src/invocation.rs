//! One agent invocation: the engine mechanism every kernel drives its agent
//! through. The agent runs in a sandbox, its output streams into the event
//! log, its token usage is accounted, and the report it left is fetched back
//! and read against the kernel's [`ReportContract`].
//!
//! What shape a report takes is kernel policy; the loop that enforces it
//! (strict parse, exactly one repair re-prompt, every rejection logged) lives
//! here, so every kernel's agent boundary behaves identically.

use crate::agent::AgentAdapter;
use crate::event::{self, OutputStream, RunEvent};
use crate::kernel::{self, Effect, KernelContext, KernelError, Reply, Turn};
use crate::sandbox::{self, ExecEvent, ExitStatus};
use crate::scrub::{self, StreamScrubber};
use crate::secrets::SecretEnv;
use crate::text;
use crate::utf8::{self, StreamDecoder};
use crate::workspace::{self, WorkspaceError, REPORT_FILE};
use vstd::prelude::*;

verus! {

/// The kernel-supplied half of the report boundary: one report shape, its
/// schema and its strict parse. The repair loop is generic over this, so
/// dialect types stay with the kernel that owns them while the engine owns
/// the loop.
pub trait ReportContract: Sized {
    /// What a report parses into: a kernel dialect type.
    type Report;

    /// The report's schema.
    spec fn shape(&self) -> Seq<char>;

    /// Whether `r` is what the report text `text` parses to.
    spec fn reads(&self, text: Seq<char>, r: Result<Self::Report, String>) -> bool;

    /// The report's JSON Schema, quoted verbatim in the repair re-prompt so
    /// the agent corrects itself against the published contract.
    fn schema(&self) -> (s: &str)
        ensures
            s@ == self.shape(),
    ;

    /// Strict-parses the report text against the shape. The error is the
    /// human-readable rejection the repair re-prompt carries back.
    fn parse(&self, text: &str) -> (r: Result<Self::Report, String>)
        ensures
            self.reads(text@, r),
    ;
}

/// One output stream's path from raw bytes to loggable text. Chunks arrive
/// at arbitrary byte boundaries, and both things a boundary can bisect settle
/// here before anything is emitted: a codepoint split mid-sequence
/// reassembles, then a secret value split mid-token redacts whole.
pub struct ScrubbedStream {
    decoder: StreamDecoder,
    scrubber: StreamScrubber,
}

/// The text that a stream holding `bytes` decodes from a chunk.
pub open spec fn decoded(bytes: Seq<u8>, chunk: Seq<u8>) -> Seq<char> {
    utf8::text_of((bytes + chunk).take(utf8::cut(bytes, chunk)))
}

/// Where a stream that holds the text `words` cuts it after `more`.
pub open spec fn safe_end(patterns: Seq<Seq<char>>, words: Seq<char>, more: Seq<char>) -> int {
    scrub::safe_cut(patterns, words + more, (words + more).len() as int)
}

impl ScrubbedStream {
    /// The bytes of a codepoint that has not arrived whole.
    pub closed spec fn bytes(&self) -> Seq<u8> {
        self.decoder@
    }

    /// The text held back because a value might begin in it.
    pub closed spec fn words(&self) -> Seq<char> {
        self.scrubber.held()
    }

    /// The values that are scrubbed.
    pub closed spec fn patterns(&self) -> Seq<Seq<char>> {
        self.scrubber.patterns()
    }

    /// What of a chunk is safe to emit.
    pub open spec fn says(&self, chunk: Seq<u8>) -> Seq<char> {
        let more = decoded(self.bytes(), chunk);
        scrub::scrubbed(
            self.patterns(),
            (self.words() + more).take(safe_end(self.patterns(), self.words(), more)),
        )
    }

    /// Whether `after` is this stream with a chunk taken in.
    pub open spec fn takes(&self, chunk: Seq<u8>, after: ScrubbedStream) -> bool {
        let more = decoded(self.bytes(), chunk);
        &&& after.patterns() == self.patterns()
        &&& after.bytes() == (self.bytes() + chunk).skip(utf8::cut(self.bytes(), chunk))
        &&& after.words() == (self.words() + more).skip(
            safe_end(self.patterns(), self.words(), more),
        )
    }

    /// What is left to emit when the stream is over.
    pub open spec fn tail(&self) -> Seq<char> {
        let more = utf8::text_of(self.bytes());
        let at = safe_end(self.patterns(), self.words(), more);
        scrub::scrubbed(self.patterns(), (self.words() + more).take(at)) + scrub::scrubbed(
            self.patterns(),
            (self.words() + more).skip(at),
        )
    }

    /// Whether nothing has been taken in yet.
    pub open spec fn fresh(&self, patterns: Seq<Seq<char>>) -> bool {
        &&& self.bytes() == Seq::<u8>::empty()
        &&& self.words() == Seq::<char>::empty()
        &&& self.patterns() == patterns
    }

    pub fn new(secrets: &SecretEnv) -> (r: ScrubbedStream)
        ensures
            r.fresh(secrets.patterns()),
    {
        ScrubbedStream { decoder: StreamDecoder::default(), scrubber: secrets.stream_scrubber() }
    }

    /// What of this chunk is safe to emit: possibly nothing while a split
    /// codepoint or a would-be value sits on the boundary.
    pub fn push(&mut self, bytes: Vec<u8>) -> (said: String)
        ensures
            said@ == old(self).says(bytes@),
            old(self).takes(bytes@, *final(self)),
    {
        let decoded = self.decoder.push(bytes);
        self.scrubber.push(decoded)
    }

    /// The stream is over: both held tails settle, the decoder's through the
    /// scrubber.
    pub fn finish(self) -> (said: String)
        ensures
            said@ == self.tail(),
    {
        let mut scrubber = self.scrubber;
        let decoded = self.decoder.finish();
        let mut tail = scrubber.push(decoded);
        let rest = scrubber.finish();
        tail.append(rest.as_str());
        tail
    }
}

/// Everything that a stream emits of the chunks that follow and of its end.
pub open spec fn logged(
    patterns: Seq<Seq<char>>,
    bytes: Seq<u8>,
    words: Seq<char>,
    chunks: Seq<Seq<u8>>,
) -> Seq<char>
    decreases chunks.len(),
{
    if chunks.len() == 0 {
        let more = utf8::text_of(bytes);
        let at = safe_end(patterns, words, more);
        scrub::scrubbed(patterns, (words + more).take(at)) + scrub::scrubbed(
            patterns,
            (words + more).skip(at),
        )
    } else {
        let more = decoded(bytes, chunks[0]);
        let at = safe_end(patterns, words, more);
        scrub::scrubbed(patterns, (words + more).take(at)) + logged(
            patterns,
            (bytes + chunks[0]).skip(utf8::cut(bytes, chunks[0])),
            (words + more).skip(at),
            chunks.skip(1),
        )
    }
}

/// The pieces of text that a stream's decoder hands to its scrubber.
spec fn pieces(bytes: Seq<u8>, chunks: Seq<Seq<u8>>) -> Seq<Seq<char>>
    decreases chunks.len(),
{
    if chunks.len() == 0 {
        seq![utf8::text_of(bytes)]
    } else {
        seq![decoded(bytes, chunks[0])] + pieces(
            (bytes + chunks[0]).skip(utf8::cut(bytes, chunks[0])),
            chunks.skip(1),
        )
    }
}

/// However the output of an agent is cut into chunks, the log says exactly
/// what scrubbing the whole decoded output would say, as long as no value
/// can run into a redaction mark.
pub proof fn output_is_logged_as_if_whole(patterns: Seq<Seq<char>>, chunks: Seq<Seq<u8>>)
    requires
        scrub::all_keep_clear(patterns),
    ensures
        logged(patterns, Seq::empty(), Seq::empty(), chunks) == scrub::scrubbed(
            patterns,
            utf8::text_of(utf8::flat(chunks)),
        ),
{
    lemma_logged(patterns, Seq::empty(), Seq::empty(), chunks);
    lemma_pieces(Seq::empty(), chunks);
    scrub::a_split_value_is_redacted_whole(patterns, pieces(Seq::empty(), chunks));
    utf8::chunking_does_not_show(chunks);
}

proof fn lemma_logged(
    patterns: Seq<Seq<char>>,
    bytes: Seq<u8>,
    words: Seq<char>,
    chunks: Seq<Seq<u8>>,
)
    ensures
        logged(patterns, bytes, words, chunks) == scrub::streamed(
            patterns,
            words,
            pieces(bytes, chunks),
        ),
    decreases chunks.len(),
{
    let all = pieces(bytes, chunks);
    let more = all[0];
    let at = safe_end(patterns, words, more);
    if chunks.len() == 0 {
        assert(all.skip(1) =~= Seq::empty());
        assert(scrub::streamed(patterns, (words + more).skip(at), all.skip(1)) == scrub::scrubbed(
            patterns,
            (words + more).skip(at),
        ));
    } else {
        let rest = (bytes + chunks[0]).skip(utf8::cut(bytes, chunks[0]));
        assert(all.skip(1) =~= pieces(rest, chunks.skip(1)));
        lemma_logged(patterns, rest, (words + more).skip(at), chunks.skip(1));
    }
}

proof fn lemma_pieces(bytes: Seq<u8>, chunks: Seq<Seq<u8>>)
    ensures
        scrub::whole(pieces(bytes, chunks)) == utf8::streamed(bytes, chunks),
    decreases chunks.len(),
{
    let all = pieces(bytes, chunks);
    if chunks.len() == 0 {
        assert(all.skip(1) =~= Seq::empty());
        assert(all[0] + scrub::whole(all.skip(1)) =~= all[0]);
    } else {
        let rest = (bytes + chunks[0]).skip(utf8::cut(bytes, chunks[0]));
        assert(all.skip(1) =~= pieces(rest, chunks.skip(1)));
        lemma_pieces(rest, chunks.skip(1));
    }
}

/// What one agent invocation left behind.
#[derive(Debug, PartialEq, Eq)]
pub enum InvocationEnd {
    /// The agent exited non-zero or was killed; nothing it left can be
    /// trusted, the report included.
    Crashed,
    /// The agent exited cleanly but its report cannot be read; the message
    /// is what a repair re-prompt carries back.
    MissingReport(String),
    /// The raw report, exactly as the agent wrote it.
    Reported(Vec<u8>),
}

/// What has been heard of a running agent.
pub struct Capture {
    /// Raw standard output, decoded whole once the stream ends: the usage
    /// parse must not read a codepoint that a chunk boundary split.
    pub stdout: Vec<u8>,
    pub out: ScrubbedStream,
    pub err: ScrubbedStream,
    pub exit: Option<ExitStatus>,
}

impl Capture {
    /// Whether nothing has been heard yet.
    pub open spec fn fresh(&self, patterns: Seq<Seq<char>>) -> bool {
        &&& self.stdout@ == Seq::<u8>::empty()
        &&& self.out.fresh(patterns)
        &&& self.err.fresh(patterns)
        &&& self.exit is None
    }

    /// The text that a chunk of output lets out.
    pub open spec fn says(&self, stream: OutputStream, chunk: Seq<u8>) -> Seq<char> {
        match stream {
            OutputStream::Stdout => self.out.says(chunk),
            OutputStream::Stderr => self.err.says(chunk),
        }
    }

    /// Whether `after` is this capture with a chunk of output taken in.
    pub open spec fn takes(&self, stream: OutputStream, chunk: Seq<u8>, after: Capture) -> bool {
        &&& after.exit == self.exit
        &&& match stream {
            OutputStream::Stdout => {
                &&& after.stdout@ == self.stdout@ + chunk
                &&& self.out.takes(chunk, after.out)
                &&& after.err == self.err
            },
            OutputStream::Stderr => {
                &&& after.stdout == self.stdout
                &&& after.out == self.out
                &&& self.err.takes(chunk, after.err)
            },
        }
    }

    /// The events that close the invocation: what the two streams held back,
    /// where they held anything, then the agent's bill, where it has one.
    pub open spec fn closing(&self, ctx: KernelContext, iteration: u32) -> Seq<event::EventView> {
        last_output(iteration, OutputStream::Stdout, self.out.tail()) + last_output(
            iteration,
            OutputStream::Stderr,
            self.err.tail(),
        ) + match ctx.agent.bill(utf8::text_of(self.stdout@)) {
            Some(usage) => seq![event::EventView::TokensUsed { iteration, usage }],
            None => Seq::empty(),
        }
    }
}

/// The event for a stream's held tail; none where nothing is held.
pub open spec fn last_output(iteration: u32, stream: OutputStream, tail: Seq<char>) -> Seq<
    event::EventView,
> {
    if tail.len() == 0 {
        Seq::empty()
    } else {
        seq![event::EventView::AgentOutput { iteration, stream, chunk: tail }]
    }
}

/// Where one invocation of the agent stands.
pub enum InvocationPhase {
    /// The report of an earlier invocation is being removed.
    Clearing { prompt: String },
    /// The agent is being started.
    Starting,
    /// The agent runs.
    Streaming(Capture),
    /// A chunk of output is being logged.
    Logging(Capture),
    /// The agent has ended; these events are still to be logged.
    Settling { queue: Vec<RunEvent>, clean: bool },
    /// The report is being fetched.
    Fetching,
}

/// One run of the agent in a sandbox: every output chunk and the token usage
/// logged as events, and the report it wrote fetched back through the
/// sandbox. One exec, no enforcement.
pub struct Invocation {
    pub iteration: u32,
    pub phase: InvocationPhase,
}

/// Whether an effect runs the agent on `prompt`.
pub open spec fn runs_agent(ctx: KernelContext, prompt: Seq<char>, effect: Effect) -> bool {
    effect matches Effect::Exec(spec) && text::texts(spec.argv@) == ctx.agent.command(prompt)
        && spec.cwd is None
}

/// Where the report lies inside the sandbox.
pub open spec fn report_path() -> Seq<char> {
    workspace::below(workspace::GUEST_ROOT@, REPORT_FILE@)
}

/// Begins an invocation. The report path survives sandbox lifetimes with the
/// workspace, so it is cleared before every exec: a successful agent that
/// forgets to report cannot inherit another invocation's valid bytes.
pub fn invoke(ctx: &KernelContext, iteration: u32, prompt: String) -> (r: (Invocation, Effect))
    ensures
        r.0 == (Invocation { iteration, phase: InvocationPhase::Clearing { prompt } }),
        r.1 matches Effect::RemoveFile(path) && path@ == report_path(),
{
    (
        Invocation { iteration, phase: InvocationPhase::Clearing { prompt } },
        Effect::RemoveFile(ctx.workspace.guest_report_path()),
    )
}

impl Invocation {
    /// Whether `turn` is where the invocation stands after hearing a chunk:
    /// what the chunk lets out is logged before more is heard.
    pub open spec fn hears(
        self,
        heard: Capture,
        stream: OutputStream,
        chunk: Seq<u8>,
        turn: Turn<Invocation, Result<InvocationEnd, KernelError>>,
    ) -> bool {
        &&& turn matches Turn::Act(next, effect)
        &&& next.iteration == self.iteration
        &&& if heard.says(stream, chunk).len() == 0 {
            &&& effect is NextOutput
            &&& next.phase matches InvocationPhase::Streaming(after)
            &&& heard.takes(stream, chunk, after)
        } else {
            &&& kernel::emits(
                effect,
                event::EventView::AgentOutput {
                    iteration: self.iteration,
                    stream,
                    chunk: heard.says(stream, chunk),
                },
            )
            &&& next.phase matches InvocationPhase::Logging(after)
            &&& heard.takes(stream, chunk, after)
        }
    }

    /// Whether `turn` is where the invocation stands once the agent has
    /// ended and `queue` is still to be logged: the queue goes first, then a
    /// bad exit ends it and a clean one fetches the report.
    pub open spec fn settles(
        self,
        queue: Seq<RunEvent>,
        clean: bool,
        turn: Turn<Invocation, Result<InvocationEnd, KernelError>>,
    ) -> bool {
        if queue.len() > 0 {
            &&& turn matches Turn::Act(next, effect)
            &&& effect == Effect::Emit(queue[0])
            &&& next.iteration == self.iteration
            &&& next.phase matches InvocationPhase::Settling { queue: rest, clean: still }
            &&& rest@ == queue.skip(1)
            &&& still == clean
        } else if !clean {
            turn == Turn::<Invocation, Result<InvocationEnd, KernelError>>::End(
                Ok(InvocationEnd::Crashed),
            )
        } else {
            &&& turn matches Turn::Act(next, effect)
            &&& next == (Invocation { phase: InvocationPhase::Fetching, ..self })
            &&& effect matches Effect::ReadFile(path)
            &&& path@ == report_path()
        }
    }

    /// Whether `turn` is where the invocation stands after `reply`.
    pub open spec fn steps(
        self,
        ctx: KernelContext,
        reply: Reply,
        turn: Turn<Invocation, Result<InvocationEnd, KernelError>>,
    ) -> bool {
        if self.phase is Fetching {
            match reply {
                Reply::File(raw) => turn == Turn::<
                    Invocation,
                    Result<InvocationEnd, KernelError>,
                >::End(Ok(InvocationEnd::Reported(raw))),
                Reply::Failed(error) => turn matches Turn::End(
                    Ok(InvocationEnd::MissingReport(message)),
                ) && message@ == "report missing: "@ + error.message(),
                _ => turn matches Turn::End(Err(KernelError::OutOfStep)),
            }
        } else if reply is Failed {
            turn == Turn::<Invocation, Result<InvocationEnd, KernelError>>::End(
                Err(reply->Failed_0),
            )
        } else {
            match self.phase {
                InvocationPhase::Clearing { prompt } => {
                    &&& turn matches Turn::Act(next, effect)
                    &&& next == (Invocation { phase: InvocationPhase::Starting, ..self })
                    &&& runs_agent(ctx, prompt@, effect)
                },
                InvocationPhase::Starting => {
                    &&& turn matches Turn::Act(next, effect)
                    &&& effect is NextOutput
                    &&& next.iteration == self.iteration
                    &&& next.phase matches InvocationPhase::Streaming(heard)
                    &&& heard.fresh(ctx.secrets.patterns())
                },
                InvocationPhase::Streaming(heard) => match reply {
                    Reply::Output(ExecEvent::Stdout(bytes)) => self.hears(
                        heard,
                        OutputStream::Stdout,
                        bytes@,
                        turn,
                    ),
                    Reply::Output(ExecEvent::Stderr(bytes)) => self.hears(
                        heard,
                        OutputStream::Stderr,
                        bytes@,
                        turn,
                    ),
                    Reply::Output(ExecEvent::Exited(status)) => {
                        &&& turn matches Turn::Act(next, effect)
                        &&& effect is NextOutput
                        &&& next == (Invocation {
                            phase: InvocationPhase::Streaming(
                                Capture { exit: Some(status), ..heard },
                            ),
                            ..self
                        })
                    },
                    Reply::OutputEnd => exists|queue: Seq<RunEvent>|
                        event::event_views(queue) == heard.closing(ctx, self.iteration)
                            && #[trigger] self.settles(
                            queue,
                            sandbox::clean_exit(heard.exit),
                            turn,
                        ),
                    _ => turn matches Turn::End(Err(KernelError::OutOfStep)),
                },
                InvocationPhase::Logging(heard) => {
                    &&& turn matches Turn::Act(next, effect)
                    &&& effect is NextOutput
                    &&& next == (Invocation { phase: InvocationPhase::Streaming(heard), ..self })
                },
                InvocationPhase::Settling { queue, clean } => self.settles(queue@, clean, turn),
                InvocationPhase::Fetching => false,
            }
        }
    }

    /// The turn after a chunk has been taken in.
    fn heard(iteration: u32, stream: OutputStream, capture: Capture, said: String) -> (turn: Turn<
        Invocation,
        Result<InvocationEnd, KernelError>,
    >)
        ensures
            turn matches Turn::Act(next, effect) && next.iteration == iteration && if said@.len()
                == 0 {
                next.phase == InvocationPhase::Streaming(capture) && effect is NextOutput
            } else {
                next.phase == InvocationPhase::Logging(capture) && kernel::emits(
                    effect,
                    event::EventView::AgentOutput { iteration, stream, chunk: said@ },
                )
            },
    {
        if said.as_str().is_empty() {
            Turn::Act(
                Invocation { iteration, phase: InvocationPhase::Streaming(capture) },
                Effect::NextOutput,
            )
        } else {
            Turn::Act(
                Invocation { iteration, phase: InvocationPhase::Logging(capture) },
                Effect::Emit(RunEvent::AgentOutput { iteration, stream, chunk: said }),
            )
        }
    }

    /// The turn with `queue` still to be logged.
    fn settle(ctx: &KernelContext, iteration: u32, queue: Vec<RunEvent>, clean: bool) -> (turn: Turn<
        Invocation,
        Result<InvocationEnd, KernelError>,
    >)
        ensures
            forall|before: Invocation|
                before.iteration == iteration ==> #[trigger] before.settles(queue@, clean, turn),
    {
        let mut queue = queue;
        if queue.len() > 0 {
            let ghost all = queue@;
            let first = queue.remove(0);
            assert(queue@ =~= all.skip(1));
            Turn::Act(
                Invocation { iteration, phase: InvocationPhase::Settling { queue, clean } },
                Effect::Emit(first),
            )
        } else if !clean {
            Turn::End(Ok(InvocationEnd::Crashed))
        } else {
            Turn::Act(
                Invocation { iteration, phase: InvocationPhase::Fetching },
                Effect::ReadFile(ctx.workspace.guest_report_path()),
            )
        }
    }

    /// The events that close an invocation.
    fn close(ctx: &KernelContext, iteration: u32, heard: Capture) -> (queue: Vec<RunEvent>)
        ensures
            event::event_views(queue@) == heard.closing(*ctx, iteration),
    {
        let mut queue: Vec<RunEvent> = Vec::new();
        let out_tail = heard.out.finish();
        let err_tail = heard.err.finish();
        push_output(&mut queue, iteration, OutputStream::Stdout, out_tail);
        push_output(&mut queue, iteration, OutputStream::Stderr, err_tail);
        let ghost spoken = event::event_views(queue@);
        let stdout = utf8::into_text(heard.stdout);
        if let Some(usage) = ctx.agent.token_usage(stdout.as_str()) {
            queue.push(RunEvent::TokensUsed { iteration, usage });
            assert(event::event_views(queue@) =~= spoken + seq![
                event::EventView::TokensUsed { iteration, usage },
            ]);
        }
        assert(event::event_views(queue@) =~= heard.closing(*ctx, iteration));
        queue
    }

    /// Takes the invocation one reply further.
    pub fn step(self, ctx: &KernelContext, reply: Reply) -> (turn: Turn<
        Invocation,
        Result<InvocationEnd, KernelError>,
    >)
        ensures
            self.steps(*ctx, reply, turn),
    {
        let iteration: u32 = self.iteration;
        let ghost before = self;
        match (self.phase, reply) {
            (InvocationPhase::Fetching, Reply::File(raw)) => Turn::End(
                Ok(InvocationEnd::Reported(raw)),
            ),
            (InvocationPhase::Fetching, Reply::Failed(error)) => {
                let mut message = "report missing: ".to_owned();
                let detail = error.to_text();
                message.append(detail.as_str());
                Turn::End(Ok(InvocationEnd::MissingReport(message)))
            },
            (InvocationPhase::Fetching, _) => Turn::End(Err(KernelError::OutOfStep)),
            (_, Reply::Failed(error)) => Turn::End(Err(error)),
            (InvocationPhase::Clearing { prompt }, _) => Turn::Act(
                Invocation { iteration, phase: InvocationPhase::Starting },
                Effect::Exec(ctx.agent.invocation(prompt.as_str())),
            ),
            (InvocationPhase::Starting, _) => {
                let heard = Capture {
                    stdout: Vec::new(),
                    out: ScrubbedStream::new(&ctx.secrets),
                    err: ScrubbedStream::new(&ctx.secrets),
                    exit: None,
                };
                Turn::Act(
                    Invocation { iteration, phase: InvocationPhase::Streaming(heard) },
                    Effect::NextOutput,
                )
            },
            (InvocationPhase::Streaming(heard), Reply::Output(ExecEvent::Stdout(bytes))) => {
                let mut heard = heard;
                let mut copy = workspace::copied_bytes(&bytes);
                heard.stdout.append(&mut copy);
                let said = heard.out.push(bytes);
                Invocation::heard(iteration, OutputStream::Stdout, heard, said)
            },
            (InvocationPhase::Streaming(heard), Reply::Output(ExecEvent::Stderr(bytes))) => {
                let mut heard = heard;
                let said = heard.err.push(bytes);
                Invocation::heard(iteration, OutputStream::Stderr, heard, said)
            },
            (InvocationPhase::Streaming(heard), Reply::Output(ExecEvent::Exited(status))) => {
                let mut heard = heard;
                heard.exit = Some(status);
                Turn::Act(
                    Invocation { iteration, phase: InvocationPhase::Streaming(heard) },
                    Effect::NextOutput,
                )
            },
            (InvocationPhase::Streaming(heard), Reply::OutputEnd) => {
                let clean: bool = sandbox::exited_cleanly(&heard.exit);
                let queue = Invocation::close(ctx, iteration, heard);
                let ghost events = queue@;
                let turn = Invocation::settle(ctx, iteration, queue, clean);
                assert(before.settles(events, clean, turn));
                turn
            },
            (InvocationPhase::Streaming(_), _) => Turn::End(Err(KernelError::OutOfStep)),
            (InvocationPhase::Logging(heard), _) => Turn::Act(
                Invocation { iteration, phase: InvocationPhase::Streaming(heard) },
                Effect::NextOutput,
            ),
            (InvocationPhase::Settling { queue, clean }, _) => {
                let ghost events = queue@;
                let turn = Invocation::settle(ctx, iteration, queue, clean);
                assert(before.settles(events, clean, turn));
                turn
            },
        }
    }
}

/// Queues the event for a stream's held tail, where anything is held.
fn push_output(queue: &mut Vec<RunEvent>, iteration: u32, stream: OutputStream, tail: String)
    ensures
        event::event_views(final(queue)@) == event::event_views(old(queue)@) + last_output(
            iteration,
            stream,
            tail@,
        ),
{
    let ghost before = event::event_views(queue@);
    if !tail.as_str().is_empty() {
        let ghost view = event::EventView::AgentOutput { iteration, stream, chunk: tail@ };
        queue.push(RunEvent::AgentOutput { iteration, stream, chunk: tail });
        assert(event::event_views(queue@) =~= before + seq![view]);
    } else {
        assert(event::event_views(queue@) =~= before + Seq::empty());
    }
}

/// The lines for a list of rejections.
pub open spec fn error_lines(errors: Seq<Seq<char>>) -> Seq<char>
    decreases errors.len(),
{
    if errors.len() == 0 {
        Seq::empty()
    } else {
        error_lines(errors.drop_last()) + "- "@ + errors.last() + "\n"@
    }
}

/// The repair re-prompt. Deliberately bare: the work already done stays done;
/// only the report needs writing, so this carries the validation errors and
/// the report contract, the fixed scratch path and the shape the kernel
/// demands, and nothing else.
pub open spec fn repair_text(errors: Seq<Seq<char>>, shape: Seq<char>) -> Seq<char> {
    "# hako report repair\n\nThe report you wrote was rejected:\n\n"@ + error_lines(errors)
        + "\nWrite a corrected `"@ + REPORT_FILE@
        + "` in the workspace and do nothing else:\n\n```json\n"@ + shape + "\n```\n"@
}

/// [`error_lines`], computed.
pub fn listed_errors(errors: &Vec<String>) -> (lines: String)
    ensures
        lines@ == error_lines(text::texts(errors@)),
{
    let ghost all = text::texts(errors@);
    let mut lines: String = String::new();
    assert(all.take(0) =~= Seq::empty());
    assert(lines@ =~= error_lines(all.take(0)));
    for i in 0..errors.len()
        invariant
            all == text::texts(errors@),
            lines@ == error_lines(all.take(i as int)),
    {
        assert(all.take(i + 1).drop_last() =~= all.take(i as int));
        lines.append("- ");
        lines.append(errors[i].as_str());
        lines.append("\n");
    }
    assert(all.take(errors@.len() as int) =~= all);
    lines
}

/// [`repair_text`], computed.
pub fn repair(errors: &Vec<String>, shape: &str) -> (s: String)
    ensures
        s@ == repair_text(text::texts(errors@), shape@),
{
    let lines = listed_errors(errors);
    let mut s: String =
        "# hako report repair\n\nThe report you wrote was rejected:\n\n".to_owned();
    s.append(lines.as_str());
    s.append("\nWrite a corrected `");
    s.append(REPORT_FILE);
    s.append("` in the workspace and do nothing else:\n\n```json\n");
    s.append(shape);
    s.append("\n```\n");
    s
}

/// The outcome of reading one invocation's report against the contract.
pub enum Parsed<R> {
    Report(R),
    /// The agent exited badly: nothing it left can be trusted, so no repair
    /// is offered.
    Crashed,
    /// The report is missing or malformed; the errors feed the repair
    /// re-prompt.
    Rejected(Vec<String>),
}

/// Whether `parsed` is what an invocation's end comes to under a contract.
pub open spec fn reads_as<C: ReportContract>(
    contract: C,
    end: InvocationEnd,
    parsed: Parsed<C::Report>,
) -> bool {
    match end {
        InvocationEnd::Crashed => parsed is Crashed,
        InvocationEnd::MissingReport(message) => parsed matches Parsed::Rejected(errors)
            && text::texts(errors@) == seq![message@],
        InvocationEnd::Reported(raw) => if !vstd::utf8::valid_utf8(raw@) {
            parsed matches Parsed::Rejected(errors) && text::texts(errors@)
                == seq!["report is not UTF-8: "@ + utf8::utf8_fault(raw@)]
        } else {
            let words = vstd::utf8::decode_utf8(raw@);
            match parsed {
                Parsed::Report(report) => contract.reads(words, Ok(report)),
                Parsed::Crashed => false,
                Parsed::Rejected(errors) => errors@.len() == 1 && contract.reads(
                    words,
                    Err(errors@[0]),
                ),
            }
        },
    }
}

/// Reads what an invocation left against the contract.
pub fn parse<C: ReportContract>(contract: &C, end: InvocationEnd) -> (parsed: Parsed<C::Report>)
    ensures
        reads_as(*contract, end, parsed),
{
    match end {
        InvocationEnd::Crashed => Parsed::Crashed,
        InvocationEnd::MissingReport(message) => {
            let errors = vec![message];
            assert(text::texts(errors@) =~= seq![message@]);
            Parsed::Rejected(errors)
        },
        InvocationEnd::Reported(raw) => match utf8::read_utf8(raw.as_slice()) {
            Err(fault) => {
                let mut error = "report is not UTF-8: ".to_owned();
                error.append(fault.as_str());
                let errors = vec![error];
                assert(text::texts(errors@) =~= seq![error@]);
                Parsed::Rejected(errors)
            },
            Ok(words) => match contract.parse(words.as_str()) {
                Ok(report) => Parsed::Report(report),
                Err(error) => Parsed::Rejected(vec![error]),
            },
        },
    }
}

/// Where the way to a report stands.
pub enum DrivePhase {
    /// The agent works.
    First(Invocation),
    /// Its report was rejected; the rejection is being logged.
    Repairing { prompt: String },
    /// The agent has its one second chance.
    Second(Invocation),
    /// The second report was rejected too; that is being logged.
    GivingUp,
}

/// The way of an agent to a parsed report, spending the one repair re-prompt
/// a rejected report earns in the same sandbox: the work is done, only the
/// report needs fixing.
pub struct Drive {
    pub iteration: u32,
    pub phase: DrivePhase,
}

/// Begins to drive the agent to a report.
pub fn invoke_to_report(ctx: &KernelContext, iteration: u32, prompt: String) -> (r: (Drive, Effect))
    ensures
        r.0.iteration == iteration,
        r.0.phase == DrivePhase::First(
            Invocation { iteration, phase: InvocationPhase::Clearing { prompt } },
        ),
        r.1 matches Effect::RemoveFile(path) && path@ == report_path(),
{
    let (invocation, effect) = invoke(ctx, iteration, prompt);
    (Drive { iteration, phase: DrivePhase::First(invocation) }, effect)
}

impl Drive {
    /// Whether `turn` is where the drive stands once an invocation has left
    /// its end: a report ends it, and so does a crash. A rejection is logged;
    /// the first one earns a repair, the second ends the drive.
    pub open spec fn concludes<C: ReportContract>(
        self,
        contract: C,
        parsed: Parsed<C::Report>,
        turn: Turn<Drive, Result<Option<C::Report>, KernelError>>,
    ) -> bool {
        match parsed {
            Parsed::Report(report) => turn == Turn::<
                Drive,
                Result<Option<C::Report>, KernelError>,
            >::End(Ok(Some(report))),
            Parsed::Crashed => turn matches Turn::End(Ok(None)),
            Parsed::Rejected(errors) => {
                &&& turn matches Turn::Act(next, effect)
                &&& next.iteration == self.iteration
                &&& kernel::emits(
                    effect,
                    event::EventView::ReportRejected {
                        iteration: self.iteration,
                        errors: text::texts(errors@),
                    },
                )
                &&& if self.phase is First {
                    next.phase matches DrivePhase::Repairing { prompt } && prompt@ == repair_text(
                        text::texts(errors@),
                        contract.shape(),
                    )
                } else {
                    next.phase is GivingUp
                }
            },
        }
    }

    /// Whether `turn` is where the drive stands after its running invocation
    /// has taken a turn of its own.
    pub open spec fn follows<C: ReportContract>(
        self,
        contract: C,
        inner: Turn<Invocation, Result<InvocationEnd, KernelError>>,
        turn: Turn<Drive, Result<Option<C::Report>, KernelError>>,
    ) -> bool {
        match inner {
            Turn::Act(invocation, effect) => turn == Turn::<
                Drive,
                Result<Option<C::Report>, KernelError>,
            >::Act(
                Drive {
                    phase: if self.phase is First {
                        DrivePhase::First(invocation)
                    } else {
                        DrivePhase::Second(invocation)
                    },
                    ..self
                },
                effect,
            ),
            Turn::End(Err(error)) => turn == Turn::<
                Drive,
                Result<Option<C::Report>, KernelError>,
            >::End(Err(error)),
            Turn::End(Ok(end)) => exists|parsed: Parsed<C::Report>|
                reads_as(contract, end, parsed) && #[trigger] self.concludes(
                    contract,
                    parsed,
                    turn,
                ),
        }
    }

    /// Whether `turn` is where the drive stands after its running invocation
    /// got `reply`.
    pub open spec fn runs<C: ReportContract>(
        self,
        ctx: KernelContext,
        contract: C,
        invocation: Invocation,
        reply: Reply,
        turn: Turn<Drive, Result<Option<C::Report>, KernelError>>,
    ) -> bool {
        exists|inner: Turn<Invocation, Result<InvocationEnd, KernelError>>| #[trigger]
            invocation.steps(ctx, reply, inner) && self.follows(contract, inner, turn)
    }

    /// Whether `turn` is where the drive stands after `reply`.
    pub open spec fn steps<C: ReportContract>(
        self,
        ctx: KernelContext,
        contract: C,
        reply: Reply,
        turn: Turn<Drive, Result<Option<C::Report>, KernelError>>,
    ) -> bool {
        match self.phase {
            DrivePhase::First(invocation) => self.runs(ctx, contract, invocation, reply, turn),
            DrivePhase::Second(invocation) => self.runs(ctx, contract, invocation, reply, turn),
            DrivePhase::Repairing { prompt } => if reply is Failed {
                turn == Turn::<Drive, Result<Option<C::Report>, KernelError>>::End(
                    Err(reply->Failed_0),
                )
            } else {
                &&& turn matches Turn::Act(next, effect)
                &&& next == (Drive {
                    phase: DrivePhase::Second(
                        Invocation {
                            iteration: self.iteration,
                            phase: InvocationPhase::Clearing { prompt },
                        },
                    ),
                    ..self
                })
                &&& effect matches Effect::RemoveFile(path)
                &&& path@ == report_path()
            },
            DrivePhase::GivingUp => if reply is Failed {
                turn == Turn::<Drive, Result<Option<C::Report>, KernelError>>::End(
                    Err(reply->Failed_0),
                )
            } else {
                turn matches Turn::End(Ok(None))
            },
        }
    }

    /// The turn once an invocation has left its end.
    fn conclude<C: ReportContract>(
        before: Ghost<Drive>,
        iteration: u32,
        first: bool,
        contract: &C,
        end: InvocationEnd,
    ) -> (turn: Turn<Drive, Result<Option<C::Report>, KernelError>>)
        requires
            before@.iteration == iteration,
            before@.phase is First == first,
        ensures
            exists|parsed: Parsed<C::Report>|
                reads_as(*contract, end, parsed) && #[trigger] before@.concludes(
                    *contract,
                    parsed,
                    turn,
                ),
    {
        let parsed = parse(contract, end);
        let ghost what = parsed;
        let turn: Turn<Drive, Result<Option<C::Report>, KernelError>> = match parsed {
            Parsed::Report(report) => Turn::End(Ok(Some(report))),
            Parsed::Crashed => Turn::End(Ok(None)),
            Parsed::Rejected(errors) => {
                let phase: DrivePhase = if first {
                    DrivePhase::Repairing { prompt: repair(&errors, contract.schema()) }
                } else {
                    DrivePhase::GivingUp
                };
                Turn::Act(
                    Drive { iteration, phase },
                    Effect::Emit(RunEvent::ReportRejected { iteration, errors }),
                )
            },
        };
        assert(before@.concludes(*contract, what, turn));
        turn
    }

    /// The turn after the running invocation has taken one.
    fn follow<C: ReportContract>(
        before: Ghost<Drive>,
        iteration: u32,
        first: bool,
        ctx: &KernelContext,
        contract: &C,
        invocation: Invocation,
        reply: Reply,
    ) -> (turn: Turn<Drive, Result<Option<C::Report>, KernelError>>)
        requires
            before@.iteration == iteration,
            before@.phase is First == first,
        ensures
            before@.runs(*ctx, *contract, invocation, reply, turn),
    {
        match invocation.step(ctx, reply) {
            Turn::Act(invocation, effect) => {
                let phase: DrivePhase = if first {
                    DrivePhase::First(invocation)
                } else {
                    DrivePhase::Second(invocation)
                };
                Turn::Act(Drive { iteration, phase }, effect)
            },
            Turn::End(Err(error)) => Turn::End(Err(error)),
            Turn::End(Ok(end)) => Drive::conclude(before, iteration, first, contract, end),
        }
    }

    /// Takes the drive one reply further.
    pub fn step<C: ReportContract>(self, ctx: &KernelContext, contract: &C, reply: Reply) -> (turn:
        Turn<Drive, Result<Option<C::Report>, KernelError>>)
        ensures
            self.steps(*ctx, *contract, reply, turn),
    {
        let iteration: u32 = self.iteration;
        let ghost before = self;
        match self.phase {
            DrivePhase::First(invocation) => Drive::follow(
                Ghost(before),
                iteration,
                true,
                ctx,
                contract,
                invocation,
                reply,
            ),
            DrivePhase::Second(invocation) => Drive::follow(
                Ghost(before),
                iteration,
                false,
                ctx,
                contract,
                invocation,
                reply,
            ),
            DrivePhase::Repairing { prompt } => match reply {
                Reply::Failed(error) => Turn::End(Err(error)),
                _ => {
                    let (invocation, effect) = invoke(ctx, iteration, prompt);
                    Turn::Act(Drive { iteration, phase: DrivePhase::Second(invocation) }, effect)
                },
            },
            DrivePhase::GivingUp => match reply {
                Reply::Failed(error) => Turn::End(Err(error)),
                _ => Turn::End(Ok(None)),
            },
        }
    }

    /// How many chances the agent has been given.
    pub open spec fn chances(self) -> int {
        match self.phase {
            DrivePhase::First(_) => 1,
            DrivePhase::Repairing { .. } => 1,
            DrivePhase::Second(_) => 2,
            DrivePhase::GivingUp => 2,
        }
    }
}

/// A rejected report earns exactly one repair: a drive never goes back to an
/// earlier chance, gives a second one only after it has logged the rejection
/// of the first, and never a third.
pub proof fn a_rejected_report_earns_one_repair<C: ReportContract>(
    before: Drive,
    ctx: KernelContext,
    contract: C,
    reply: Reply,
    next: Drive,
    effect: Effect,
)
    requires
        before.steps(ctx, contract, reply, Turn::Act(next, effect)),
    ensures
        before.chances() <= next.chances() <= 2,
        next.chances() > before.chances() ==> before.phase is Repairing,
        before.phase is Repairing ==> next.phase is Second,
        before.phase is Second ==> next.phase is Second || next.phase is GivingUp,
        !(before.phase is GivingUp),
{
}

/// Driving an agent to a report never boots or destroys a sandbox.
pub proof fn a_drive_minds_its_sandbox<C: ReportContract>(
    before: Drive,
    ctx: KernelContext,
    contract: C,
    reply: Reply,
    next: Drive,
    effect: Effect,
)
    requires
        before.steps(ctx, contract, reply, Turn::Act(next, effect)),
    ensures
        kernel::stays_inside(effect),
{
}

/// Asks for the flow's override of a prompt slot; nothing is asked where the
/// slot is unset. The prompt is read through the sandbox.
pub fn prompt_override(ctx: &KernelContext, slot: &str) -> (r: Option<Effect>)
    ensures
        match ctx.prompts.file(slot@) {
            Some(file) => r matches Some(Effect::ReadFile(path)) && path@ == workspace::below(
                workspace::GUEST_ROOT@,
                file,
            ),
            None => r is None,
        },
{
    match ctx.prompts.get(slot) {
        Some(file) => Some(Effect::ReadFile(workspace::join(workspace::GUEST_ROOT, file))),
        None => None,
    }
}

/// Whether `r` is the prompt that the answer to [`prompt_override`] holds: a
/// prompt that cannot be read is run-fatal, because a loop must not go on
/// without its domain rules.
pub open spec fn prompt_reads(slot: Seq<char>, reply: Reply, r: Result<String, KernelError>) -> bool {
    match reply {
        Reply::File(raw) => if vstd::utf8::valid_utf8(raw@) {
            r matches Ok(prompt) && prompt@ == vstd::utf8::decode_utf8(raw@)
        } else {
            r matches Err(KernelError::Workspace(error)) && error.0@ == "the `"@ + slot
                + "` prompt is not UTF-8: "@ + utf8::utf8_fault(raw@)
        },
        Reply::Failed(error) => r == Err::<String, KernelError>(error),
        _ => r matches Err(KernelError::OutOfStep),
    }
}

/// [`prompt_reads`], computed.
pub fn read_prompt_override(slot: &str, reply: Reply) -> (r: Result<String, KernelError>)
    ensures
        prompt_reads(slot@, reply, r),
{
    match reply {
        Reply::File(raw) => match utf8::read_utf8(raw.as_slice()) {
            Ok(prompt) => Ok(prompt),
            Err(fault) => {
                let mut error = "the `".to_owned();
                error.append(slot);
                error.append("` prompt is not UTF-8: ");
                error.append(fault.as_str());
                Err(KernelError::Workspace(WorkspaceError(error)))
            },
        },
        Reply::Failed(error) => Err(error),
        _ => Err(KernelError::OutOfStep),
    }
}

} // verus!
