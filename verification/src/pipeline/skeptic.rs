//! The verified-completion gate for the pipeline: a fresh invocation reads
//! the claiming report, the domain prompts, and the workspace, then reports
//! whether concrete evidence refutes completion.

use crate::invocation;
use crate::json;
use crate::kernel::{self, Effect, KernelContext, KernelError, Reply, Turn, Work};
use crate::pipeline::assets;
use crate::pipeline::contract::{self, Stage, StageReport};
use crate::pipeline::stage;
use crate::preamble;
use crate::skeptic::{self, Evaluation, SkepticEnd};
use crate::text;
use crate::workspace::{self, REPORT_FILE};
use vstd::prelude::*;

verus! {

/// The heading that opens the skeptic's prompt.
pub const PROMPT_HEADING: &'static str = "# hako pipeline — skeptic iteration";

pub const TASK: &'static str = "\n\nIndependently test the `done` claim against the workspace and every domain prompt. Look for concrete evidence that any requirement remains unsatisfied. Do not change the workspace.\n\n## Done claim\n\n### ";

pub const REPORT_START: &'static str = "\n## Your report\n\nWrite `";

pub const REPORT_BODY: &'static str = "` and do nothing else. Set `refuted` to true only when the workspace contains concrete evidence that a domain prompt is unsatisfied, and list each piece of evidence in `findings`. Otherwise set `refuted` to false and leave `findings` empty.\n\nThe report must match this schema exactly:\n\n```json\n";

/// The sections for a list of domain prompts.
pub open spec fn prompt_sections(prompts: Seq<(Stage, Seq<char>)>) -> Seq<char>
    decreases prompts.len(),
{
    if prompts.len() == 0 {
        Seq::empty()
    } else {
        prompt_sections(prompts.drop_last()) + "\n### "@ + prompts.last().0.word()
            + " domain prompt\n\n"@ + text::trimmed(prompts.last().1) + "\n"@
    }
}

/// The skeptic's prompt.
pub open spec fn composed(
    claim: contract::StageReportView,
    prompts: Seq<(Stage, Seq<char>)>,
) -> Seq<char> {
    PROMPT_HEADING@ + TASK@ + claim.stage.word() + " report\n\n"@ + preamble::fence_around(
        json::pretty_printed(json::JsonView::Object(contract::report_fields(claim))),
    ) + "\n\n## Domain prompts\n"@ + prompt_sections(prompts) + REPORT_START@ + REPORT_FILE@
        + REPORT_BODY@ + skeptic::REPORT_SCHEMA@ + "\n```"@
}

/// What a list of domain prompts says.
pub open spec fn prompt_views(prompts: Seq<(Stage, String)>) -> Seq<(Stage, Seq<char>)> {
    prompts.map_values(|p: (Stage, String)| (p.0, p.1@))
}

/// [`composed`], computed.
pub fn compose(claim: &StageReport, prompts: &Vec<(Stage, String)>) -> (s: String)
    ensures
        s@ == composed(claim@, prompt_views(prompts@)),
{
    let ghost all = prompt_views(prompts@);
    let mut sections: String = String::new();
    assert(all.take(0) =~= Seq::empty());
    assert(sections@ =~= prompt_sections(all.take(0)));
    for i in 0..prompts.len()
        invariant
            all == prompt_views(prompts@),
            sections@ == prompt_sections(all.take(i as int)),
    {
        assert(all.take(i + 1).drop_last() =~= all.take(i as int));
        sections.append("\n### ");
        sections.append(prompts[i].0.as_str());
        sections.append(" domain prompt\n\n");
        let words = text::trim(prompts[i].1.as_str());
        sections.append(words.as_str());
        sections.append("\n");
    }
    assert(all.take(prompts@.len() as int) =~= all);
    let mut s = PROMPT_HEADING.to_owned();
    s.append(TASK);
    s.append(claim.stage().as_str());
    s.append(" report\n\n");
    let report = claim.to_pretty_json();
    let quoted = preamble::fenced(report.as_str());
    s.append(quoted.as_str());
    s.append("\n\n## Domain prompts\n");
    s.append(sections.as_str());
    s.append(REPORT_START);
    s.append(REPORT_FILE);
    s.append(REPORT_BODY);
    s.append(skeptic::REPORT_SCHEMA);
    s.append("\n```");
    s
}

/// What the skeptic is to judge.
pub struct JudgeBrief {
    pub iteration: u32,
    pub claim: StageReport,
}

/// Where the skeptic's work stands.
pub enum SkepticWork {
    /// The sandbox is about to boot.
    Ready,
    /// The domain prompts are being read; the first stage that is left is the
    /// one that was asked for.
    Gathering { gathered: Vec<(Stage, String)>, left: Vec<Stage> },
    /// The skeptic is driven to its verdict.
    Evaluating(Evaluation),
}

/// Where the skeptic's work stands after a reply.
pub type SkepticTurn = Turn<SkepticWork, Result<SkepticEnd, KernelError>>;

/// Whether `turn` goes on to gather the prompts of the stages that are left:
/// an override is read through the sandbox, a default is taken as it stands,
/// and once none is left the skeptic is started on all of them.
pub open spec fn gathers(
    ctx: KernelContext,
    brief: JudgeBrief,
    gathered: Seq<(Stage, Seq<char>)>,
    left: Seq<Stage>,
    turn: SkepticTurn,
) -> bool
    decreases left.len(),
{
    if left.len() == 0 {
        &&& turn matches Turn::Act(next, effect)
        &&& next matches SkepticWork::Evaluating(evaluation)
        &&& exists|prompt: String|
            prompt@ == composed(brief.claim@, gathered) && evaluation == #[trigger] skeptic::begun(
                brief.iteration,
                prompt,
            )
        &&& effect matches Effect::RemoveFile(path)
        &&& path@ == invocation::report_path()
    } else {
        match ctx.prompts.file(left[0].word()) {
            Some(file) => {
                &&& turn matches Turn::Act(next, effect)
                &&& next matches SkepticWork::Gathering { gathered: so_far, left: still }
                &&& prompt_views(so_far@) == gathered
                &&& still@ == left
                &&& effect matches Effect::ReadFile(path)
                &&& path@ == workspace::below(workspace::GUEST_ROOT@, file)
            },
            None => match assets::default_prompt_text(left[0]) {
                Some(prompt) => gathers(
                    ctx,
                    brief,
                    gathered.push((left[0], prompt)),
                    left.skip(1),
                    turn,
                ),
                None => turn matches Turn::End(Err(KernelError::Workspace(error))) && error.0@
                    == stage::no_prompt(left[0]),
            },
        }
    }
}

/// The turn that goes on to gather prompts.
fn gather(
    ctx: &KernelContext,
    brief: &JudgeBrief,
    gathered: Vec<(Stage, String)>,
    left: Vec<Stage>,
) -> (turn: SkepticTurn)
    ensures
        gathers(*ctx, *brief, prompt_views(gathered@), left@, turn),
    decreases left@.len(),
{
    if left.len() == 0 {
        let prompt = compose(&brief.claim, &gathered);
        let ghost words = prompt;
        let (evaluation, effect) = skeptic::evaluate(ctx, brief.iteration, prompt);
        assert(evaluation == skeptic::begun(brief.iteration, words));
        return Turn::Act(SkepticWork::Evaluating(evaluation), effect);
    }
    let first: Stage = left[0];
    match invocation::prompt_override(ctx, first.as_str()) {
        Some(effect) => Turn::Act(SkepticWork::Gathering { gathered, left }, effect),
        None => match stage::default_or_refusal(first) {
            Ok(prompt) => {
                let mut gathered = gathered;
                let mut left = left;
                let ghost before = prompt_views(gathered@);
                let ghost all = left@;
                let ghost words = prompt@;
                let _ = left.remove(0);
                assert(left@ =~= all.skip(1));
                gathered.push((first, prompt));
                assert(prompt_views(gathered@) =~= before.push((first, words)));
                gather(ctx, brief, gathered, left)
            },
            Err(error) => Turn::End(Err(error)),
        },
    }
}

impl Work for SkepticWork {
    type Brief = JudgeBrief;

    type Out = SkepticEnd;

    open spec fn steps(
        self,
        ctx: KernelContext,
        brief: JudgeBrief,
        reply: Reply,
        turn: SkepticTurn,
    ) -> bool {
        match self {
            SkepticWork::Ready => if reply is Failed {
                turn == SkepticTurn::End(Err(reply->Failed_0))
            } else {
                gathers(
                    ctx,
                    brief,
                    Seq::empty(),
                    stage::active_among(ctx.prompts, contract::STAGES as int),
                    turn,
                )
            },
            SkepticWork::Gathering { gathered, left } => if left@.len() == 0 {
                turn matches Turn::End(Err(KernelError::OutOfStep))
            } else {
                exists|read: Result<String, KernelError>| #[trigger]
                    invocation::prompt_reads(left@[0].word(), reply, read) && match read {
                        Ok(prompt) => gathers(
                            ctx,
                            brief,
                            prompt_views(gathered@).push((left@[0], prompt@)),
                            left@.skip(1),
                            turn,
                        ),
                        Err(error) => turn == SkepticTurn::End(Err(error)),
                    }
            },
            SkepticWork::Evaluating(evaluation) => exists|
                inner: Turn<Evaluation, Result<SkepticEnd, KernelError>>,
            | #[trigger]
                evaluation.steps(ctx, reply, inner) && match inner {
                    Turn::Act(evaluation, effect) => turn == SkepticTurn::Act(
                        SkepticWork::Evaluating(evaluation),
                        effect,
                    ),
                    Turn::End(result) => turn == SkepticTurn::End(result),
                },
        }
    }

    fn step(self, ctx: &KernelContext, brief: &JudgeBrief, reply: Reply) -> (turn: SkepticTurn) {
        match self {
            SkepticWork::Ready => match reply {
                Reply::Failed(error) => Turn::End(Err(error)),
                _ => {
                    let gathered: Vec<(Stage, String)> = Vec::new();
                    assert(prompt_views(gathered@) =~= Seq::empty());
                    gather(ctx, brief, gathered, stage::active_stages(&ctx.prompts))
                },
            },
            SkepticWork::Gathering { gathered, left } => {
                let mut gathered = gathered;
                let mut left = left;
                if left.len() == 0 {
                    return Turn::End(Err(KernelError::OutOfStep));
                }
                let ghost before = prompt_views(gathered@);
                let ghost all = left@;
                let first: Stage = left.remove(0);
                assert(left@ =~= all.skip(1));
                match invocation::read_prompt_override(first.as_str(), reply) {
                    Ok(prompt) => {
                        let ghost words = prompt@;
                        gathered.push((first, prompt));
                        assert(prompt_views(gathered@) =~= before.push((first, words)));
                        gather(ctx, brief, gathered, left)
                    },
                    Err(error) => Turn::End(Err(error)),
                }
            },
            SkepticWork::Evaluating(evaluation) => match evaluation.step(ctx, reply) {
                Turn::Act(evaluation, effect) => Turn::Act(
                    SkepticWork::Evaluating(evaluation),
                    effect,
                ),
                Turn::End(result) => Turn::End(result),
            },
        }
    }

    proof fn minds_its_sandbox(
        self,
        ctx: KernelContext,
        brief: JudgeBrief,
        reply: Reply,
        next: SkepticWork,
        effect: Effect,
    ) {
        let turn = SkepticTurn::Act(next, effect);
        match self {
            SkepticWork::Ready => {
                lemma_gathering_stays_inside(
                    ctx,
                    brief,
                    Seq::empty(),
                    stage::active_among(ctx.prompts, contract::STAGES as int),
                    next,
                    effect,
                );
            },
            SkepticWork::Gathering { gathered, left } => {
                let read = choose|read: Result<String, KernelError>| #[trigger]
                    invocation::prompt_reads(left@[0].word(), reply, read) && match read {
                        Ok(prompt) => gathers(
                            ctx,
                            brief,
                            prompt_views(gathered@).push((left@[0], prompt@)),
                            left@.skip(1),
                            turn,
                        ),
                        Err(error) => turn == SkepticTurn::End(Err(error)),
                    };
                if let Ok(prompt) = read {
                    lemma_gathering_stays_inside(
                        ctx,
                        brief,
                        prompt_views(gathered@).push((left@[0], prompt@)),
                        left@.skip(1),
                        next,
                        effect,
                    );
                }
            },
            SkepticWork::Evaluating(evaluation) => {
                let inner = choose|inner: Turn<Evaluation, Result<SkepticEnd, KernelError>>|
                    #[trigger] evaluation.steps(ctx, reply, inner) && match inner {
                        Turn::Act(evaluation, effect) => turn == SkepticTurn::Act(
                            SkepticWork::Evaluating(evaluation),
                            effect,
                        ),
                        Turn::End(result) => turn == SkepticTurn::End(result),
                    };
                skeptic::an_evaluation_minds_its_sandbox(
                    evaluation,
                    ctx,
                    reply,
                    inner->Act_0,
                    inner->Act_1,
                );
            },
        }
    }
}

proof fn lemma_gathering_stays_inside(
    ctx: KernelContext,
    brief: JudgeBrief,
    gathered: Seq<(Stage, Seq<char>)>,
    left: Seq<Stage>,
    next: SkepticWork,
    effect: Effect,
)
    requires
        gathers(ctx, brief, gathered, left, Turn::Act(next, effect)),
    ensures
        kernel::stays_inside(effect),
    decreases left.len(),
{
    if left.len() > 0 && ctx.prompts.file(left[0].word()) is None && assets::default_prompt_text(
        left[0],
    ) is Some {
        lemma_gathering_stays_inside(
            ctx,
            brief,
            gathered.push((left[0], assets::default_prompt_text(left[0])->0)),
            left.skip(1),
            next,
            effect,
        );
    }
}

} // verus!
