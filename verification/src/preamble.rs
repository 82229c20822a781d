//! The preamble toolkit: the engine-composed pieces a kernel frames its
//! prompts with. The frame itself, which sections in what order around which
//! prompts, is kernel policy; what lives here is the mechanism every frame
//! shares: quoting agent-influenced text so it cannot escape its fence,
//! feeding machine verdicts back, and attributing a human's answers to the
//! questions they addressed.

use crate::budget::{self, Duration};
use crate::json;
use crate::report::{self, Answer, Question};
use crate::text;
use crate::wire;
use vstd::prelude::*;

verus! {

/// The headings that open this module's sections: one definition for the
/// prose here and for whoever looks for a section.
pub const VERIFY_FAILED_HEADING: &'static str = "## Verify checks failed";

pub const SKEPTIC_REFUTED_HEADING: &'static str = "## Completion claim refuted";

pub const ITERATION_TIMED_OUT_HEADING: &'static str = "## Iteration timed out";

pub const HUMAN_INPUT_HEADING: &'static str = "## Human input";

pub const VERIFY_FAILED_BODY: &'static str = "\n\nYour previous work did not pass the verify checks, so it did not count as progress. Fix the cause before reporting done.\n\nFailing check: `";

pub const SKEPTIC_REFUTED_BODY: &'static str = "\n\nA fresh skeptic found evidence that the previous `done` claim was premature. Plan work that resolves every finding:\n\n";

pub const TIMED_OUT_BEFORE: &'static str = "\n\nThe previous iteration exceeded its ";

pub const TIMED_OUT_AFTER: &'static str = " second timeout and its sandbox was destroyed. Continue from the checkpointed workspace without repeating the hang.\n";

pub const HUMAN_INPUT_BODY: &'static str = "\n\nThe run paused and a human responded; treat their words as authoritative.\n";

/// Why the previous work did not count as progress: machine feedback a
/// kernel puts in front of the agent so it corrects the cause rather than
/// repeating it.
#[derive(Debug, PartialEq, Eq)]
pub enum Feedback {
    /// The previous verify checks failed: the failing command and its
    /// captured output.
    VerifyFailed { command: String, output: String },
    /// A fresh skeptic found concrete evidence against a completion claim;
    /// the next plan must account for each finding.
    SkepticRefuted { findings: Vec<String> },
    /// The previous iteration exceeded its hard cap and its sandbox was
    /// destroyed; the next attempt must avoid hanging the same way.
    IterationTimedOut { timeout: Duration },
}

/// What a piece of feedback says.
#[verifier::ext_equal]
pub ghost enum FeedbackView {
    VerifyFailed { command: Seq<char>, output: Seq<char> },
    SkepticRefuted { findings: Seq<Seq<char>> },
    IterationTimedOut { timeout: Duration },
}

impl View for Feedback {
    type V = FeedbackView;

    open spec fn view(&self) -> FeedbackView {
        match self {
            Feedback::VerifyFailed { command, output } => FeedbackView::VerifyFailed {
                command: command@,
                output: output@,
            },
            Feedback::SkepticRefuted { findings } => FeedbackView::SkepticRefuted {
                findings: text::texts(findings@),
            },
            Feedback::IterationTimedOut { timeout } => FeedbackView::IterationTimedOut {
                timeout: *timeout,
            },
        }
    }
}

/// What a list of feedback says.
pub open spec fn feedback_views(v: Seq<Feedback>) -> Seq<FeedbackView> {
    v.map_values(|f: Feedback| f@)
}

/// The prompt section for one machine verdict, its agent-influenced detail
/// fenced off from the frame around it.
pub open spec fn feedback_section(feedback: FeedbackView) -> Seq<char> {
    match feedback {
        FeedbackView::VerifyFailed { command, output } => VERIFY_FAILED_HEADING@
            + VERIFY_FAILED_BODY@ + command + "`\n\n"@ + fence_around(text::trimmed_end(output))
            + "\n"@,
        FeedbackView::SkepticRefuted { findings } => SKEPTIC_REFUTED_HEADING@
            + SKEPTIC_REFUTED_BODY@ + fence_around(
            json::pretty_printed(wire::texts_view(findings)),
        ) + "\n"@,
        FeedbackView::IterationTimedOut { timeout } => ITERATION_TIMED_OUT_HEADING@
            + TIMED_OUT_BEFORE@ + text::decimal(timeout.length() / (budget::NANOS_PER_SEC as nat))
            + TIMED_OUT_AFTER@,
    }
}

/// Whether findings are quoted so that a mark shows only where one of them
/// holds it.
pub open spec fn quotes_findings(feedback: FeedbackView) -> bool {
    feedback matches FeedbackView::SkepticRefuted { findings } ==> json::quotes_plainly(
        wire::texts_view(findings),
    )
}

/// Renders one machine verdict as a prompt section.
pub fn feedback(verdict: &Feedback) -> (s: String)
    ensures
        s@ == feedback_section(verdict@),
        quotes_findings(verdict@),
{
    match verdict {
        Feedback::VerifyFailed { command, output } => {
            let mut s = VERIFY_FAILED_HEADING.to_owned();
            s.append(VERIFY_FAILED_BODY);
            s.append(command.as_str());
            s.append("`\n\n");
            let quoted = fenced(text::trim_end(output.as_str()).as_str());
            s.append(quoted.as_str());
            s.append("\n");
            s
        },
        Feedback::SkepticRefuted { findings } => {
            let list = wire::texts_json(findings).to_pretty_text();
            let mut s = SKEPTIC_REFUTED_HEADING.to_owned();
            s.append(SKEPTIC_REFUTED_BODY);
            let quoted = fenced(list.as_str());
            s.append(quoted.as_str());
            s.append("\n");
            s
        },
        Feedback::IterationTimedOut { timeout } => {
            let mut s = ITERATION_TIMED_OUT_HEADING.to_owned();
            s.append(TIMED_OUT_BEFORE);
            let secs = text::decimal_of(timeout.as_secs());
            s.append(secs.as_str());
            s.append(TIMED_OUT_AFTER);
            s
        },
    }
}

/// How many backticks `words` ends with.
pub open spec fn closing_run(words: Seq<char>) -> nat
    decreases words.len(),
{
    if words.len() == 0 || words.last() != '`' {
        0
    } else {
        closing_run(words.drop_last()) + 1
    }
}

/// The length of the longest run of backticks in `words`.
pub open spec fn longest_run(words: Seq<char>) -> nat
    decreases words.len(),
{
    if words.len() == 0 {
        0
    } else {
        let before = longest_run(words.drop_last());
        let run = closing_run(words);
        if run > before {
            run
        } else {
            before
        }
    }
}

/// A row of `n` backticks.
pub open spec fn backticks(n: nat) -> Seq<char> {
    Seq::new(n, |i: int| '`')
}

/// The fence for a text: one backtick longer than any run inside it, and at
/// least a code fence.
pub open spec fn fence_of(words: Seq<char>) -> Seq<char> {
    backticks(
        if longest_run(words) + 1 > 3 {
            longest_run(words) + 1
        } else {
            3
        },
    )
}

/// A text between fences it cannot close.
pub open spec fn fence_around(words: Seq<char>) -> Seq<char> {
    fence_of(words) + "\n"@ + words + "\n"@ + fence_of(words)
}

/// Quotes agent-influenced text in a backtick fence it cannot close early:
/// the fence is one backtick longer than any run inside the text, so nothing
/// quoted can write outside its block and into the prompt's own level.
pub fn fenced(words: &str) -> (s: String)
    ensures
        s@ == fence_around(words@),
{
    let t = text::chars_of(words);
    let mut longest: usize = 0;
    let mut run: usize = 0;
    assert(t@.take(0) =~= Seq::empty());
    for i in 0..t.len()
        invariant
            longest == longest_run(t@.take(i as int)),
            run == closing_run(t@.take(i as int)),
            longest <= i,
            run <= i,
    {
        assert(t@.take(i + 1).drop_last() =~= t@.take(i as int));
        assert(t@.take(i + 1).last() == t@[i as int]);
        if t[i] == '`' {
            run = run + 1;
            if run > longest {
                longest = run;
            }
        } else {
            run = 0;
        }
    }
    assert(t@.take(t@.len() as int) =~= t@);
    let mut fence: String = String::new();
    let mut n: usize = 0;
    assert(fence@ =~= backticks(0));
    while n < longest
        invariant
            n <= longest,
            fence@ == backticks(n as nat),
        decreases longest - n,
    {
        fence.push('`');
        n = n + 1;
        assert(fence@ =~= backticks(n as nat));
    }
    fence.push('`');
    if longest == 0 {
        fence.push('`');
        fence.push('`');
    } else if longest == 1 {
        fence.push('`');
    }
    assert(fence@ =~= fence_of(words@));
    let mut s = fence.clone();
    s.append("\n");
    s.append(words);
    s.append("\n");
    s.append(fence.as_str());
    s
}

proof fn lemma_closing_run_is_longest(words: Seq<char>, n: nat)
    requires
        n <= words.len(),
        forall|i: int| words.len() - n <= i < words.len() ==> #[trigger] words[i] == '`',
    ensures
        closing_run(words) >= n,
    decreases n,
{
    if n > 0 {
        assert(words[words.len() - 1] == '`');
        lemma_closing_run_is_longest(words.drop_last(), (n - 1) as nat);
    }
}

proof fn lemma_runs_are_bounded(words: Seq<char>, at: int, n: nat)
    requires
        0 <= at,
        at + n <= words.len(),
        forall|i: int| at <= i < at + n ==> #[trigger] words[i] == '`',
    ensures
        n <= longest_run(words),
    decreases words.len(),
{
    if words.len() > 0 {
        if at + n == words.len() {
            lemma_closing_run_is_longest(words, n);
        } else {
            lemma_runs_are_bounded(words.drop_last(), at, n);
        }
    }
}

/// Quoted text cannot close its fence: the fence stands nowhere inside it.
pub proof fn quoted_text_cannot_close_its_fence(words: Seq<char>)
    ensures
        !text::contains(words, fence_of(words)),
{
    let fence = fence_of(words);
    assert forall|at: int| !text::occurs_at(words, fence, at) by {
        if text::occurs_at(words, fence, at) {
            assert forall|i: int| at <= i < at + fence.len() implies #[trigger] words[i] == '`' by {
                assert(words.subrange(at, at + fence.len())[i - at] == fence[i - at]);
            }
            lemma_runs_are_bounded(words, at, fence.len());
        }
    }
}

/// What a human sent back to a paused run, their answers and free-form note,
/// paired with the questions of the report that paused it, so each answer
/// renders attributed to what it addressed.
#[derive(Debug, PartialEq, Eq)]
pub struct HumanInput {
    pub answers: Vec<Answer>,
    pub questions: Vec<Question>,
    pub note: Option<String>,
}

/// What a human sent back.
#[verifier::ext_equal]
pub ghost struct HumanInputView {
    pub answers: Seq<report::AnswerView>,
    pub questions: Seq<report::QuestionView>,
    pub note: Option<Seq<char>>,
}

impl View for HumanInput {
    type V = HumanInputView;

    open spec fn view(&self) -> HumanInputView {
        HumanInputView {
            answers: report::answer_views(self.answers@),
            questions: report::question_views(self.questions@),
            note: wire::opt_text(self.note),
        }
    }
}

/// What an answer is attributed to: the text of the first question it
/// names, or the name itself where no such question is carried.
pub open spec fn addressed(questions: Seq<report::QuestionView>, id: Seq<char>) -> Seq<char>
    decreases questions.len(),
{
    if questions.len() == 0 {
        id
    } else if questions[0].id == id {
        questions[0].text
    } else {
        addressed(questions.skip(1), id)
    }
}

/// The lines for a list of answers.
pub open spec fn answer_lines(
    questions: Seq<report::QuestionView>,
    answers: Seq<report::AnswerView>,
) -> Seq<char>
    decreases answers.len(),
{
    if answers.len() == 0 {
        Seq::empty()
    } else {
        answer_lines(questions, answers.drop_last()) + "\n- Q: "@ + addressed(
            questions,
            answers.last().question_id,
        ) + "\n  A: "@ + answers.last().answer + "\n"@
    }
}

/// The human-input section: answers attributed to the questions they
/// addressed, then the free-form resume note. None when the human said
/// nothing, so a kernel adds no empty section.
pub open spec fn human_section(input: HumanInputView) -> Option<Seq<char>> {
    if input.answers.len() == 0 && input.note is None {
        None
    } else {
        let body = HUMAN_INPUT_HEADING@ + HUMAN_INPUT_BODY@ + answer_lines(
            input.questions,
            input.answers,
        );
        Some(
            match input.note {
                Some(note) => body + "\nNote: "@ + note + "\n"@,
                None => body,
            },
        )
    }
}

/// A human who said nothing adds no section, and one who said anything adds
/// one.
pub proof fn only_silence_adds_no_section(input: HumanInputView)
    ensures
        human_section(input) is None <==> input.answers.len() == 0 && input.note is None,
{
}

/// [`addressed`], computed.
fn attribution(questions: &Vec<Question>, id: &str) -> (s: String)
    ensures
        s@ == addressed(report::question_views(questions@), id@),
{
    let ghost all = report::question_views(questions@);
    assert(all.skip(0) =~= all);
    for i in 0..questions.len()
        invariant
            all == report::question_views(questions@),
            addressed(all.skip(i as int), id@) == addressed(all, id@),
    {
        assert(all.skip(i as int)[0] == questions@[i as int]@);
        assert(all.skip(i as int).skip(1) =~= all.skip(i + 1));
        if text::same(questions[i].id.as_str(), id) {
            return questions[i].text.clone();
        }
    }
    assert(all.skip(questions@.len() as int) =~= Seq::empty());
    id.to_owned()
}

/// Renders what a human sent back as a prompt section.
pub fn human_input(input: &HumanInput) -> (r: Option<String>)
    ensures
        match r {
            Some(s) => human_section(input@) == Some(s@),
            None => human_section(input@) is None,
        },
{
    if input.answers.len() == 0 && input.note.is_none() {
        return None;
    }
    let mut s = HUMAN_INPUT_HEADING.to_owned();
    s.append(HUMAN_INPUT_BODY);
    let ghost start = s@;
    let ghost questions = report::question_views(input.questions@);
    let ghost answers = report::answer_views(input.answers@);
    assert(answers.take(0) =~= Seq::empty());
    assert(start + Seq::<char>::empty() =~= start);
    for i in 0..input.answers.len()
        invariant
            questions == report::question_views(input.questions@),
            answers == report::answer_views(input.answers@),
            s@ == start + answer_lines(questions, answers.take(i as int)),
    {
        let ghost so_far = answer_lines(questions, answers.take(i as int));
        assert(answers.take(i + 1).drop_last() =~= answers.take(i as int));
        assert(answers.take(i + 1).last() == input.answers@[i as int]@);
        let question = attribution(&input.questions, input.answers[i].question_id.as_str());
        s.append("\n- Q: ");
        s.append(question.as_str());
        s.append("\n  A: ");
        s.append(input.answers[i].answer.as_str());
        s.append("\n");
        assert(s@ =~= start + (so_far + "\n- Q: "@ + question@ + "\n  A: "@
            + input.answers@[i as int].answer@ + "\n"@));
    }
    assert(answers.take(input.answers@.len() as int) =~= answers);
    if let Some(note) = &input.note {
        s.append("\nNote: ");
        s.append(note.as_str());
        s.append("\n");
    }
    Some(s)
}

} // verus!
