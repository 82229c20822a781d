//! The generic command-template adapter: any CLI as the agent.

use crate::agent::AgentAdapter;
use crate::agents::AgentConfigError;
use crate::budget::TokenUsage;
use crate::sandbox::ExecSpec;
use crate::secrets::{self, SecretName};
use crate::text;
use vstd::prelude::*;

verus! {

/// The marker a template's argv elements use to receive the composed prompt.
pub const PROMPT_PLACEHOLDER: &'static str = "{prompt}";

/// Runs whatever argv the flow's `command` template declares, with the
/// composed prompt interpolated. It knows nothing about the CLI it launches:
/// no secrets to require, the flow's own table covers what the command
/// needs, and no token usage to report, so a cmd flow is budgeted by time
/// and iterations only.
#[derive(Debug, PartialEq, Eq)]
pub struct CmdAdapter {
    template: Vec<String>,
}

/// Whether some element of a template receives the prompt.
pub open spec fn takes_prompt(template: Seq<Seq<char>>) -> bool {
    exists|i: int|
        0 <= i < template.len() && #[trigger] text::contains(template[i], PROMPT_PLACEHOLDER@)
}

impl CmdAdapter {
    /// The template the adapter runs.
    pub closed spec fn template(&self) -> Seq<Seq<char>> {
        text::texts(self.template@)
    }

    #[verifier::type_invariant]
    spec fn well_formed(&self) -> bool {
        takes_prompt(text::texts(self.template@))
    }

    /// Accepts a template that can actually deliver a prompt: at least one
    /// element, at least one `{prompt}`; anything less would run the agent
    /// blind, so it fails at resolution instead.
    pub fn new(template: Vec<String>) -> (r: Result<CmdAdapter, AgentConfigError>)
        ensures
            match r {
                Ok(adapter) => takes_prompt(text::texts(template@)) && adapter.template()
                    == text::texts(template@),
                Err(AgentConfigError::MissingCommand) => template@.len() == 0,
                Err(AgentConfigError::PromptPlaceholderMissing) => template@.len() > 0
                    && !takes_prompt(text::texts(template@)),
                Err(_) => false,
            },
    {
        if template.len() == 0 {
            return Err(AgentConfigError::MissingCommand);
        }
        let ghost all = text::texts(template@);
        for i in 0..template.len()
            invariant
                all == text::texts(template@),
                forall|j: int|
                    0 <= j < i ==> !#[trigger] text::contains(all[j], PROMPT_PLACEHOLDER@),
        {
            if text::stands_in(template[i].as_str(), PROMPT_PLACEHOLDER) {
                assert(text::contains(all[i as int], PROMPT_PLACEHOLDER@));
                return Ok(CmdAdapter { template });
            }
        }
        Err(AgentConfigError::PromptPlaceholderMissing)
    }
}

/// Every command the adapter runs carries the prompt it was given.
pub proof fn the_prompt_reaches_the_command(template: Seq<Seq<char>>, prompt: Seq<char>)
    requires
        takes_prompt(template),
    ensures
        exists|i: int|
            0 <= i < template.len() && text::contains(
                #[trigger] text::replaced(template[i], PROMPT_PLACEHOLDER@, prompt),
                prompt,
            ),
{
    let i = choose|i: int|
        0 <= i < template.len() && #[trigger] text::contains(template[i], PROMPT_PLACEHOLDER@);
    let at = choose|at: int| text::occurs_at(template[i], PROMPT_PLACEHOLDER@, at);
    lemma_replacing_inserts(template[i], prompt, at);
}

proof fn lemma_replacing_inserts(arg: Seq<char>, prompt: Seq<char>, at: int)
    requires
        text::occurs_at(arg, PROMPT_PLACEHOLDER@, at),
    ensures
        text::contains(text::replaced(arg, PROMPT_PLACEHOLDER@, prompt), prompt),
    decreases arg.len(),
{
    reveal_strlit("{prompt}");
    let mark = PROMPT_PLACEHOLDER@;
    assert(mark.len() == 8);
    let out = text::replaced(arg, mark, prompt);
    if text::occurs_at(arg, mark, 0) {
        let tail = text::replaced(arg.skip(mark.len() as int), mark, prompt);
        assert(out == prompt + tail);
        assert(out.subrange(0, prompt.len() as int) =~= prompt);
        assert(text::occurs_at(out, prompt, 0));
    } else {
        let rest = arg.skip(1);
        assert(rest.subrange(at - 1, at - 1 + mark.len()) =~= arg.subrange(at, at + mark.len()));
        assert(text::occurs_at(rest, mark, at - 1));
        lemma_replacing_inserts(rest, prompt, at - 1);
        let tail = text::replaced(rest, mark, prompt);
        assert(out == seq![arg[0]] + tail);
        let p = choose|p: int| text::occurs_at(tail, prompt, p);
        assert(out.subrange(p + 1, p + 1 + prompt.len()) =~= tail.subrange(p, p + prompt.len()));
        assert(text::occurs_at(out, prompt, p + 1));
    }
}

impl AgentAdapter for CmdAdapter {
    open spec fn known_as(&self) -> Seq<char> {
        "cmd"@
    }

    open spec fn needs(&self) -> Seq<Seq<char>> {
        Seq::empty()
    }

    open spec fn command(&self, prompt: Seq<char>) -> Seq<Seq<char>> {
        self.template().map_values(
            |arg: Seq<char>| text::replaced(arg, PROMPT_PLACEHOLDER@, prompt),
        )
    }

    open spec fn bill(&self, stdout: Seq<char>) -> Option<TokenUsage> {
        None
    }

    fn name(&self) -> (s: &str) {
        "cmd"
    }

    fn required_secrets(&self) -> (r: Vec<SecretName>) {
        let r: Vec<SecretName> = Vec::new();
        assert(secrets::name_texts(r@) =~= self.needs());
        r
    }

    fn invocation(&self, prompt: &str) -> (r: ExecSpec) {
        let mut argv: Vec<String> = Vec::new();
        for i in 0..self.template.len()
            invariant
                argv@.len() == i,
                forall|j: int|
                    0 <= j < i ==> #[trigger] argv@[j]@ == text::replaced(
                        self.template@[j]@,
                        PROMPT_PLACEHOLDER@,
                        prompt@,
                    ),
        {
            argv.push(text::replace(self.template[i].as_str(), PROMPT_PLACEHOLDER, prompt));
        }
        assert(text::texts(argv@) =~= self.command(prompt@));
        ExecSpec { argv, cwd: None }
    }

    fn token_usage(&self, _stdout: &str) -> (r: Option<TokenUsage>) {
        None
    }
}

} // verus!
