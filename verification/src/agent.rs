//! The agent-adapter seam: the engine's knowledge of how to drive one
//! coding-agent CLI.

use crate::budget::TokenUsage;
use crate::sandbox::ExecSpec;
use crate::secrets::{self, SecretName, SecretRequirement};
use crate::text;
use vstd::prelude::*;

verus! {

/// How to invoke one agent headless, which secrets it needs, and how to read
/// its token usage.
///
/// Adapters are pure translators: every effect runs through the sandbox, so
/// an adapter needs no fake of its own beyond scripted return values.
pub trait AgentAdapter: Sized {
    /// The name flows select the agent by.
    spec fn known_as(&self) -> Seq<char>;

    /// The secrets the agent's CLI looks for.
    spec fn needs(&self) -> Seq<Seq<char>>;

    /// The argument vector that runs the agent on a prompt.
    spec fn command(&self, prompt: Seq<char>) -> Seq<Seq<char>>;

    /// The usage that the agent's output reports.
    spec fn bill(&self, stdout: Seq<char>) -> Option<TokenUsage>;

    /// The name flows select the agent by, e.g. `codex`.
    fn name(&self) -> (s: &str)
        ensures
            s@ == self.known_as(),
    ;

    /// What must be provisioned before a run may start. Checked at submit so
    /// a provisioning gap surfaces immediately.
    fn required_secrets(&self) -> (r: Vec<SecretName>)
        ensures
            secrets::name_texts(r@) == self.needs(),
    ;

    /// The headless invocation, given the fully composed prompt.
    fn invocation(&self, prompt: &str) -> (r: ExecSpec)
        ensures
            text::texts(r.argv@) == self.command(prompt@),
            r.cwd is None,
    ;

    /// Token usage parsed from the agent's stdout. `None` when this agent
    /// doesn't report usage; the run is then simply not token-budgeted.
    fn token_usage(&self, stdout: &str) -> (r: Option<TokenUsage>)
        ensures
            r == self.bill(stdout@),
    ;
}

/// What must be provisioned for an agent, one requirement per credential that
/// its adapter names: what a resolution is handed beside the flow's own names.
pub fn requirements<A: AgentAdapter>(agent: &A) -> (r: Vec<SecretRequirement>)
    ensures
        r@.map_values(|requirement: SecretRequirement| requirement@) == agent.needs().map_values(
            |name: Seq<char>| seq![name],
        ),
{
    let names = agent.required_secrets();
    let mut r: Vec<SecretRequirement> = Vec::new();
    for i in 0..names.len()
        invariant
            r@.len() == i,
            forall|j: int| 0 <= j < i ==> #[trigger] r@[j]@ == seq![names@[j]@],
    {
        r.push(SecretRequirement::named(names[i].as_str()));
    }
    assert forall|j: int| 0 <= j < names@.len() implies #[trigger] agent.needs()[j]
        == names@[j]@ by {
        assert(secrets::name_texts(names@)[j] == names@[j]@);
    }
    assert(r@.map_values(|requirement: SecretRequirement| requirement@)
        =~= agent.needs().map_values(|name: Seq<char>| seq![name]));
    r
}

} // verus!
