//! The built-in agent adapters and their resolution from a flow's `[agent]`
//! table. Resolution runs at submit, so a flow naming an engine that doesn't
//! exist, or shaping `command` wrong, fails before a sandbox ever boots.

pub mod claude;
pub mod cmd;
pub mod codex;

pub use claude::ClaudeAdapter;
pub use cmd::CmdAdapter;
pub use codex::CodexAdapter;

use crate::agent::AgentAdapter;
use crate::budget::TokenUsage;
use crate::flow::AgentConfig;
use crate::sandbox::ExecSpec;
use crate::secrets::SecretName;
use crate::text;
use vstd::prelude::*;

verus! {

/// The adapter a run drives its agent through.
#[derive(Debug, PartialEq, Eq)]
pub enum Agent {
    Claude(ClaudeAdapter),
    Codex(CodexAdapter),
    Cmd(CmdAdapter),
    Scripted(crate::testkit::ScriptedAgent),
    /// No agent: the run talks to none.
    Absent(crate::testkit::NoAgent),
}

impl AgentAdapter for Agent {
    open spec fn known_as(&self) -> Seq<char> {
        match self {
            Agent::Claude(a) => a.known_as(),
            Agent::Codex(a) => a.known_as(),
            Agent::Cmd(a) => a.known_as(),
            Agent::Scripted(a) => a.known_as(),
            Agent::Absent(a) => a.known_as(),
        }
    }

    open spec fn needs(&self) -> Seq<Seq<char>> {
        match self {
            Agent::Claude(a) => a.needs(),
            Agent::Codex(a) => a.needs(),
            Agent::Cmd(a) => a.needs(),
            Agent::Scripted(a) => a.needs(),
            Agent::Absent(a) => a.needs(),
        }
    }

    open spec fn command(&self, prompt: Seq<char>) -> Seq<Seq<char>> {
        match self {
            Agent::Claude(a) => a.command(prompt),
            Agent::Codex(a) => a.command(prompt),
            Agent::Cmd(a) => a.command(prompt),
            Agent::Scripted(a) => a.command(prompt),
            Agent::Absent(a) => a.command(prompt),
        }
    }

    open spec fn bill(&self, stdout: Seq<char>) -> Option<TokenUsage> {
        match self {
            Agent::Claude(a) => a.bill(stdout),
            Agent::Codex(a) => a.bill(stdout),
            Agent::Cmd(a) => a.bill(stdout),
            Agent::Scripted(a) => a.bill(stdout),
            Agent::Absent(a) => a.bill(stdout),
        }
    }

    fn name(&self) -> (s: &str) {
        match self {
            Agent::Claude(a) => a.name(),
            Agent::Codex(a) => a.name(),
            Agent::Cmd(a) => a.name(),
            Agent::Scripted(a) => a.name(),
            Agent::Absent(a) => a.name(),
        }
    }

    fn required_secrets(&self) -> (r: Vec<SecretName>) {
        match self {
            Agent::Claude(a) => a.required_secrets(),
            Agent::Codex(a) => a.required_secrets(),
            Agent::Cmd(a) => a.required_secrets(),
            Agent::Scripted(a) => a.required_secrets(),
            Agent::Absent(a) => a.required_secrets(),
        }
    }

    fn invocation(&self, prompt: &str) -> (r: ExecSpec) {
        match self {
            Agent::Claude(a) => a.invocation(prompt),
            Agent::Codex(a) => a.invocation(prompt),
            Agent::Cmd(a) => a.invocation(prompt),
            Agent::Scripted(a) => a.invocation(prompt),
            Agent::Absent(a) => a.invocation(prompt),
        }
    }

    fn token_usage(&self, stdout: &str) -> (r: Option<TokenUsage>) {
        match self {
            Agent::Claude(a) => a.token_usage(stdout),
            Agent::Codex(a) => a.token_usage(stdout),
            Agent::Cmd(a) => a.token_usage(stdout),
            Agent::Scripted(a) => a.token_usage(stdout),
            Agent::Absent(a) => a.token_usage(stdout),
        }
    }
}

/// An `[agent]` table no adapter accepts. The messages carry the fix, in the
/// flow language's own vocabulary.
#[derive(Debug, Clone, PartialEq, Eq)]
pub enum AgentConfigError {
    UnknownEngine(String),
    MissingCommand,
    PromptPlaceholderMissing,
    CommandNotAllowed(String),
}

impl AgentConfigError {
    /// The message a submission is answered with, where `cli` names the
    /// one-shot engine.
    pub open spec fn message(self, cli: Seq<char>) -> Seq<char> {
        match self {
            AgentConfigError::UnknownEngine(engine) => "unknown agent engine `"@ + engine@
                + "` — the built-ins are `"@ + cli + "`, `codex`, and `cmd`"@,
            AgentConfigError::MissingCommand =>
                "engine `cmd` needs a non-empty `command` argv template"@,
            AgentConfigError::PromptPlaceholderMissing =>
                "the `command` template never mentions `{prompt}`, so the agent would run blind"@,
            AgentConfigError::CommandNotAllowed(engine) => "engine `"@ + engine@
                + "` builds its own invocation — `command` is only for `cmd`"@,
        }
    }

    pub fn to_text(&self, cli: &str) -> (s: String)
        ensures
            s@ == self.message(cli@),
    {
        match self {
            AgentConfigError::UnknownEngine(engine) => {
                let mut s = "unknown agent engine `".to_owned();
                s.append(engine.as_str());
                s.append("` — the built-ins are `");
                s.append(cli);
                s.append("`, `codex`, and `cmd`");
                s
            },
            AgentConfigError::MissingCommand => {
                "engine `cmd` needs a non-empty `command` argv template".to_owned()
            },
            AgentConfigError::PromptPlaceholderMissing => {
                "the `command` template never mentions `{prompt}`, so the agent would run blind".to_owned()
            },
            AgentConfigError::CommandNotAllowed(engine) => {
                let mut s = "engine `".to_owned();
                s.append(engine.as_str());
                s.append("` builds its own invocation — `command` is only for `cmd`");
                s
            },
        }
    }
}

/// The elements of a template; none where there is no template.
pub open spec fn template_of(command: Option<Vec<String>>) -> Seq<Seq<char>> {
    match command {
        Some(argv) => text::texts(argv@),
        None => Seq::empty(),
    }
}

/// Whether `r` is what an `[agent]` table resolves to: `cmd` with a template
/// that takes the prompt, `codex` and the one-shot engine, which `cli` names,
/// without one. A missing template and an empty one are the same gap, and an
/// unknown engine is unknown whatever its template.
pub open spec fn resolves(
    config: AgentConfig,
    cli: Seq<char>,
    r: Result<Agent, AgentConfigError>,
) -> bool {
    let engine = config.engine@;
    if engine == "cmd"@ {
        let template = template_of(config.command);
        match r {
            Ok(Agent::Cmd(adapter)) => cmd::takes_prompt(template) && adapter.template()
                == template,
            Err(AgentConfigError::MissingCommand) => template.len() == 0,
            Err(AgentConfigError::PromptPlaceholderMissing) => template.len() > 0
                && !cmd::takes_prompt(template),
            _ => false,
        }
    } else if engine == cli || engine == "codex"@ {
        match r {
            Ok(Agent::Claude(adapter)) => config.command is None && engine == cli
                && adapter.binary@ == cli,
            Ok(Agent::Codex(_)) => config.command is None && engine != cli,
            Err(AgentConfigError::CommandNotAllowed(named)) => config.command is Some && named@
                == engine,
            _ => false,
        }
    } else {
        r matches Err(AgentConfigError::UnknownEngine(named)) && named@ == engine
    }
}

/// Builds the adapter a flow's `[agent]` table selects. The engine name is
/// an open set at the flow-language level, so this is where a typo surfaces,
/// with the built-in names in the error.
pub fn resolve(config: &AgentConfig, cli: &str) -> (r: Result<Agent, AgentConfigError>)
    ensures
        resolves(*config, cli@, r),
{
    let engine = config.engine.as_str();
    if text::same(engine, "cmd") {
        let template: Vec<String> = match &config.command {
            Some(argv) => text::copied_all(argv),
            None => Vec::new(),
        };
        assert(text::texts(template@) =~= template_of(config.command));
        return match CmdAdapter::new(template) {
            Ok(adapter) => Ok(Agent::Cmd(adapter)),
            Err(error) => Err(error),
        };
    }
    let agent: Agent = if text::same(engine, cli) {
        Agent::Claude(ClaudeAdapter::new(cli))
    } else if text::same(engine, "codex") {
        Agent::Codex(CodexAdapter)
    } else {
        return Err(AgentConfigError::UnknownEngine(config.engine.clone()));
    };
    // Checked after the name resolves: a typo with a `command` is still an
    // unknown engine.
    if config.command.is_some() {
        return Err(AgentConfigError::CommandNotAllowed(config.engine.clone()));
    }
    Ok(agent)
}

/// Whatever a table resolves to answers to the engine name it was selected
/// by.
pub proof fn an_agent_answers_to_its_flow_name(config: AgentConfig, cli: Seq<char>, agent: Agent)
    requires
        resolves(config, cli, Ok(agent)),
    ensures
        agent.known_as() == config.engine@,
{
}

} // verus!
