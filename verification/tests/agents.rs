//! The built-in agent adapters and their resolution.

use hako::agent::AgentAdapter;
use hako::agents::{self, AgentConfigError, ClaudeAdapter, CmdAdapter, CodexAdapter};
use hako::budget::TokenUsage;
use hako::flow::AgentConfig;
use hako::secrets::SecretName;

/// The binary of the one-shot engine on this host.
const CLI: &str = "one-shot-cli";

fn one_shot() -> ClaudeAdapter {
    ClaudeAdapter::new(CLI)
}

fn resolve(config: &AgentConfig) -> Result<agents::Agent, AgentConfigError> {
    agents::resolve(config, CLI)
}

#[test]
fn the_invocation_is_one_shot_json_in_the_workspace() {
    let spec = one_shot().invocation("fix the build");
    assert_eq!(
        spec.argv,
        [
            CLI,
            "-p",
            "fix the build",
            "--output-format",
            "json",
            "--dangerously-skip-permissions",
        ]
    );
    assert_eq!(spec.cwd, None);
}

#[test]
fn the_anthropic_key_is_required() {
    assert_eq!(
        one_shot().required_secrets(),
        [SecretName::new("ANTHROPIC_API_KEY")]
    );
}

#[test]
fn usage_sums_cache_traffic_into_input() {
    let stdout = format!(
        "{}{}{}{}{}",
        "some tool chatter\n",
        r#"{"type":"result","subtype":"success","result":"done","#,
        r#""usage":{"input_tokens":100,"cache_creation_input_tokens":20,"#,
        r#""cache_read_input_tokens":3000,"output_tokens":45},"total_cost_usd":0.12}"#,
        "\n",
    );
    assert_eq!(
        one_shot().token_usage(&stdout),
        Some(TokenUsage {
            input: 3120,
            output: 45,
        })
    );
}

#[test]
fn usage_survives_absent_cache_fields() {
    let stdout = r#"{"type":"result","usage":{"input_tokens":7,"output_tokens":2}}"#;
    assert_eq!(
        one_shot().token_usage(stdout),
        Some(TokenUsage {
            input: 7,
            output: 2,
        })
    );
}

#[test]
fn echoed_json_with_a_usage_key_is_not_the_bill() {
    let stdout = r#"{"type":"api_response","usage":{"input_tokens":9,"output_tokens":9}}"#;
    assert_eq!(one_shot().token_usage(stdout), None);
}

#[test]
fn no_usage_when_stdout_is_not_the_json_contract() {
    assert_eq!(one_shot().token_usage("plain text, no JSON"), None);
    assert_eq!(
        one_shot().token_usage(r#"{"type":"result","result":"no usage key"}"#),
        None
    );
    assert_eq!(one_shot().token_usage(""), None);
}

fn adapter(template: &[&str]) -> CmdAdapter {
    CmdAdapter::new(template.iter().map(|part| part.to_string()).collect()).unwrap()
}

#[test]
fn every_placeholder_receives_the_prompt() {
    let spec = adapter(&["aider", "--message", "{prompt}", "--log", "{prompt}.log"])
        .invocation("fix the build");
    assert_eq!(
        spec.argv,
        [
            "aider",
            "--message",
            "fix the build",
            "--log",
            "fix the build.log",
        ]
    );
    assert_eq!(spec.cwd, None);
}

#[test]
fn elements_without_a_placeholder_pass_through_untouched() {
    let spec = adapter(&["my-agent", "{prompt}"]).invocation("a\nmultiline\nprompt");
    assert_eq!(spec.argv, ["my-agent", "a\nmultiline\nprompt"]);
}

#[test]
fn an_empty_template_is_rejected() {
    assert!(matches!(
        CmdAdapter::new(Vec::new()),
        Err(AgentConfigError::MissingCommand)
    ));
}

#[test]
fn a_template_that_never_takes_the_prompt_is_rejected() {
    assert!(matches!(
        CmdAdapter::new(vec!["my-agent".into(), "--yes".into()]),
        Err(AgentConfigError::PromptPlaceholderMissing)
    ));
}

#[test]
fn no_secrets_and_no_usage_even_for_json_stdout() {
    let adapter = adapter(&["my-agent", "{prompt}"]);
    assert_eq!(adapter.required_secrets(), []);
    assert_eq!(
        adapter.token_usage(r#"{"usage":{"input_tokens":9,"output_tokens":1}}"#),
        None
    );
}

#[test]
fn the_invocation_is_exec_json_with_codex_sandboxing_off() {
    let spec = CodexAdapter.invocation("fix the build");
    assert_eq!(
        spec.argv,
        [
            "codex",
            "exec",
            "--json",
            "--sandbox",
            "danger-full-access",
            "--skip-git-repo-check",
            "fix the build",
        ]
    );
    assert_eq!(spec.cwd, None);
}

#[test]
fn the_codex_key_is_required() {
    assert_eq!(
        CodexAdapter.required_secrets(),
        [SecretName::new("CODEX_API_KEY")]
    );
}

#[test]
fn usage_comes_from_the_turn_completed_event() {
    let stdout = format!(
        "{}\n{}\n{}\n",
        r#"{"type":"thread.started","thread_id":"t1"}"#,
        r#"{"type":"item.completed","item":{"type":"agent_message","text":"done"}}"#,
        r#"{"type":"turn.completed","usage":{"input_tokens":24763,"cached_input_tokens":24448,"output_tokens":122}}"#,
    );
    assert_eq!(
        CodexAdapter.token_usage(&stdout),
        Some(TokenUsage {
            input: 24763,
            output: 122,
        })
    );
}

#[test]
fn usage_sums_across_turns() {
    let stdout = format!(
        "{}\n{}\n",
        r#"{"type":"turn.completed","usage":{"input_tokens":100,"output_tokens":10}}"#,
        r#"{"type":"turn.completed","usage":{"input_tokens":200,"output_tokens":20}}"#,
    );
    assert_eq!(
        CodexAdapter.token_usage(&stdout),
        Some(TokenUsage {
            input: 300,
            output: 30,
        })
    );
}

#[test]
fn no_usage_without_a_completed_turn() {
    assert_eq!(CodexAdapter.token_usage("plain text, no JSON"), None);
    assert_eq!(
        CodexAdapter.token_usage(r#"{"type":"turn.failed","error":{"message":"boom"}}"#),
        None
    );
    assert_eq!(CodexAdapter.token_usage(""), None);
}

fn config(engine: &str, command: Option<&[&str]>) -> AgentConfig {
    AgentConfig {
        engine: engine.into(),
        command: command.map(|argv| argv.iter().map(|part| part.to_string()).collect()),
    }
}

fn resolve_err(config: &AgentConfig) -> AgentConfigError {
    resolve(config).err().unwrap()
}

#[test]
fn each_builtin_resolves_under_its_flow_name() {
    for engine in [CLI, "codex"] {
        assert_eq!(resolve(&config(engine, None)).unwrap().name(), engine);
    }
    let cmd = resolve(&config("cmd", Some(&["my-agent", "{prompt}"]))).unwrap();
    assert_eq!(cmd.name(), "cmd");
}

#[test]
fn an_unknown_engine_fails_naming_it_and_the_builtins() {
    let error = resolve_err(&config("cluade", None));
    assert_eq!(error, AgentConfigError::UnknownEngine("cluade".into()));
    let message = error.to_text(CLI);
    for name in ["cluade", CLI, "codex", "cmd"] {
        assert!(message.contains(name), "{message}");
    }
}

#[test]
fn an_unknown_engine_with_a_command_is_still_unknown() {
    assert_eq!(
        resolve_err(&config("cluade", Some(&["my-agent", "{prompt}"]))),
        AgentConfigError::UnknownEngine("cluade".into())
    );
}

#[test]
fn cmd_without_a_command_fails() {
    for command in [None, Some(&[][..])] {
        assert_eq!(
            resolve_err(&config("cmd", command)),
            AgentConfigError::MissingCommand
        );
    }
}

#[test]
fn a_command_on_a_builtin_engine_fails() {
    for engine in [CLI, "codex"] {
        assert_eq!(
            resolve_err(&config(engine, Some(&["my-agent", "{prompt}"]))),
            AgentConfigError::CommandNotAllowed(engine.into())
        );
    }
}

#[test]
fn a_template_without_a_placeholder_is_refused_at_resolution() {
    let error = resolve_err(&config("cmd", Some(&["my-agent", "--yes"])));
    assert_eq!(error, AgentConfigError::PromptPlaceholderMissing);
    assert!(error.to_text(CLI).contains("{prompt}"));
}
