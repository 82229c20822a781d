//! The built-in adapter for the OpenAI Codex CLI.

use crate::agent::AgentAdapter;
use crate::budget::TokenUsage;
use crate::json::{self, Json};
use crate::sandbox::ExecSpec;
use crate::secrets::{self, SecretName};
use crate::text;
use crate::wire;
use vstd::prelude::*;

verus! {

/// Drives `codex exec` headless: JSONL events on stdout, codex's own sandbox
/// disabled because the microVM is the safety boundary, the git check
/// skipped so mount-mode workspaces need not be repos.
#[derive(Debug, Clone, Copy, PartialEq, Eq)]
pub struct CodexAdapter;

/// The usage that an event line bills: only `turn.completed` carries one.
/// Codex's `input_tokens` already includes cached input.
pub open spec fn billed(v: json::JsonView) -> Option<TokenUsage> {
    match (wire::text_at(v, "type"@), json::member(v, "usage"@)) {
        (Some(kind), Some(usage)) => if kind == "turn.completed"@ {
            match (
                wire::count_at(usage, "input_tokens"@, u64::MAX as int),
                wire::count_at(usage, "output_tokens"@, u64::MAX as int),
            ) {
                (Some(input), Some(output)) => Some(
                    TokenUsage { input: input as u64, output: output as u64 },
                ),
                _ => None,
            }
        } else {
            None
        },
        _ => None,
    }
}

/// [`billed`], computed.
pub fn read_bill(v: &Json) -> (r: Option<TokenUsage>)
    ensures
        r == billed(v@),
{
    let kind = wire::read_text(v, "type")?;
    let usage = match v.get("usage") {
        Some(usage) => usage,
        None => return None,
    };
    if !text::same(kind.as_str(), "turn.completed") {
        return None;
    }
    let input: u64 = wire::read_u64(usage, "input_tokens")?;
    let output: u64 = wire::read_u64(usage, "output_tokens")?;
    Some(TokenUsage { input, output })
}

/// The bill that one line is.
pub open spec fn line_bill(line: Seq<char>) -> Option<TokenUsage> {
    match json::parsed(line) {
        Some(v) => billed(v),
        None => None,
    }
}

/// The bills of all the lines together; none where no line is one. A run may
/// complete several turns, and the budget cares about their sum.
pub open spec fn total_bill(lines: Seq<Seq<char>>) -> Option<TokenUsage>
    decreases lines.len(),
{
    if lines.len() == 0 {
        None
    } else {
        match (total_bill(lines.drop_last()), line_bill(lines.last())) {
            (Some(sum), Some(turn)) => Some(sum.with(turn)),
            (Some(sum), None) => Some(sum),
            (None, turn) => turn,
        }
    }
}

impl AgentAdapter for CodexAdapter {
    open spec fn known_as(&self) -> Seq<char> {
        "codex"@
    }

    open spec fn needs(&self) -> Seq<Seq<char>> {
        seq!["CODEX_API_KEY"@]
    }

    open spec fn command(&self, prompt: Seq<char>) -> Seq<Seq<char>> {
        seq![
            "codex"@,
            "exec"@,
            "--json"@,
            "--sandbox"@,
            "danger-full-access"@,
            "--skip-git-repo-check"@,
            prompt,
        ]
    }

    open spec fn bill(&self, stdout: Seq<char>) -> Option<TokenUsage> {
        total_bill(text::lines(stdout))
    }

    fn name(&self) -> (s: &str) {
        "codex"
    }

    fn required_secrets(&self) -> (r: Vec<SecretName>) {
        // The API-key variable `codex exec` reads; OPENAI_API_KEY only feeds
        // the interactive login flow.
        let r = vec![SecretName::new("CODEX_API_KEY")];
        assert(secrets::name_texts(r@) =~= self.needs());
        r
    }

    fn invocation(&self, prompt: &str) -> (r: ExecSpec) {
        let argv = vec![
            "codex".to_owned(),
            "exec".to_owned(),
            "--json".to_owned(),
            "--sandbox".to_owned(),
            "danger-full-access".to_owned(),
            "--skip-git-repo-check".to_owned(),
            prompt.to_owned(),
        ];
        assert(text::texts(argv@) =~= self.command(prompt@));
        ExecSpec { argv, cwd: None }
    }

    fn token_usage(&self, stdout: &str) -> (r: Option<TokenUsage>) {
        let lines = text::lines_of(stdout);
        let ghost all = text::texts(lines@);
        let mut sum: Option<TokenUsage> = None;
        assert(all.take(0) =~= Seq::empty());
        for i in 0..lines.len()
            invariant
                all == text::texts(lines@),
                sum == total_bill(all.take(i as int)),
        {
            assert(all.take(i + 1).drop_last() =~= all.take(i as int));
            assert(all.take(i + 1).last() == lines@[i as int]@);
            if let Ok(v) = Json::parse(lines[i].as_str()) {
                if let Some(turn) = read_bill(&v) {
                    sum = match sum {
                        Some(sum) => Some(sum.plus(&turn)),
                        None => Some(turn),
                    };
                }
            }
        }
        assert(all.take(lines@.len() as int) =~= all);
        sum
    }
}

} // verus!
