//! The built-in adapter for the CLI that takes its prompt in one-shot print
//! mode.

use crate::agent::AgentAdapter;
use crate::budget::{self, TokenUsage};
use crate::json::{self, Json};
use crate::sandbox::ExecSpec;
use crate::secrets::{self, SecretName};
use crate::text;
use crate::wire;
use vstd::prelude::*;

verus! {

/// Drives its CLI headless: one-shot print mode with JSON output so token
/// usage is parseable, permissions skipped because the microVM is the safety
/// boundary.
#[derive(Debug, Clone, PartialEq, Eq)]
pub struct ClaudeAdapter {
    /// The CLI's binary, which is also the engine name flows select it by.
    /// The host knows what it installed.
    pub binary: String,
}

impl ClaudeAdapter {
    pub fn new(binary: &str) -> (r: ClaudeAdapter)
        ensures
            r.binary@ == binary@,
    {
        ClaudeAdapter { binary: binary.to_owned() }
    }
}

/// The member as a count, 0 where it is missing.
pub open spec fn count_or_zero_at(v: json::JsonView, key: Seq<char>) -> Option<int> {
    match json::member(v, key) {
        None => Some(0),
        Some(_) => wire::count_at(v, key, u64::MAX as int),
    }
}

/// [`count_or_zero_at`], computed.
fn read_count_or_zero(v: &Json, key: &str) -> (r: Option<u64>)
    ensures
        match r {
            Some(n) => count_or_zero_at(v@, key@) == Some(n as int),
            None => count_or_zero_at(v@, key@) is None,
        },
{
    match v.get(key) {
        None => Some(0),
        Some(_) => wire::read_u64(v, key),
    }
}

/// The usage that an output line bills, where it is the result object that
/// the CLI prints as the last line. The `type` tag is part of the match:
/// agent-echoed JSON that happens to carry a `usage` key must never be
/// mistaken for the bill. Cache traffic is reported apart from
/// `input_tokens`; the three input-side counts are summed, so that one token
/// cap means the same thing across engines.
pub open spec fn billed(v: json::JsonView) -> Option<TokenUsage> {
    match (wire::text_at(v, "type"@), json::member(v, "usage"@)) {
        (Some(kind), Some(usage)) => if kind == "result"@ {
            match (
                wire::count_at(usage, "input_tokens"@, u64::MAX as int),
                count_or_zero_at(usage, "cache_creation_input_tokens"@),
                count_or_zero_at(usage, "cache_read_input_tokens"@),
                wire::count_at(usage, "output_tokens"@, u64::MAX as int),
            ) {
                (Some(input), Some(created), Some(read), Some(output)) => Some(
                    TokenUsage {
                        input: budget::capped_sum(budget::capped_sum(input, created), read) as u64,
                        output: output as u64,
                    },
                ),
                _ => None,
            }
        } else {
            None
        },
        _ => None,
    }
}

/// [`billed`], computed.
pub fn read_bill(v: &Json) -> (r: Option<TokenUsage>)
    ensures
        r == billed(v@),
{
    let kind = wire::read_text(v, "type")?;
    let usage = match v.get("usage") {
        Some(usage) => usage,
        None => return None,
    };
    if !text::same(kind.as_str(), "result") {
        return None;
    }
    let input: u64 = wire::read_u64(usage, "input_tokens")?;
    let created: u64 = read_count_or_zero(usage, "cache_creation_input_tokens")?;
    let read: u64 = read_count_or_zero(usage, "cache_read_input_tokens")?;
    let output: u64 = wire::read_u64(usage, "output_tokens")?;
    Some(TokenUsage { input: input.saturating_add(created).saturating_add(read), output })
}

/// The bill of the last line that is one.
pub open spec fn last_bill(lines: Seq<Seq<char>>) -> Option<TokenUsage>
    decreases lines.len(),
{
    if lines.len() == 0 {
        None
    } else {
        match line_bill(lines.last()) {
            Some(usage) => Some(usage),
            None => last_bill(lines.drop_last()),
        }
    }
}

/// The bill that one line is.
pub open spec fn line_bill(line: Seq<char>) -> Option<TokenUsage> {
    match json::parsed(line) {
        Some(v) => billed(v),
        None => None,
    }
}

impl AgentAdapter for ClaudeAdapter {
    open spec fn known_as(&self) -> Seq<char> {
        self.binary@
    }

    open spec fn needs(&self) -> Seq<Seq<char>> {
        seq!["ANTHROPIC_API_KEY"@]
    }

    open spec fn command(&self, prompt: Seq<char>) -> Seq<Seq<char>> {
        seq![
            self.binary@,
            "-p"@,
            prompt,
            "--output-format"@,
            "json"@,
            "--dangerously-skip-permissions"@,
        ]
    }

    open spec fn bill(&self, stdout: Seq<char>) -> Option<TokenUsage> {
        last_bill(text::lines(stdout))
    }

    fn name(&self) -> (s: &str) {
        self.binary.as_str()
    }

    fn required_secrets(&self) -> (r: Vec<SecretName>) {
        let r = vec![SecretName::new("ANTHROPIC_API_KEY")];
        assert(secrets::name_texts(r@) =~= self.needs());
        r
    }

    fn invocation(&self, prompt: &str) -> (r: ExecSpec) {
        let argv = vec![
            self.binary.clone(),
            "-p".to_owned(),
            prompt.to_owned(),
            "--output-format".to_owned(),
            "json".to_owned(),
            "--dangerously-skip-permissions".to_owned(),
        ];
        assert(text::texts(argv@) =~= self.command(prompt@));
        ExecSpec { argv, cwd: None }
    }

    fn token_usage(&self, stdout: &str) -> (r: Option<TokenUsage>) {
        // Scanned from the end: the result object is the last line, but tool
        // output the agent echoed may precede it.
        let lines = text::lines_of(stdout);
        let ghost all = text::texts(lines@);
        let mut i: usize = lines.len();
        assert(all.take(i as int) =~= all);
        while i > 0
            invariant
                i <= lines@.len(),
                all == text::texts(lines@),
                all == text::lines(stdout@),
                last_bill(all.take(i as int)) == last_bill(all),
            decreases i,
        {
            i = i - 1;
            assert(all.take(i + 1).drop_last() =~= all.take(i as int));
            assert(all.take(i + 1).last() == lines@[i as int]@);
            if let Ok(v) = Json::parse(lines[i].as_str()) {
                if let Some(usage) = read_bill(&v) {
                    return Some(usage);
                }
            }
        }
        None
    }
}

} // verus!
