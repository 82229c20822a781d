//! Raw output on its way to text: decoding, scrubbing, bounding.

use hako::budget::TokenUsage;
use hako::event::{OutputStream, RunEvent};
use hako::invocation::{ReportContract, ScrubbedStream};
use hako::json::Json;
use hako::run::{PauseReason, RunId, RunOutcome, RunState};
use hako::sandbox::ExitStatus;
use hako::scrub::{Scrubbed, REDACTED};
use hako::secrets::{
    Resolution, Resolve, SecretEnv, SecretName, SecretRequirement, SecretValue, SecretsError,
    SecretsProvider,
};
use hako::sink::{scrub_json, EventSink, ScrubbingSink};
use hako::skeptic::{SkepticContract, SkepticReport, REPORT_SCHEMA};
use hako::testkit::{MapSecrets, NoSecrets, RecordingSink};
use hako::utf8::{incomplete_utf8_suffix, into_text, StreamDecoder};
use hako::verify::{decode_tail, push_bounded, tail, MAX_OUTPUT_BYTES, OUTPUT_TAIL_CHARS};

#[test]
fn only_a_zero_exit_is_success() {
    assert!(ExitStatus { code: Some(0) }.success());
    assert!(!ExitStatus { code: Some(1) }.success());
    assert!(!ExitStatus { code: None }.success());
}

#[test]
fn a_codepoint_split_across_chunks_decodes_whole() {
    let mut decoder = StreamDecoder::default();
    let mut out = String::new();
    // "naïve" chopped inside the two-byte 'ï'.
    for chunk in [&b"na\xC3"[..], &b"\xAFve"[..]] {
        out.push_str(&decoder.push(chunk.to_vec()));
    }
    out.push_str(&decoder.finish());
    assert_eq!(out, "na\u{ef}ve");
}

#[test]
fn invalid_bytes_are_not_held() {
    let mut decoder = StreamDecoder::default();
    assert_eq!(decoder.push(b"\xFFa".to_vec()), "\u{fffd}a");
    assert_eq!(decoder.push(b"\x80b".to_vec()), "\u{fffd}b");
    assert_eq!(decoder.finish(), "");
    assert_eq!(into_text(b"\xFFa".to_vec()), "\u{fffd}a");
}

#[test]
fn an_incomplete_tail_flushes_lossily_at_stream_end() {
    let mut decoder = StreamDecoder::default();
    assert_eq!(decoder.push(b"a\xC3".to_vec()), "a");
    assert_eq!(decoder.finish(), "\u{fffd}");
}

#[test]
fn only_what_may_still_be_completed_is_held() {
    for (bytes, held) in [
        (&b"a\xC3"[..], 1),
        (b"\xC0", 0),
        (b"\xC1", 0),
        (b"\xF5", 0),
        (b"\xF6", 0),
        (b"\xF7", 0),
        (b"\xE0", 1),
        (b"\xE0\x80", 0),
        (b"\xE0\xA0", 2),
        (b"\xED\xA0", 0),
        (b"\xED\x9F", 2),
        (b"\xF0\x80", 0),
        (b"\xF0\x90", 2),
        (b"\xF0\x9F\xA6", 3),
        (b"\xF4\x90", 0),
        (b"\xF4\x8F\xBF", 3),
        (b"\xE2\x82\xAC", 0),
        (b"\x80", 0),
        (b"", 0),
    ] {
        assert_eq!(incomplete_utf8_suffix(&bytes.to_vec()), held, "{bytes:?}");
    }
}

#[test]
fn no_chunking_of_any_bytes_shows() {
    for bytes in [
        &b"na\xC3\xAFve \xF0\x9F\xA6\x80"[..],
        b"\xC0\xAF\xC1\xF5\x80\xF7",
        b"\xE0\x80\x80 \xE0\xA0 \xED\xA0\x80",
        b"\xF0\x80\x80\x80 \xF4\x90\x80\x80",
        b"\xF0\x9F\xA6\xF0\x9F\xE2\x82",
        b"\xFF\xC3\xC3\xAF\x80",
    ] {
        let whole = String::from_utf8_lossy(bytes).into_owned();
        assert_eq!(into_text(bytes.to_vec()), whole);
        for one in 0..=bytes.len() {
            for two in one..=bytes.len() {
                let mut decoder = StreamDecoder::default();
                let mut out = String::new();
                for chunk in [&bytes[..one], &bytes[one..two], &bytes[two..]] {
                    out.push_str(&decoder.push(chunk.to_vec()));
                }
                out.push_str(&decoder.finish());
                assert_eq!(out, whole, "{bytes:?} cut at {one} and {two}");
            }
        }
    }
}

#[test]
fn a_four_byte_codepoint_survives_two_boundaries() {
    let mut decoder = StreamDecoder::default();
    let mut out = String::new();
    // "🦀" (F0 9F A6 80) one byte at a time.
    for chunk in [&b"\xF0"[..], &b"\x9F"[..], &b"\xA6"[..], &b"\x80"[..]] {
        out.push_str(&decoder.push(chunk.to_vec()));
    }
    out.push_str(&decoder.finish());
    assert_eq!(out, "\u{1f980}");
}

#[test]
fn run_id_serializes_as_a_bare_string() {
    let id = RunId::new("run-7");
    assert_eq!(
        Json::Str(id.as_str().to_owned()).to_text(),
        "\"run-7\""
    );
}

#[test]
fn every_outcome_lands_in_the_matching_state() {
    let outcomes = [
        (RunOutcome::Done, RunState::Done),
        (RunOutcome::Failed, RunState::Failed),
        (
            RunOutcome::Paused(PauseReason::Budget),
            RunState::Paused {
                reason: PauseReason::Budget,
            },
        ),
        (RunOutcome::Cancelled, RunState::Cancelled),
    ];
    for (outcome, state) in outcomes {
        assert_eq!(RunState::from(outcome), state);
    }
}

fn env_of(pairs: &[(&str, &str)]) -> SecretEnv {
    SecretEnv::new(
        pairs
            .iter()
            .map(|(name, value)| (name.to_string(), SecretValue::new(value)))
            .collect(),
    )
}

fn value_in(env: &SecretEnv, name: &str) -> String {
    env.get(name).unwrap().expose().to_owned()
}

fn names_in(env: &SecretEnv) -> Vec<String> {
    env.vars().iter().map(|(name, _)| name.clone()).collect()
}

#[test]
fn secret_values_debug_print_redacted() {
    let value = SecretValue::new("ghp_super_sensitive");
    let printed = value.debug_text();
    assert!(!printed.contains("sensitive"));
    assert_eq!(printed, "SecretValue(<redacted>)");
}

#[test]
fn expose_returns_the_value() {
    assert_eq!(SecretValue::new("tok").expose(), "tok");
}

#[test]
fn a_resolved_env_debug_prints_names_without_values() {
    let env = env_of(&[("GH_TOKEN", "ghp_sensitive")]);
    let printed = env.debug_text();
    assert!(printed.contains("GH_TOKEN"), "{printed}");
    assert!(!printed.contains("ghp_sensitive"), "{printed}");
    assert_eq!(printed, r#"SecretEnv { names: ["GH_TOKEN"], .. }"#);
    let env = env_of(&[("NPM_TOKEN", "b"), ("A\"B", "c"), ("NPM_TOKEN", "d")]);
    assert_eq!(
        env.debug_text(),
        r#"SecretEnv { names: ["A\"B", "NPM_TOKEN"], .. }"#
    );
    assert_eq!(SecretEnv::default().debug_text(), "SecretEnv { names: [], .. }");
}

/// Resolves everything through a provider and gives what was asked of it.
fn resolved<P: SecretsProvider>(
    provider: &P,
    names: &[&str],
    requirements: Vec<SecretRequirement>,
) -> (Vec<String>, Result<SecretEnv, SecretsError>) {
    let names = names.iter().map(|name| SecretName::new(name)).collect();
    let mut asked = Vec::new();
    let mut step = Resolution::begin(names, requirements);
    for _ in 0..20 {
        match step {
            Resolve::Ask(at, name) => {
                asked.push(name.as_str().to_owned());
                step = at.answer(provider.resolve(&name));
            }
            Resolve::Ready(env) => return (asked, Ok(env)),
            Resolve::Refused(error) => return (asked, Err(error)),
        }
    }
    panic!("the resolution did not end");
}

fn one_of() -> SecretRequirement {
    SecretRequirement::named("ANTHROPIC_API_KEY").or("CLAUDE_CODE_OAUTH_TOKEN")
}

#[test]
fn flow_names_resolve_exactly_and_a_gap_names_the_secret() {
    let store = MapSecrets::new(&vec![("GH_TOKEN", "ghp_1"), ("NPM_TOKEN", "npm_1")]);
    let (_, env) = resolved(&store, &["GH_TOKEN", "NPM_TOKEN"], vec![]);
    let env = env.ok().unwrap();
    assert_eq!(value_in(&env, "GH_TOKEN"), "ghp_1");
    assert_eq!(value_in(&env, "NPM_TOKEN"), "npm_1");

    let (_, end) = resolved(&store, &["GH_TOKEN", "MISSING"], vec![]);
    let error = end.err().unwrap();
    assert!(matches!(&error, SecretsError::NotFound(name) if name.as_str() == "MISSING"));
    assert!(error.to_text().contains("MISSING"));
}

#[test]
fn any_alternative_satisfies_a_requirement_and_is_injected_under_its_own_name() {
    for provisioned in ["ANTHROPIC_API_KEY", "CLAUDE_CODE_OAUTH_TOKEN"] {
        let store = MapSecrets::new(&vec![(provisioned, "the-credential")]);
        let (_, env) = resolved(&store, &[], vec![one_of()]);
        let env = env.ok().unwrap();
        assert_eq!(names_in(&env), [provisioned]);
        assert_eq!(value_in(&env, provisioned), "the-credential");
    }
}

#[test]
fn the_first_provisioned_alternative_wins() {
    let store = MapSecrets::new(&vec![
        ("ANTHROPIC_API_KEY", "key"),
        ("CLAUDE_CODE_OAUTH_TOKEN", "token"),
    ]);
    let (asked, env) = resolved(&store, &[], vec![one_of()]);
    assert_eq!(names_in(&env.ok().unwrap()), ["ANTHROPIC_API_KEY"]);
    assert_eq!(asked, ["ANTHROPIC_API_KEY"]);
}

#[test]
fn a_flow_listed_credential_satisfies_the_requirement_without_a_second_read() {
    let store = MapSecrets::new(&vec![("CLAUDE_CODE_OAUTH_TOKEN", "token")]);
    let (asked, env) = resolved(&store, &["CLAUDE_CODE_OAUTH_TOKEN"], vec![one_of()]);
    assert_eq!(names_in(&env.ok().unwrap()), ["CLAUDE_CODE_OAUTH_TOKEN"]);
    assert_eq!(asked, ["CLAUDE_CODE_OAUTH_TOKEN"]);
}

#[test]
fn a_requirement_with_nothing_provisioned_names_every_alternative() {
    let store = MapSecrets::new(&vec![("GH_TOKEN", "ghp_1")]);
    let (asked, end) = resolved(&store, &[], vec![one_of()]);
    let error = end.err().unwrap();
    let message = error.to_text();
    assert!(matches!(error, SecretsError::Unsatisfied(_)));
    for name in ["ANTHROPIC_API_KEY", "CLAUDE_CODE_OAUTH_TOKEN"] {
        assert!(message.contains(name), "{message}");
    }
    assert_eq!(asked, ["ANTHROPIC_API_KEY", "CLAUDE_CODE_OAUTH_TOKEN"]);
}

/// A store that is there but broken.
struct BrokenStore;

impl SecretsProvider for BrokenStore {
    fn resolve(&self, _name: &SecretName) -> Result<SecretValue, SecretsError> {
        Err(SecretsError::Provider("permission denied".into()))
    }
}

#[test]
fn a_provider_failure_does_not_fall_through_to_an_alternative() {
    let (asked, end) = resolved(&BrokenStore, &[], vec![one_of()]);
    assert!(matches!(end.err().unwrap(), SecretsError::Provider(_)));
    assert_eq!(asked.len(), 1);
    let (_, end) = resolved(&BrokenStore, &["GH_TOKEN"], vec![]);
    let error = end.err().unwrap();
    assert_eq!(
        error.to_text(),
        "secrets provider failure: permission denied"
    );
}

#[test]
fn an_empty_store_misses_every_name() {
    let (_, end) = resolved(&NoSecrets, &["GH_TOKEN"], vec![]);
    assert_eq!(
        end.err().unwrap().to_text(),
        "secret `GH_TOKEN` is not provisioned"
    );
}

#[test]
fn scrubbing_replaces_every_occurrence_of_every_value() {
    let env = env_of(&[("GH_TOKEN", "ghp_1"), ("NPM_TOKEN", "npm_2")]);
    let scrubbed = env.scrub("pushing with ghp_1, publishing with npm_2, again ghp_1");
    assert_eq!(
        scrubbed.as_str(),
        format!("pushing with {REDACTED}, publishing with {REDACTED}, again {REDACTED}")
    );
}

#[test]
fn a_value_containing_another_is_scrubbed_whole() {
    let env = env_of(&[("SHORT", "ghp_1"), ("LONG", "ghp_1_and_more")]);
    assert_eq!(
        env.scrub("key=ghp_1_and_more").as_str(),
        format!("key={REDACTED}")
    );
}

#[test]
fn text_without_a_secret_is_not_copied() {
    let env = env_of(&[("GH_TOKEN", "ghp_1")]);
    assert!(matches!(env.scrub("nothing to see"), Scrubbed::Borrowed(_)));
    assert!(matches!(
        SecretEnv::default().scrub("ghp_1"),
        Scrubbed::Borrowed(_)
    ));
}

#[test]
fn an_empty_value_scrubs_nothing() {
    let env = env_of(&[("EMPTY", "")]);
    assert_eq!(env.scrub("ordinary output").as_str(), "ordinary output");
}

#[test]
fn scrubbed_text_holds_no_value_and_stays_as_it_is() {
    let env = env_of(&[("A", "ghp_1"), ("B", "p_1gh"), ("C", "_1")]);
    let once = env.scrub("ghp_1ghp_1 p_1 and ghghp_1p_1").as_str().to_owned();
    for value in ["ghp_1", "p_1gh", "_1"] {
        assert!(!once.contains(value), "{once}");
    }
    assert_eq!(env.scrub(&once).as_str(), once);
}

#[test]
fn names_that_become_one_keep_the_first_place_and_the_later_value() {
    let env = env_of(&[("A", "ghp_1"), ("B", "npm_2")]);
    let given = Json::parse(r#"{"ghp_1": 1, "x": ["npm_2"], "npm_2": 3}"#).unwrap();
    assert_eq!(
        scrub_json(&env, &given).to_text(),
        r#"{"[redacted secret]":3,"x":["[redacted secret]"]}"#
    );
    // A name that stands twice is one member, with the later value.
    let given = Json::Object(vec![
        ("ghp_1".into(), Json::Uint(1)),
        ("npm_2".into(), Json::Uint(2)),
        ("ghp_1".into(), Json::Uint(3)),
    ]);
    assert_eq!(
        scrub_json(&env, &given).to_text(),
        r#"{"[redacted secret]":2}"#
    );
}

#[test]
fn a_secret_split_across_chunks_is_redacted_whole() {
    let env = env_of(&[("GH_TOKEN", "ghp_leaked")]);
    let mut stream = ScrubbedStream::new(&env);
    let mut said = String::new();
    for chunk in ["token=gh", "p_lea", "ked and \u{ef}"] {
        said.push_str(&stream.push(chunk.as_bytes().to_vec()));
    }
    said.push_str(&stream.finish());
    assert_eq!(said, format!("token={REDACTED} and \u{ef}"));
}

fn through_the_scrub(secrets: SecretEnv, event: RunEvent) -> RunEvent {
    let mut sink = ScrubbingSink::new(RecordingSink::new(), secrets);
    sink.emit(event).unwrap();
    let landed = sink.into_inner();
    let event = &landed.events()[0];
    RunEvent::from_json(&event.to_json()).unwrap()
}

#[test]
fn an_event_is_handed_on_or_refused_whole() {
    let started = || RunEvent::IterationStarted { iteration: 1 };
    let landed = through_the_scrub(env_of(&[("GH_TOKEN", "ghp_leaked")]), started());
    assert_eq!(landed, started());
    // A value that spells the event's own tag leaves no event to record.
    let mut sink = ScrubbingSink::new(
        RecordingSink::new(),
        env_of(&[("ODD", "iteration_started")]),
    );
    let error = sink.emit(started()).unwrap_err();
    assert!(error.0.starts_with("cannot scrub event: "), "{}", error.0);
    assert!(sink.into_inner().events().is_empty());
}

#[test]
fn agent_output_carrying_a_secret_reaches_the_sink_redacted() {
    let landed = through_the_scrub(
        env_of(&[("GH_TOKEN", "ghp_leaked")]),
        RunEvent::AgentOutput {
            iteration: 1,
            stream: OutputStream::Stdout,
            chunk: "GH_TOKEN=ghp_leaked\n".into(),
        },
    );
    assert_eq!(
        landed,
        RunEvent::AgentOutput {
            iteration: 1,
            stream: OutputStream::Stdout,
            chunk: format!("GH_TOKEN={REDACTED}\n"),
        }
    );
}

#[test]
fn a_secret_is_redacted_anywhere_in_a_nested_report() {
    let report = Json::parse(
        r#"{"status": "continue", "notes": ["used ghp_leaked to push"], "env": {"ghp_leaked": {"value": "ghp_leaked"}}}"#,
    )
    .unwrap();
    let landed = through_the_scrub(
        env_of(&[("GH_TOKEN", "ghp_leaked")]),
        RunEvent::StageReported {
            iteration: 1,
            stage: "implement".into(),
            report,
        },
    );
    let RunEvent::StageReported { report, .. } = landed else {
        panic!("the event changed shape");
    };
    let expected = format!(
        r#"{{"status": "continue", "notes": ["used {REDACTED} to push"], "env": {{"{REDACTED}": {{"value": "{REDACTED}"}}}}}}"#
    );
    let text = report.to_text();
    assert_eq!(
        serde_json::from_str::<serde_json::Value>(&text).unwrap(),
        serde_json::from_str::<serde_json::Value>(&expected).unwrap()
    );
    assert!(!text.contains("ghp_leaked"), "{text}");
}

#[test]
fn an_event_without_a_secret_arrives_unchanged() {
    fn event() -> RunEvent {
        RunEvent::VerifyCheckFinished {
            iteration: 3,
            command: "cargo test".into(),
            passed: false,
            output: "test failed".into(),
        }
    }
    let env = env_of(&[("GH_TOKEN", "ghp_leaked")]);
    assert_eq!(through_the_scrub(env, event()), event());
    assert_eq!(through_the_scrub(SecretEnv::default(), event()), event());
    let usage = || RunEvent::TokensUsed {
        iteration: 1,
        usage: TokenUsage {
            input: 1,
            output: u64::MAX,
        },
    };
    assert_eq!(through_the_scrub(SecretEnv::default(), usage()), usage());
}

fn parse(text: &str) -> Result<SkepticReport, String> {
    SkepticContract.parse(text)
}

#[test]
fn refuted_and_findings_must_agree() {
    let unrefuted = parse(r#"{"refuted": false, "findings": []}"#).unwrap();
    assert!(!unrefuted.refuted);
    let refuted = parse(r#"{"refuted": true, "findings": ["a TODO remains"]}"#).unwrap();
    assert_eq!(refuted.findings, ["a TODO remains"]);

    assert!(parse(r#"{"refuted": true, "findings": []}"#)
        .unwrap_err()
        .contains("at least one finding"));
    assert!(parse(r#"{"refuted": false, "findings": ["stray"]}"#)
        .unwrap_err()
        .contains("no findings"));
}

#[test]
fn unknown_fields_are_rejected() {
    let error = parse(r#"{"refuted": false, "findings": [], "status": "done"}"#).unwrap_err();
    assert!(error.contains("unknown field"), "{error}");
}

#[test]
fn the_schema_is_valid_json_naming_the_contract() {
    let schema: serde_json::Value = serde_json::from_str(REPORT_SCHEMA).unwrap();
    assert_eq!(schema["title"], "SkepticReport");
    assert_eq!(schema["additionalProperties"], false);
}

#[test]
fn short_output_is_kept_whole() {
    assert_eq!(tail("build failed: E0001"), "build failed: E0001");
}

#[test]
fn output_at_exactly_the_cap_is_kept_whole() {
    let output: String = "x".repeat(OUTPUT_TAIL_CHARS);
    assert_eq!(tail(&output), output);
}

#[test]
fn long_output_keeps_the_tail_and_marks_the_cut() {
    let output: String = "x".repeat(OUTPUT_TAIL_CHARS + 500);
    let tailed = tail(&output);
    assert!(
        tailed.starts_with("…(earlier output truncated)…\n"),
        "{tailed}"
    );
    assert_eq!(
        tailed.chars().filter(|c| *c == 'x').count(),
        OUTPUT_TAIL_CHARS
    );
}

#[test]
fn truncation_respects_character_boundaries() {
    let output: String = "é".repeat(OUTPUT_TAIL_CHARS + 10);
    let tailed = tail(&output);
    assert_eq!(
        tailed.chars().filter(|c| *c == 'é').count(),
        OUTPUT_TAIL_CHARS
    );
}

#[test]
fn the_byte_cap_keeps_the_newest_output() {
    let mut output = Vec::new();
    push_bounded(&mut output, &[b'a'; MAX_OUTPUT_BYTES]);
    push_bounded(&mut output, b"end");
    assert_eq!(output.len(), MAX_OUTPUT_BYTES);
    assert!(output.ends_with(b"end"));
}

#[test]
fn decode_joins_chunks_and_sheds_a_codepoint_the_cap_cut() {
    let bytes = "é".as_bytes();
    let mut output = Vec::new();
    push_bounded(&mut output, &bytes[..1]);
    push_bounded(&mut output, &bytes[1..]);
    assert_eq!(decode_tail(output), "é");
    assert_eq!(decode_tail(vec![bytes[1], b'o', b'k']), "ok");
}

#[test]
fn the_byte_cap_does_not_show_in_the_tail() {
    let long = "é".repeat(OUTPUT_TAIL_CHARS * 3);
    let mut output = Vec::new();
    for chunk in long.as_bytes().chunks(777) {
        push_bounded(&mut output, chunk);
    }
    assert_eq!(tail(&decode_tail(output)), tail(&long));
}
