//! Budgets, durations, and the running books.

use hako::budget::{BudgetKind, BudgetUsage, Budgets, Duration, TokenUsage};
use hako::flow::{BudgetConfig, FlowDuration};

#[test]
fn default_budgets_cap_nothing_but_the_iteration() {
    let budgets = Budgets::default();
    assert_eq!(budgets.max_iterations, None);
    assert_eq!(budgets.max_wall_clock, None);
    assert_eq!(budgets.max_tokens, None);
    assert_eq!(budgets.iteration_timeout, Duration::from_secs(30 * 60));
}

#[test]
fn an_unset_budget_section_lowers_to_the_defaults() {
    assert_eq!(Budgets::from(&BudgetConfig::default()), Budgets::default());
}

#[test]
fn budget_authored_budgets_lower_onto_engine_budgets() {
    let authored = BudgetConfig {
        max_iterations: Some(20),
        max_hours: Some(6),
        max_tokens: None,
        iteration_timeout: Some("30m".parse::<FlowDuration>().unwrap()),
    };
    let budgets = Budgets::from(&authored);
    assert_eq!(budgets.max_iterations, Some(20));
    assert_eq!(budgets.max_wall_clock, Some(Duration::from_secs(6 * 3600)));
    assert_eq!(budgets.max_tokens, None);
    assert_eq!(budgets.iteration_timeout, Duration::from_secs(30 * 60));
}

#[test]
fn flow_authored_budgets_lower_onto_engine_budgets() {
    let authored = BudgetConfig {
        max_iterations: Some(20),
        max_hours: Some(6),
        max_tokens: None,
        iteration_timeout: None,
    };
    let budgets = authored.budgets();
    assert_eq!(budgets.max_iterations, Some(20));
    assert_eq!(budgets.max_wall_clock, Some(Duration::from_secs(6 * 3600)));
    assert_eq!(budgets.max_tokens, None);
    assert_eq!(budgets.iteration_timeout, Duration::from_secs(30 * 60));
}

#[test]
fn uncapped_budgets_never_exhaust() {
    let mut usage = BudgetUsage::default();
    usage.record_tokens(TokenUsage {
        input: u64::MAX,
        output: 0,
    });
    assert_eq!(
        Budgets::default().exhausted(&usage, Duration::zero(), u32::MAX),
        None
    );
}

#[test]
fn iterations_exhaust_when_the_completed_count_reaches_the_cap() {
    let budgets = Budgets {
        max_iterations: Some(2),
        ..Budgets::default()
    };
    let usage = BudgetUsage::default();
    assert_eq!(budgets.exhausted(&usage, Duration::zero(), 1), None);
    assert_eq!(
        budgets.exhausted(&usage, Duration::zero(), 2),
        Some(BudgetKind::Iterations)
    );
}

#[test]
fn wall_clock_exhausts_on_active_time() {
    let budgets = Budgets {
        max_wall_clock: Some(Duration::from_secs(60)),
        ..Budgets::default()
    };
    let mut usage = BudgetUsage::default();
    usage.start(Duration::from_secs(1000));
    assert_eq!(
        budgets.exhausted(&usage, Duration::from_secs(1059), 0),
        None
    );
    assert_eq!(
        budgets.exhausted(&usage, Duration::from_secs(1060), 0),
        Some(BudgetKind::WallClock)
    );
    usage.stop(Duration::from_secs(1060));
}

#[test]
fn tokens_exhaust_only_when_the_adapter_reported_usage() {
    let budgets = Budgets {
        max_tokens: Some(10),
        ..Budgets::default()
    };
    let mut usage = BudgetUsage::default();
    assert_eq!(budgets.exhausted(&usage, Duration::zero(), 0), None);
    usage.record_tokens(TokenUsage {
        input: 6,
        output: 4,
    });
    assert_eq!(
        budgets.exhausted(&usage, Duration::zero(), 0),
        Some(BudgetKind::Tokens)
    );
}

#[test]
fn usage_accumulates_active_time_but_not_the_pause_window() {
    let mut usage = BudgetUsage::default();
    usage.start(Duration::zero());
    usage.stop(Duration::from_secs(30));
    usage.start(Duration::from_secs(330));
    assert_eq!(
        usage.elapsed(Duration::from_secs(375)),
        Duration::from_secs(75)
    );
    usage.stop(Duration::from_secs(375));
    assert_eq!(
        usage.elapsed(Duration::from_secs(10_000)),
        Duration::from_secs(75)
    );
}

#[test]
fn durations_parse_by_unit() {
    for (text, expected) in [
        ("500ms", Duration::from_millis(500)),
        ("90s", Duration::from_secs(90)),
        ("30m", Duration::from_secs(30 * 60)),
        ("6h", Duration::from_secs(6 * 3600)),
        ("999999999h", Duration::from_secs(999_999_999 * 3600)),
    ] {
        let parsed: FlowDuration = text.parse().unwrap();
        assert_eq!(parsed.as_duration(), expected, "{text}");
    }
}

#[test]
fn malformed_durations_are_rejected() {
    for text in [
        "",
        "30",
        "0m",
        "030m",
        "1000000000s",
        "m",
        "1.5h",
        "30 m",
        "-5m",
        "5d",
    ] {
        assert!(text.parse::<FlowDuration>().is_err(), "{text}");
    }
    let error = "030m".parse::<FlowDuration>().unwrap_err().to_text();
    for fragment in ["invalid duration", "030m", "\"30m\""] {
        assert!(error.contains(fragment), "{error}");
    }
}

#[test]
fn durations_saturate_at_both_ends() {
    let day = Duration::from_secs(86_400);
    assert_eq!(Duration::zero().saturating_sub(day), Duration::zero());
    let longest = Duration::from_parts(u64::MAX, 999_999_999).unwrap();
    assert_eq!(longest.saturating_add(day), longest);
    assert_eq!(
        Duration::from_millis(1_500)
            .saturating_add(Duration::from_millis(700))
            .as_secs(),
        2
    );
    assert_eq!(Duration::from_parts(1, 1_000_000_000), None);
}

#[test]
fn token_totals_add_up_and_saturate() {
    let mut usage = BudgetUsage::default();
    assert_eq!(usage.tokens(), None);
    usage.record_tokens(TokenUsage {
        input: 3,
        output: 4,
    });
    usage.record_tokens(TokenUsage {
        input: 10,
        output: 0,
    });
    assert_eq!(usage.tokens(), Some(17));
    usage.record_tokens(TokenUsage {
        input: u64::MAX,
        output: u64::MAX,
    });
    assert_eq!(usage.tokens(), Some(u64::MAX));
}

#[test]
fn spans_of_one_length_are_one_span() {
    assert_eq!(Duration::from_secs(2), Duration::from_parts(2, 0).unwrap());
    assert_ne!(Duration::from_secs(2), Duration::from_parts(2, 1).unwrap());
}
