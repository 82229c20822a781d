//! Flow config: the short file that parameterizes a kernel. What a flow
//! says, lowered onto what the engine runs by, and the grammar of the
//! durations in it.

use crate::budget::{self, Budgets, Duration};
use crate::secrets::SecretName;
use crate::text;
use vstd::prelude::*;

verus! {

/// A parsed flow: what to achieve, with which agent, under which limits.
/// Contains no logic; control flow belongs to the kernel.
#[derive(Debug, Clone, PartialEq, Eq)]
pub struct FlowConfig {
    pub loop_config: LoopConfig,
    pub agent: AgentConfig,
    pub budget: BudgetConfig,
    pub verify: VerifyConfig,
    pub prompts: PromptsConfig,
    pub workspace: WorkspaceConfig,
    pub secrets: SecretsConfig,
    pub notify: Option<NotifyConfig>,
}

/// Which kernel runs the loop and what it is trying to achieve.
#[derive(Debug, Clone, PartialEq, Eq)]
pub struct LoopConfig {
    pub kernel: KernelName,
    /// What the loop is trying to achieve, passed verbatim to the kernel.
    pub goal: String,
}

/// The loop patterns the engine ships. A closed set by design: a new loop
/// shape is a new kernel, never logic in the flow file.
#[derive(Debug, Clone, Copy, PartialEq, Eq, Structural)]
pub enum KernelName {
    Pipeline,
    Fanout,
    Ralph,
}

impl KernelName {
    /// The name a flow selects the kernel by.
    pub open spec fn word(self) -> Seq<char> {
        match self {
            KernelName::Pipeline => "pipeline"@,
            KernelName::Fanout => "fanout"@,
            KernelName::Ralph => "ralph"@,
        }
    }

    pub fn as_str(&self) -> (s: &'static str)
        ensures
            s@ == self.word(),
    {
        match self {
            KernelName::Pipeline => "pipeline",
            KernelName::Fanout => "fanout",
            KernelName::Ralph => "ralph",
        }
    }

    /// Every kernel there is.
    pub fn all() -> (r: Vec<KernelName>)
        ensures
            forall|name: KernelName| r@.contains(name),
    {
        let r = vec![KernelName::Pipeline, KernelName::Fanout, KernelName::Ralph];
        assert(r@[0] == KernelName::Pipeline && r@[1] == KernelName::Fanout && r@[2]
            == KernelName::Ralph);
        assert forall|name: KernelName| r@.contains(name) by {
            match name {
                KernelName::Pipeline => assert(r@[0] == name),
                KernelName::Fanout => assert(r@[1] == name),
                KernelName::Ralph => assert(r@[2] == name),
            }
        }
        r
    }

    /// The kernel that a flow's word selects.
    pub fn named(word: &str) -> (r: Option<KernelName>)
        ensures
            match r {
                Some(name) => word@ == name.word(),
                None => forall|name: KernelName| word@ != #[trigger] name.word(),
            },
    {
        if text::same(word, "pipeline") {
            Some(KernelName::Pipeline)
        } else if text::same(word, "fanout") {
            Some(KernelName::Fanout)
        } else if text::same(word, "ralph") {
            Some(KernelName::Ralph)
        } else {
            None
        }
    }
}

/// Different kernels are selected by different words.
pub proof fn kernel_names_differ(a: KernelName, b: KernelName)
    requires
        a.word() == b.word(),
    ensures
        a == b,
{
    reveal_strlit("pipeline");
    reveal_strlit("fanout");
    reveal_strlit("ralph");
    assert("pipeline"@.len() == 8 && "fanout"@.len() == 6 && "ralph"@.len() == 5);
}

/// Which agent drives the iterations.
#[derive(Debug, Clone, PartialEq, Eq)]
pub struct AgentConfig {
    /// An agent adapter name, e.g. `codex`. An open set, so unlike `kernel`
    /// it is not an enum.
    pub engine: String,
    /// The argv template of the `cmd` engine.
    pub command: Option<Vec<String>>,
}

/// The caps a flow puts on one run. Everything left unset keeps the engine
/// default.
#[derive(Debug, Clone, PartialEq, Eq)]
pub struct BudgetConfig {
    pub max_iterations: Option<u32>,
    /// Wall-clock cap on the whole run, in whole hours.
    pub max_hours: Option<u32>,
    pub max_tokens: Option<u64>,
    /// Cap on one iteration, e.g. `"30m"`. The one hard budget.
    pub iteration_timeout: Option<FlowDuration>,
}

impl Default for BudgetConfig {
    fn default() -> (r: BudgetConfig)
        ensures
            r == (BudgetConfig {
                max_iterations: None,
                max_hours: None,
                max_tokens: None,
                iteration_timeout: None,
            }),
    {
        BudgetConfig {
            max_iterations: None,
            max_hours: None,
            max_tokens: None,
            iteration_timeout: None,
        }
    }
}

/// The caps that an authored budget section sets: hours as wall-clock time,
/// everything left unset as the default has it.
pub open spec fn lowered(config: BudgetConfig) -> Budgets {
    Budgets {
        max_iterations: config.max_iterations,
        max_wall_clock: match config.max_hours {
            Some(hours) => Some(Duration::of_secs((hours * 3600) as u64)),
            None => None,
        },
        max_tokens: config.max_tokens,
        iteration_timeout: match config.iteration_timeout {
            Some(duration) => duration.span(),
            None => Duration::of_secs(budget::DEFAULT_ITERATION_TIMEOUT_SECS),
        },
    }
}

impl BudgetConfig {
    /// Lowers the authored caps onto the engine's [`Budgets`].
    pub fn budgets(&self) -> (r: Budgets)
        ensures
            r == lowered(*self),
    {
        Budgets {
            max_iterations: self.max_iterations,
            max_wall_clock: match self.max_hours {
                Some(hours) => Some(Duration::from_secs(hours as u64 * 3600)),
                None => None,
            },
            max_tokens: self.max_tokens,
            iteration_timeout: match self.iteration_timeout {
                Some(duration) => duration.as_duration(),
                None => Duration::from_secs(budget::DEFAULT_ITERATION_TIMEOUT_SECS),
            },
        }
    }
}

/// Lowers a flow's authored caps onto the engine's budgets.
impl From<&BudgetConfig> for Budgets {
    fn from(config: &BudgetConfig) -> (r: Budgets) {
        config.budgets()
    }
}

impl vstd::std_specs::convert::FromSpecImpl<&BudgetConfig> for Budgets {
    open spec fn obeys_from_spec() -> bool {
        true
    }

    open spec fn from_spec(config: &BudgetConfig) -> Budgets {
        lowered(*config)
    }
}

/// The verify checks an iteration must pass to count as progress. No checks
/// means every iteration counts.
#[derive(Debug, Clone, PartialEq, Eq)]
pub struct VerifyConfig {
    /// Commands run in the sandbox after the agent's invocation; each must
    /// exit zero.
    pub checks: Vec<String>,
    pub on_fail: OnFail,
}

impl Default for VerifyConfig {
    fn default() -> (r: VerifyConfig)
        ensures
            r.checks@.len() == 0,
            r.on_fail == (OnFail { retries: 0, action: FailAction::Pause }),
    {
        VerifyConfig { checks: Vec::new(), on_fail: OnFail::default() }
    }
}

/// What the kernel does once an iteration's checks fail.
#[derive(Debug, Clone, Copy, PartialEq, Eq, Structural)]
pub struct OnFail {
    /// Extra attempts the agent gets before `action` applies.
    pub retries: u32,
    pub action: FailAction,
}

impl Default for OnFail {
    fn default() -> (r: OnFail)
        ensures
            r == (OnFail { retries: 0, action: FailAction::Pause }),
    {
        OnFail { retries: 0, action: FailAction::Pause }
    }
}

/// Where the run goes when retries are spent. Pausing is the default: a run
/// that stops making verified progress should wait for a human, not burn
/// budget or die.
#[derive(Debug, Clone, Copy, PartialEq, Eq, Structural)]
pub enum FailAction {
    Pause,
    Fail,
}

/// The flow's configured prompt slots: slot name to workspace-relative file.
#[derive(Debug, Clone, PartialEq, Eq)]
pub struct PromptsConfig {
    pub slots: Vec<(String, String)>,
}

/// The file configured for a slot: that of the first entry of its name.
pub open spec fn slot_file(slots: Seq<(String, String)>, slot: Seq<char>) -> Option<Seq<char>>
    decreases slots.len(),
{
    if slots.len() == 0 {
        None
    } else if slots[0].0@ == slot {
        Some(slots[0].1@)
    } else {
        slot_file(slots.skip(1), slot)
    }
}

impl PromptsConfig {
    /// The file configured for `slot`.
    pub open spec fn file(self, slot: Seq<char>) -> Option<Seq<char>> {
        slot_file(self.slots@, slot)
    }

    pub fn get(&self, slot: &str) -> (r: Option<&str>)
        ensures
            match r {
                Some(file) => self.file(slot@) == Some(file@),
                None => self.file(slot@) is None,
            },
    {
        assert(self.slots@.skip(0) =~= self.slots@);
        for i in 0..self.slots.len()
            invariant
                slot_file(self.slots@.skip(i as int), slot@) == self.file(slot@),
        {
            assert(self.slots@.skip(i as int)[0] == self.slots@[i as int]);
            assert(self.slots@.skip(i as int).skip(1) =~= self.slots@.skip(i + 1));
            if text::same(self.slots[i].0.as_str(), slot) {
                return Some(self.slots[i].1.as_str());
            }
        }
        assert(self.slots@.skip(self.slots@.len() as int) =~= Seq::empty());
        None
    }
}

impl Default for PromptsConfig {
    fn default() -> (r: PromptsConfig)
        ensures
            forall|slot: Seq<char>| r.file(slot) is None,
    {
        PromptsConfig { slots: Vec::new() }
    }
}

/// The one thing that survives iterations: the repo the loop works on.
#[derive(Debug, Clone, PartialEq, Eq)]
pub struct WorkspaceConfig {
    /// Path or URL of the repository the workspace is seeded from.
    pub repo: String,
    pub mode: WorkspaceMode,
    /// The branch a clone is seeded from.
    pub branch: Option<String>,
    /// Whether a mount may take a checkout that carries changes.
    pub force: bool,
}

/// How a run comes by its workspace: a clone of its own, or the user's
/// checkout itself.
#[derive(Debug, Clone, Copy, PartialEq, Eq, Structural)]
pub enum WorkspaceMode {
    Clone,
    Mount,
}

/// Secret *names* only: values live in the daemon's store, so flow files
/// stay safe to commit and to hand to an LLM.
#[derive(Debug, Clone, PartialEq, Eq)]
pub struct SecretsConfig {
    /// Secrets injected into the sandbox as environment variables, by name.
    pub env: Vec<SecretName>,
}

/// Where the daemon pushes run lifecycle notifications.
#[derive(Debug, Clone, PartialEq, Eq)]
pub struct NotifyConfig {
    /// URL POSTed to when the run pauses, finishes, or fails.
    pub webhook: String,
}

/// A duration as a flow author writes one: a positive integer with a unit,
/// `"500ms"`, `"90s"`, `"30m"`, `"6h"`.
#[derive(Debug, Clone, Copy, PartialEq, Eq)]
pub struct FlowDuration {
    duration: Duration,
}

/// The largest count a duration can be written with: nine digits, so that no
/// unit conversion can overflow.
pub const MAX_COUNT: u64 = 999_999_999;

/// How many milliseconds a unit stands for.
pub open spec fn unit_millis(unit: Seq<char>) -> Option<nat> {
    if unit == "ms"@ {
        Some(1)
    } else if unit == "s"@ {
        Some(1000)
    } else if unit == "m"@ {
        Some(60_000)
    } else if unit == "h"@ {
        Some(3_600_000)
    } else {
        None
    }
}

/// Whether `source` is `count` written out and followed by `unit`: one to
/// nine digits without a leading zero, and a unit there is.
pub open spec fn spells(source: Seq<char>, count: nat, unit: Seq<char>) -> bool {
    1 <= count <= MAX_COUNT && unit_millis(unit) is Some && source == text::decimal(count) + unit
}

/// A duration string the flow grammar doesn't accept.
#[derive(Debug, Clone, PartialEq, Eq)]
pub struct DurationError(pub String);

impl DurationError {
    pub fn to_text(&self) -> (s: String)
        ensures
            s@ == "invalid duration `"@ + self.0@
                + "`: expected a whole number (1–9 digits, no leading zero) with unit `ms`, `s`, `m`, or `h`, like \"30m\""@,
    {
        let mut s = "invalid duration `".to_owned();
        s.append(self.0.as_str());
        s.append(
            "`: expected a whole number (1–9 digits, no leading zero) with unit `ms`, `s`, `m`, or `h`, like \"30m\"",
        );
        s
    }
}

impl FlowDuration {
    /// The span of time the duration stands for.
    pub closed spec fn span(self) -> Duration {
        self.duration
    }

    pub fn as_duration(self) -> (r: Duration)
        ensures
            r == self.span(),
    {
        self.duration
    }

    /// Reads a duration by the flow grammar.
    pub fn parse(source: &str) -> (r: Result<FlowDuration, DurationError>)
        ensures
            match r {
                Ok(d) => exists|count: nat, unit: Seq<char>| #[trigger]
                    spells(source@, count, unit) && d.span().length() == count
                        * unit_millis(unit)->0 * 1_000_000,
                Err(e) => e.0@ == source@ && forall|count: nat, unit: Seq<char>|
                    !#[trigger] spells(source@, count, unit),
            },
    {
        let t = text::chars_of(source);
        let k: usize = text::count_digits(&t);
        let digits = text::slice_of(&t, 0, k);
        let unit_chars = text::slice_from(&t, k);
        let unit = text::string_of(unit_chars.as_slice());
        let ghost front = t@.take(k as int);
        proof {
            lemma_units();
            assert(digits@ =~= front);
            assert(unit@ == t@.skip(k as int));
            assert forall|count: nat, u: Seq<char>| #[trigger] spells(source@, count, u) implies u
                == unit@ && text::decimal(count) == front && front.len() <= 9 && front[0]
                != '0' by {
                lemma_split_is_unique(t@, k as int, count, u);
            }
        }
        if k == 0 || k > 9 || t[0] == '0' {
            proof {
                assert forall|count: nat, u: Seq<char>| !#[trigger] spells(source@, count, u) by {
                    if spells(source@, count, u) {
                        text::lemma_decimal(count);
                        assert(front[0] == t@[0]);
                    }
                }
            }
            return Err(DurationError(source.to_owned()));
        }
        let mut count: u64 = 0;
        assert(front.take(0) =~= Seq::empty());
        for i in 0..k
            invariant
                k <= 9,
                k <= t@.len(),
                front == t@.take(k as int),
                forall|j: int| 0 <= j < k ==> text::is_digit(#[trigger] t@[j]),
                count == text::number(front.take(i as int)),
                count < text::power_of_ten(i as nat),
        {
            let d: u64 = (t[i] as u32 - '0' as u32) as u64;
            proof {
                assert(front.take(i + 1).drop_last() =~= front.take(i as int));
                assert(front.take(i + 1).last() == t@[i as int]);
                lemma_powers();
                assert(text::power_of_ten((i + 1) as nat) == 10 * text::power_of_ten(i as nat));
            }
            count = count * 10 + d;
        }
        proof {
            assert(front.take(k as int) =~= front);
            assert forall|j: int| 0 <= j < front.len() implies text::is_digit(
                #[trigger] front[j],
            ) by {
                assert(front[j] == t@[j]);
            }
            text::lemma_number(front);
            text::lemma_number_is_bounded(front);
            lemma_powers();
            assert(source@ =~= text::decimal(count as nat) + unit@);
            assert(unit_millis(unit@) is Some ==> spells(source@, count as nat, unit@));
        }
        let ghost millis = unit_millis(unit@)->0;
        let duration: Duration = if text::same(unit.as_str(), "ms") {
            assert(count * millis * 1_000_000 == count * 1000000) by (nonlinear_arith)
                requires
                    millis == 1,
            ;
            Duration::from_millis(count)
        } else if text::same(unit.as_str(), "s") {
            assert(count * millis * 1_000_000 == count * 1000000000) by (nonlinear_arith)
                requires
                    millis == 1000,
            ;
            Duration::from_secs(count)
        } else if text::same(unit.as_str(), "m") {
            assert(count * millis * 1_000_000 == count * 60000000000) by (nonlinear_arith)
                requires
                    millis == 60000,
            ;
            Duration::from_secs(count * 60)
        } else if text::same(unit.as_str(), "h") {
            assert(count * millis * 1_000_000 == count * 3600000000000) by (nonlinear_arith)
                requires
                    millis == 3600000,
            ;
            Duration::from_secs(count * 3600)
        } else {
            return Err(DurationError(source.to_owned()));
        };
        assert(spells(source@, count as nat, unit@));
        assert(duration.length() == count * millis * 1_000_000);
        Ok(FlowDuration { duration })
    }
}

impl std::str::FromStr for FlowDuration {
    type Err = DurationError;

    fn from_str(source: &str) -> (r: Result<FlowDuration, DurationError>)
        ensures
            match r {
                Ok(d) => exists|count: nat, unit: Seq<char>| #[trigger]
                    spells(source@, count, unit) && d.span().length() == count
                        * unit_millis(unit)->0 * 1_000_000,
                Err(e) => e.0@ == source@ && forall|count: nat, unit: Seq<char>|
                    !#[trigger] spells(source@, count, unit),
            },
    {
        FlowDuration::parse(source)
    }
}

proof fn lemma_powers()
    ensures
        text::power_of_ten(9) == 1_000_000_000,
        forall|i: nat| i <= 9 ==> #[trigger] text::power_of_ten(i) <= 1_000_000_000,
{
    reveal_with_fuel(text::power_of_ten, 11);
    assert forall|i: nat| i <= 9 implies #[trigger] text::power_of_ten(i) <= 1_000_000_000 by {
        assert(i == 0 || i == 1 || i == 2 || i == 3 || i == 4 || i == 5 || i == 6 || i == 7 || i
            == 8 || i == 9);
    }
}

proof fn lemma_units()
    ensures
        "ms"@.len() == 2,
        "ms"@[0] == 'm',
        "s"@.len() == 1,
        "s"@[0] == 's',
        "m"@.len() == 1,
        "m"@[0] == 'm',
        "h"@.len() == 1,
        "h"@[0] == 'h',
{
    reveal_strlit("ms");
    reveal_strlit("s");
    reveal_strlit("m");
    reveal_strlit("h");
}

/// A text that spells a duration does so in one way: all the digits it
/// begins with, and the rest as the unit.
proof fn lemma_split_is_unique(source: Seq<char>, k: int, count: nat, unit: Seq<char>)
    requires
        spells(source, count, unit),
        0 <= k <= source.len(),
        forall|i: int| 0 <= i < k ==> text::is_digit(#[trigger] source[i]),
        k < source.len() ==> !text::is_digit(source[k]),
    ensures
        unit == source.skip(k),
        text::decimal(count) == source.take(k),
        k <= 9,
        source[0] != '0',
        k >= 1,
{
    let digits = text::decimal(count);
    text::lemma_decimal(count);
    lemma_units();
    let n = digits.len() as int;
    assert(source[n] == unit[0]);
    assert(!text::is_digit(source[n]));
    assert(k == n) by {
        if k > n {
            assert(text::is_digit(source[n]));
        }
        if k < n {
            assert(source[k] == digits[k]);
        }
    }
    assert(source.take(k) =~= digits);
    assert(source.skip(k) =~= unit);
    assert(source[0] == digits[0]);
    if n > 9 {
        text::lemma_decimal_reaches(count, 9);
        lemma_powers();
    }
}

} // verus!
