//! Budgets: soft caps on a run. Exhaustion finishes the current iteration
//! and pauses resumably; a budget never fails a run.

use vstd::prelude::*;

verus! {

/// Nanoseconds in one second.
pub const NANOS_PER_SEC: u32 = 1_000_000_000;

/// The nanoseconds of the longest span there is.
const MAX_NANOS: u128 = 18_446_744_073_709_551_615_999_999_999;

/// A span of time, as long as whole seconds that a `u64` counts and less than
/// a second more.
#[derive(Debug, Clone, Copy, PartialEq, Eq, Structural)]
pub struct Duration {
    nanos: u128,
}

impl Duration {
    #[verifier::type_invariant]
    spec fn well_formed(self) -> bool {
        self.nanos <= MAX_NANOS
    }

    /// The span's length in nanoseconds.
    pub closed spec fn length(self) -> nat {
        self.nanos as nat
    }

    /// The length of the longest span there is.
    pub open spec fn longest() -> nat {
        (u64::MAX * NANOS_PER_SEC + (NANOS_PER_SEC - 1)) as nat
    }

    pub fn zero() -> (r: Duration)
        ensures
            r.length() == 0,
    {
        Duration { nanos: 0 }
    }

    /// A span of whole seconds.
    pub closed spec fn of_secs(secs: u64) -> Duration {
        Duration { nanos: (secs * NANOS_PER_SEC) as u128 }
    }

    pub fn from_secs(secs: u64) -> (r: Duration)
        ensures
            r == Duration::of_secs(secs),
            r.length() == secs * NANOS_PER_SEC,
    {
        Duration { nanos: secs as u128 * 1_000_000_000 }
    }

    pub fn from_millis(millis: u64) -> (r: Duration)
        ensures
            r.length() == millis * 1_000_000,
    {
        Duration { nanos: millis as u128 * 1_000_000 }
    }

    /// A span of `secs` seconds and `nanos` nanoseconds; none where the
    /// nanoseconds make up a second of their own.
    pub fn from_parts(secs: u64, nanos: u32) -> (r: Option<Duration>)
        ensures
            match r {
                Some(d) => nanos < NANOS_PER_SEC && d.length() == secs * NANOS_PER_SEC + nanos,
                None => nanos >= NANOS_PER_SEC,
            },
    {
        if nanos < NANOS_PER_SEC {
            Some(Duration { nanos: secs as u128 * 1_000_000_000 + nanos as u128 })
        } else {
            None
        }
    }

    /// The whole seconds of the span.
    pub fn as_secs(&self) -> (secs: u64)
        ensures
            secs == self.length() / (NANOS_PER_SEC as nat),
    {
        proof {
            use_type_invariant(self);
        }
        (self.nanos / 1_000_000_000) as u64
    }

    /// What the span has beyond its whole seconds, in nanoseconds.
    pub fn subsec_nanos(&self) -> (nanos: u32)
        ensures
            nanos == self.length() % (NANOS_PER_SEC as nat),
    {
        (self.nanos % 1_000_000_000) as u32
    }

    /// The two spans one after the other, as far as a span can reach.
    pub fn saturating_add(self, other: Duration) -> (r: Duration)
        ensures
            r.length() == if self.length() + other.length() <= Duration::longest() {
                self.length() + other.length()
            } else {
                Duration::longest()
            },
    {
        proof {
            use_type_invariant(&self);
            use_type_invariant(&other);
        }
        let nanos: u128 = self.nanos + other.nanos;
        if nanos <= MAX_NANOS {
            Duration { nanos }
        } else {
            Duration { nanos: MAX_NANOS }
        }
    }

    /// From `earlier` to `self`; nothing where `earlier` is later.
    pub fn saturating_sub(self, earlier: Duration) -> (r: Duration)
        ensures
            r.length() == if self.length() >= earlier.length() {
                (self.length() - earlier.length()) as nat
            } else {
                0
            },
    {
        proof {
            use_type_invariant(&self);
        }
        if self.nanos >= earlier.nanos {
            Duration { nanos: self.nanos - earlier.nanos }
        } else {
            Duration::zero()
        }
    }

    /// Whether the span is as long as `other` or longer.
    pub fn at_least(&self, other: &Duration) -> (r: bool)
        ensures
            r == (self.length() >= other.length()),
    {
        self.nanos >= other.nanos
    }
}

/// Spans of equal length are equal.
pub proof fn equal_lengths_are_equal_spans(a: Duration, b: Duration)
    requires
        a.length() == b.length(),
    ensures
        a == b,
{
}

/// Which cap a run outgrew.
#[derive(Debug, Clone, Copy, PartialEq, Eq, Structural)]
pub enum BudgetKind {
    Iterations,
    WallClock,
    Tokens,
}

impl BudgetKind {
    /// The word the wire format has for the cap.
    pub open spec fn word(self) -> Seq<char> {
        match self {
            BudgetKind::Iterations => "iterations"@,
            BudgetKind::WallClock => "wall_clock"@,
            BudgetKind::Tokens => "tokens"@,
        }
    }

    pub fn as_str(&self) -> (s: &'static str)
        ensures
            s@ == self.word(),
    {
        match self {
            BudgetKind::Iterations => "iterations",
            BudgetKind::WallClock => "wall_clock",
            BudgetKind::Tokens => "tokens",
        }
    }
}

/// What an agent's turns cost, as its CLI bills them.
#[derive(Debug, Clone, Copy, PartialEq, Eq, Structural)]
pub struct TokenUsage {
    pub input: u64,
    pub output: u64,
}

/// The sum of two counts, as far as a count can reach.
pub open spec fn capped_sum(a: int, b: int) -> int {
    if a + b <= u64::MAX {
        a + b
    } else {
        u64::MAX as int
    }
}

impl Default for TokenUsage {
    fn default() -> (r: TokenUsage)
        ensures
            r == (TokenUsage { input: 0, output: 0 }),
    {
        TokenUsage { input: 0, output: 0 }
    }
}

impl TokenUsage {
    /// The bill for this usage and `other` together.
    pub open spec fn with(self, other: TokenUsage) -> TokenUsage {
        TokenUsage {
            input: capped_sum(self.input as int, other.input as int) as u64,
            output: capped_sum(self.output as int, other.output as int) as u64,
        }
    }

    /// Every token the usage counts, on either side.
    pub open spec fn total(self) -> int {
        capped_sum(self.input as int, self.output as int)
    }

    /// [`TokenUsage::with`], computed.
    pub fn plus(&self, other: &TokenUsage) -> (r: TokenUsage)
        ensures
            r == self.with(*other),
    {
        TokenUsage {
            input: self.input.saturating_add(other.input),
            output: self.output.saturating_add(other.output),
        }
    }
}

/// The cap on one iteration when the flow leaves it unset, in seconds.
pub const DEFAULT_ITERATION_TIMEOUT_SECS: u64 = 1800;

/// The caps a flow sets on one run. `None` means uncapped.
#[derive(Debug, Clone, PartialEq, Eq)]
pub struct Budgets {
    pub max_iterations: Option<u32>,
    pub max_wall_clock: Option<Duration>,
    /// Counted only where the agent adapter can report usage; agents that
    /// report nothing simply aren't token-budgeted.
    pub max_tokens: Option<u64>,
    /// Not a soft cap: on expiry the sandbox is destroyed and the iteration
    /// counts as failed, so a hung agent can never stall the loop silently.
    pub iteration_timeout: Duration,
}

impl Default for Budgets {
    fn default() -> (r: Budgets)
        ensures
            r.max_iterations is None,
            r.max_wall_clock is None,
            r.max_tokens is None,
            r.iteration_timeout == Duration::of_secs(DEFAULT_ITERATION_TIMEOUT_SECS),
            r.iteration_timeout.length() == DEFAULT_ITERATION_TIMEOUT_SECS * NANOS_PER_SEC,
    {
        Budgets {
            max_iterations: None,
            max_wall_clock: None,
            max_tokens: None,
            iteration_timeout: Duration::from_secs(DEFAULT_ITERATION_TIMEOUT_SECS),
        }
    }
}

/// Consumption shared by every launch of a paused and resumed run, so that
/// extensions change caps without erasing what the run already spent. Times
/// are readings of one clock, which the host takes.
#[derive(Debug, Clone, PartialEq, Eq)]
pub struct BudgetUsage {
    active_since: Option<Duration>,
    active: Duration,
    tokens: Option<u64>,
}

impl Default for BudgetUsage {
    fn default() -> (r: BudgetUsage)
        ensures
            r.running_since() is None,
            r.settled() == 0,
            r.spent() is None,
    {
        BudgetUsage { active_since: None, active: Duration::zero(), tokens: None }
    }
}

impl BudgetUsage {
    /// When the clock was started, while it runs.
    pub closed spec fn running_since(&self) -> Option<Duration> {
        self.active_since
    }

    /// The active time of the launches that have stopped.
    pub closed spec fn settled(&self) -> nat {
        self.active.length()
    }

    /// The tokens reported so far; none while no agent has reported any.
    pub closed spec fn spent(&self) -> Option<u64> {
        self.tokens
    }

    /// The run's active time by the reading `now`: the launches that have
    /// stopped, and the running one up to now.
    pub open spec fn active_at(&self, now: Duration) -> nat {
        let running: nat = match self.running_since() {
            Some(since) => if now.length() >= since.length() {
                (now.length() - since.length()) as nat
            } else {
                0
            },
            None => 0,
        };
        if self.settled() + running <= Duration::longest() {
            self.settled() + running
        } else {
            Duration::longest()
        }
    }

    /// The same books, once more.
    pub fn copy(&self) -> (r: BudgetUsage)
        ensures
            r == *self,
    {
        BudgetUsage { active_since: self.active_since, active: self.active, tokens: self.tokens }
    }

    /// Starts the clock at the reading `now`.
    pub fn start(&mut self, now: Duration)
        ensures
            final(self).running_since() == Some(now),
            final(self).settled() == old(self).settled(),
            final(self).spent() == old(self).spent(),
    {
        self.active_since = Some(now);
    }

    /// Stops the clock at the reading `now` and keeps what it counted.
    pub fn stop(&mut self, now: Duration)
        ensures
            final(self).running_since() is None,
            final(self).settled() == old(self).active_at(now),
            final(self).spent() == old(self).spent(),
    {
        let total = self.elapsed(now);
        self.active = total;
        self.active_since = None;
    }

    /// The run's active time by the reading `now`.
    pub fn elapsed(&self, now: Duration) -> (r: Duration)
        ensures
            r.length() == self.active_at(now),
    {
        proof {
            use_type_invariant(&self.active);
        }
        match self.active_since {
            Some(since) => self.active.saturating_add(now.saturating_sub(since)),
            None => self.active,
        }
    }

    /// Counts what an agent reported.
    pub fn record_tokens(&mut self, usage: TokenUsage)
        ensures
            final(self).spent() == Some(
                capped_sum(
                    match old(self).spent() {
                        Some(tokens) => tokens as int,
                        None => 0,
                    },
                    usage.total(),
                ) as u64,
            ),
            final(self).settled() == old(self).settled(),
            final(self).running_since() == old(self).running_since(),
    {
        let tokens: u64 = usage.input.saturating_add(usage.output);
        let before: u64 = match self.tokens {
            Some(tokens) => tokens,
            None => 0,
        };
        self.tokens = Some(before.saturating_add(tokens));
    }

    pub fn tokens(&self) -> (r: Option<u64>)
        ensures
            r == self.spent(),
    {
        self.tokens
    }
}

/// The first cap outgrown after `completed` iterations, `active`
/// nanoseconds of work and `spent` tokens: iterations before wall clock
/// before tokens.
pub open spec fn first_exhausted(
    caps: Budgets,
    completed: u32,
    active: nat,
    spent: Option<u64>,
) -> Option<BudgetKind> {
    if caps.max_iterations is Some && completed >= caps.max_iterations->0 {
        Some(BudgetKind::Iterations)
    } else if caps.max_wall_clock is Some && active >= caps.max_wall_clock->0.length() {
        Some(BudgetKind::WallClock)
    } else if spent is Some && caps.max_tokens is Some && spent->0 >= caps.max_tokens->0 {
        Some(BudgetKind::Tokens)
    } else {
        None
    }
}

impl Budgets {
    /// The first cap the run has outgrown after `completed` iterations, or
    /// `None` while every budget still has room. The kernel asks at both
    /// ends of an iteration: after a pass with that pass counted, and before
    /// one with the count so far, so a paused run resumed without a real
    /// extension pauses again before booting anything.
    pub fn exhausted(&self, usage: &BudgetUsage, now: Duration, completed: u32) -> (r: Option<
        BudgetKind,
    >)
        ensures
            r == first_exhausted(*self, completed, usage.active_at(now), usage.spent()),
    {
        if let Some(max) = self.max_iterations {
            if completed >= max {
                return Some(BudgetKind::Iterations);
            }
        }
        if let Some(max) = self.max_wall_clock {
            if usage.elapsed(now).at_least(&max) {
                return Some(BudgetKind::WallClock);
            }
        }
        match (usage.tokens(), self.max_tokens) {
            (Some(used), Some(max)) => if used >= max {
                Some(BudgetKind::Tokens)
            } else {
                None
            },
            _ => None,
        }
    }
}

/// A cap once outgrown stays outgrown: more iterations, more time and more
/// tokens never give a run room again.
pub proof fn exhaustion_is_permanent(
    caps: Budgets,
    completed: u32,
    active: nat,
    spent: Option<u64>,
    later_completed: u32,
    later_active: nat,
    later_spent: Option<u64>,
)
    requires
        completed <= later_completed,
        active <= later_active,
        spent is Some ==> later_spent is Some && spent->0 <= later_spent->0,
    ensures
        first_exhausted(caps, completed, active, spent) is Some ==> first_exhausted(
            caps,
            later_completed,
            later_active,
            later_spent,
        ) is Some,
{
}

/// A run without caps never exhausts one, and a token cap never trips while
/// no agent has reported usage.
pub proof fn an_unset_cap_never_trips(caps: Budgets, completed: u32, active: nat, spent: Option<u64>)
    ensures
        caps.max_iterations is None ==> first_exhausted(caps, completed, active, spent) != Some(
            BudgetKind::Iterations,
        ),
        caps.max_wall_clock is None ==> first_exhausted(caps, completed, active, spent) != Some(
            BudgetKind::WallClock,
        ),
        caps.max_tokens is None || spent is None ==> first_exhausted(
            caps,
            completed,
            active,
            spent,
        ) != Some(BudgetKind::Tokens),
{
}

/// Time between two launches is not counted: however late the clock starts
/// again, the run's active time is what the launches themselves took.
pub proof fn a_pause_costs_no_active_time(
    stopped: BudgetUsage,
    started: BudgetUsage,
    start: Duration,
    now: Duration,
)
    requires
        stopped.running_since() is None,
        started.running_since() == Some(start),
        started.settled() == stopped.settled(),
        start.length() <= now.length(),
        stopped.settled() + (now.length() - start.length()) <= Duration::longest(),
    ensures
        started.active_at(now) == stopped.settled() + (now.length() - start.length()),
        started.active_at(start) == stopped.active_at(start),
{
}

} // verus!
