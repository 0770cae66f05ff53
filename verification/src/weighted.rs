//! The decisions of the weighted (byte-budgeted) admission gate.
//!
//! Each permit declares a byte weight. The admission gate tracks the committed weight,
//! the sum of the weights of the permits in flight, and admits a task only
//! when the available memory less a safety reserve, less the committed
//! weight, covers the task's weight. A task heavier than the single-permit
//! cap waits until the admission gate is empty, then runs alone. Used-RAM and
//! page-cache pressure throttle the admission gate; a provider failure makes it fall
//! back to admitting everything.
//!
//! [`WeightedState`] holds what the admission gate decides with, and a ghost ledger of
//! the permits in flight that its contracts speak of. An attempt runs in
//! stages: [`WeightedState::begin_attempt`] admits at once when the memory
//! scheduler is off, serves fresh cached statistics, or asks for a probe;
//! [`WeightedState::record_stats`] takes what the provider reported; and
//! [`WeightedState::decide`] decides on the statistics, given how they
//! compare with the used-RAM and page-cache ceilings.

use vstd::prelude::*;

use crate::provider::{MemoryStats, ProviderError};

verus! {

/// The first stage of an admission attempt.
#[derive(Debug, Clone, Copy, PartialEq, Eq)]
pub enum AttemptStart {
    /// The memory scheduler is off: a permit (not oversized) was admitted.
    AdmittedFallback,
    /// Cached statistics are fresh: decide on them.
    Evaluate(MemoryStats),
    /// The provider must be probed; hand its answer to `record_stats`.
    NeedStats,
}

/// What the admission gate makes of a provider probe.
#[derive(Debug, Clone, Copy, PartialEq, Eq)]
pub enum StatsOutcome {
    /// The statistics were cached: decide on them.
    Evaluate(MemoryStats),
    /// The provider failed: the admission gate fell back and admitted a permit (not
    /// oversized). `first_failure` asks the caller to log the failure.
    AdmittedFallback {
        /// No failure had been logged before.
        first_failure: bool,
    },
}

/// The decision on statistics.
#[derive(Debug, Clone, Copy, PartialEq, Eq, Structural)]
pub enum AttemptOutcome {
    /// A permit was admitted; `oversized` when its weight exceeds the
    /// single-permit cap.
    Admitted {
        /// The permit runs alone.
        oversized: bool,
    },
    /// Wait for a release or a poll interval, then try again.
    Wait,
}

/// The pressure that throttles the admission gate.
#[derive(Debug, Clone, Copy, PartialEq, Eq, Structural)]
pub enum PressureKind {
    /// The used-RAM fraction reached its ceiling.
    UsedRam,
    /// The kernel page cache reached its ceiling.
    PageCache,
}

/// What a decision asks the caller to log.
#[derive(Debug, Clone, Copy, PartialEq, Eq, Structural)]
pub enum WeightedLog {
    /// Nothing.
    Quiet,
    /// The admission gate enters the throttled state.
    Throttling(PressureKind),
    /// The admission gate leaves the throttled state.
    Resuming,
}

/// The admission gate's state, as its contracts speak of it.
pub struct WeightedView {
    /// Sum of the weights of the permits in flight (saturating).
    pub committed_bytes: u64,
    /// Number of permits in flight.
    pub active_permits: nat,
    /// An oversized permit is in flight.
    pub oversized_in_flight: bool,
    /// The last statistics the provider reported.
    pub cached_stats: Option<MemoryStats>,
    /// When they were reported (nanoseconds on the caller's clock), unless
    /// a release invalidated them.
    pub cached_at: Option<u128>,
    /// The provider is consulted.
    pub scheduler_active: bool,
    /// A provider failure has been logged.
    pub failure_logged: bool,
    /// The admission gate is in the throttled state (edge-triggered logging).
    pub throttled: bool,
    /// Bytes left unallocated as a safety margin.
    pub safety_reserve_bytes: u64,
    /// Weight above which a permit runs alone.
    pub max_single_weight_bytes: u64,
    /// How long (nanoseconds) cached statistics stay fresh.
    pub stats_max_age: u128,
    /// The permits in flight: weight and whether oversized.
    pub live: Seq<(u64, bool)>,
    /// The committed weight has never saturated.
    pub exact: bool,
}

/// The state a weighted gate decides with.
pub struct WeightedState {
    committed_bytes: u64,
    active_permits: usize,
    oversized_in_flight: bool,
    cached_stats: Option<MemoryStats>,
    cached_at: Option<u128>,
    scheduler_active: bool,
    failure_logged: bool,
    throttled: bool,
    safety_reserve_bytes: u64,
    max_single_weight_bytes: u64,
    stats_max_age: u128,
    live: Ghost<Seq<(u64, bool)>>,
    exact: Ghost<bool>,
}

impl View for WeightedState {
    type V = WeightedView;

    closed spec fn view(&self) -> WeightedView {
        WeightedView {
            committed_bytes: self.committed_bytes,
            active_permits: self.active_permits as nat,
            oversized_in_flight: self.oversized_in_flight,
            cached_stats: self.cached_stats,
            cached_at: self.cached_at,
            scheduler_active: self.scheduler_active,
            failure_logged: self.failure_logged,
            throttled: self.throttled,
            safety_reserve_bytes: self.safety_reserve_bytes,
            max_single_weight_bytes: self.max_single_weight_bytes,
            stats_max_age: self.stats_max_age,
            live: self.live@,
            exact: self.exact@,
        }
    }
}

// ---------------------------------------------------------------------------
// The admission gate as a state machine
// ---------------------------------------------------------------------------

/// Sum of the weights of the permits `live`.
pub open spec fn sum_weights(live: Seq<(u64, bool)>) -> int
    decreases live.len(),
{
    if live.len() == 0 {
        0
    } else {
        sum_weights(live.drop_last()) + live.last().0
    }
}

/// Whether one of the permits `live` is oversized.
pub open spec fn has_oversized(live: Seq<(u64, bool)>) -> bool {
    exists|i: int| 0 <= i < live.len() && (#[trigger] live[i]).1
}

/// The consistency every state of a weighted gate keeps: the count and the
/// committed weight agree with the ledger of permits in flight, and the
/// oversized flag says whether one (and only one) oversized permit is in
/// flight.
pub open spec fn wf(s: WeightedView) -> bool {
    &&& s.active_permits == s.live.len()
    &&& s.exact ==> s.committed_bytes == sum_weights(s.live)
    &&& s.oversized_in_flight == has_oversized(s.live)
    &&& forall|i: int, j: int|
        0 <= i < s.live.len() && 0 <= j < s.live.len() && (#[trigger] s.live[i]).1 && (
        #[trigger] s.live[j]).1 ==> i == j
}

/// A new gate.
pub open spec fn init_spec(
    enabled: bool,
    safety_reserve_bytes: u64,
    max_single_weight_bytes: u64,
    stats_max_age: u128,
) -> WeightedView {
    WeightedView {
        committed_bytes: 0,
        active_permits: 0,
        oversized_in_flight: false,
        cached_stats: None,
        cached_at: None,
        scheduler_active: enabled,
        failure_logged: false,
        throttled: false,
        safety_reserve_bytes,
        max_single_weight_bytes,
        stats_max_age,
        live: Seq::empty(),
        exact: true,
    }
}

/// `s` with one more permit of `weight` in flight.
pub open spec fn admit_spec(s: WeightedView, weight: u64, oversized: bool) -> WeightedView {
    WeightedView {
        committed_bytes: if s.committed_bytes + weight <= u64::MAX {
            (s.committed_bytes + weight) as u64
        } else {
            u64::MAX
        },
        active_permits: s.active_permits + 1,
        oversized_in_flight: s.oversized_in_flight || oversized,
        live: s.live.push((weight, oversized)),
        exact: s.exact && s.committed_bytes + weight <= u64::MAX,
        ..s
    }
}

/// Time from `t` to `now`, zero if `now` is earlier.
pub open spec fn elapsed(t: u128, now: u128) -> u128 {
    if now >= t {
        (now - t) as u128
    } else {
        0
    }
}

/// Whether the cached statistics are fresh at `now`.
pub open spec fn cache_fresh(s: WeightedView, now: u128) -> bool {
    &&& s.cached_stats is Some
    &&& s.cached_at is Some
    &&& elapsed(s.cached_at->0, now) < s.stats_max_age
}

/// The first stage of an attempt for `weight` at `now`.
pub open spec fn begin_spec(s: WeightedView, weight: u64, now: u128) -> (WeightedView, AttemptStart) {
    if !s.scheduler_active {
        (admit_spec(s, weight, false), AttemptStart::AdmittedFallback)
    } else if cache_fresh(s, now) {
        (s, AttemptStart::Evaluate(s.cached_stats->0))
    } else {
        (s, AttemptStart::NeedStats)
    }
}

/// What the admission gate makes of a provider probe at `now` for an attempt of `weight`.
pub open spec fn record_spec(
    s: WeightedView,
    weight: u64,
    probe: Result<MemoryStats, ProviderError>,
    now: u128,
) -> (WeightedView, StatsOutcome) {
    match probe {
        Ok(stats) => (
            WeightedView { cached_stats: Some(stats), cached_at: Some(now), ..s },
            StatsOutcome::Evaluate(stats),
        ),
        Err(_) => (
            admit_spec(
                WeightedView { scheduler_active: false, failure_logged: true, ..s },
                weight,
                false,
            ),
            StatsOutcome::AdmittedFallback { first_failure: !s.failure_logged },
        ),
    }
}

/// Enter the throttled state for `kind`, logging only on the edge.
pub open spec fn throttle_spec(s: WeightedView, kind: PressureKind) -> (WeightedView, WeightedLog) {
    if s.throttled {
        (s, WeightedLog::Quiet)
    } else {
        (WeightedView { throttled: true, ..s }, WeightedLog::Throttling(kind))
    }
}

/// The budget left for a new permit: available bytes less the safety
/// reserve, less the committed weight (each step saturating at zero).
pub open spec fn budget(s: WeightedView, stats: MemoryStats) -> int {
    let after_reserve = if stats.available_bytes >= s.safety_reserve_bytes {
        stats.available_bytes - s.safety_reserve_bytes
    } else {
        0
    };
    if after_reserve >= s.committed_bytes {
        after_reserve - s.committed_bytes
    } else {
        0
    }
}

/// The decision for `weight` on `stats`, given whether the used-RAM fraction
/// and the page-cache fraction reach their ceilings.
pub open spec fn decide_spec(
    s: WeightedView,
    weight: u64,
    stats: MemoryStats,
    ram_over: bool,
    cache_over: bool,
) -> (WeightedView, AttemptOutcome, WeightedLog) {
    if ram_over {
        let (t, l) = throttle_spec(s, PressureKind::UsedRam);
        (t, AttemptOutcome::Wait, l)
    } else if cache_over {
        let (t, l) = throttle_spec(s, PressureKind::PageCache);
        (t, AttemptOutcome::Wait, l)
    } else {
        let r = WeightedView { throttled: false, ..s };
        let l = if s.throttled {
            WeightedLog::Resuming
        } else {
            WeightedLog::Quiet
        };
        if weight > s.max_single_weight_bytes {
            if s.active_permits > 0 {
                (r, AttemptOutcome::Wait, l)
            } else {
                (admit_spec(r, weight, true), AttemptOutcome::Admitted { oversized: true }, l)
            }
        } else if s.oversized_in_flight {
            (r, AttemptOutcome::Wait, l)
        } else if budget(s, stats) >= weight {
            (admit_spec(r, weight, false), AttemptOutcome::Admitted { oversized: false }, l)
        } else {
            (r, AttemptOutcome::Wait, l)
        }
    }
}

/// The position in the ledger of the permit a release gives back.
pub open spec fn released_index(s: WeightedView, weight: u64, oversized: bool) -> int {
    choose|i: int| 0 <= i < s.live.len() && s.live[i] == (weight, oversized)
}

/// Whether a permit of `weight` (oversized or not) is in flight.
pub open spec fn holds_permit(s: WeightedView, weight: u64, oversized: bool) -> bool {
    exists|i: int| 0 <= i < s.live.len() && s.live[i] == (weight, oversized)
}

/// The state after the release of a permit of `weight`.
pub open spec fn release_spec(s: WeightedView, weight: u64, oversized: bool) -> WeightedView {
    WeightedView {
        committed_bytes: if s.committed_bytes >= weight {
            (s.committed_bytes - weight) as u64
        } else {
            0
        },
        active_permits: if s.active_permits > 0 {
            (s.active_permits - 1) as nat
        } else {
            0
        },
        oversized_in_flight: if oversized {
            false
        } else {
            s.oversized_in_flight
        },
        cached_at: None,
        live: s.live.remove(released_index(s, weight, oversized)),
        ..s
    }
}

// ---------------------------------------------------------------------------
// Lemmas
// ---------------------------------------------------------------------------

proof fn lemma_sum_push(live: Seq<(u64, bool)>, p: (u64, bool))
    ensures
        sum_weights(live.push(p)) == sum_weights(live) + p.0,
{
    assert(live.push(p).drop_last() =~= live);
}

proof fn lemma_sum_nonneg(live: Seq<(u64, bool)>)
    ensures
        sum_weights(live) >= 0,
    decreases live.len(),
{
    if live.len() > 0 {
        lemma_sum_nonneg(live.drop_last());
    }
}

proof fn lemma_sum_remove(live: Seq<(u64, bool)>, i: int)
    requires
        0 <= i < live.len(),
    ensures
        sum_weights(live.remove(i)) == sum_weights(live) - live[i].0,
        sum_weights(live) >= live[i].0,
    decreases live.len(),
{
    lemma_sum_nonneg(live.drop_last());
    if i == live.len() - 1 {
        assert(live.remove(i) =~= live.drop_last());
    } else {
        lemma_sum_remove(live.drop_last(), i);
        assert(live.remove(i) =~= live.drop_last().remove(i).push(live.last()));
        lemma_sum_push(live.drop_last().remove(i), live.last());
        assert(live.drop_last()[i] == live[i]);
    }
}

proof fn lemma_admit_wf(s: WeightedView, weight: u64, oversized: bool)
    requires
        wf(s),
        oversized ==> s.active_permits == 0,
    ensures
        wf(admit_spec(s, weight, oversized)),
{
    let t = admit_spec(s, weight, oversized);
    lemma_sum_push(s.live, (weight, oversized));
    assert forall|i: int| 0 <= i < s.live.len() implies t.live[i] == s.live[i] by {}
    if has_oversized(t.live) {
        let i = choose|i: int| 0 <= i < t.live.len() && (#[trigger] t.live[i]).1;
        if i < s.live.len() {
            assert(s.live[i].1);
        }
    }
    if has_oversized(s.live) {
        let i = choose|i: int| 0 <= i < s.live.len() && (#[trigger] s.live[i]).1;
        assert(t.live[i].1);
    }
    if oversized {
        assert(t.live[s.live.len() as int].1);
    }
}

proof fn lemma_release_wf(s: WeightedView, weight: u64, oversized: bool)
    requires
        wf(s),
        holds_permit(s, weight, oversized),
    ensures
        wf(release_spec(s, weight, oversized)),
        s.exact ==> release_spec(s, weight, oversized).committed_bytes == s.committed_bytes
            - weight,
{
    let k = released_index(s, weight, oversized);
    let t = release_spec(s, weight, oversized);
    lemma_sum_remove(s.live, k);
    assert forall|i: int| 0 <= i < t.live.len() implies t.live[i] == (if i < k {
        s.live[i]
    } else {
        s.live[i + 1]
    }) by {}
    if has_oversized(t.live) {
        let i = choose|i: int| 0 <= i < t.live.len() && (#[trigger] t.live[i]).1;
        if i < k {
            assert(s.live[i].1);
        } else {
            assert(s.live[i + 1].1);
        }
        if oversized {
            if i < k {
                assert(s.live[k].1);
            } else {
                assert(s.live[k].1 && s.live[i + 1].1);
            }
        }
    }
    if has_oversized(s.live) && !oversized {
        let i = choose|i: int| 0 <= i < s.live.len() && (#[trigger] s.live[i]).1;
        if i < k {
            assert(t.live[i].1);
        } else {
            assert(i != k);
            assert(t.live[i - 1].1);
        }
    }
    assert forall|i: int, j: int|
        0 <= i < t.live.len() && 0 <= j < t.live.len() && (#[trigger] t.live[i]).1 && (
        #[trigger] t.live[j]).1 implies i == j by {
        let i2 = if i < k {
            i
        } else {
            i + 1
        };
        let j2 = if j < k {
            j
        } else {
            j + 1
        };
        assert(s.live[i2].1 && s.live[j2].1);
    }
}

// ---------------------------------------------------------------------------
// Executable state machine
// ---------------------------------------------------------------------------

impl WeightedState {
    /// A new gate. `enabled` is the configuration's memory-scheduler switch;
    /// the other figures are the safety reserve, the single-permit cap and
    /// the freshness of cached statistics (nanoseconds).
    pub fn new(
        enabled: bool,
        safety_reserve_bytes: u64,
        max_single_weight_bytes: u64,
        stats_max_age: u128,
    ) -> (g: Self)
        ensures
            g@ == init_spec(enabled, safety_reserve_bytes, max_single_weight_bytes, stats_max_age),
            wf(g@),
    {
        let g = WeightedState {
            committed_bytes: 0,
            active_permits: 0,
            oversized_in_flight: false,
            cached_stats: None,
            cached_at: None,
            scheduler_active: enabled,
            failure_logged: false,
            throttled: false,
            safety_reserve_bytes,
            max_single_weight_bytes,
            stats_max_age,
            live: Ghost(Seq::empty()),
            exact: Ghost(true),
        };
        assert(g@.live =~= Seq::<(u64, bool)>::empty());
        g
    }

    /// Currently committed weight.
    pub fn committed_bytes(&self) -> (n: u64)
        ensures
            n == self@.committed_bytes,
    {
        self.committed_bytes
    }

    /// Number of permits in flight.
    pub fn active_permits(&self) -> (n: usize)
        ensures
            n == self@.active_permits,
    {
        self.active_permits
    }

    /// Whether memory-aware scheduling is active.
    pub fn memory_scheduler_active(&self) -> (b: bool)
        ensures
            b == self@.scheduler_active,
    {
        self.scheduler_active
    }

    /// Whether an oversized permit is in flight.
    pub fn oversized_in_flight(&self) -> (b: bool)
        ensures
            b == self@.oversized_in_flight,
    {
        self.oversized_in_flight
    }

    /// Whether the admission gate is in the throttled state.
    pub fn throttled(&self) -> (b: bool)
        ensures
            b == self@.throttled,
    {
        self.throttled
    }

    fn commit_permit(&mut self, weight: u64, oversized: bool)
        requires
            wf(old(self)@),
            old(self)@.active_permits < usize::MAX,
            oversized ==> old(self)@.active_permits == 0,
        ensures
            final(self)@ == admit_spec(old(self)@, weight, oversized),
            wf(final(self)@),
    {
        proof {
            lemma_admit_wf(self@, weight, oversized);
        }
        let ghost exact_now = self.exact@ && self.committed_bytes + weight <= u64::MAX;
        self.committed_bytes = self.committed_bytes.saturating_add(weight);
        self.active_permits = self.active_permits + 1;
        if oversized {
            self.oversized_in_flight = true;
        }
        self.live = Ghost(self.live@.push((weight, oversized)));
        self.exact = Ghost(exact_now);
    }

    /// First stage of an attempt for `weight` at `now` (nanoseconds on the
    /// caller's clock).
    pub fn begin_attempt(&mut self, weight: u64, now: u128) -> (r: AttemptStart)
        requires
            wf(old(self)@),
            old(self)@.active_permits < usize::MAX,
        ensures
            (final(self)@, r) == begin_spec(old(self)@, weight, now),
            wf(final(self)@),
    {
        if !self.scheduler_active {
            self.commit_permit(weight, false);
            return AttemptStart::AdmittedFallback;
        }
        match (self.cached_stats, self.cached_at) {
            (Some(stats), Some(when)) => {
                let age = if now >= when {
                    now - when
                } else {
                    0
                };
                if age < self.stats_max_age {
                    AttemptStart::Evaluate(stats)
                } else {
                    AttemptStart::NeedStats
                }
            },
            _ => AttemptStart::NeedStats,
        }
    }

    /// Second stage: what the provider reported at `now`, for an attempt of
    /// `weight` that asked for a probe.
    pub fn record_stats(
        &mut self,
        weight: u64,
        probe: Result<MemoryStats, ProviderError>,
        now: u128,
    ) -> (r: StatsOutcome)
        requires
            wf(old(self)@),
            old(self)@.active_permits < usize::MAX,
        ensures
            (final(self)@, r) == record_spec(old(self)@, weight, probe, now),
            wf(final(self)@),
    {
        match probe {
            Ok(stats) => {
                self.cached_stats = Some(stats);
                self.cached_at = Some(now);
                StatsOutcome::Evaluate(stats)
            },
            Err(_) => {
                let first_failure = !self.failure_logged;
                self.failure_logged = true;
                self.scheduler_active = false;
                self.commit_permit(weight, false);
                StatsOutcome::AdmittedFallback { first_failure }
            },
        }
    }

    fn throttle(&mut self, kind: PressureKind) -> (l: WeightedLog)
        ensures
            (final(self)@, l) == throttle_spec(old(self)@, kind),
    {
        if self.throttled {
            return WeightedLog::Quiet;
        }
        self.throttled = true;
        WeightedLog::Throttling(kind)
    }

    /// Last stage: the decision for `weight` on `stats`. `ram_over` says
    /// whether the used-RAM fraction of `stats` reaches the configured
    /// ceiling, `cache_over` whether the page-cache fraction does.
    pub fn decide(&mut self, weight: u64, stats: MemoryStats, ram_over: bool, cache_over: bool) -> (r:
        (AttemptOutcome, WeightedLog))
        requires
            wf(old(self)@),
            old(self)@.active_permits < usize::MAX,
        ensures
            (final(self)@, r.0, r.1) == decide_spec(old(self)@, weight, stats, ram_over, cache_over),
            wf(final(self)@),
    {
        if ram_over {
            let l = self.throttle(PressureKind::UsedRam);
            return (AttemptOutcome::Wait, l);
        }
        if cache_over {
            let l = self.throttle(PressureKind::PageCache);
            return (AttemptOutcome::Wait, l);
        }
        let l = if self.throttled {
            WeightedLog::Resuming
        } else {
            WeightedLog::Quiet
        };
        self.throttled = false;
        if weight > self.max_single_weight_bytes {
            if self.active_permits > 0 {
                return (AttemptOutcome::Wait, l);
            }
            self.commit_permit(weight, true);
            return (AttemptOutcome::Admitted { oversized: true }, l);
        }
        if self.oversized_in_flight {
            return (AttemptOutcome::Wait, l);
        }
        let budget = stats.available_bytes.saturating_sub(self.safety_reserve_bytes).saturating_sub(
            self.committed_bytes,
        );
        if budget >= weight {
            self.commit_permit(weight, false);
            (AttemptOutcome::Admitted { oversized: false }, l)
        } else {
            (AttemptOutcome::Wait, l)
        }
    }

    /// Release a permit of `weight` (`oversized` as it was admitted), and
    /// invalidate the cached statistics so the next attempt probes again.
    pub fn release(&mut self, weight: u64, oversized: bool)
        requires
            wf(old(self)@),
            holds_permit(old(self)@, weight, oversized),
        ensures
            final(self)@ == release_spec(old(self)@, weight, oversized),
            wf(final(self)@),
    {
        proof {
            lemma_release_wf(self@, weight, oversized);
        }
        let ghost k = released_index(self@, weight, oversized);
        self.committed_bytes = self.committed_bytes.saturating_sub(weight);
        if self.active_permits > 0 {
            self.active_permits = self.active_permits - 1;
        }
        if oversized {
            self.oversized_in_flight = false;
        }
        self.cached_at = None;
        self.live = Ghost(self.live@.remove(k));
    }
}

// ---------------------------------------------------------------------------
// Laws
// ---------------------------------------------------------------------------

/// A new gate is consistent, empty and exact.
pub proof fn law_new_gate_is_empty(
    enabled: bool,
    safety_reserve_bytes: u64,
    max_single_weight_bytes: u64,
    stats_max_age: u128,
)
    ensures
        ({
            let s = init_spec(enabled, safety_reserve_bytes, max_single_weight_bytes, stats_max_age);
            wf(s) && s.exact && s.committed_bytes == 0 && s.active_permits == 0
        }),
{
    let s = init_spec(enabled, safety_reserve_bytes, max_single_weight_bytes, stats_max_age);
    assert(!has_oversized(s.live));
}

/// The committed weight is the sum of the weights of the permits in flight,
/// as long as it never saturated; it stays exact as long as no admission
/// pushes it past `u64::MAX`.
pub proof fn law_committed_is_sum_of_permits(s: WeightedView, weight: u64, oversized: bool)
    requires
        wf(s),
    ensures
        s.exact ==> s.committed_bytes == sum_weights(s.live),
        admit_spec(s, weight, oversized).exact == (s.exact && s.committed_bytes + weight
            <= u64::MAX),
{
}

/// A non-oversized permit is admitted only within the budget: afterwards the
/// committed weight plus the safety reserve does not exceed the available
/// bytes the decision was made on.
pub proof fn law_budget_respected(
    s: WeightedView,
    weight: u64,
    stats: MemoryStats,
    ram_over: bool,
    cache_over: bool,
)
    requires
        weight > 0,
        decide_spec(s, weight, stats, ram_over, cache_over).1 == (AttemptOutcome::Admitted {
            oversized: false,
        }),
    ensures
        decide_spec(s, weight, stats, ram_over, cache_over).0.committed_bytes
            + s.safety_reserve_bytes <= stats.available_bytes,
        decide_spec(s, weight, stats, ram_over, cache_over).0.committed_bytes == s.committed_bytes
            + weight,
{
}

/// An oversized permit is admitted only into an empty gate, and runs alone:
/// while it is in flight no decision admits another permit.
pub proof fn law_oversized_runs_alone(
    s: WeightedView,
    weight: u64,
    stats: MemoryStats,
    ram_over: bool,
    cache_over: bool,
)
    requires
        wf(s),
    ensures
        decide_spec(s, weight, stats, ram_over, cache_over).1 == (AttemptOutcome::Admitted {
            oversized: true,
        }) ==> s.active_permits == 0 && decide_spec(
            s,
            weight,
            stats,
            ram_over,
            cache_over,
        ).0.active_permits == 1 && decide_spec(
            s,
            weight,
            stats,
            ram_over,
            cache_over,
        ).0.oversized_in_flight,
        s.oversized_in_flight ==> decide_spec(s, weight, stats, ram_over, cache_over).1
            == AttemptOutcome::Wait,
{
    if s.oversized_in_flight {
        let i = choose|i: int| 0 <= i < s.live.len() && (#[trigger] s.live[i]).1;
        assert(s.live.len() > 0);
    }
}

/// A permit reserves its weight for its lifetime: releasing a permit the
/// gate has just admitted gives back exactly its weight and its slot.
pub proof fn law_release_gives_back_weight(
    s: WeightedView,
    weight: u64,
    stats: MemoryStats,
    ram_over: bool,
    cache_over: bool,
)
    requires
        wf(s),
        s.committed_bytes + weight <= u64::MAX,
        decide_spec(s, weight, stats, ram_over, cache_over).1 is Admitted,
    ensures
        ({
            let (t, d, _l) = decide_spec(s, weight, stats, ram_over, cache_over);
            let oversized = d->Admitted_oversized;
            let u = release_spec(t, weight, oversized);
            &&& holds_permit(t, weight, oversized)
            &&& u.committed_bytes == s.committed_bytes
            &&& u.active_permits == s.active_permits
            &&& u.oversized_in_flight == s.oversized_in_flight
        }),
{
    let (t, d, _l) = decide_spec(s, weight, stats, ram_over, cache_over);
    let oversized = d->Admitted_oversized;
    let n = s.live.len() as int;
    assert(t.live[n] == (weight, oversized));
    assert(holds_permit(t, weight, oversized));
    if oversized {
        assert(!has_oversized(s.live));
    }
}

/// A provider failure does not fail the attempt: the admission gate admits the task,
/// switches the memory scheduler off for good (every later attempt is
/// admitted at once), and asks for the failure to be logged only the first
/// time.
pub proof fn law_failure_falls_back(s: WeightedView, weight: u64, e: ProviderError, now: u128, later_weight: u64, later: u128)
    ensures
        ({
            let (t, r) = record_spec(s, weight, Err(e), now);
            &&& r == StatsOutcome::AdmittedFallback { first_failure: !s.failure_logged }
            &&& !t.scheduler_active
            &&& t.failure_logged
            &&& t.active_permits == s.active_permits + 1
            &&& begin_spec(t, later_weight, later).1 == AttemptStart::AdmittedFallback
        }),
{
}

/// Once a failure is logged it stays logged, whatever the admission gate does next.
pub proof fn law_failure_logged_once(
    s: WeightedView,
    weight: u64,
    probe: Result<MemoryStats, ProviderError>,
    stats: MemoryStats,
    ram_over: bool,
    cache_over: bool,
    now: u128,
)
    requires
        s.failure_logged,
    ensures
        begin_spec(s, weight, now).0.failure_logged,
        record_spec(s, weight, probe, now).0.failure_logged,
        record_spec(s, weight, probe, now).1 != (StatsOutcome::AdmittedFallback {
            first_failure: true,
        }),
        decide_spec(s, weight, stats, ram_over, cache_over).0.failure_logged,
        release_spec(s, weight, ram_over).failure_logged,
{
}

/// Fresh cached statistics are served without a probe; a release
/// invalidates them, so the next attempt probes the provider again.
pub proof fn law_release_invalidates_cache(
    s: WeightedView,
    weight: u64,
    oversized: bool,
    next_weight: u64,
    now: u128,
)
    requires
        s.scheduler_active,
    ensures
        cache_fresh(s, now) ==> begin_spec(s, next_weight, now) == (s, AttemptStart::Evaluate(
            s.cached_stats->0,
        )),
        begin_spec(release_spec(s, weight, oversized), next_weight, now).1
            == AttemptStart::NeedStats,
{
}

/// Statistics just recorded are fresh until the freshness window elapses.
pub proof fn law_recorded_stats_are_fresh(s: WeightedView, weight: u64, stats: MemoryStats, now: u128, later: u128)
    requires
        now <= later,
        later - now < s.stats_max_age,
    ensures
        begin_spec(record_spec(s, weight, Ok(stats), now).0, weight, later).1
            == (if s.scheduler_active {
            AttemptStart::Evaluate(stats)
        } else {
            AttemptStart::AdmittedFallback
        }),
{
}

/// Throttling is edge-triggered: pressure makes the attempt wait, and only
/// the step into the throttled state is logged; the first decision without
/// pressure leaves the throttled state, and only that step logs the resume.
pub proof fn law_throttle_logged_on_edges(
    s: WeightedView,
    weight: u64,
    stats: MemoryStats,
    ram_over: bool,
    cache_over: bool,
)
    ensures
        ({
            let (t, d, l) = decide_spec(s, weight, stats, ram_over, cache_over);
            &&& (ram_over || cache_over) ==> d == AttemptOutcome::Wait && t.throttled && (l
                is Throttling <==> !s.throttled) && t.active_permits == s.active_permits
            &&& !(ram_over || cache_over) ==> !t.throttled && ((l == WeightedLog::Resuming)
                <==> s.throttled) && !(l is Throttling)
        }),
{
}

/// An oversized task is not held to the byte budget: with no RAM or
/// page-cache pressure and no permit in flight, it is admitted as oversized
/// whatever the available bytes and the safety reserve, so it cannot wait
/// for ever on an empty gate.
pub proof fn law_oversized_admitted_into_empty_gate(
    s: WeightedView,
    weight: u64,
    stats: MemoryStats,
)
    requires
        wf(s),
        s.active_permits == 0,
        weight > s.max_single_weight_bytes,
    ensures
        ({
            let (t, d, _l) = decide_spec(s, weight, stats, false, false);
            &&& d == (AttemptOutcome::Admitted { oversized: true })
            &&& t.active_permits == 1
            &&& t.oversized_in_flight
            &&& holds_permit(t, weight, true)
        }),
{
    let (t, d, _l) = decide_spec(s, weight, stats, false, false);
    assert(t.live[s.live.len() as int] == (weight, true));
}

/// A successful probe is what the attempt decides on: `record_stats` hands
/// back exactly the statistics just probed, and caches them as of `now`,
/// whatever was cached before.
pub proof fn law_probe_is_decided_on(s: WeightedView, weight: u64, stats: MemoryStats, now: u128)
    ensures
        ({
            let (t, r) = record_spec(s, weight, Ok(stats), now);
            &&& r == StatsOutcome::Evaluate(stats)
            &&& t.cached_stats == Some(stats)
            &&& t.cached_at == Some(now)
            &&& t.active_permits == s.active_permits
            &&& t.committed_bytes == s.committed_bytes
            &&& t.scheduler_active == s.scheduler_active
        }),
{
}

} // verus!
