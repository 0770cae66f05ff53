use memory_admission::weighted::{
    AttemptOutcome, AttemptStart, PressureKind, StatsOutcome, WeightedLog, WeightedState,
};
use memory_admission::{MemoryStats, ProviderError};

const MAX_RAM_FRACTION: f64 = 0.80;
const MAX_PAGE_CACHE_FRACTION: f64 = 0.6;
const MS: u128 = 1_000_000;
const GIB: u64 = 1 << 30;

fn used_fraction(s: &MemoryStats) -> f64 {
    if s.total_bytes == 0 {
        0.0
    } else {
        1.0 - (s.available_bytes as f64 / s.total_bytes as f64)
    }
}

/// Statistics a fixed used-RAM fraction stands for: one GiB in all.
fn fixed_stats(fraction: f64) -> MemoryStats {
    let total = GIB;
    let available = (((1.0 - fraction).max(0.0)) * total as f64) as u64;
    MemoryStats {
        total_bytes: total,
        available_bytes: available.min(total),
        page_cache_bytes: 0,
    }
}

fn small_stats(available_bytes: u64) -> MemoryStats {
    MemoryStats {
        total_bytes: 1024,
        available_bytes,
        page_cache_bytes: 0,
    }
}

/// One admission attempt at `now`, with a provider that reports `probe`.
fn attempt(
    gate: &mut WeightedState,
    weight: u64,
    now: u128,
    probe: Result<MemoryStats, ProviderError>,
) -> (AttemptOutcome, bool) {
    let stats = match gate.begin_attempt(weight, now) {
        AttemptStart::AdmittedFallback => return (AttemptOutcome::Admitted { oversized: false }, true),
        AttemptStart::Evaluate(s) => s,
        AttemptStart::NeedStats => match gate.record_stats(weight, probe, now) {
            StatsOutcome::AdmittedFallback { .. } => {
                return (AttemptOutcome::Admitted { oversized: false }, true)
            }
            StatsOutcome::Evaluate(s) => s,
        },
    };
    let ram_over = used_fraction(&stats) >= MAX_RAM_FRACTION;
    let cache_over = stats.total_bytes > 0
        && MAX_PAGE_CACHE_FRACTION < 1.0
        && stats.page_cache_bytes as f64 / stats.total_bytes as f64 >= MAX_PAGE_CACHE_FRACTION;
    (gate.decide(weight, stats, ram_over, cache_over).0, false)
}

#[test]
fn admits_under_budget() {
    let mut gate = WeightedState::new(true, 0, u64::MAX, 100 * MS);
    let (outcome, fallback) = attempt(&mut gate, 1024, 0, Ok(fixed_stats(0.10)));
    assert_eq!(outcome, AttemptOutcome::Admitted { oversized: false });
    assert!(!fallback);
    assert_eq!(gate.committed_bytes(), 1024);
    assert_eq!(gate.active_permits(), 1);
    assert!(gate.memory_scheduler_active());
}

#[test]
fn release_decrements_committed_bytes() {
    let mut gate = WeightedState::new(true, 0, u64::MAX, 100 * MS);
    let (outcome, _) = attempt(&mut gate, 2048, 0, Ok(fixed_stats(0.10)));
    assert_eq!(outcome, AttemptOutcome::Admitted { oversized: false });
    assert_eq!(gate.committed_bytes(), 2048);
    gate.release(2048, false);
    assert_eq!(gate.committed_bytes(), 0);
    assert_eq!(gate.active_permits(), 0);
}

#[test]
fn sync_gate_admits_under_budget() {
    let mut gate = WeightedState::new(true, 0, u64::MAX, 100 * MS);
    let (outcome, _) = attempt(&mut gate, 1024, 0, Ok(fixed_stats(0.10)));
    assert_eq!(outcome, AttemptOutcome::Admitted { oversized: false });
    assert_eq!(gate.active_permits(), 1);
}

#[test]
fn async_gate_blocks_until_budget_released() {
    let mut gate = WeightedState::new(true, 0, u64::MAX, MS);
    assert_eq!(
        attempt(&mut gate, 600, 0, Ok(small_stats(700))).0,
        AttemptOutcome::Admitted { oversized: false }
    );
    // 700 available less 600 committed leaves 100: the waiter for 200 waits.
    assert_eq!(attempt(&mut gate, 200, 10 * MS, Ok(small_stats(700))).0, AttemptOutcome::Wait);
    assert_eq!(attempt(&mut gate, 200, 20 * MS, Ok(small_stats(700))).0, AttemptOutcome::Wait);
    gate.release(600, false);
    assert_eq!(
        attempt(&mut gate, 200, 30 * MS, Ok(small_stats(700))).0,
        AttemptOutcome::Admitted { oversized: false }
    );
    assert_eq!(gate.committed_bytes(), 200);
}

#[test]
fn oversized_permit_runs_alone() {
    let mut gate = WeightedState::new(true, 0, 128, MS);
    assert_eq!(
        attempt(&mut gate, 64, 0, Ok(small_stats(1024))).0,
        AttemptOutcome::Admitted { oversized: false }
    );
    assert_eq!(attempt(&mut gate, 256, 10 * MS, Ok(small_stats(1024))).0, AttemptOutcome::Wait);
    gate.release(64, false);
    assert_eq!(
        attempt(&mut gate, 256, 20 * MS, Ok(small_stats(1024))).0,
        AttemptOutcome::Admitted { oversized: true }
    );
    assert_eq!(gate.active_permits(), 1);
    assert!(gate.oversized_in_flight());
    // Nothing else runs beside it, however small.
    assert_eq!(attempt(&mut gate, 1, 30 * MS, Ok(small_stats(1024))).0, AttemptOutcome::Wait);
    gate.release(256, true);
    assert!(!gate.oversized_in_flight());
    assert_eq!(
        attempt(&mut gate, 1, 40 * MS, Ok(small_stats(1024))).0,
        AttemptOutcome::Admitted { oversized: false }
    );
}

#[test]
fn provider_failure_falls_back_and_admits() {
    let mut gate = WeightedState::new(true, 0, 8 * GIB, 100 * MS);
    assert_eq!(gate.begin_attempt(2048, 0), AttemptStart::NeedStats);
    assert_eq!(
        gate.record_stats(2048, Err(ProviderError::new("stats unavailable".to_string())), 0),
        StatsOutcome::AdmittedFallback { first_failure: true }
    );
    assert!(!gate.memory_scheduler_active());
    assert_eq!(gate.committed_bytes(), 2048);
    assert_eq!(gate.begin_attempt(10, 5), AttemptStart::AdmittedFallback);
    assert_eq!(gate.active_permits(), 2);
}

#[test]
fn safety_reserve_limits_budget() {
    let mut gate = WeightedState::new(true, 500, u64::MAX, 100 * MS);
    assert_eq!(attempt(&mut gate, 300, 0, Ok(small_stats(700))).0, AttemptOutcome::Wait);
    assert_eq!(
        attempt(&mut gate, 200, 1, Ok(small_stats(700))).0,
        AttemptOutcome::Admitted { oversized: false }
    );
}

#[test]
fn fresh_stats_are_served_from_cache() {
    let mut gate = WeightedState::new(true, 0, u64::MAX, 100 * MS);
    assert_eq!(gate.begin_attempt(1, 0), AttemptStart::NeedStats);
    assert_eq!(
        gate.record_stats(1, Ok(small_stats(700)), 0),
        StatsOutcome::Evaluate(small_stats(700))
    );
    assert_eq!(gate.begin_attempt(1, 99 * MS), AttemptStart::Evaluate(small_stats(700)));
    assert_eq!(gate.begin_attempt(1, 100 * MS), AttemptStart::NeedStats);
    let (outcome, _) = gate.decide(1, small_stats(700), false, false);
    assert_eq!(outcome, AttemptOutcome::Admitted { oversized: false });
    gate.release(1, false);
    assert_eq!(gate.begin_attempt(1, 1), AttemptStart::NeedStats);
}

#[test]
fn pressure_throttles_with_edge_logging() {
    let mut gate = WeightedState::new(true, 0, u64::MAX, MS);
    let stats = small_stats(700);
    assert_eq!(
        gate.decide(1, stats, true, false),
        (AttemptOutcome::Wait, WeightedLog::Throttling(PressureKind::UsedRam))
    );
    assert_eq!(gate.decide(1, stats, false, true), (AttemptOutcome::Wait, WeightedLog::Quiet));
    assert!(gate.throttled());
    assert_eq!(
        gate.decide(1, stats, false, false),
        (AttemptOutcome::Admitted { oversized: false }, WeightedLog::Resuming)
    );
    assert!(!gate.throttled());
    let mut other = WeightedState::new(true, 0, u64::MAX, MS);
    assert_eq!(
        other.decide(1, stats, false, true),
        (AttemptOutcome::Wait, WeightedLog::Throttling(PressureKind::PageCache))
    );
}

#[test]
fn used_ram_ceiling_blocks_admission() {
    let mut gate = WeightedState::new(true, 0, u64::MAX, 100 * MS);
    assert_eq!(attempt(&mut gate, 1, 0, Ok(fixed_stats(0.85))).0, AttemptOutcome::Wait);
    assert_eq!(gate.active_permits(), 0);
}

#[test]
fn disabled_scheduler_admits_at_once() {
    let mut gate = WeightedState::new(false, 0, 8, 100 * MS);
    assert_eq!(gate.begin_attempt(1 << 40, 0), AttemptStart::AdmittedFallback);
    assert_eq!(gate.committed_bytes(), 1 << 40);
    assert!(!gate.oversized_in_flight());
}
