use memory_admission::admission::{
    AcquireDecision, AdmissionState, GateLog, MemorySource, UsageProbe,
};

const MAX_RAM_FRACTION: f64 = 0.80;
const RESUME_RAM_FRACTION: f64 = 0.75;

fn reading(usage: f64) -> Option<UsageProbe> {
    Some(UsageProbe::Reading {
        below_resume: usage < RESUME_RAM_FRACTION,
        at_or_above_max: usage >= MAX_RAM_FRACTION,
    })
}

/// Attempts until one admits, feeding the given provider readings in turn.
fn acquire_with(state: &mut AdmissionState, mut usage: impl FnMut() -> f64) -> usize {
    let mut attempts = 0;
    loop {
        attempts += 1;
        let probe = if state.memory_scheduler_active() {
            reading(usage())
        } else {
            None
        };
        if let (AcquireDecision::Admit, _) = state.acquire_step(probe) {
            return attempts;
        }
    }
}

#[test]
fn admits_when_below_threshold() {
    let mut gate = AdmissionState::new(true, false);
    assert_eq!(gate.acquire_step(reading(0.10)), (AcquireDecision::Admit, GateLog::Quiet));
    assert_eq!(gate.active_tasks(), 1);
}

#[test]
fn throttles_then_resumes_via_hysteresis() {
    let mut gate = AdmissionState::new(true, false);
    let mut calls = 0;
    let attempts = acquire_with(&mut gate, || {
        calls += 1;
        if calls <= 2 { 0.95 } else { 0.50 }
    });
    assert!(calls >= 3);
    assert_eq!(attempts, 3);
    assert!(!gate.throttled());
}

#[test]
fn falls_back_when_disabled() {
    let mut gate = AdmissionState::new(false, false);
    assert_eq!(gate.acquire_step(None), (AcquireDecision::Admit, GateLog::Quiet));
    assert!(!gate.memory_scheduler_active());
    assert_eq!(gate.memory_source(), MemorySource::Disabled);
    assert_eq!(gate.memory_source().as_str(), "disabled");
}

#[test]
fn active_tasks_tracks_permits() {
    let mut gate = AdmissionState::new(true, false);
    let _ = acquire_with(&mut gate, || 0.10);
    assert_eq!(gate.active_tasks(), 1);
    gate.release();
    assert_eq!(gate.active_tasks(), 0);
    gate.release();
    assert_eq!(gate.active_tasks(), 0);
}

#[test]
fn ceiling_throttles_and_logs_once() {
    let mut gate = AdmissionState::new(true, false);
    assert_eq!(gate.acquire_step(reading(0.10)).0, AcquireDecision::Admit);
    assert_eq!(
        gate.acquire_step(reading(0.85)),
        (AcquireDecision::Wait, GateLog::ThrottlingWhileBusy)
    );
    assert!(gate.throttled());
    // Between the resume threshold and the ceiling: still throttled, no new log.
    assert_eq!(gate.acquire_step(reading(0.78)), (AcquireDecision::Wait, GateLog::Quiet));
    assert_eq!(gate.acquire_step(reading(0.90)), (AcquireDecision::Wait, GateLog::Quiet));
    assert_eq!(gate.acquire_step(reading(0.70)), (AcquireDecision::Admit, GateLog::Resuming));
    assert_eq!(gate.active_tasks(), 2);
    assert!(!gate.throttled());
}

#[test]
fn idle_throttle_logs_as_information() {
    let mut gate = AdmissionState::new(true, false);
    assert_eq!(gate.acquire_step(reading(0.99)), (AcquireDecision::Wait, GateLog::ThrottlingIdle));
}

#[test]
fn between_thresholds_admits_when_not_throttled() {
    let mut gate = AdmissionState::new(true, false);
    assert_eq!(gate.acquire_step(reading(0.78)), (AcquireDecision::Admit, GateLog::Quiet));
}

#[test]
fn provider_failure_at_init_falls_back() {
    let mut gate = AdmissionState::new(true, true);
    assert!(!gate.memory_scheduler_active());
    assert_eq!(gate.memory_source().as_str(), "thread_cap_only");
    assert_eq!(gate.acquire_step(None), (AcquireDecision::Admit, GateLog::Quiet));
}

#[test]
fn provider_failure_at_runtime_falls_back_and_logs_once() {
    let mut gate = AdmissionState::new(true, false);
    assert_eq!(gate.memory_source().as_str(), "provider");
    assert_eq!(gate.acquire_step(reading(0.95)).0, AcquireDecision::Wait);
    assert_eq!(
        gate.acquire_step(Some(UsageProbe::Failed)),
        (AcquireDecision::Admit, GateLog::ProviderFailed)
    );
    assert!(!gate.memory_scheduler_active());
    assert!(!gate.throttled());
    assert_eq!(gate.memory_source(), MemorySource::ThreadCapOnly);
    assert_eq!(gate.acquire_step(None), (AcquireDecision::Admit, GateLog::Quiet));
    assert_eq!(gate.active_tasks(), 2);
}
