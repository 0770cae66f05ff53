//! The decisions of the unweighted admission gate.
//!
//! A gate admits a task when host RAM usage is below its ceiling. Once usage
//! reaches the ceiling the admission gate is throttled, and it only resumes when usage
//! falls below the resume threshold (the ceiling less the hysteresis band).
//! When the memory provider fails, the admission gate falls back to admitting every
//! task, for good, and says so once.
//!
//! [`AdmissionState`] holds what the admission gate decides with. The waiting, the
//! provider calls and the logging belong to the caller: each attempt hands
//! the state what the provider reported, and gets back whether to admit and
//! what to log.

use vstd::prelude::*;

verus! {

/// Where the admission gate's memory signal comes from.
#[derive(Debug, Clone, Copy, PartialEq, Eq, Structural)]
pub enum MemorySource {
    /// The memory scheduler was switched off in the configuration.
    Disabled,
    /// The memory provider is consulted on every admission.
    Provider,
    /// The provider failed; the admission gate admits on thread caps alone.
    ThreadCapOnly,
}

impl MemorySource {
    /// Human-readable identifier of the source.
    pub fn as_str(self) -> (s: &'static str)
        ensures
            s@ == match self {
                MemorySource::Disabled => "disabled"@,
                MemorySource::Provider => "provider"@,
                MemorySource::ThreadCapOnly => "thread_cap_only"@,
            },
    {
        match self {
            MemorySource::Disabled => "disabled",
            MemorySource::Provider => "provider",
            MemorySource::ThreadCapOnly => "thread_cap_only",
        }
    }
}

/// What the provider reported for one admission attempt.
///
/// A reading is compared by the caller with the admission gate's thresholds: whether it
/// lies below the resume threshold and whether it reaches the ceiling.
#[derive(Debug, Clone, Copy, PartialEq, Eq, Structural)]
pub enum UsageProbe {
    /// The provider returned a used-RAM fraction.
    Reading {
        /// The fraction is below `max_ram_fraction - resume_hysteresis`.
        below_resume: bool,
        /// The fraction is at or above `max_ram_fraction`.
        at_or_above_max: bool,
    },
    /// The provider returned an error.
    Failed,
}

/// Whether an attempt admits the task or waits for a release or a poll.
#[derive(Debug, Clone, Copy, PartialEq, Eq, Structural)]
pub enum AcquireDecision {
    /// A permit is handed out.
    Admit,
    /// The caller waits, then tries again.
    Wait,
}

/// What an attempt asks the caller to log.
#[derive(Debug, Clone, Copy, PartialEq, Eq, Structural)]
pub enum GateLog {
    /// Nothing.
    Quiet,
    /// Usage reached the ceiling while tasks are in flight (a warning).
    ThrottlingWhileBusy,
    /// Usage reached the ceiling with no task in flight (information).
    ThrottlingIdle,
    /// Usage fell below the resume threshold.
    Resuming,
    /// The provider failed for the first time; the admission gate falls back.
    ProviderFailed,
}

/// The admission gate's state, as its contracts speak of it.
pub struct AdmissionView {
    /// Permits in flight.
    pub active_tasks: nat,
    /// The admission gate refuses admissions until usage falls below the resume threshold.
    pub throttled: bool,
    /// The current throttled period has been logged.
    pub throttle_logged: bool,
    /// The provider is consulted.
    pub memory_scheduler_active: bool,
    /// Where the memory signal comes from.
    pub memory_source: MemorySource,
    /// A provider failure has been logged.
    pub provider_failure_logged: bool,
}

/// The state an admission gate decides with.
pub struct AdmissionState {
    active_tasks: usize,
    throttled: bool,
    throttle_logged: bool,
    memory_scheduler_active: bool,
    memory_source: MemorySource,
    provider_failure_logged: bool,
}

impl View for AdmissionState {
    type V = AdmissionView;

    closed spec fn view(&self) -> AdmissionView {
        AdmissionView {
            active_tasks: self.active_tasks as nat,
            throttled: self.throttled,
            throttle_logged: self.throttle_logged,
            memory_scheduler_active: self.memory_scheduler_active,
            memory_source: self.memory_source,
            provider_failure_logged: self.provider_failure_logged,
        }
    }
}

// ---------------------------------------------------------------------------
// The admission gate as a state machine
// ---------------------------------------------------------------------------

/// The consistency every state of a gate keeps.
pub open spec fn wf(s: AdmissionView) -> bool {
    &&& s.throttled ==> s.memory_scheduler_active
    &&& s.throttle_logged ==> s.throttled
    &&& (s.memory_source == MemorySource::Provider) == s.memory_scheduler_active
    &&& s.memory_source == MemorySource::ThreadCapOnly ==> s.provider_failure_logged
    &&& s.memory_source == MemorySource::Disabled ==> !s.provider_failure_logged
}

/// The state of a new gate, whose scheduler is configured as `enabled` and
/// whose provider, when consulted at construction, failed if `init_failed`.
pub open spec fn init_spec(enabled: bool, init_failed: bool) -> AdmissionView {
    let failed = enabled && init_failed;
    AdmissionView {
        active_tasks: 0,
        throttled: false,
        throttle_logged: false,
        memory_scheduler_active: enabled && !failed,
        memory_source: if !enabled {
            MemorySource::Disabled
        } else if failed {
            MemorySource::ThreadCapOnly
        } else {
            MemorySource::Provider
        },
        provider_failure_logged: failed,
    }
}

/// Log the throttled period once: the state after and what to log.
pub open spec fn throttle_log_spec(s: AdmissionView) -> (AdmissionView, GateLog) {
    if s.throttle_logged {
        (s, GateLog::Quiet)
    } else {
        (
            AdmissionView { throttle_logged: true, ..s },
            if s.active_tasks > 0 {
                GateLog::ThrottlingWhileBusy
            } else {
                GateLog::ThrottlingIdle
            },
        )
    }
}

/// One admission attempt from `s`, with what the provider reported if it was
/// consulted: the state after, the decision and what to log.
pub open spec fn acquire_spec(s: AdmissionView, probe: Option<UsageProbe>) -> (
    AdmissionView,
    AcquireDecision,
    GateLog,
) {
    let admitted = AdmissionView { active_tasks: s.active_tasks + 1, ..s };
    if !s.memory_scheduler_active {
        (admitted, AcquireDecision::Admit, GateLog::Quiet)
    } else {
        match probe {
            None => (s, AcquireDecision::Wait, GateLog::Quiet),
            Some(UsageProbe::Failed) => (
                AdmissionView {
                    active_tasks: s.active_tasks + 1,
                    memory_scheduler_active: false,
                    throttled: false,
                    throttle_logged: false,
                    memory_source: MemorySource::ThreadCapOnly,
                    provider_failure_logged: true,
                    ..s
                },
                AcquireDecision::Admit,
                if s.provider_failure_logged {
                    GateLog::Quiet
                } else {
                    GateLog::ProviderFailed
                },
            ),
            Some(UsageProbe::Reading { below_resume, at_or_above_max }) => {
                if s.throttled {
                    if below_resume {
                        (
                            AdmissionView {
                                active_tasks: s.active_tasks + 1,
                                throttled: false,
                                throttle_logged: false,
                                ..s
                            },
                            AcquireDecision::Admit,
                            GateLog::Resuming,
                        )
                    } else {
                        let (t, log) = throttle_log_spec(s);
                        (t, AcquireDecision::Wait, log)
                    }
                } else if at_or_above_max {
                    let (t, log) = throttle_log_spec(
                        AdmissionView { throttled: true, throttle_logged: false, ..s },
                    );
                    (t, AcquireDecision::Wait, log)
                } else {
                    (admitted, AcquireDecision::Admit, GateLog::Quiet)
                }
            },
        }
    }
}

/// The state after a permit is released.
pub open spec fn release_spec(s: AdmissionView) -> AdmissionView {
    AdmissionView {
        active_tasks: if s.active_tasks > 0 {
            (s.active_tasks - 1) as nat
        } else {
            0
        },
        ..s
    }
}

impl AdmissionState {
    /// A new gate whose memory scheduler is configured as `enabled`.
    ///
    /// When it is enabled the caller consults the provider once before, and
    /// `init_failed` says whether that failed; the admission gate then falls back to
    /// thread-cap-only admission. When it is disabled `init_failed` is not
    /// read.
    pub fn new(enabled: bool, init_failed: bool) -> (g: Self)
        ensures
            g@ == init_spec(enabled, init_failed),
            wf(g@),
    {
        let failed = enabled && init_failed;
        AdmissionState {
            active_tasks: 0,
            throttled: false,
            throttle_logged: false,
            memory_scheduler_active: enabled && !failed,
            memory_source: if !enabled {
                MemorySource::Disabled
            } else if failed {
                MemorySource::ThreadCapOnly
            } else {
                MemorySource::Provider
            },
            provider_failure_logged: failed,
        }
    }

    /// Whether the memory-aware scheduler is still active, that is, whether
    /// an attempt consults the provider.
    pub fn memory_scheduler_active(&self) -> (b: bool)
        ensures
            b == self@.memory_scheduler_active,
    {
        self.memory_scheduler_active
    }

    /// Where the memory signal comes from.
    pub fn memory_source(&self) -> (m: MemorySource)
        ensures
            m == self@.memory_source,
    {
        self.memory_source
    }

    /// Number of permits in flight.
    pub fn active_tasks(&self) -> (n: usize)
        ensures
            n == self@.active_tasks,
    {
        self.active_tasks
    }

    /// Whether the admission gate is throttled.
    pub fn throttled(&self) -> (b: bool)
        ensures
            b == self@.throttled,
    {
        self.throttled
    }

    fn log_throttle(&mut self) -> (log: GateLog)
        ensures
            (final(self)@, log) == throttle_log_spec(old(self)@),
    {
        if self.throttle_logged {
            return GateLog::Quiet;
        }
        let log = if self.active_tasks > 0 {
            GateLog::ThrottlingWhileBusy
        } else {
            GateLog::ThrottlingIdle
        };
        self.throttle_logged = true;
        log
    }

    /// One admission attempt. `probe` is what the provider reported; it is
    /// needed exactly when the scheduler is active and read only then.
    pub fn acquire_step(&mut self, probe: Option<UsageProbe>) -> (r: (AcquireDecision, GateLog))
        requires
            old(self)@.memory_scheduler_active ==> probe is Some,
            old(self)@.active_tasks < usize::MAX,
        ensures
            (final(self)@, r.0, r.1) == acquire_spec(old(self)@, probe),
            wf(old(self)@) ==> wf(final(self)@),
    {
        if !self.memory_scheduler_active {
            self.active_tasks = self.active_tasks + 1;
            return (AcquireDecision::Admit, GateLog::Quiet);
        }
        match probe {
            None => (AcquireDecision::Wait, GateLog::Quiet),
            Some(UsageProbe::Failed) => {
                let log = if self.provider_failure_logged {
                    GateLog::Quiet
                } else {
                    GateLog::ProviderFailed
                };
                self.provider_failure_logged = true;
                self.memory_scheduler_active = false;
                self.throttled = false;
                self.throttle_logged = false;
                self.memory_source = MemorySource::ThreadCapOnly;
                self.active_tasks = self.active_tasks + 1;
                (AcquireDecision::Admit, log)
            },
            Some(UsageProbe::Reading { below_resume, at_or_above_max }) => {
                if self.throttled {
                    if below_resume {
                        self.throttled = false;
                        self.throttle_logged = false;
                        self.active_tasks = self.active_tasks + 1;
                        (AcquireDecision::Admit, GateLog::Resuming)
                    } else {
                        let log = self.log_throttle();
                        (AcquireDecision::Wait, log)
                    }
                } else if at_or_above_max {
                    self.throttled = true;
                    self.throttle_logged = false;
                    let log = self.log_throttle();
                    (AcquireDecision::Wait, log)
                } else {
                    self.active_tasks = self.active_tasks + 1;
                    (AcquireDecision::Admit, GateLog::Quiet)
                }
            },
        }
    }

    /// Release one permit.
    pub fn release(&mut self)
        ensures
            final(self)@ == release_spec(old(self)@),
            wf(old(self)@) ==> wf(final(self)@),
    {
        if self.active_tasks > 0 {
            self.active_tasks = self.active_tasks - 1;
        }
    }
}

// ---------------------------------------------------------------------------
// Laws
// ---------------------------------------------------------------------------

/// Something that happens to a gate: an admission attempt (with what the
/// provider reported, when it was consulted) or the release of a permit.
pub enum GateEvent {
    /// An admission attempt.
    Acquire(Option<UsageProbe>),
    /// A permit is dropped.
    Release,
}

/// The state after `e`, the decision if `e` was an attempt, and what to log.
pub open spec fn event_spec(s: AdmissionView, e: GateEvent) -> (
    AdmissionView,
    Option<AcquireDecision>,
    GateLog,
) {
    match e {
        GateEvent::Acquire(p) => {
            let (t, d, l) = acquire_spec(s, p);
            (t, Some(d), l)
        },
        GateEvent::Release => (release_spec(s), None, GateLog::Quiet),
    }
}

/// The state after the events `es`, in order.
pub open spec fn run(s: AdmissionView, es: Seq<GateEvent>) -> AdmissionView
    decreases es.len(),
{
    if es.len() == 0 {
        s
    } else {
        run(event_spec(s, es[0]).0, es.drop_first())
    }
}

/// How many of the events `es` admit a task.
pub open spec fn admissions(s: AdmissionView, es: Seq<GateEvent>) -> nat
    decreases es.len(),
{
    if es.len() == 0 {
        0
    } else {
        let (t, d, _l) = event_spec(s, es[0]);
        (if d == Some(AcquireDecision::Admit) {
            1nat
        } else {
            0nat
        }) + admissions(t, es.drop_first())
    }
}

/// How many of the events `es` are attempts.
pub open spec fn attempts(es: Seq<GateEvent>) -> nat
    decreases es.len(),
{
    if es.len() == 0 {
        0
    } else {
        (if es[0] is Acquire {
            1nat
        } else {
            0nat
        }) + attempts(es.drop_first())
    }
}

/// How many of the events `es` log `what`.
pub open spec fn logs_of(s: AdmissionView, es: Seq<GateEvent>, what: spec_fn(GateLog) -> bool) -> nat
    decreases es.len(),
{
    if es.len() == 0 {
        0
    } else {
        let (t, _d, l) = event_spec(s, es[0]);
        (if what(l) {
            1nat
        } else {
            0nat
        }) + logs_of(t, es.drop_first(), what)
    }
}

/// Whether a log line reports throttling.
pub open spec fn is_throttle_log(l: GateLog) -> bool {
    l == GateLog::ThrottlingWhileBusy || l == GateLog::ThrottlingIdle
}

/// Whether a log line reports a provider failure.
pub open spec fn is_failure_log(l: GateLog) -> bool {
    l == GateLog::ProviderFailed
}

/// Whether `e` keeps usage at or above the resume threshold: a release, or an
/// attempt whose reading is not below the resume threshold.
pub open spec fn keeps_pressure(e: GateEvent) -> bool {
    match e {
        GateEvent::Release => true,
        GateEvent::Acquire(Some(UsageProbe::Reading { below_resume, .. })) => !below_resume,
        _ => false,
    }
}

/// Every state a gate reaches from a consistent state is consistent.
pub proof fn law_consistency_is_kept(s: AdmissionView, es: Seq<GateEvent>)
    requires
        wf(s),
    ensures
        wf(run(s, es)),
    decreases es.len(),
{
    if es.len() > 0 {
        law_consistency_is_kept(event_spec(s, es[0]).0, es.drop_first());
    }
}

/// A new gate is consistent and empty; a provider that fails when the admission gate
/// is built makes it fall back to thread-cap-only admission.
pub proof fn law_new_gate_is_consistent(enabled: bool, init_failed: bool)
    ensures
        wf(init_spec(enabled, init_failed)),
        init_spec(enabled, init_failed).active_tasks == 0,
        !init_spec(enabled, init_failed).throttled,
        enabled && init_failed ==> !init_spec(enabled, init_failed).memory_scheduler_active
            && init_spec(enabled, init_failed).memory_source == MemorySource::ThreadCapOnly,
        !enabled ==> init_spec(enabled, init_failed).memory_source == MemorySource::Disabled,
{
}

/// Once the memory scheduler is off (switched off, or after a provider
/// failure) it stays off, and every attempt admits its task.
pub proof fn law_fallback_admits_everything(s: AdmissionView, es: Seq<GateEvent>)
    requires
        !s.memory_scheduler_active,
    ensures
        !run(s, es).memory_scheduler_active,
        admissions(s, es) == attempts(es),
    decreases es.len(),
{
    if es.len() > 0 {
        law_fallback_admits_everything(event_spec(s, es[0]).0, es.drop_first());
    }
}

/// A provider failure is logged at most once in the life of a gate.
pub proof fn law_failure_logged_once(s: AdmissionView, es: Seq<GateEvent>)
    ensures
        logs_of(s, es, |l: GateLog| is_failure_log(l)) + (if s.provider_failure_logged {
            1nat
        } else {
            0nat
        }) <= 1,
        s.provider_failure_logged ==> run(s, es).provider_failure_logged,
    decreases es.len(),
{
    if es.len() > 0 {
        law_failure_logged_once(event_spec(s, es[0]).0, es.drop_first());
    }
}

/// A provider failure makes the attempt admit its task and switches the
/// memory scheduler off.
pub proof fn law_failure_falls_back(s: AdmissionView)
    requires
        wf(s),
    ensures
        acquire_spec(s, Some(UsageProbe::Failed)).1 == AcquireDecision::Admit,
        !acquire_spec(s, Some(UsageProbe::Failed)).0.memory_scheduler_active,
        acquire_spec(s, Some(UsageProbe::Failed)).0.memory_source == (if s.memory_scheduler_active {
            MemorySource::ThreadCapOnly
        } else {
            s.memory_source
        }),
{
}

/// Usage at the ceiling (and not below the resume threshold) is never
/// admitted while the provider is consulted: the admission gate waits, throttled.
pub proof fn law_ceiling_throttles(s: AdmissionView, below_resume: bool)
    requires
        wf(s),
        s.memory_scheduler_active,
        !below_resume,
    ensures
        ({
            let (t, d, _l) = acquire_spec(
                s,
                Some(UsageProbe::Reading { below_resume, at_or_above_max: true }),
            );
            d == AcquireDecision::Wait && t.throttled && t.active_tasks == s.active_tasks
        }),
{
}

/// Hysteresis: a throttled gate admits nothing until a reading falls below
/// the resume threshold, stays throttled meanwhile, and logs the throttled
/// period at most once.
pub proof fn law_hysteresis(s: AdmissionView, es: Seq<GateEvent>)
    requires
        wf(s),
        s.throttled,
        forall|i: int| 0 <= i < es.len() ==> keeps_pressure(#[trigger] es[i]),
    ensures
        admissions(s, es) == 0,
        run(s, es).throttled,
        logs_of(s, es, |l: GateLog| is_throttle_log(l)) <= (if s.throttle_logged {
            0nat
        } else {
            1nat
        }),
        s.throttle_logged ==> run(s, es).throttle_logged,
    decreases es.len(),
{
    if es.len() > 0 {
        let t = event_spec(s, es[0]).0;
        assert(keeps_pressure(es[0]));
        assert forall|i: int| 0 <= i < es.drop_first().len() implies keeps_pressure(
            #[trigger] es.drop_first()[i],
        ) by {
            assert(es.drop_first()[i] == es[i + 1]);
        }
        law_hysteresis(t, es.drop_first());
    }
}

/// A release undoes the count of the admission it follows; a wait leaves the
/// count unchanged.
pub proof fn law_release_undoes_admission(s: AdmissionView, probe: Option<UsageProbe>)
    ensures
        ({
            let (t, d, _l) = acquire_spec(s, probe);
            &&& d == AcquireDecision::Admit ==> t.active_tasks == s.active_tasks + 1
                && release_spec(t).active_tasks == s.active_tasks
            &&& d == AcquireDecision::Wait ==> t.active_tasks == s.active_tasks
        }),
{
}

/// Below the ceiling a gate admits every task, however many are in flight:
/// an active gate that is not throttled admits on any reading that does not
/// reach the ceiling, counting one more permit.
pub proof fn law_below_ceiling_admits(s: AdmissionView, below_resume: bool)
    requires
        wf(s),
        s.memory_scheduler_active,
        !s.throttled,
    ensures
        ({
            let (t, d, l) = acquire_spec(
                s,
                Some(UsageProbe::Reading { below_resume, at_or_above_max: false }),
            );
            &&& d == AcquireDecision::Admit
            &&& t.active_tasks == s.active_tasks + 1
            &&& !t.throttled
            &&& t.memory_scheduler_active
            &&& l == GateLog::Quiet
        }),
{
}

} // verus!
