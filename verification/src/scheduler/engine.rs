//! State of the scheduler and the steps that every operation is made of.
//!
//! The engine owns all jobs and queues. An operation changes the state and adds effects, in
//! order, that the runtime performs: events to publish, timers to set, executions to start.

pub mod completion;
pub mod dispatch;
pub mod event_laws;
pub mod execution_laws;
pub mod job_laws;
pub mod laws;
pub mod lifecycle;
pub mod management;
pub mod scheduling;
pub mod trigger_laws;
pub mod update_laws;

use super::config::{SchedulerConfig, SchedulerError, SchedulerErrorView, SchedulerStatus};
use super::cron::cron_start;
use super::event::{SchedulerEvent, SchedulerEventKind, SchedulerEventKindView, SchedulerEventView};
use super::model::{
    optional_text, CapacityPolicy, ExecutionRetryPolicy, FailurePolicy, JobId, JobPriority,
    JobState, JobStateView, RunId, Trigger, TriggerCoalescing, TriggerView,
};
use super::queue::{of_other_job, PendingExecution, ReadyQueue, TimerEntry, TimerKind};
use super::task::{TaskBinding, TaskBindingView, TaskCancellationMode, TaskContext};
use super::time::{Span, Timestamp};
use vstd::prelude::*;

verus! {

/// Everything the scheduler knows of a job.
#[derive(Debug)]
pub struct JobEntry {
    /// Job.
    pub id: JobId,
    /// Version; every change of meaning makes it grow.
    pub version: u64,
    /// Task to run.
    pub task: TaskBinding,
    /// Trigger.
    pub trigger: Trigger,
    /// Concurrency limit of its own.
    pub concurrency: Option<usize>,
    /// Pending limit of its own.
    pub max_pending: Option<usize>,
    /// Priority within a batch.
    pub priority: JobPriority,
    /// Merging of normal triggers.
    pub coalescing: TriggerCoalescing,
    /// What happens without room.
    pub capacity: CapacityPolicy,
    /// Retries.
    pub retry: ExecutionRetryPolicy,
    /// Guard against repeated failure.
    pub failure: FailurePolicy,
    /// Where it is in its life.
    pub state: JobState,
    /// Key of its normal timer.
    pub normal_timer_key: Option<u64>,
    /// Instant of its normal timer.
    pub next_run_at: Option<Timestamp>,
    /// Executions held back until there is room.
    pub blocked: Vec<PendingExecution>,
    /// Executions that hold a slot of the job.
    pub running_count: usize,
    /// Final failures in a row.
    pub consecutive_failures: u32,
    /// Last start.
    pub last_started_at: Option<Timestamp>,
    /// Last end.
    pub last_finished_at: Option<Timestamp>,
    /// Last final result.
    pub last_outcome: Option<String>,
    /// Planned instant of the last start.
    pub last_fired_at: Option<Timestamp>,
    /// Registration.
    pub created_at: Timestamp,
    /// Last change.
    pub updated_at: Timestamp,
}

/// What a `JobEntry` holds.
pub struct JobView {
    /// See `JobEntry::id`.
    pub id: JobId,
    /// See `JobEntry::version`.
    pub version: u64,
    /// See `JobEntry::task`.
    pub task: TaskBindingView,
    /// See `JobEntry::trigger`.
    pub trigger: TriggerView,
    /// See `JobEntry::concurrency`.
    pub concurrency: Option<usize>,
    /// See `JobEntry::max_pending`.
    pub max_pending: Option<usize>,
    /// See `JobEntry::priority`.
    pub priority: JobPriority,
    /// See `JobEntry::coalescing`.
    pub coalescing: TriggerCoalescing,
    /// See `JobEntry::capacity`.
    pub capacity: CapacityPolicy,
    /// See `JobEntry::retry`.
    pub retry: ExecutionRetryPolicy,
    /// See `JobEntry::failure`.
    pub failure: FailurePolicy,
    /// See `JobEntry::state`.
    pub state: JobStateView,
    /// See `JobEntry::normal_timer_key`.
    pub normal_timer_key: Option<u64>,
    /// See `JobEntry::next_run_at`.
    pub next_run_at: Option<Timestamp>,
    /// See `JobEntry::blocked`.
    pub blocked: Seq<PendingExecution>,
    /// See `JobEntry::running_count`.
    pub running_count: usize,
    /// See `JobEntry::consecutive_failures`.
    pub consecutive_failures: u32,
    /// See `JobEntry::last_started_at`.
    pub last_started_at: Option<Timestamp>,
    /// See `JobEntry::last_finished_at`.
    pub last_finished_at: Option<Timestamp>,
    /// See `JobEntry::last_outcome`.
    pub last_outcome: Option<Seq<char>>,
    /// See `JobEntry::last_fired_at`.
    pub last_fired_at: Option<Timestamp>,
    /// See `JobEntry::created_at`.
    pub created_at: Timestamp,
    /// See `JobEntry::updated_at`.
    pub updated_at: Timestamp,
}

impl View for JobEntry {
    type V = JobView;

    open spec fn view(&self) -> JobView {
        JobView {
            id: self.id,
            version: self.version,
            task: self.task@,
            trigger: self.trigger@,
            concurrency: self.concurrency,
            max_pending: self.max_pending,
            priority: self.priority,
            coalescing: self.coalescing,
            capacity: self.capacity,
            retry: self.retry,
            failure: self.failure,
            state: self.state@,
            normal_timer_key: self.normal_timer_key,
            next_run_at: self.next_run_at,
            blocked: self.blocked@,
            running_count: self.running_count,
            consecutive_failures: self.consecutive_failures,
            last_started_at: self.last_started_at,
            last_finished_at: self.last_finished_at,
            last_outcome: optional_text(self.last_outcome),
            last_fired_at: self.last_fired_at,
            created_at: self.created_at,
            updated_at: self.updated_at,
        }
    }
}

/// Execution that holds a slot.
#[derive(Debug, Clone, Copy, PartialEq, Eq, Structural)]
pub struct RunningExecution {
    /// Execution.
    pub run_id: RunId,
    /// Job.
    pub job_id: JobId,
    /// Version of the job at the start.
    pub version: u64,
}

/// Timer of a retry.
#[derive(Debug, Clone, Copy, PartialEq, Eq, Structural)]
pub struct RetryTimer {
    /// Execution.
    pub run_id: RunId,
    /// Job.
    pub job_id: JobId,
    /// Key of the timer.
    pub key: u64,
    /// Instant of the retry.
    pub run_at: Timestamp,
}

/// What the runtime has to do.
#[derive(Debug)]
pub enum Effect {
    /// Publish an event.
    Emit(SchedulerEvent),
    /// Set a timer.
    ArmTimer {
        /// Key to name the timer by.
        key: u64,
        /// What comes back when it fires.
        entry: TimerEntry,
    },
    /// Drop a timer.
    DisarmTimer {
        /// Key of the timer.
        key: u64,
    },
    /// Move a timer to the same wall clock instant after a change of the clock.
    ResetTimer {
        /// Key of the timer.
        key: u64,
        /// Instant at which it fires.
        run_at: Timestamp,
    },
    /// Start an execution.
    Start {
        /// Handle of the task.
        handle: u64,
        /// What the execution is told.
        context: TaskContext,
        /// Longest duration.
        timeout: Option<Span>,
        /// What a cancellation means to the task.
        cancellation_mode: TaskCancellationMode,
    },
    /// Ask an execution to stop.
    Cancel {
        /// Execution.
        run_id: RunId,
    },
    /// Drop every timer.
    ClearTimers,
    /// Publish the status of the scheduler.
    SetStatus(SchedulerStatus),
}

/// What an `Effect` holds.
pub enum EffectView {
    /// See `Effect::Emit`.
    Emit(SchedulerEventView),
    /// See `Effect::ArmTimer`.
    ArmTimer { key: u64, entry: TimerEntry },
    /// See `Effect::DisarmTimer`.
    DisarmTimer { key: u64 },
    /// See `Effect::ResetTimer`.
    ResetTimer { key: u64, run_at: Timestamp },
    /// See `Effect::Start`.
    Start {
        handle: u64,
        context: TaskContext,
        timeout: Option<Span>,
        cancellation_mode: TaskCancellationMode,
    },
    /// See `Effect::Cancel`.
    Cancel { run_id: RunId },
    /// See `Effect::ClearTimers`.
    ClearTimers,
    /// See `Effect::SetStatus`.
    SetStatus(SchedulerStatus),
}

impl View for Effect {
    type V = EffectView;

    open spec fn view(&self) -> EffectView {
        match *self {
            Effect::Emit(event) => EffectView::Emit(event@),
            Effect::ArmTimer { key, entry } => EffectView::ArmTimer { key, entry },
            Effect::DisarmTimer { key } => EffectView::DisarmTimer { key },
            Effect::ResetTimer { key, run_at } => EffectView::ResetTimer { key, run_at },
            Effect::Start { handle, context, timeout, cancellation_mode } => EffectView::Start {
                handle,
                context,
                timeout,
                cancellation_mode,
            },
            Effect::Cancel { run_id } => EffectView::Cancel { run_id },
            Effect::ClearTimers => EffectView::ClearTimers,
            Effect::SetStatus(status) => EffectView::SetStatus(status),
        }
    }
}

/// Scheduler state with the effects that the runtime has not taken yet.
#[derive(Debug)]
pub struct SchedulerActor {
    /// Limits in force.
    pub config: SchedulerConfig,
    /// Revision of the limits.
    pub config_revision: u64,
    /// Jobs in order of registration.
    pub jobs: Vec<JobEntry>,
    /// Retry timers.
    pub retry_timers: Vec<RetryTimer>,
    /// Executions that wait for a slot.
    pub ready: ReadyQueue,
    /// Executions that hold a slot.
    pub running: Vec<RunningExecution>,
    /// Slots in use.
    pub total_running: usize,
    /// Number of the last event.
    pub event_sequence: u64,
    /// Number of the last batch of timers.
    pub batch_sequence: u64,
    /// Key of the next timer.
    pub next_timer_key: u64,
    /// Effects to perform.
    pub effects: Vec<Effect>,
}

/// What a `SchedulerActor` holds.
pub struct SchedulerState {
    /// See `SchedulerActor::config`.
    pub config: SchedulerConfig,
    /// See `SchedulerActor::config_revision`.
    pub config_revision: u64,
    /// See `SchedulerActor::jobs`.
    pub jobs: Seq<JobView>,
    /// See `SchedulerActor::retry_timers`.
    pub retry_timers: Seq<RetryTimer>,
    /// See `SchedulerActor::ready`.
    pub ready: Seq<PendingExecution>,
    /// See `SchedulerActor::running`.
    pub running: Seq<RunningExecution>,
    /// See `SchedulerActor::total_running`.
    pub total_running: usize,
    /// See `SchedulerActor::event_sequence`.
    pub event_sequence: u64,
    /// See `SchedulerActor::batch_sequence`.
    pub batch_sequence: u64,
    /// See `SchedulerActor::next_timer_key`.
    pub next_timer_key: u64,
    /// See `SchedulerActor::effects`.
    pub effects: Seq<EffectView>,
}

impl View for SchedulerActor {
    type V = SchedulerState;

    open spec fn view(&self) -> SchedulerState {
        SchedulerState {
            config: self.config,
            config_revision: self.config_revision,
            jobs: self.jobs@.map_values(|job: JobEntry| job@),
            retry_timers: self.retry_timers@,
            ready: self.ready@,
            running: self.running@,
            total_running: self.total_running,
            event_sequence: self.event_sequence,
            batch_sequence: self.batch_sequence,
            next_timer_key: self.next_timer_key,
            effects: self.effects@.map_values(|effect: Effect| effect@),
        }
    }
}

/// The number after another one; it wraps around.
pub open spec fn successor(number: u64) -> u64 {
    if number == u64::MAX {
        0
    } else {
        (number + 1) as u64
    }
}

/// The number after another one; it wraps around.
pub fn next_number(number: u64) -> (next: u64)
    ensures
        next == successor(number),
{
    if number == u64::MAX {
        0
    } else {
        number + 1
    }
}

/// Position of a job.
pub open spec fn job_position(jobs: Seq<JobView>, job_id: JobId, i: int) -> bool {
    &&& 0 <= i < jobs.len()
    &&& jobs[i].id == job_id
    &&& forall|k: int| 0 <= k < i ==> (#[trigger] jobs[k]).id != job_id
}

/// Position of the retry timer of an execution.
pub open spec fn retry_position(timers: Seq<RetryTimer>, run_id: RunId, i: int) -> bool {
    &&& 0 <= i < timers.len()
    &&& timers[i].run_id == run_id
    &&& forall|k: int| 0 <= k < i ==> (#[trigger] timers[k]).run_id != run_id
}

/// Position of a running execution.
pub open spec fn running_position(running: Seq<RunningExecution>, run_id: RunId, i: int) -> bool {
    &&& 0 <= i < running.len()
    &&& running[i].run_id == run_id
    &&& forall|k: int| 0 <= k < i ==> (#[trigger] running[k]).run_id != run_id
}

/// Whether a retry timer belongs to a job.
pub open spec fn retry_of(job_id: JobId) -> spec_fn(RetryTimer) -> bool {
    |timer: RetryTimer| timer.job_id == job_id
}

/// Whether a retry timer does not belong to a job.
pub open spec fn retry_of_other(job_id: JobId) -> spec_fn(RetryTimer) -> bool {
    |timer: RetryTimer| timer.job_id != job_id
}

/// Whether a running execution belongs to a version of a job.
pub open spec fn runs_version(job_id: JobId, version: u64) -> spec_fn(RunningExecution) -> bool {
    |item: RunningExecution| item.job_id == job_id && item.version == version
}

/// Effects that drop timers.
pub open spec fn disarms(timers: Seq<RetryTimer>) -> Seq<EffectView> {
    timers.map_values(|timer: RetryTimer| EffectView::DisarmTimer { key: timer.key })
}

/// Effects that ask executions to stop.
pub open spec fn cancels(running: Seq<RunningExecution>) -> Seq<EffectView> {
    running.map_values(|item: RunningExecution| EffectView::Cancel { run_id: item.run_id })
}

impl SchedulerState {
    /// Whether there is such a job.
    pub open spec fn has_job(self, job_id: JobId) -> bool {
        exists|i: int| job_position(self.jobs, job_id, i)
    }

    /// Position of a job that exists.
    pub open spec fn position(self, job_id: JobId) -> int {
        choose|i: int| job_position(self.jobs, job_id, i)
    }

    /// A job that exists.
    pub open spec fn job(self, job_id: JobId) -> JobView {
        self.jobs[self.position(job_id)]
    }

    /// Same state with another entry for a job that exists.
    pub open spec fn with_job(self, job_id: JobId, job: JobView) -> Self {
        SchedulerState { jobs: self.jobs.update(self.position(job_id), job), ..self }
    }

    /// Same state without a job that exists.
    pub open spec fn without_job(self, job_id: JobId) -> Self {
        SchedulerState { jobs: self.jobs.remove(self.position(job_id)), ..self }
    }

    /// One more effect.
    pub open spec fn effect(self, effect: EffectView) -> Self {
        SchedulerState { effects: self.effects.push(effect), ..self }
    }

    /// One more event.
    pub open spec fn emit(self, kind: SchedulerEventKindView, now: Timestamp) -> Self {
        let sequence = successor(self.event_sequence);
        SchedulerState {
            event_sequence: sequence,
            effects: self.effects.push(
                EffectView::Emit(SchedulerEventView { sequence, emitted_at: now, kind }),
            ),
            ..self
        }
    }

    /// Drops a timer, where there is one.
    pub open spec fn disarm(self, key: Option<u64>) -> Self {
        match key {
            Some(key) => self.effect(EffectView::DisarmTimer { key }),
            None => self,
        }
    }

    /// Sets a timer under a new key.
    pub open spec fn arm(self, entry: TimerEntry) -> Self {
        SchedulerState {
            next_timer_key: successor(self.next_timer_key),
            effects: self.effects.push(EffectView::ArmTimer { key: self.next_timer_key, entry }),
            ..self
        }
    }

    /// Puts a new normal timer in the place of the job's current one.
    pub open spec fn schedule_normal(
        self,
        job_id: JobId,
        run_at: Timestamp,
        kind: TimerKind,
        now: Timestamp,
    ) -> Self {
        if self.has_job(job_id) {
            let job = self.job(job_id);
            let entry = TimerEntry { job_id, version: job.version, run_at, kind };
            self.with_job(
                job_id,
                JobView {
                    normal_timer_key: Some(self.next_timer_key),
                    next_run_at: Some(run_at),
                    ..job
                },
            ).disarm(job.normal_timer_key).arm(entry).emit(
                SchedulerEventKindView::TriggerScheduled { job_id, version: job.version, run_at },
                now,
            )
        } else {
            self
        }
    }

    /// Whether an execution has a retry timer.
    pub open spec fn has_retry(self, run_id: RunId) -> bool {
        exists|i: int| retry_position(self.retry_timers, run_id, i)
    }

    /// Drops the retry timer of an execution, where it has one, and its timer with it.
    pub open spec fn drop_retry(self, run_id: RunId) -> Self {
        if self.has_retry(run_id) {
            let i = choose|i: int| retry_position(self.retry_timers, run_id, i);
            SchedulerState { retry_timers: self.retry_timers.remove(i), ..self }.disarm(
                Some(self.retry_timers[i].key),
            )
        } else {
            self
        }
    }

    /// Forgets the retry timer of an execution whose timer fired.
    pub open spec fn forget_retry(self, run_id: RunId) -> Self {
        if self.has_retry(run_id) {
            let i = choose|i: int| retry_position(self.retry_timers, run_id, i);
            SchedulerState { retry_timers: self.retry_timers.remove(i), ..self }
        } else {
            self
        }
    }

    /// Plans the next attempt of an execution.
    pub open spec fn schedule_retry(
        self,
        job_id: JobId,
        version: u64,
        run_id: RunId,
        scheduled_at: Timestamp,
        attempt: u32,
        run_at: Timestamp,
        now: Timestamp,
    ) -> Self {
        let entry = TimerEntry {
            job_id,
            version,
            run_at,
            kind: TimerKind::Retry { run_id, scheduled_at, attempt },
        };
        let clean = self.drop_retry(run_id);
        SchedulerState {
            retry_timers: clean.retry_timers.push(
                RetryTimer { run_id, job_id, key: self.next_timer_key, run_at },
            ),
            ..clean.arm(entry)
        }.emit(
            SchedulerEventKindView::RetryScheduled { job_id, version, run_id, attempt, run_at },
            now,
        )
    }

    /// Drops every retry timer of a job.
    pub open spec fn clear_retries(self, job_id: JobId) -> Self {
        SchedulerState {
            retry_timers: self.retry_timers.filter(retry_of_other(job_id)),
            effects: self.effects + disarms(self.retry_timers.filter(retry_of(job_id))),
            ..self
        }
    }

    /// Drops every waiting execution of a job.
    pub open spec fn clear_ready(self, job_id: JobId) -> Self {
        SchedulerState { ready: self.ready.filter(of_other_job(job_id)), ..self }
    }

    /// Asks the running executions of a version of a job to stop.
    pub open spec fn cancel_version(self, job_id: JobId, version: u64) -> Self {
        SchedulerState {
            effects: self.effects + cancels(self.running.filter(runs_version(job_id, version))),
            ..self
        }
    }

    /// Why a job cannot be disabled.
    pub open spec fn disable_error(self, job_id: JobId) -> Option<SchedulerErrorView> {
        if !self.has_job(job_id) {
            Some(SchedulerErrorView::JobNotFound(job_id))
        } else if self.job(job_id).version == u64::MAX {
            Some(SchedulerErrorView::VersionOverflow(job_id))
        } else {
            None
        }
    }

    /// Disables a job that can be disabled: a new version, no timers, nothing that waits, and the
    /// running executions of the old version are asked to stop.
    pub open spec fn disabled(self, job_id: JobId, reason: Seq<char>, now: Timestamp) -> Self {
        let job = self.job(job_id);
        let version = (job.version + 1) as u64;
        self.with_job(
            job_id,
            JobView {
                version,
                normal_timer_key: None,
                next_run_at: None,
                blocked: Seq::empty(),
                state: JobStateView::Disabled { reason },
                updated_at: now,
                ..job
            },
        ).disarm(job.normal_timer_key).clear_retries(job_id).clear_ready(job_id).cancel_version(
            job_id,
            job.version,
        ).emit(SchedulerEventKindView::JobDisabled { job_id, version, reason }, now)
    }

    /// Disables a job where that can be done, else changes nothing.
    pub open spec fn force_disabled(
        self,
        job_id: JobId,
        reason: Seq<char>,
        now: Timestamp,
    ) -> Self {
        if self.disable_error(job_id) is None {
            self.disabled(job_id, reason, now)
        } else {
            self
        }
    }

    /// Every execution of a cron job that is held back was planned for an instant from which the
    /// next occurrence can be asked.
    pub open spec fn holds_askable(self) -> bool {
        forall|i: int, k: int|
            0 <= i < self.jobs.len() && self.jobs[i].trigger.schedule is Cron && 0 <= k
                < self.jobs[i].blocked.len() ==> cron_start(
                (#[trigger] self.jobs[i].blocked[k]).scheduled_at.nanos as int,
            )
    }

    /// No execution runs twice or has two retry timers.
    pub open spec fn keyed(self) -> bool {
        unique_runs(self.running, self.retry_timers)
    }

    /// No job, running execution or retry timer occurs twice, and the planned instants of what is
    /// held back can be asked about.
    pub open spec fn wf(self) -> bool {
        unique_jobs(self) && self.keyed() && self.holds_askable()
    }
}

/// Whether no execution is among the running ones twice, and none has two retry timers.
#[verifier::opaque]
pub open spec fn unique_runs(running: Seq<RunningExecution>, timers: Seq<RetryTimer>) -> bool {
    &&& forall|i: int, k: int|
        0 <= i < k < running.len() ==> (#[trigger] running[i]).run_id != (
        #[trigger] running[k]).run_id
    &&& forall|i: int, k: int|
        0 <= i < k < timers.len() ==> (#[trigger] timers[i]).run_id != (
        #[trigger] timers[k]).run_id
}

proof fn lemma_unique_runs_kept(
    running: Seq<RunningExecution>,
    timers: Seq<RetryTimer>,
    keep: spec_fn(RetryTimer) -> bool,
)
    requires
        unique_runs(running, timers),
    ensures
        unique_runs(running, timers.filter(keep)),
        forall|k: int|
            0 <= k < timers.filter(keep).len() ==> timers.contains(
                #[trigger] timers.filter(keep)[k],
            ),
    decreases timers.len(),
{
    reveal(unique_runs);
    reveal(Seq::filter);
    if timers.len() > 0 {
        let front = timers.drop_last();
        assert(unique_runs(running, front)) by {
            assert forall|i: int, k: int| 0 <= i < k < front.len() implies (
            #[trigger] front[i]).run_id != (#[trigger] front[k]).run_id by {
                assert(timers[i].run_id != timers[k].run_id);
            }
        }
        lemma_unique_runs_kept(running, front, keep);
        let kept = front.filter(keep);
        let last = timers.len() - 1;
        assert forall|k: int| 0 <= k < kept.len() implies (#[trigger] kept[k]).run_id
            != timers[last].run_id && timers.contains(kept[k]) by {
            assert(front.contains(kept[k]));
            let j = choose|j: int| 0 <= j < front.len() && front[j] == kept[k];
            assert(timers[j] == kept[k]);
            assert(timers[j].run_id != timers[last].run_id);
        }
        assert(timers.contains(timers[last]));
    }
}

/// Whether no two jobs have the same identifier.
pub open spec fn unique_jobs(state: SchedulerState) -> bool {
    forall|i: int, k: int|
        0 <= i < k < state.jobs.len() ==> (#[trigger] state.jobs[i]).id != (
        #[trigger] state.jobs[k]).id
}

/// The position of a job is unique.
pub proof fn lemma_job_position(state: SchedulerState, job_id: JobId, i: int)
    requires
        job_position(state.jobs, job_id, i),
    ensures
        state.has_job(job_id),
        state.position(job_id) == i,
{
    let k = state.position(job_id);
    assert(job_position(state.jobs, job_id, k));
    if k < i {
        assert(state.jobs[k].id != job_id);
    } else if i < k {
        assert(state.jobs[i].id != job_id);
    }
}

/// A job with a given identifier anywhere in the list makes the identifier known.
pub proof fn lemma_some_position(state: SchedulerState, id: JobId, k: int)
    requires
        0 <= k < state.jobs.len(),
        state.jobs[k].id == id,
    ensures
        state.has_job(id),
    decreases k,
{
    if exists|j: int| 0 <= j < k && (#[trigger] state.jobs[j]).id == id {
        let j = choose|j: int| 0 <= j < k && (#[trigger] state.jobs[j]).id == id;
        lemma_some_position(state, id, j);
    } else {
        assert(job_position(state.jobs, id, k));
    }
}

/// A new entry for a job stays at the job's position.
pub proof fn lemma_with_job(state: SchedulerState, job_id: JobId, job: JobView)
    requires
        state.has_job(job_id),
        job.id == job_id,
    ensures
        state.with_job(job_id, job).has_job(job_id),
        state.with_job(job_id, job).position(job_id) == state.position(job_id),
        state.with_job(job_id, job).job(job_id) == job,
        state.job(job_id).id == job_id,
        0 <= state.position(job_id) < state.jobs.len(),
{
    let i = state.position(job_id);
    assert(job_position(state.jobs, job_id, i));
    let next = state.with_job(job_id, job);
    assert forall|k: int| 0 <= k < i implies (#[trigger] next.jobs[k]).id != job_id by {
        assert(state.jobs[k].id != job_id);
    }
    assert(job_position(next.jobs, job_id, i));
    lemma_job_position(next, job_id, i);
}

proof fn lemma_retry_position(timers: Seq<RetryTimer>, run_id: RunId, i: int)
    requires
        retry_position(timers, run_id, i),
    ensures
        i == (choose|k: int| retry_position(timers, run_id, k)),
{
    let k = choose|k: int| retry_position(timers, run_id, k);
    assert(retry_position(timers, run_id, k));
    if k < i {
        assert(timers[k].run_id != run_id);
    } else if i < k {
        assert(timers[i].run_id != run_id);
    }
}

proof fn lemma_some_retry(timers: Seq<RetryTimer>, run_id: RunId, k: int)
    requires
        0 <= k < timers.len(),
        timers[k].run_id == run_id,
    ensures
        exists|i: int| retry_position(timers, run_id, i),
    decreases k,
{
    if exists|j: int| 0 <= j < k && (#[trigger] timers[j]).run_id == run_id {
        let j = choose|j: int| 0 <= j < k && (#[trigger] timers[j]).run_id == run_id;
        lemma_some_retry(timers, run_id, j);
    } else {
        assert(retry_position(timers, run_id, k));
    }
}

/// Filtering one more element.
pub proof fn lemma_filter_next<T>(items: Seq<T>, keep: spec_fn(T) -> bool, i: int)
    requires
        0 <= i < items.len(),
    ensures
        items.take(i + 1).filter(keep) == (if keep(items[i]) {
            items.take(i).filter(keep).push(items[i])
        } else {
            items.take(i).filter(keep)
        }),
{
    reveal(Seq::filter);
    assert(items.take(i + 1).drop_last() =~= items.take(i));
    assert(items.take(i + 1).last() == items[i]);
}

/// Answer of an operation with its error taken by its view.
pub open spec fn answer_view<T>(answer: Result<T, SchedulerError>) -> Result<
    T,
    SchedulerErrorView,
> {
    match answer {
        Ok(value) => Ok(value),
        Err(error) => Err(error@),
    }
}

impl SchedulerActor {
    /// Scheduler without jobs.
    pub fn new(config: SchedulerConfig) -> (actor: Self)
        ensures
            actor@ == (SchedulerState {
                config,
                config_revision: 0,
                jobs: Seq::empty(),
                retry_timers: Seq::empty(),
                ready: Seq::empty(),
                running: Seq::empty(),
                total_running: 0,
                event_sequence: 0,
                batch_sequence: 0,
                next_timer_key: 0,
                effects: Seq::empty(),
            }),
            actor@.wf(),
    {
        let actor = SchedulerActor {
            config,
            config_revision: 0,
            jobs: Vec::new(),
            retry_timers: Vec::new(),
            ready: ReadyQueue::new(),
            running: Vec::new(),
            total_running: 0,
            event_sequence: 0,
            batch_sequence: 0,
            next_timer_key: 0,
            effects: Vec::new(),
        };
        proof {
            reveal(unique_runs);
            assert(actor@.jobs =~= Seq::empty());
            assert(actor@.effects =~= Seq::empty());
        }
        actor
    }

    /// Position of a job.
    pub fn find_job(&self, job_id: JobId) -> (found: Option<usize>)
        ensures
            match found {
                Some(i) => job_position(self@.jobs, job_id, i as int) && self@.has_job(job_id)
                    && self@.position(job_id) == i && i < self.jobs@.len() && self@.job(job_id)
                    == self.jobs@[i as int]@,
                None => !self@.has_job(job_id),
            },
    {
        let mut i: usize = 0;
        while i < self.jobs.len()
            invariant
                i <= self.jobs.len(),
                forall|k: int| 0 <= k < i ==> (#[trigger] self@.jobs[k]).id != job_id,
            decreases self.jobs.len() - i,
        {
            if self.jobs[i].id == job_id {
                proof {
                    assert(self@.jobs[i as int].id == job_id);
                    lemma_job_position(self@, job_id, i as int);
                }
                return Some(i);
            }
            i += 1;
        }
        None
    }

    /// Whether there is such a job.
    pub fn contains_job(&self, job_id: JobId) -> (found: bool)
        ensures
            found == self@.has_job(job_id),
    {
        self.find_job(job_id).is_some()
    }

    fn find_retry(&self, run_id: RunId) -> (found: Option<usize>)
        ensures
            match found {
                Some(i) => retry_position(self@.retry_timers, run_id, i as int)
                    && self@.has_retry(run_id) && i as int == (choose|k: int|
                    retry_position(self@.retry_timers, run_id, k)),
                None => !self@.has_retry(run_id),
            },
    {
        let mut i: usize = 0;
        while i < self.retry_timers.len()
            invariant
                i <= self.retry_timers.len(),
                forall|k: int| 0 <= k < i ==> (#[trigger] self@.retry_timers[k]).run_id != run_id,
            decreases self.retry_timers.len() - i,
        {
            if self.retry_timers[i].run_id == run_id {
                proof {
                    assert(self@.retry_timers[i as int].run_id == run_id);
                    lemma_retry_position(self@.retry_timers, run_id, i as int);
                }
                return Some(i);
            }
            i += 1;
        }
        None
    }

    fn push_effect(&mut self, effect: Effect)
        ensures
            final(self)@ == old(self)@.effect(effect@),
            final(self).jobs == old(self).jobs,
    {
        self.effects.push(effect);
        proof {
            assert(self@.effects =~= old(self)@.effects.push(effect@));
        }
    }

    /// Numbers and publishes an event.
    pub fn emit(&mut self, kind: SchedulerEventKind, now: Timestamp)
        ensures
            final(self)@ == old(self)@.emit(kind@, now),
            final(self).jobs == old(self).jobs,
    {
        self.event_sequence = next_number(self.event_sequence);
        let event = SchedulerEvent { sequence: self.event_sequence, emitted_at: now, kind };
        self.push_effect(Effect::Emit(event));
    }

    fn disarm(&mut self, key: Option<u64>)
        ensures
            final(self)@ == old(self)@.disarm(key),
            final(self).jobs == old(self).jobs,
    {
        if let Some(key) = key {
            self.push_effect(Effect::DisarmTimer { key });
        }
    }

    fn arm(&mut self, entry: TimerEntry) -> (key: u64)
        ensures
            final(self)@ == old(self)@.arm(entry),
            final(self).jobs == old(self).jobs,
            key == old(self)@.next_timer_key,
    {
        let key: u64 = self.next_timer_key;
        self.next_timer_key = next_number(key);
        self.push_effect(Effect::ArmTimer { key, entry });
        key
    }

    /// Puts a new normal timer in the place of the job's current one. A job never has more than
    /// one normal timer.
    pub fn schedule_normal(
        &mut self,
        job_id: JobId,
        run_at: Timestamp,
        kind: TimerKind,
        now: Timestamp,
    )
        ensures
            final(self)@ == old(self)@.schedule_normal(job_id, run_at, kind, now),
            old(self)@.wf() ==> final(self)@.wf(),
    {
        let i: usize = match self.find_job(job_id) {
            Some(i) => i,
            None => {
                return ;
            },
        };
        let ghost job = self@.job(job_id);
        let version: u64 = self.jobs[i].version;
        let previous = self.jobs[i].normal_timer_key;
        self.disarm(previous);
        let key: u64 = self.arm(TimerEntry { job_id, version, run_at, kind });
        self.jobs[i].normal_timer_key = Some(key);
        self.jobs[i].next_run_at = Some(run_at);
        proof {
            assert(self@.jobs =~= old(self)@.jobs.update(
                i as int,
                JobView { normal_timer_key: Some(key), next_run_at: Some(run_at), ..job },
            ));
        }
        self.emit(SchedulerEventKind::TriggerScheduled { job_id, version, run_at }, now);
    }

    /// Plans the next attempt of an execution.
    pub fn schedule_retry(
        &mut self,
        job_id: JobId,
        version: u64,
        run_id: RunId,
        scheduled_at: Timestamp,
        attempt: u32,
        run_at: Timestamp,
        now: Timestamp,
    )
        ensures
            final(self)@ == old(self)@.schedule_retry(
                job_id,
                version,
                run_id,
                scheduled_at,
                attempt,
                run_at,
                now,
            ),
            final(self).jobs == old(self).jobs,
            old(self)@.keyed() ==> final(self)@.keyed(),
    {
        proof {
            reveal(unique_runs);
        }
        if let Some(i) = self.find_retry(run_id) {
            let previous = self.retry_timers.remove(i);
            self.disarm(Some(previous.key));
        } else {
            assert forall|k: int| 0 <= k < self@.retry_timers.len() implies (
            #[trigger] self@.retry_timers[k]).run_id != run_id by {
                if self@.retry_timers[k].run_id == run_id {
                    lemma_some_retry(self@.retry_timers, run_id, k);
                }
            }
        }
        let key: u64 = self.arm(
            TimerEntry {
                job_id,
                version,
                run_at,
                kind: TimerKind::Retry { run_id, scheduled_at, attempt },
            },
        );
        self.retry_timers.push(RetryTimer { run_id, job_id, key, run_at });
        self.emit(
            SchedulerEventKind::RetryScheduled { job_id, version, run_id, attempt, run_at },
            now,
        );
    }

    fn forget_retry(&mut self, run_id: RunId)
        ensures
            final(self)@ == old(self)@.forget_retry(run_id),
            final(self).jobs == old(self).jobs,
            old(self)@.keyed() ==> final(self)@.keyed(),
    {
        proof {
            reveal(unique_runs);
        }
        if let Some(i) = self.find_retry(run_id) {
            self.retry_timers.remove(i);
        }
    }

    /// Drops every retry timer of a job.
    pub fn clear_retry_timers(&mut self, job_id: JobId)
        ensures
            final(self)@ == old(self)@.clear_retries(job_id),
            final(self).jobs == old(self).jobs,
            old(self)@.keyed() ==> final(self)@.keyed(),
    {
        proof {
            if self@.keyed() {
                lemma_unique_runs_kept(
                    self@.running,
                    self@.retry_timers,
                    retry_of_other(job_id),
                );
            }
        }
        let mut kept: Vec<RetryTimer> = Vec::new();
        let mut i: usize = 0;
        let ghost before = self@;
        proof {
            reveal(Seq::filter);
            assert(disarms(before.retry_timers.take(0).filter(retry_of(job_id))) =~= Seq::empty());
            assert(before.effects + Seq::<EffectView>::empty() =~= before.effects);
        }
        while i < self.retry_timers.len()
            invariant
                i <= self.retry_timers.len(),
                self.jobs == old(self).jobs,
                before == old(self)@,
                self@ == (SchedulerState {
                    effects: before.effects + disarms(
                        before.retry_timers.take(i as int).filter(retry_of(job_id)),
                    ),
                    ..before
                }),
                kept@ == before.retry_timers.take(i as int).filter(retry_of_other(job_id)),
            decreases self.retry_timers.len() - i,
        {
            proof {
                lemma_filter_next(before.retry_timers, retry_of_other(job_id), i as int);
                lemma_filter_next(before.retry_timers, retry_of(job_id), i as int);
            }
            let ghost done = before.retry_timers.take(i as int).filter(retry_of(job_id));
            let timer = self.retry_timers[i];
            if timer.job_id == job_id {
                self.push_effect(Effect::DisarmTimer { key: timer.key });
                proof {
                    assert(disarms(done.push(timer)) =~= disarms(done).push(
                        EffectView::DisarmTimer { key: timer.key },
                    ));
                    assert(self@.effects =~= before.effects + disarms(done.push(timer)));
                }
            } else {
                kept.push(timer);
            }
            i += 1;
        }
        proof {
            assert(before.retry_timers.take(i as int) =~= before.retry_timers);
        }
        self.retry_timers = kept;
    }

    /// Asks the running executions of a version of a job to stop.
    pub fn cancel_job_version(&mut self, job_id: JobId, version: u64)
        ensures
            final(self)@ == old(self)@.cancel_version(job_id, version),
            final(self).jobs == old(self).jobs,
    {
        let mut i: usize = 0;
        let ghost before = self@;
        let ghost keep = runs_version(job_id, version);
        proof {
            reveal(Seq::filter);
            assert(cancels(before.running.take(0).filter(keep)) =~= Seq::empty());
            assert(before.effects + Seq::<EffectView>::empty() =~= before.effects);
        }
        while i < self.running.len()
            invariant
                i <= self.running.len(),
                self.jobs == old(self).jobs,
                before == old(self)@,
                keep == runs_version(job_id, version),
                self@ == (SchedulerState {
                    effects: before.effects + cancels(before.running.take(i as int).filter(keep)),
                    ..before
                }),
            decreases self.running.len() - i,
        {
            proof {
                lemma_filter_next(before.running, keep, i as int);
            }
            let ghost done = before.running.take(i as int).filter(keep);
            let item = self.running[i];
            if item.job_id == job_id && item.version == version {
                self.push_effect(Effect::Cancel { run_id: item.run_id });
                proof {
                    assert(cancels(done.push(item)) =~= cancels(done).push(
                        EffectView::Cancel { run_id: item.run_id },
                    ));
                    assert(self@.effects =~= before.effects + cancels(done.push(item)));
                }
            }
            i += 1;
        }
        proof {
            assert(before.running.take(i as int) =~= before.running);
        }
    }

    /// Disables a job: a new version, no timers, nothing that waits, and the running executions
    /// of the old version are asked to stop.
    pub fn force_disable(&mut self, job_id: JobId, reason: String, now: Timestamp) -> (answer:
        Result<(), SchedulerError>)
        ensures
            final(self)@ == old(self)@.force_disabled(job_id, reason@, now),
            match old(self)@.disable_error(job_id) {
                Some(error) => answer matches Err(given) && given@ == error,
                None => answer is Ok,
            },
            old(self)@.wf() ==> final(self)@.wf(),
    {
        let i: usize = match self.find_job(job_id) {
            Some(i) => i,
            None => {
                return Err(SchedulerError::JobNotFound(job_id));
            },
        };
        let ghost job = self@.job(job_id);
        let old_version: u64 = self.jobs[i].version;
        if old_version == u64::MAX {
            return Err(SchedulerError::VersionOverflow(job_id));
        }
        let version: u64 = old_version + 1;
        let key = self.jobs[i].normal_timer_key;
        self.jobs[i].version = version;
        self.jobs[i].normal_timer_key = None;
        self.jobs[i].next_run_at = None;
        self.jobs[i].blocked = Vec::new();
        self.jobs[i].state = JobState::Disabled { reason: reason.clone() };
        self.jobs[i].updated_at = now;
        proof {
            assert(self@.jobs =~= old(self)@.with_job(
                job_id,
                JobView {
                    version,
                    normal_timer_key: None,
                    next_run_at: None,
                    blocked: Seq::empty(),
                    state: JobStateView::Disabled { reason: reason@ },
                    updated_at: now,
                    ..job
                },
            ).jobs);
        }
        self.disarm(key);
        self.clear_retry_timers(job_id);
        self.ready.remove_job(job_id);
        self.cancel_job_version(job_id, old_version);
        self.emit(SchedulerEventKind::JobDisabled { job_id, version, reason }, now);
        Ok(())
    }
}

} // verus!
