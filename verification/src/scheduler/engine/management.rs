//! Registering, changing and removing jobs, changing the limits, and snapshots.

use super::super::config::{
    apply_config_patch, limits_positive, patched, patched_config, validate_config, zero_limit_error,
    SchedulerConfig, SchedulerConfigPatch, SchedulerConfigSnapshot, SchedulerError,
    SchedulerErrorView,
};
use super::super::cron::cron_start;
use super::super::event::{SchedulerEventKind, SchedulerEventKindView};
use super::super::model::{
    JobId, JobOptions, JobPatch, JobSnapshot, JobSnapshotView, JobState, JobStateView, PatchValue,
    RescheduleMode, Trigger, TriggerCoalescing, TriggerView,
};
use super::super::queue::{count_of, migrated_queue, no_trigger_of, PendingExecution, TimerKind};
use super::super::task::{TaskBinding, TaskBindingView, TaskCancellationMode};
use super::super::time::{min_int, Timestamp};
use super::super::timing::{
    check_answer, effective_queue_policies, first_instant, first_run_at, queue_policies,
    trigger_error, validate_trigger,
};
use super::{
    answer_view, job_position, lemma_job_position, lemma_some_position, lemma_with_job, JobEntry,
    JobView, SchedulerActor, SchedulerState,
};
use vstd::prelude::*;

verus! {

/// A value after a three-way patch.
pub open spec fn patched_value<T>(current: Option<T>, patch: PatchValue<T>) -> Option<T> {
    match patch {
        PatchValue::Keep => current,
        PatchValue::Assign(value) => Some(value),
        PatchValue::Inherit => None,
    }
}

/// Applies a three-way patch to a value.
pub fn apply_patch_value<T>(target: &mut Option<T>, patch: PatchValue<T>)
    ensures
        *final(target) == patched_value(*old(target), patch),
{
    match patch {
        PatchValue::Keep => {},
        PatchValue::Assign(value) => {
            *target = Some(value);
        },
        PatchValue::Inherit => {
            *target = None;
        },
    }
}

/// A task that runs to its end cannot have a timeout.
pub open spec fn cancellation_error(
    trigger: TriggerView,
    mode: TaskCancellationMode,
) -> Option<SchedulerErrorView> {
    if mode == TaskCancellationMode::NonCancellable && trigger.timeout is Some {
        Some(
            SchedulerErrorView::InvalidTrigger(
                "a wait-for-completion task cannot use scheduler timeout"@,
            ),
        )
    } else {
        None
    }
}

/// Checks that a task that runs to its end has no timeout.
pub fn validate_task_cancellation_mode(trigger: &Trigger, mode: TaskCancellationMode) -> (checked:
    Result<(), SchedulerError>)
    ensures
        super::super::config::unit_view(checked) == check_answer(
            cancellation_error(trigger@, mode),
        ),
{
    if mode == TaskCancellationMode::NonCancellable && trigger.timeout.is_some() {
        return Err(
            SchedulerError::InvalidTrigger(
                "a wait-for-completion task cannot use scheduler timeout".to_owned(),
            ),
        );
    }
    Ok(())
}

/// Options that a job has now.
pub open spec fn options_of(job: JobView) -> JobOptions {
    JobOptions {
        concurrency: job.concurrency,
        max_pending: job.max_pending,
        priority: job.priority,
        coalescing: Some(job.coalescing),
        capacity: Some(job.capacity),
        retry: job.retry,
        failure: job.failure,
    }
}

/// Options that a job has now.
pub fn job_options_from_entry(job: &JobEntry) -> (options: JobOptions)
    ensures
        options == options_of(job@),
{
    JobOptions {
        concurrency: job.concurrency,
        max_pending: job.max_pending,
        priority: job.priority,
        coalescing: Some(job.coalescing),
        capacity: Some(job.capacity),
        retry: job.retry,
        failure: job.failure,
    }
}

/// Trigger of a patch.
pub open spec fn patch_trigger(patch: JobPatch) -> Option<TriggerView> {
    match patch.trigger {
        Some(trigger) => Some(trigger@),
        None => None,
    }
}

/// Task of a patch.
pub open spec fn patch_task(patch: JobPatch) -> Option<TaskBindingView> {
    match patch.task {
        Some(task) => Some(task@),
        None => None,
    }
}

/// A job's configuration after a patch; its state of execution stays.
pub open spec fn patched_job(job: JobView, patch: JobPatch) -> JobView {
    JobView {
        trigger: patched(patch_trigger(patch), job.trigger),
        task: patched(patch_task(patch), job.task),
        concurrency: patched_value(job.concurrency, patch.concurrency),
        max_pending: patched_value(job.max_pending, patch.max_pending),
        priority: patched(patch.priority, job.priority),
        coalescing: patched(patch.coalescing, job.coalescing),
        capacity: patched(patch.capacity, job.capacity),
        retry: patched(patch.retry, job.retry),
        failure: patched(patch.failure, job.failure),
        ..job
    }
}

/// Options of a job after a patch.
pub fn patched_job_options(job: &JobEntry, patch: &JobPatch) -> (options: JobOptions)
    ensures
        options == options_of(patched_job(job@, *patch)),
{
    let mut options = job_options_from_entry(job);
    match &patch.concurrency {
        PatchValue::Keep => {},
        PatchValue::Assign(value) => {
            options.concurrency = Some(*value);
        },
        PatchValue::Inherit => {
            options.concurrency = None;
        },
    }
    match &patch.max_pending {
        PatchValue::Keep => {},
        PatchValue::Assign(value) => {
            options.max_pending = Some(*value);
        },
        PatchValue::Inherit => {
            options.max_pending = None;
        },
    }
    if let Some(value) = patch.priority {
        options.priority = value;
    }
    if let Some(value) = patch.coalescing {
        options.coalescing = Some(value);
    }
    if let Some(value) = patch.capacity {
        options.capacity = Some(value);
    }
    if let Some(value) = patch.retry {
        options.retry = value;
    }
    if let Some(value) = patch.failure {
        options.failure = value;
    }
    options
}

/// The new version of a job, without a normal timer.
pub open spec fn new_version(
    job: JobView,
    patch: JobPatch,
    version: u64,
    now: Timestamp,
) -> JobView {
    JobView {
        version,
        updated_at: now,
        normal_timer_key: None,
        next_run_at: None,
        ..patched_job(job, patch)
    }
}

/// What is held back of a job, moved to its version and priority.
pub open spec fn moved_blocked(job: JobView) -> Seq<PendingExecution> {
    job.blocked.map_values(
        |item: PendingExecution|
            PendingExecution { version: job.version, priority: job.priority, ..item },
    )
}

/// Whether a patch changes what runs or when, so that what waits loses its meaning.
pub open spec fn changes_work(patch: JobPatch) -> bool {
    patch.trigger is Some || patch.task is Some
}

/// How an update plans the next trigger: a new trigger is planned anew.
pub open spec fn reschedule_mode(patch: JobPatch) -> RescheduleMode {
    if patch.trigger is Some && patch.reschedule == RescheduleMode::Preserve {
        RescheduleMode::Recalculate
    } else {
        patch.reschedule
    }
}

/// Next trigger that an update plans.
pub open spec fn next_after_update(job: JobView, patch: JobPatch, now: Timestamp) -> Result<
    Option<Timestamp>,
    SchedulerErrorView,
> {
    let first = match first_instant(patched_job(job, patch).trigger, now) {
        Ok(instant) => Ok(Some(instant)),
        Err(error) => Err(error),
    };
    match reschedule_mode(patch) {
        RescheduleMode::Preserve => if job.next_run_at is Some {
            Ok(job.next_run_at)
        } else if job.state is Enabled {
            first
        } else {
            Ok(None)
        },
        RescheduleMode::Recalculate => first,
        RescheduleMode::RunNow => Ok(Some(now)),
    }
}

/// Update that has passed every check.
#[derive(Debug, Clone, Copy)]
pub struct JobUpdatePlan {
    /// New version.
    pub next_version: u64,
    /// Next trigger to plan.
    pub next_run_at: Option<Timestamp>,
    /// How it is planned.
    pub reschedule: RescheduleMode,
    /// Whether the trigger changes.
    pub trigger_changed: bool,
    /// Whether the task changes.
    pub task_changed: bool,
}

/// Answer of a planning step with its error taken by its view.
pub open spec fn plan_view(plan: Result<JobUpdatePlan, SchedulerError>) -> Result<
    JobUpdatePlan,
    SchedulerErrorView,
> {
    match plan {
        Ok(plan) => Ok(plan),
        Err(error) => Err(error@),
    }
}

/// Answer with a snapshot, each side taken by its view.
pub open spec fn snapshot_answer(answer: Result<JobSnapshot, SchedulerError>) -> Result<
    JobSnapshotView,
    SchedulerErrorView,
> {
    match answer {
        Ok(snapshot) => Ok(snapshot@),
        Err(error) => Err(error@),
    }
}

/// Why a job breaks the limits.
pub open spec fn violates_limits(job: JobView, config: SchedulerConfig) -> bool {
    trigger_error(job.trigger, options_of(job), config) is Some || cancellation_error(
        job.trigger,
        job.task.cancellation_mode,
    ) is Some
}

impl SchedulerState {
    /// Why a change that names a version is refused.
    pub open spec fn version_error(self, job_id: JobId, expected: u64) -> Option<
        SchedulerErrorView,
    > {
        if !self.has_job(job_id) {
            Some(SchedulerErrorView::JobNotFound(job_id))
        } else if self.job(job_id).version != expected {
            Some(
                SchedulerErrorView::VersionConflict {
                    job_id,
                    expected,
                    actual: self.job(job_id).version,
                },
            )
        } else {
            None
        }
    }

    /// Picture of a job with the limits in force.
    pub open spec fn snapshot_of(self, job: JobView) -> JobSnapshotView {
        JobSnapshotView {
            id: job.id,
            version: job.version,
            task_kind: job.task.kind,
            state: job.state,
            trigger: job.trigger,
            priority: job.priority,
            concurrency: self.concurrency_limit(job),
            max_pending: self.pending_limit(job),
            running_count: job.running_count,
            pending_count: min_int(
                (count_of(self.ready, job.id) + job.blocked.len()) as int,
                usize::MAX as int,
            ),
            consecutive_failures: job.consecutive_failures,
            next_run_at: job.next_run_at,
            last_started_at: job.last_started_at,
            last_finished_at: job.last_finished_at,
            last_outcome: job.last_outcome,
            created_at: job.created_at,
            updated_at: job.updated_at,
        }
    }

    /// Why a new job is refused, in the order of the checks.
    pub open spec fn add_error(
        self,
        requested_id: Option<JobId>,
        trigger: TriggerView,
        mode: TaskCancellationMode,
        options: JobOptions,
        now: Timestamp,
    ) -> Option<SchedulerErrorView> {
        if self.jobs.len() >= self.config.max_jobs {
            Some(SchedulerErrorView::MaximumJobsReached(self.config.max_jobs))
        } else if trigger_error(trigger, options, self.config) is Some {
            trigger_error(trigger, options, self.config)
        } else if cancellation_error(trigger, mode) is Some {
            cancellation_error(trigger, mode)
        } else if requested_id is Some && self.has_job(requested_id->0) {
            Some(SchedulerErrorView::JobAlreadyExists(requested_id->0))
        } else {
            match first_instant(trigger, now) {
                Ok(_) => None,
                Err(error) => Some(error),
            }
        }
    }

    /// Registers a job and, where it is enabled, plans its first trigger.
    pub open spec fn added(
        self,
        id: JobId,
        generation: u64,
        enabled: bool,
        trigger: TriggerView,
        task: TaskBindingView,
        options: JobOptions,
        now: Timestamp,
    ) -> Self {
        let policies = queue_policies(trigger, options);
        let job = JobView {
            id,
            version: generation,
            task,
            trigger,
            concurrency: options.concurrency,
            max_pending: options.max_pending,
            priority: options.priority,
            coalescing: policies.0,
            capacity: policies.1,
            retry: options.retry,
            failure: options.failure,
            state: if enabled {
                JobStateView::Enabled
            } else {
                JobStateView::Disabled { reason: "installed disabled"@ }
            },
            normal_timer_key: None,
            next_run_at: None,
            blocked: Seq::empty(),
            running_count: 0,
            consecutive_failures: 0,
            last_started_at: None,
            last_finished_at: None,
            last_outcome: None,
            last_fired_at: None,
            created_at: now,
            updated_at: now,
        };
        let listed = SchedulerState { jobs: self.jobs.push(job), ..self };
        let planned = if enabled {
            listed.schedule_normal(id, first_instant(trigger, now)->Ok_0, TimerKind::Normal, now)
        } else {
            listed
        };
        planned.emit(SchedulerEventKindView::JobAdded { job_id: id, version: generation }, now)
    }

    /// Whether the first occurrence of a job after an update can be asked from `now`.
    pub open spec fn update_asks(self, job_id: JobId, patch: JobPatch, now: Timestamp) -> bool {
        self.has_job(job_id) && patched_job(self.job(job_id), patch).trigger.schedule is Cron
            ==> cron_start(now.nanos as int)
    }

    /// Whether the first occurrence of a job can be asked from `now`.
    pub open spec fn enable_asks(self, job_id: JobId, now: Timestamp) -> bool {
        self.has_job(job_id) && self.job(job_id).trigger.schedule is Cron ==> cron_start(
            now.nanos as int,
        )
    }

    /// What an update comes to, or why it is refused.
    pub open spec fn planned_update(
        self,
        job_id: JobId,
        expected: u64,
        patch: JobPatch,
        now: Timestamp,
    ) -> Result<JobUpdatePlan, SchedulerErrorView> {
        if self.version_error(job_id, expected) is Some {
            Err(self.version_error(job_id, expected)->0)
        } else {
            let job = self.job(job_id);
            let candidate = patched_job(job, patch);
            let broken = trigger_error(candidate.trigger, options_of(candidate), self.config);
            let mode = cancellation_error(candidate.trigger, candidate.task.cancellation_mode);
            if broken is Some {
                Err(broken->0)
            } else if mode is Some {
                Err(mode->0)
            } else if job.version == u64::MAX {
                Err(SchedulerErrorView::VersionOverflow(job_id))
            } else {
                match next_after_update(job, patch, now) {
                    Ok(next_run_at) => Ok(
                        JobUpdatePlan {
                            next_version: (job.version + 1) as u64,
                            next_run_at,
                            reschedule: reschedule_mode(patch),
                            trigger_changed: patch.trigger is Some,
                            task_changed: patch.task is Some,
                        },
                    ),
                    Err(error) => Err(error),
                }
            }
        }
    }

    /// The job after an update, before its next trigger is planned.
    pub open spec fn updated_job(
        self,
        job_id: JobId,
        patch: JobPatch,
        plan: JobUpdatePlan,
        now: Timestamp,
    ) -> JobView {
        let moved = new_version(self.job(job_id), patch, plan.next_version, now);
        if changes_work(patch) {
            JobView { blocked: Seq::empty(), consecutive_failures: 0, ..moved }
        } else {
            JobView { blocked: moved_blocked(moved), ..moved }
        }
    }

    /// The ready queue after an update: a change of the work drops what waits, else it moves to
    /// the new version and, where the job keeps only its latest trigger, loses its triggers.
    pub open spec fn updated_ready(
        self,
        job_id: JobId,
        patch: JobPatch,
        plan: JobUpdatePlan,
        now: Timestamp,
    ) -> Seq<PendingExecution> {
        let job = self.updated_job(job_id, patch, plan, now);
        let moved = migrated_queue(self.ready, job_id, plan.next_version, job.priority);
        if changes_work(patch) {
            self.clear_ready(job_id).ready
        } else if job.coalescing == TriggerCoalescing::KeepLatest {
            moved.filter(no_trigger_of(job_id))
        } else {
            moved
        }
    }

    /// Applies an update that has passed every check.
    pub open spec fn updated(
        self,
        job_id: JobId,
        expected: u64,
        patch: JobPatch,
        plan: JobUpdatePlan,
        now: Timestamp,
    ) -> Self {
        let job = self.updated_job(job_id, patch, plan, now);
        let kind = if plan.reschedule == RescheduleMode::RunNow {
            TimerKind::RunNow
        } else {
            TimerKind::Normal
        };
        let moved = SchedulerState {
            ready: self.updated_ready(job_id, patch, plan, now),
            ..self.with_job(job_id, job).disarm(self.job(job_id).normal_timer_key).clear_retries(
                job_id,
            )
        };
        let planned = if job.state is Enabled && plan.next_run_at is Some {
            moved.schedule_normal(job_id, plan.next_run_at->0, kind, now)
        } else {
            moved
        };
        let cancelled = if changes_work(patch) {
            planned.cancel_version(job_id, expected)
        } else {
            planned
        };
        cancelled.emit(
            SchedulerEventKindView::JobUpdated { job_id, version: plan.next_version },
            now,
        )
    }

    /// Enables a job that is not enabled: a new version, no failures, a first trigger.
    pub open spec fn enabled(self, job_id: JobId, now: Timestamp) -> Self {
        let cleared = self.clear_ready(job_id).clear_retries(job_id);
        let job = self.job(job_id);
        let version = (job.version + 1) as u64;
        cleared.with_job(
            job_id,
            JobView {
                version,
                state: JobStateView::Enabled,
                consecutive_failures: 0,
                updated_at: now,
                ..job
            },
        ).schedule_normal(
            job_id,
            first_instant(job.trigger, now)->Ok_0,
            TimerKind::Normal,
            now,
        ).emit(SchedulerEventKindView::JobEnabled { job_id, version }, now)
    }

    /// Why a job that is not enabled cannot be enabled.
    pub open spec fn enable_error(self, job_id: JobId, now: Timestamp) -> Option<
        SchedulerErrorView,
    > {
        match first_instant(self.job(job_id).trigger, now) {
            Err(error) => Some(error),
            Ok(_) => if self.job(job_id).version == u64::MAX {
                Some(SchedulerErrorView::VersionOverflow(job_id))
            } else {
                None
            },
        }
    }

    /// Why a request to disable a job is refused.
    pub open spec fn disable_refusal(self, job_id: JobId, expected: u64) -> Option<
        SchedulerErrorView,
    > {
        if self.version_error(job_id, expected) is Some {
            self.version_error(job_id, expected)
        } else {
            self.disable_error(job_id)
        }
    }

    /// Removes a job with its timers and everything that waits; its running executions are asked
    /// to stop where that is wanted.
    pub open spec fn deleted(
        self,
        job_id: JobId,
        version: u64,
        cancel_running: bool,
        now: Timestamp,
    ) -> Self {
        let key = self.job(job_id).normal_timer_key;
        let gone = self.without_job(job_id).disarm(key).clear_retries(job_id).clear_ready(job_id);
        let cancelled = if cancel_running {
            gone.cancel_version(job_id, version)
        } else {
            gone
        };
        cancelled.emit(SchedulerEventKindView::JobDeleted { job_id, version }, now)
    }

    /// Disables those of the first `n` jobs that break the limits.
    pub open spec fn limits_enforced(self, n: nat, now: Timestamp) -> Self
        decreases n,
    {
        if n == 0 {
            self
        } else {
            let state = self.limits_enforced((n - 1) as nat, now);
            let job = state.jobs[n - 1];
            if violates_limits(job, state.config) {
                state.force_disabled(job.id, "scheduler safety limits changed"@, now)
            } else {
                state
            }
        }
    }

    /// Why a change of the limits is refused.
    pub open spec fn config_error(self, expected: u64, patch: SchedulerConfigPatch) -> Option<
        SchedulerErrorView,
    > {
        if self.config_revision != expected {
            Some(
                SchedulerErrorView::ConfigRevisionConflict {
                    expected,
                    actual: self.config_revision,
                },
            )
        } else if !limits_positive(patched_config(self.config, patch)) {
            Some(zero_limit_error())
        } else if self.config_revision == u64::MAX {
            Some(SchedulerErrorView::ConfigRevisionOverflow)
        } else {
            None
        }
    }

    /// Changes the limits and disables the jobs that break them.
    pub open spec fn reconfigured(self, patch: SchedulerConfigPatch, now: Timestamp) -> Self {
        let revision = (self.config_revision + 1) as u64;
        SchedulerState {
            config: patched_config(self.config, patch),
            config_revision: revision,
            ..self
        }.limits_enforced(self.jobs.len(), now).emit(
            SchedulerEventKindView::SchedulerConfigUpdated { revision },
            now,
        )
    }
}

impl SchedulerActor {
    /// Picture of the job at a position with the limits in force.
    pub fn snapshot(&self, i: usize) -> (snapshot: JobSnapshot)
        requires
            i < self@.jobs.len(),
        ensures
            snapshot@ == self@.snapshot_of(self@.jobs[i as int]),
    {
        let waiting: usize = self.ready.count_job(self.jobs[i].id);
        JobSnapshot {
            id: self.jobs[i].id,
            version: self.jobs[i].version,
            task_kind: self.jobs[i].task.kind.clone(),
            state: self.jobs[i].state.clone(),
            trigger: self.jobs[i].trigger.clone(),
            priority: self.jobs[i].priority,
            concurrency: match self.jobs[i].concurrency {
                Some(limit) => limit,
                None => self.config.default_job_concurrency,
            },
            max_pending: match self.jobs[i].max_pending {
                Some(limit) => limit,
                None => self.config.default_job_max_pending,
            },
            running_count: self.jobs[i].running_count,
            pending_count: waiting.saturating_add(self.jobs[i].blocked.len()),
            consecutive_failures: self.jobs[i].consecutive_failures,
            next_run_at: self.jobs[i].next_run_at,
            last_started_at: self.jobs[i].last_started_at,
            last_finished_at: self.jobs[i].last_finished_at,
            last_outcome: copy_text(&self.jobs[i].last_outcome),
            created_at: self.jobs[i].created_at,
            updated_at: self.jobs[i].updated_at,
        }
    }

    /// Picture of a job, where it exists.
    pub fn get(&self, job_id: JobId) -> (snapshot: Option<JobSnapshot>)
        ensures
            match snapshot {
                Some(snapshot) => self@.has_job(job_id) && snapshot@ == self@.snapshot_of(
                    self@.job(job_id),
                ),
                None => !self@.has_job(job_id),
            },
    {
        match self.find_job(job_id) {
            Some(i) => Some(self.snapshot(i)),
            None => None,
        }
    }

    /// Pictures of all jobs, in order of registration.
    pub fn list(&self) -> (snapshots: Vec<JobSnapshot>)
        ensures
            snapshots@.len() == self@.jobs.len(),
            forall|i: int|
                0 <= i < snapshots@.len() ==> (#[trigger] snapshots@[i])@ == self@.snapshot_of(
                    self@.jobs[i],
                ),
    {
        let mut snapshots: Vec<JobSnapshot> = Vec::new();
        let mut i: usize = 0;
        while i < self.jobs.len()
            invariant
                i <= self.jobs.len(),
                snapshots@.len() == i,
                forall|k: int|
                    0 <= k < i ==> (#[trigger] snapshots@[k])@ == self@.snapshot_of(self@.jobs[k]),
            decreases self.jobs.len() - i,
        {
            snapshots.push(self.snapshot(i));
            i += 1;
        }
        snapshots
    }

    /// Checks that a job exists and has the expected version.
    pub fn check_version(&self, job_id: JobId, expected: u64) -> (checked: Result<
        usize,
        SchedulerError,
    >)
        ensures
            match checked {
                Ok(i) => self@.version_error(job_id, expected) is None && job_position(
                    self@.jobs,
                    job_id,
                    i as int,
                ) && self@.position(job_id) == i && i < self.jobs@.len() && self@.job(job_id)
                    == self.jobs@[i as int]@,
                Err(error) => self@.version_error(job_id, expected) == Some(error@),
            },
    {
        match self.find_job(job_id) {
            None => Err(SchedulerError::JobNotFound(job_id)),
            Some(i) => {
                let actual: u64 = self.jobs[i].version;
                if actual == expected {
                    Ok(i)
                } else {
                    Err(SchedulerError::VersionConflict { job_id, expected, actual })
                }
            },
        }
    }

    /// Registers a job. A requested identifier must be free; without one the job takes
    /// `fresh_id`, which no job may have.
    pub fn add_job(
        &mut self,
        requested_id: Option<JobId>,
        fresh_id: JobId,
        generation: u64,
        enabled: bool,
        trigger: Trigger,
        task: TaskBinding,
        options: JobOptions,
        now: Timestamp,
    ) -> (answer: Result<JobId, SchedulerError>)
        requires
            trigger@.schedule is Cron ==> cron_start(now.nanos as int),
            requested_id is None ==> !old(self)@.has_job(fresh_id),
        ensures
            match old(self)@.add_error(
                requested_id,
                trigger@,
                task@.cancellation_mode,
                options,
                now,
            ) {
                Some(error) => {
                    &&& final(self)@ == old(self)@
                    &&& answer_view(answer) == Err::<JobId, SchedulerErrorView>(error)
                },
                None => {
                    let id = patched(requested_id, fresh_id);
                    &&& answer_view(answer) == Ok::<JobId, SchedulerErrorView>(id)
                    &&& final(self)@ == old(self)@.added(
                        id,
                        generation,
                        enabled,
                        trigger@,
                        task@,
                        options,
                        now,
                    )
                },
            },
            old(self)@.wf() ==> final(self)@.wf(),
    {
        if self.jobs.len() >= self.config.max_jobs {
            return Err(SchedulerError::MaximumJobsReached(self.config.max_jobs));
        }
        if let Err(error) = validate_trigger(&trigger, &options, &self.config) {
            return Err(error);
        }
        if let Err(error) = validate_task_cancellation_mode(&trigger, task.cancellation_mode()) {
            return Err(error);
        }
        let id: JobId = match requested_id {
            Some(id) => {
                if self.contains_job(id) {
                    return Err(SchedulerError::JobAlreadyExists(id));
                }
                id
            },
            None => fresh_id,
        };
        let (coalescing, capacity) = effective_queue_policies(&trigger, &options);
        let next_run = match first_run_at(&trigger, now) {
            Ok(next_run) => next_run,
            Err(error) => {
                return Err(error);
            },
        };
        let state = if enabled {
            JobState::Enabled
        } else {
            JobState::Disabled { reason: "installed disabled".to_owned() }
        };
        let entry = JobEntry {
            id,
            version: generation,
            task,
            trigger,
            concurrency: options.concurrency,
            max_pending: options.max_pending,
            priority: options.priority,
            coalescing,
            capacity,
            retry: options.retry,
            failure: options.failure,
            state,
            normal_timer_key: None,
            next_run_at: None,
            blocked: Vec::new(),
            running_count: 0,
            consecutive_failures: 0,
            last_started_at: None,
            last_finished_at: None,
            last_outcome: None,
            last_fired_at: None,
            created_at: now,
            updated_at: now,
        };
        let ghost job = entry@;
        self.jobs.push(entry);
        proof {
            assert(self@.jobs =~= old(self)@.jobs.push(job));
            assert(job.blocked =~= Seq::empty());
            assert forall|k: int| 0 <= k < old(self)@.jobs.len() implies (
            #[trigger] old(self)@.jobs[k]).id != id by {
                if old(self)@.jobs[k].id == id {
                    lemma_some_position(old(self)@, id, k);
                }
            }
        }
        if enabled {
            self.schedule_normal(id, next_run, TimerKind::Normal, now);
        }
        self.emit(SchedulerEventKind::JobAdded { job_id: id, version: generation }, now);
        Ok(id)
    }

    /// Works out an update without changing anything.
    pub fn plan_job_update(
        &self,
        job_id: JobId,
        expected_version: u64,
        patch: &JobPatch,
        now: Timestamp,
    ) -> (plan: Result<JobUpdatePlan, SchedulerError>)
        requires
            self@.update_asks(job_id, *patch, now),
        ensures
            plan_view(plan) == self@.planned_update(job_id, expected_version, *patch, now),
    {
        let i: usize = match self.check_version(job_id, expected_version) {
            Ok(i) => i,
            Err(error) => {
                return Err(error);
            },
        };
        let job = &self.jobs[i];
        let trigger = match &patch.trigger {
            Some(trigger) => trigger,
            None => &job.trigger,
        };
        let mode = match &patch.task {
            Some(task) => task.cancellation_mode(),
            None => job.task.cancellation_mode(),
        };
        let options = patched_job_options(job, patch);
        if let Err(error) = validate_trigger(trigger, &options, &self.config) {
            return Err(error);
        }
        if let Err(error) = validate_task_cancellation_mode(trigger, mode) {
            return Err(error);
        }
        if job.version == u64::MAX {
            return Err(SchedulerError::VersionOverflow(job_id));
        }
        let next_version: u64 = job.version + 1;
        let trigger_changed = patch.trigger.is_some();
        let task_changed = patch.task.is_some();
        let reschedule = if trigger_changed && patch.reschedule == RescheduleMode::Preserve {
            RescheduleMode::Recalculate
        } else {
            patch.reschedule
        };
        let keep = reschedule == RescheduleMode::Preserve && (job.next_run_at.is_some()
            || !job.state.is_enabled());
        let next_run_at = if reschedule == RescheduleMode::RunNow {
            Some(now)
        } else if keep {
            job.next_run_at
        } else {
            match first_run_at(trigger, now) {
                Ok(next) => Some(next),
                Err(error) => {
                    return Err(error);
                },
            }
        };
        Ok(JobUpdatePlan { next_version, next_run_at, reschedule, trigger_changed, task_changed })
    }
}

impl SchedulerActor {
    fn move_blocked(&mut self, i: usize)
        requires
            i < old(self)@.jobs.len(),
        ensures
            final(self)@ == (SchedulerState {
                jobs: old(self)@.jobs.update(
                    i as int,
                    JobView {
                        blocked: moved_blocked(old(self)@.jobs[i as int]),
                        ..old(self)@.jobs[i as int]
                    },
                ),
                ..old(self)@
            }),
            final(self).jobs@.len() == old(self).jobs@.len(),
    {
        let ghost job = self@.jobs[i as int];
        let version: u64 = self.jobs[i].version;
        let priority = self.jobs[i].priority;
        let mut moved: Vec<PendingExecution> = Vec::new();
        let mut k: usize = 0;
        while k < self.jobs[i].blocked.len()
            invariant
                i < self.jobs.len(),
                k <= self.jobs[i as int].blocked.len(),
                moved@.len() == k,
                forall|j: int|
                    0 <= j < k ==> #[trigger] moved@[j] == (PendingExecution {
                        version,
                        priority,
                        ..self.jobs@[i as int].blocked@[j]
                    }),
            decreases self.jobs[i as int].blocked.len() - k,
        {
            let item = self.jobs[i].blocked[k];
            moved.push(PendingExecution { version, priority, ..item });
            k += 1;
        }
        proof {
            assert(moved@ =~= moved_blocked(job));
        }
        self.jobs[i].blocked = moved;
        proof {
            assert(self@.jobs =~= old(self)@.jobs.update(
                i as int,
                JobView { blocked: moved_blocked(job), ..job },
            ));
        }
    }

    fn apply_patch(&mut self, i: usize, patch: JobPatch, version: u64, now: Timestamp)
        requires
            i < old(self)@.jobs.len(),
        ensures
            final(self)@ == (SchedulerState {
                jobs: old(self)@.jobs.update(
                    i as int,
                    new_version(old(self)@.jobs[i as int], patch, version, now),
                ),
                ..old(self)@
            }),
            final(self).jobs@.len() == old(self).jobs@.len(),
    {
        let ghost whole = patch;
        let ghost job = self@.jobs[i as int];
        let JobPatch {
            task,
            trigger,
            concurrency,
            max_pending,
            priority,
            coalescing,
            capacity,
            retry,
            failure,
            reschedule: _,
        } = patch;
        let entry = &mut self.jobs[i];
        if let Some(trigger) = trigger {
            entry.trigger = trigger;
        }
        if let Some(task) = task {
            entry.task = task;
        }
        apply_patch_value(&mut entry.concurrency, concurrency);
        apply_patch_value(&mut entry.max_pending, max_pending);
        if let Some(value) = priority {
            entry.priority = value;
        }
        if let Some(value) = coalescing {
            entry.coalescing = value;
        }
        if let Some(value) = capacity {
            entry.capacity = value;
        }
        if let Some(value) = retry {
            entry.retry = value;
        }
        if let Some(value) = failure {
            entry.failure = value;
        }
        entry.version = version;
        entry.updated_at = now;
        entry.normal_timer_key = None;
        entry.next_run_at = None;
        proof {
            assert(self@.jobs =~= old(self)@.jobs.update(
                i as int,
                new_version(job, whole, version, now),
            ));
        }
    }

    fn drop_waiting(&mut self, i: usize, job_id: JobId)
        requires
            i < old(self)@.jobs.len(),
        ensures
            final(self)@ == (SchedulerState {
                jobs: old(self)@.jobs.update(
                    i as int,
                    JobView {
                        blocked: Seq::empty(),
                        consecutive_failures: 0,
                        ..old(self)@.jobs[i as int]
                    },
                ),
                ..old(self)@.clear_ready(job_id)
            }),
            final(self).jobs@.len() == old(self).jobs@.len(),
    {
        let ghost job = self@.jobs[i as int];
        self.jobs[i].blocked = Vec::new();
        self.jobs[i].consecutive_failures = 0;
        proof {
            assert(self@.jobs =~= old(self)@.jobs.update(
                i as int,
                JobView { blocked: Seq::empty(), consecutive_failures: 0, ..job },
            ));
        }
        self.ready.remove_job(job_id);
    }

    fn move_waiting(&mut self, i: usize, job_id: JobId)
        requires
            i < old(self)@.jobs.len(),
        ensures
            ({
                let job = old(self)@.jobs[i as int];
                let moved = migrated_queue(old(self)@.ready, job_id, job.version, job.priority);
                final(self)@ == (SchedulerState {
                    jobs: old(self)@.jobs.update(
                        i as int,
                        JobView { blocked: moved_blocked(job), ..job },
                    ),
                    ready: if job.coalescing == TriggerCoalescing::KeepLatest {
                        moved.filter(no_trigger_of(job_id))
                    } else {
                        moved
                    },
                    ..old(self)@
                })
            }),
            final(self).jobs@.len() == old(self).jobs@.len(),
    {
        let version: u64 = self.jobs[i].version;
        let priority = self.jobs[i].priority;
        let coalescing = self.jobs[i].coalescing;
        self.move_blocked(i);
        self.ready.migrate_job(job_id, version, priority);
        if coalescing == TriggerCoalescing::KeepLatest {
            self.ready.remove_normal_triggers(job_id);
        }
    }

    /// Changes a job that has the expected version. Every check comes before the first change, so
    /// a refused update leaves the job as it was.
    pub fn update_job(
        &mut self,
        job_id: JobId,
        expected_version: u64,
        patch: JobPatch,
        now: Timestamp,
    ) -> (answer: Result<JobSnapshot, SchedulerError>)
        requires
            old(self)@.update_asks(job_id, patch, now),
        ensures
            match old(self)@.planned_update(job_id, expected_version, patch, now) {
                Ok(plan) => {
                    &&& final(self)@ == old(self)@.updated(
                        job_id,
                        expected_version,
                        patch,
                        plan,
                        now,
                    )
                    &&& snapshot_answer(answer) == Ok::<JobSnapshotView, SchedulerErrorView>(
                        final(self)@.snapshot_of(final(self)@.job(job_id)),
                    )
                },
                Err(error) => {
                    &&& final(self)@ == old(self)@
                    &&& snapshot_answer(answer) == Err::<JobSnapshotView, SchedulerErrorView>(
                        error,
                    )
                },
            },
            old(self)@.wf() ==> final(self)@.wf(),
    {
        let plan = match self.plan_job_update(job_id, expected_version, &patch, now) {
            Ok(plan) => plan,
            Err(error) => {
                return Err(error);
            },
        };
        let i: usize = match self.check_version(job_id, expected_version) {
            Ok(i) => i,
            Err(error) => {
                return Err(error);
            },
        };
        let ghost before = self@;
        let ghost whole = patch;
        let changed = plan.trigger_changed || plan.task_changed;
        let key = self.jobs[i].normal_timer_key;
        self.apply_patch(i, patch, plan.next_version, now);
        if changed {
            self.drop_waiting(i, job_id);
        } else {
            self.move_waiting(i, job_id);
        }
        proof {
            let job = before.updated_job(job_id, whole, plan, now);
            lemma_with_job(before, job_id, job);
            assert(self@.jobs =~= before.jobs.update(i as int, job));
        }
        assert(self@ == (SchedulerState {
            ready: before.updated_ready(job_id, whole, plan, now),
            ..before.with_job(job_id, before.updated_job(job_id, whole, plan, now))
        }));
        proof {
            if before.wf() {
                lemma_updated_wf(before, job_id, whole, plan, now);
            }
        }
        self.disarm(key);
        self.clear_retry_timers(job_id);
        let kind = if plan.reschedule == RescheduleMode::RunNow {
            TimerKind::RunNow
        } else {
            TimerKind::Normal
        };
        if self.jobs[i].state.is_enabled() {
            if let Some(next) = plan.next_run_at {
                self.schedule_normal(job_id, next, kind, now);
            }
        }
        if changed {
            self.cancel_job_version(job_id, expected_version);
        }
        self.emit(SchedulerEventKind::JobUpdated { job_id, version: plan.next_version }, now);
        proof {
            lemma_same_positions(before, self@, job_id);
        }
        Ok(self.snapshot(i))
    }
}

impl SchedulerActor {
    /// Enables a job that is disabled or completed; an enabled job stays as it is.
    pub fn enable_job(&mut self, job_id: JobId, expected_version: u64, now: Timestamp) -> (answer:
        Result<JobSnapshot, SchedulerError>)
        requires
            old(self)@.enable_asks(job_id, now),
        ensures
            match old(self)@.version_error(job_id, expected_version) {
                Some(error) => {
                    &&& final(self)@ == old(self)@
                    &&& snapshot_answer(answer) == Err::<JobSnapshotView, SchedulerErrorView>(
                        error,
                    )
                },
                None => if old(self)@.job(job_id).state is Enabled {
                    &&& final(self)@ == old(self)@
                    &&& snapshot_answer(answer) == Ok::<JobSnapshotView, SchedulerErrorView>(
                        old(self)@.snapshot_of(old(self)@.job(job_id)),
                    )
                } else {
                    match old(self)@.enable_error(job_id, now) {
                        Some(error) => {
                            &&& final(self)@ == old(self)@.clear_ready(job_id).clear_retries(
                                job_id,
                            )
                            &&& snapshot_answer(answer) == Err::<
                                JobSnapshotView,
                                SchedulerErrorView,
                            >(error)
                        },
                        None => {
                            &&& final(self)@ == old(self)@.enabled(job_id, now)
                            &&& snapshot_answer(answer) == Ok::<
                                JobSnapshotView,
                                SchedulerErrorView,
                            >(final(self)@.snapshot_of(final(self)@.job(job_id)))
                        },
                    }
                },
            },
            old(self)@.wf() ==> final(self)@.wf(),
    {
        let i: usize = match self.check_version(job_id, expected_version) {
            Ok(i) => i,
            Err(error) => {
                return Err(error);
            },
        };
        if self.jobs[i].state.is_enabled() {
            return Ok(self.snapshot(i));
        }
        let ghost before = self@;
        let ghost job = self@.job(job_id);
        self.ready.remove_job(job_id);
        self.clear_retry_timers(job_id);
        let next = match first_run_at(&self.jobs[i].trigger, now) {
            Ok(next) => next,
            Err(error) => {
                return Err(error);
            },
        };
        if self.jobs[i].version == u64::MAX {
            return Err(SchedulerError::VersionOverflow(job_id));
        }
        let version: u64 = self.jobs[i].version + 1;
        self.jobs[i].version = version;
        self.jobs[i].state = JobState::Enabled;
        self.jobs[i].consecutive_failures = 0;
        self.jobs[i].updated_at = now;
        proof {
            assert(self@.jobs =~= before.jobs.update(
                i as int,
                JobView {
                    version,
                    state: JobStateView::Enabled,
                    consecutive_failures: 0,
                    updated_at: now,
                    ..job
                },
            ));
        }
        self.schedule_normal(job_id, next, TimerKind::Normal, now);
        self.emit(SchedulerEventKind::JobEnabled { job_id, version }, now);
        proof {
            lemma_same_positions(before, self@, job_id);
        }
        Ok(self.snapshot(i))
    }

    /// Disables a job that has the expected version.
    pub fn disable_job(
        &mut self,
        job_id: JobId,
        expected_version: u64,
        reason: String,
        now: Timestamp,
    ) -> (answer: Result<JobSnapshot, SchedulerError>)
        ensures
            match old(self)@.disable_refusal(job_id, expected_version) {
                Some(error) => {
                    &&& final(self)@ == old(self)@
                    &&& snapshot_answer(answer) == Err::<JobSnapshotView, SchedulerErrorView>(
                        error,
                    )
                },
                None => {
                    &&& final(self)@ == old(self)@.disabled(job_id, reason@, now)
                    &&& snapshot_answer(answer) == Ok::<JobSnapshotView, SchedulerErrorView>(
                        final(self)@.snapshot_of(final(self)@.job(job_id)),
                    )
                },
            },
            old(self)@.wf() ==> final(self)@.wf(),
    {
        let i: usize = match self.check_version(job_id, expected_version) {
            Ok(i) => i,
            Err(error) => {
                return Err(error);
            },
        };
        let ghost before = self@;
        if let Err(error) = self.force_disable(job_id, reason, now) {
            return Err(error);
        }
        proof {
            lemma_same_positions(before, self@, job_id);
        }
        Ok(self.snapshot(i))
    }

    /// Removes a job that has the expected version, with its timers and everything that waits.
    pub fn delete_job(
        &mut self,
        job_id: JobId,
        expected_version: u64,
        cancel_running: bool,
        now: Timestamp,
    ) -> (answer: Result<(), SchedulerError>)
        ensures
            match old(self)@.version_error(job_id, expected_version) {
                Some(error) => {
                    &&& final(self)@ == old(self)@
                    &&& answer_view(answer) == Err::<(), SchedulerErrorView>(error)
                },
                None => {
                    &&& final(self)@ == old(self)@.deleted(
                        job_id,
                        expected_version,
                        cancel_running,
                        now,
                    )
                    &&& answer is Ok
                },
            },
            old(self)@.wf() ==> final(self)@.wf(),
    {
        let i: usize = match self.check_version(job_id, expected_version) {
            Ok(i) => i,
            Err(error) => {
                return Err(error);
            },
        };
        let ghost before = self@;
        let job = self.jobs.remove(i);
        proof {
            assert(self@.jobs =~= before.jobs.remove(i as int));
            if before.wf() {
                lemma_removed_wf(before, i as int);
            }
        }
        self.disarm(job.normal_timer_key);
        self.clear_retry_timers(job_id);
        self.ready.remove_job(job_id);
        if cancel_running {
            self.cancel_job_version(job_id, expected_version);
        }
        self.emit(SchedulerEventKind::JobDeleted { job_id, version: expected_version }, now);
        Ok(())
    }

    fn disable_jobs_violating_limits(&mut self, now: Timestamp)
        ensures
            final(self)@ == old(self)@.limits_enforced(old(self)@.jobs.len(), now),
            old(self)@.wf() ==> final(self)@.wf(),
    {
        let count: usize = self.jobs.len();
        let mut i: usize = 0;
        while i < count
            invariant
                i <= count,
                count == old(self)@.jobs.len(),
                self@ == old(self)@.limits_enforced(i as nat, now),
                self@.jobs.len() == count,
                self.jobs@.len() == count,
                old(self)@.wf() ==> self@.wf(),
            decreases count - i,
        {
            let options = job_options_from_entry(&self.jobs[i]);
            let job_id: JobId = self.jobs[i].id;
            let trigger_bad = validate_trigger(
                &self.jobs[i].trigger,
                &options,
                &self.config,
            ).is_err();
            let mode_bad = validate_task_cancellation_mode(
                &self.jobs[i].trigger,
                self.jobs[i].task.cancellation_mode,
            ).is_err();
            if trigger_bad || mode_bad {
                let _ = self.force_disable(
                    job_id,
                    "scheduler safety limits changed".to_owned(),
                    now,
                );
            }
            i += 1;
        }
    }

    /// Limits in force with their revision.
    pub fn get_config(&self) -> (snapshot: SchedulerConfigSnapshot)
        ensures
            snapshot.revision == self@.config_revision,
            snapshot.config == self@.config,
    {
        SchedulerConfigSnapshot { revision: self.config_revision, config: self.config }
    }

    /// Changes the limits at the expected revision and disables the jobs that break the new ones.
    pub fn update_config(
        &mut self,
        expected_revision: u64,
        patch: SchedulerConfigPatch,
        now: Timestamp,
    ) -> (answer: Result<SchedulerConfigSnapshot, SchedulerError>)
        ensures
            match old(self)@.config_error(expected_revision, patch) {
                Some(error) => {
                    &&& final(self)@ == old(self)@
                    &&& answer_view(answer) == Err::<SchedulerConfigSnapshot, SchedulerErrorView>(
                        error,
                    )
                },
                None => {
                    &&& final(self)@ == old(self)@.reconfigured(patch, now)
                    &&& answer_view(answer) == Ok::<SchedulerConfigSnapshot, SchedulerErrorView>(
                        SchedulerConfigSnapshot {
                            revision: (old(self)@.config_revision + 1) as u64,
                            config: patched_config(old(self)@.config, patch),
                        },
                    )
                },
            },
            old(self)@.wf() ==> final(self)@.wf(),
    {
        if self.config_revision != expected_revision {
            return Err(
                SchedulerError::ConfigRevisionConflict {
                    expected: expected_revision,
                    actual: self.config_revision,
                },
            );
        }
        let mut config = self.config;
        apply_config_patch(&mut config, patch);
        if let Err(error) = validate_config(&config) {
            return Err(error);
        }
        if self.config_revision == u64::MAX {
            return Err(SchedulerError::ConfigRevisionOverflow);
        }
        let revision: u64 = self.config_revision + 1;
        self.config_revision = revision;
        self.config = config;
        self.disable_jobs_violating_limits(now);
        self.emit(SchedulerEventKind::SchedulerConfigUpdated { revision }, now);
        Ok(SchedulerConfigSnapshot { revision, config })
    }
}

proof fn lemma_removed_wf(state: SchedulerState, i: int)
    requires
        0 <= i < state.jobs.len(),
        state.wf(),
    ensures
        (SchedulerState { jobs: state.jobs.remove(i), ..state }).wf(),
{
    let next = SchedulerState { jobs: state.jobs.remove(i), ..state };
    assert forall|a: int, k: int|
        0 <= a < next.jobs.len() && next.jobs[a].trigger.schedule is Cron && 0 <= k
            < next.jobs[a].blocked.len() implies cron_start(
        (#[trigger] next.jobs[a].blocked[k]).scheduled_at.nanos as int,
    ) by {
        let b = if a < i {
            a
        } else {
            a + 1
        };
        assert(state.jobs[b].blocked[k] == next.jobs[a].blocked[k]);
    }
}

proof fn lemma_updated_wf(
    state: SchedulerState,
    job_id: JobId,
    patch: JobPatch,
    plan: JobUpdatePlan,
    now: Timestamp,
)
    requires
        state.has_job(job_id),
        state.wf(),
    ensures
        state.with_job(job_id, state.updated_job(job_id, patch, plan, now)).wf(),
{
    let job = state.updated_job(job_id, patch, plan, now);
    lemma_with_job(state, job_id, state.job(job_id));
    let next = state.with_job(job_id, job);
    let i = state.position(job_id);
    assert forall|a: int, k: int|
        0 <= a < next.jobs.len() && next.jobs[a].trigger.schedule is Cron && 0 <= k
            < next.jobs[a].blocked.len() implies cron_start(
        (#[trigger] next.jobs[a].blocked[k]).scheduled_at.nanos as int,
    ) by {
        assert(state.jobs[a].blocked[k].scheduled_at == next.jobs[a].blocked[k].scheduled_at);
    }
}

/// A job stays at its position while no identifier changes.
pub proof fn lemma_same_positions(a: SchedulerState, b: SchedulerState, job_id: JobId)
    requires
        a.jobs.len() == b.jobs.len(),
        forall|i: int| 0 <= i < a.jobs.len() ==> (#[trigger] a.jobs[i]).id == b.jobs[i].id,
        a.has_job(job_id),
    ensures
        b.has_job(job_id),
        a.position(job_id) == b.position(job_id),
{
    let i = a.position(job_id);
    assert(job_position(a.jobs, job_id, i));
    assert forall|k: int| 0 <= k < i implies (#[trigger] b.jobs[k]).id != job_id by {
        assert(a.jobs[k].id == b.jobs[k].id);
    }
    assert(job_position(b.jobs, job_id, i));
    lemma_job_position(b, job_id, i);
}

fn copy_text(text: &Option<String>) -> (copy: Option<String>)
    ensures
        super::super::model::optional_text(copy) == super::super::model::optional_text(*text),
{
    match text {
        Some(text) => Some(text.clone()),
        None => None,
    }
}

} // verus!
