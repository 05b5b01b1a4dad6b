//! What the end of an execution leads to: success, retries, failures and slots.

use super::super::event::{SchedulerEventKind, SchedulerEventKindView};
use super::super::model::{ExecutionRetryPolicy, JobId, JobState, JobStateView, RunId};
use super::super::task::{TaskRunResult, TaskRunResultView};
use super::super::time::{max_int, min_int, representable, Span, Timestamp, NANOS_PER_MILLI};
use super::dispatch::without_running;
use super::{job_position, lemma_with_job, JobView, SchedulerActor, SchedulerState};
use vstd::arithmetic::power2::{lemma2_to64, lemma_pow2_strictly_increases, lemma_pow2_unfold, pow2};
use vstd::prelude::*;

verus! {

/// How an execution ended.
#[derive(Debug)]
pub enum CompletionOutcome {
    /// The task and its output adapter returned.
    Finished(TaskRunResult),
    /// The timeout came first.
    TimedOut,
    /// The task panicked; holds the text of the panic.
    Panicked(String),
    /// A cancellation came first.
    Cancelled,
}

/// What a `CompletionOutcome` holds.
pub enum CompletionOutcomeView {
    /// See `CompletionOutcome::Finished`.
    Finished(TaskRunResultView),
    /// See `CompletionOutcome::TimedOut`.
    TimedOut,
    /// See `CompletionOutcome::Panicked`.
    Panicked(Seq<char>),
    /// See `CompletionOutcome::Cancelled`.
    Cancelled,
}

impl View for CompletionOutcome {
    type V = CompletionOutcomeView;

    open spec fn view(&self) -> CompletionOutcomeView {
        match *self {
            CompletionOutcome::Finished(result) => CompletionOutcomeView::Finished(result@),
            CompletionOutcome::TimedOut => CompletionOutcomeView::TimedOut,
            CompletionOutcome::Panicked(text) => CompletionOutcomeView::Panicked(text@),
            CompletionOutcome::Cancelled => CompletionOutcomeView::Cancelled,
        }
    }
}

/// Which execution ended.
#[derive(Debug, Clone, Copy, PartialEq, Eq, Structural)]
pub struct ExecutionMetadata {
    /// Job.
    pub job_id: JobId,
    /// Version of the job at the start.
    pub version: u64,
    /// Execution.
    pub run_id: RunId,
    /// Attempt, counted from one.
    pub attempt: u32,
    /// Planned instant.
    pub scheduled_at: Timestamp,
}

/// End of an execution.
#[derive(Debug)]
pub struct TaskCompletion {
    /// Which execution.
    pub metadata: ExecutionMetadata,
    /// How long it took.
    pub elapsed: Span,
    /// How it ended.
    pub outcome: CompletionOutcome,
}

/// Kind of a failure.
#[derive(Debug, Clone, Copy, PartialEq, Eq, Structural)]
pub enum FailureClass {
    /// The task called its error transient.
    Transient,
    /// The task called its error permanent.
    Permanent,
    /// Out of time.
    Timeout,
    /// Panic.
    Panic,
}

/// Kind of failure of an end, where it is a failure of the task.
pub open spec fn failure_class(outcome: CompletionOutcomeView) -> Option<FailureClass> {
    match outcome {
        CompletionOutcomeView::Finished(TaskRunResultView::TaskTransient(_)) => Some(
            FailureClass::Transient,
        ),
        CompletionOutcomeView::Finished(TaskRunResultView::TaskPermanent(_)) => Some(
            FailureClass::Permanent,
        ),
        CompletionOutcomeView::TimedOut => Some(FailureClass::Timeout),
        CompletionOutcomeView::Panicked(_) => Some(FailureClass::Panic),
        _ => None,
    }
}

/// Whether a retry policy covers a kind of failure.
pub open spec fn retries_class(job: JobView, class: FailureClass) -> bool {
    match job.retry {
        ExecutionRetryPolicy::NoRetry => false,
        ExecutionRetryPolicy::Exponential { retry_on, .. } => match class {
            FailureClass::Transient => retry_on.transient_error,
            FailureClass::Timeout => retry_on.timeout,
            FailureClass::Panic => retry_on.panic,
            FailureClass::Permanent => false,
        },
    }
}

/// How often a delay has doubled before the retry that follows an attempt.
pub open spec fn doublings(attempt: u32) -> nat {
    min_int(max_int(attempt - 1, 0), 31) as nat
}

/// Delay before the next attempt of a job's execution, or `None` where there is none: the first
/// delay doubled with every attempt, up to the longest delay.
pub open spec fn retry_after(job: JobView, attempt: u32, class: FailureClass) -> Option<Span> {
    match job.retry {
        ExecutionRetryPolicy::NoRetry => None,
        ExecutionRetryPolicy::Exponential { max_attempts, initial_delay, max_delay, .. } => if attempt
            < max_attempts && retries_class(job, class) {
            Some(
                Span {
                    nanos: min_int(
                        initial_delay.nanos * pow2(doublings(attempt)),
                        max_delay.nanos as int,
                    ) as u128,
                },
            )
        } else {
            None
        },
    }
}

/// Whether a final failure of a kind counts towards the failure guard.
pub open spec fn failure_counts(job: JobView, class: FailureClass) -> bool {
    match class {
        FailureClass::Timeout => job.failure.count_timeout,
        FailureClass::Panic => job.failure.count_panic,
        _ => true,
    }
}

/// Failures in a row after one more that counts.
pub open spec fn more_failures(job: JobView, count: bool) -> u32 {
    if count && job.consecutive_failures < u32::MAX {
        (job.consecutive_failures + 1) as u32
    } else {
        job.consecutive_failures
    }
}

/// Whether so many failures in a row disable a job.
pub open spec fn too_many(job: JobView, failures: u32) -> bool {
    job.failure.disable_after_consecutive_failures matches Some(limit) && failures >= limit
}

impl SchedulerState {
    /// Records a failure without further retries: the failure guard may disable the job, else a
    /// one-shot job is done.
    pub open spec fn finally_failed(
        self,
        job_id: JobId,
        error: Seq<char>,
        count: bool,
        now: Timestamp,
    ) -> Self {
        if !self.has_job(job_id) {
            self
        } else {
            let job = self.job(job_id);
            let failures = more_failures(job, count);
            let recorded = JobView {
                last_outcome: Some(error),
                consecutive_failures: failures,
                ..job
            };
            if too_many(job, failures) {
                self.with_job(job_id, recorded).force_disabled(job_id, error, now)
            } else if job.trigger.schedule is Once {
                self.with_job(
                    job_id,
                    JobView { state: JobStateView::Completed, updated_at: now, ..recorded },
                )
            } else {
                self.with_job(job_id, recorded)
            }
        }
    }

    /// Handles a failure of the task: a permanent one disables the job, others are retried while
    /// the policy allows it and recorded as final after that.
    pub open spec fn failed(
        self,
        execution: ExecutionMetadata,
        error: Seq<char>,
        class: FailureClass,
        now: Timestamp,
    ) -> Self {
        let job = self.job(execution.job_id);
        let retry = if class == FailureClass::Permanent {
            None
        } else {
            retry_after(job, execution.attempt, class)
        };
        let told = self.emit(
            SchedulerEventKindView::ExecutionFailed {
                job_id: execution.job_id,
                version: execution.version,
                run_id: execution.run_id,
                attempt: execution.attempt,
                error,
                will_retry: retry is Some,
            },
            now,
        );
        if class == FailureClass::Permanent {
            told.force_disabled(execution.job_id, error, now)
        } else {
            match retry {
                Some(delay) => told.schedule_retry(
                    execution.job_id,
                    execution.version,
                    execution.run_id,
                    execution.scheduled_at,
                    (execution.attempt + 1) as u32,
                    Timestamp { nanos: (now.nanos + delay.nanos) as i128 },
                    now,
                ),
                None => told.finally_failed(
                    execution.job_id,
                    error,
                    failure_counts(job, class),
                    now,
                ),
            }
        }
    }

    /// Gives back the slots of an execution.
    pub open spec fn released(self, execution: ExecutionMetadata, now: Timestamp) -> Self {
        let freed = SchedulerState {
            running: without_running(self.running, execution.run_id),
            total_running: max_int(self.total_running - 1, 0) as usize,
            ..self
        };
        if self.has_job(execution.job_id) {
            let job = self.job(execution.job_id);
            freed.with_job(
                execution.job_id,
                JobView {
                    running_count: max_int(job.running_count - 1, 0) as usize,
                    last_finished_at: Some(now),
                    ..job
                },
            )
        } else {
            freed
        }
    }

    /// Whether an execution belongs to the current version of its job.
    pub open spec fn is_current(self, execution: ExecutionMetadata) -> bool {
        self.has_job(execution.job_id) && self.job(execution.job_id).version == execution.version
    }

    /// Records a success.
    pub open spec fn succeeded(
        self,
        execution: ExecutionMetadata,
        elapsed: Span,
        delivered: bool,
        now: Timestamp,
    ) -> Self {
        let job = self.job(execution.job_id);
        let told = self.with_job(
            execution.job_id,
            JobView {
                consecutive_failures: 0,
                last_outcome: Some("success"@),
                state: if job.trigger.schedule is Once {
                    JobStateView::Completed
                } else {
                    job.state
                },
                ..job
            },
        ).emit(
            SchedulerEventKindView::ExecutionSucceeded {
                job_id: execution.job_id,
                version: execution.version,
                run_id: execution.run_id,
                attempt: execution.attempt,
                duration_ms: min_int(
                    elapsed.nanos as int / NANOS_PER_MILLI as int,
                    u64::MAX as int,
                ) as u64,
            },
            now,
        );
        if delivered {
            told.emit(
                SchedulerEventKindView::OutputDelivered {
                    job_id: execution.job_id,
                    version: execution.version,
                    run_id: execution.run_id,
                },
                now,
            )
        } else {
            told
        }
    }

    /// Tells of an output that was not handed on.
    pub open spec fn callback_failed(
        self,
        execution: ExecutionMetadata,
        error: Seq<char>,
        now: Timestamp,
    ) -> Self {
        self.emit(
            SchedulerEventKindView::CallbackFailed {
                job_id: execution.job_id,
                version: execution.version,
                run_id: execution.run_id,
                error,
            },
            now,
        )
    }

    /// What the end of an execution of the current version leads to once its slots are free.
    pub open spec fn concluded(
        self,
        execution: ExecutionMetadata,
        elapsed: Span,
        outcome: CompletionOutcomeView,
        now: Timestamp,
    ) -> Self {
        match outcome {
            CompletionOutcomeView::Finished(TaskRunResultView::Completed) => self.succeeded(
                execution,
                elapsed,
                false,
                now,
            ),
            CompletionOutcomeView::Finished(TaskRunResultView::OutputDelivered) => self.succeeded(
                execution,
                elapsed,
                true,
                now,
            ),
            CompletionOutcomeView::Finished(TaskRunResultView::TaskTransient(error)) =>
                self.failed(execution, error, FailureClass::Transient, now),
            CompletionOutcomeView::Finished(TaskRunResultView::TaskPermanent(error)) =>
                self.failed(execution, error, FailureClass::Permanent, now),
            CompletionOutcomeView::Finished(TaskRunResultView::CallbackTransient(error)) =>
                self.callback_failed(execution, error, now).finally_failed(
                    execution.job_id,
                    error,
                    false,
                    now,
                ),
            CompletionOutcomeView::Finished(TaskRunResultView::CallbackPermanent(error)) =>
                self.callback_failed(execution, error, now).force_disabled(
                    execution.job_id,
                    error,
                    now,
                ),
            CompletionOutcomeView::Finished(TaskRunResultView::ChannelClosed) => self.emit(
                SchedulerEventKindView::OutputChannelClosed {
                    job_id: execution.job_id,
                    version: execution.version,
                    run_id: execution.run_id,
                },
                now,
            ).cancel_version(execution.job_id, execution.version).deleted(
                execution.job_id,
                execution.version,
                true,
                now,
            ),
            CompletionOutcomeView::TimedOut => self.emit(
                SchedulerEventKindView::ExecutionTimedOut {
                    job_id: execution.job_id,
                    version: execution.version,
                    run_id: execution.run_id,
                    attempt: execution.attempt,
                },
                now,
            ).failed(execution, "task execution timed out"@, FailureClass::Timeout, now),
            CompletionOutcomeView::Panicked(message) => self.emit(
                SchedulerEventKindView::ExecutionPanicked {
                    job_id: execution.job_id,
                    version: execution.version,
                    run_id: execution.run_id,
                    attempt: execution.attempt,
                    message,
                },
                now,
            ).failed(execution, message, FailureClass::Panic, now),
            CompletionOutcomeView::Cancelled => self.emit(
                SchedulerEventKindView::ExecutionCancelled {
                    job_id: execution.job_id,
                    version: execution.version,
                    run_id: execution.run_id,
                },
                now,
            ),
        }
    }

    /// What the end of an execution leads to. One of an older version only gives back its slots.
    pub open spec fn completed(
        self,
        execution: ExecutionMetadata,
        elapsed: Span,
        outcome: CompletionOutcomeView,
        now: Timestamp,
    ) -> Self {
        let freed = self.released(execution, now);
        if freed.is_current(execution) {
            freed.concluded(execution, elapsed, outcome, now)
        } else {
            freed
        }
    }

    /// Whether the calendar has the instant of the retry that an end leads to, if it leads to one.
    pub open spec fn retry_representable(
        self,
        execution: ExecutionMetadata,
        outcome: CompletionOutcomeView,
        now: Timestamp,
    ) -> bool {
        self.is_current(execution) && failure_class(outcome) is Some && retry_after(
            self.job(execution.job_id),
            execution.attempt,
            failure_class(outcome)->0,
        ) is Some ==> representable(
            now.nanos + retry_after(
                self.job(execution.job_id),
                execution.attempt,
                failure_class(outcome)->0,
            )->0.nanos,
        )
    }
}

/// Text of a panic: that of its payload, or a fixed text for a payload that is no text.
pub fn panic_message(payload: Option<String>) -> (text: String)
    ensures
        text@ == (match payload {
            Some(text) => text@,
            None => "task panicked with a non-string payload"@,
        }),
{
    match payload {
        Some(text) => text,
        None => "task panicked with a non-string payload".to_owned(),
    }
}

/// Milliseconds of a duration, or `u64::MAX` where there are more.
pub fn duration_ms(duration: Span) -> (millis: u64)
    ensures
        millis == min_int(duration.nanos as int / NANOS_PER_MILLI as int, u64::MAX as int),
{
    duration.saturating_millis()
}

fn power_of_two(exponent: u32) -> (power: u128)
    requires
        exponent <= 31,
    ensures
        power == pow2(exponent as nat),
        power >= 1,
{
    let mut power: u128 = 1;
    let mut i: u32 = 0;
    proof {
        lemma2_to64();
    }
    while i < exponent
        invariant
            i <= exponent <= 31,
            power == pow2(i as nat),
            1 <= power,
        decreases exponent - i,
    {
        proof {
            lemma2_to64();
            lemma_pow2_unfold((i + 1) as nat);
            lemma_pow2_strictly_increases(i as nat, 32);
        }
        power = power * 2;
        i += 1;
    }
    power
}

impl SchedulerActor {
    /// Delay before the next attempt of a job's execution. `attempt` is the one that failed.
    pub fn retry_delay(&self, job_id: JobId, attempt: u32, class: FailureClass) -> (delay: Option<
        Span,
    >)
        ensures
            delay == (if self@.has_job(job_id) {
                retry_after(self@.job(job_id), attempt, class)
            } else {
                None
            }),
    {
        let i: usize = match self.find_job(job_id) {
            Some(i) => i,
            None => {
                return None;
            },
        };
        match self.jobs[i].retry {
            ExecutionRetryPolicy::NoRetry => None,
            ExecutionRetryPolicy::Exponential {
                max_attempts,
                initial_delay,
                max_delay,
                retry_on,
            } => {
                if attempt >= max_attempts {
                    return None;
                }
                let enabled = match class {
                    FailureClass::Transient => retry_on.transient_error,
                    FailureClass::Timeout => retry_on.timeout,
                    FailureClass::Panic => retry_on.panic,
                    FailureClass::Permanent => false,
                };
                if !enabled {
                    return None;
                }
                let exponent: u32 = if attempt == 0 {
                    0
                } else if attempt > 32 {
                    31
                } else {
                    attempt - 1
                };
                let factor: u128 = power_of_two(exponent);
                match initial_delay.nanos.checked_mul(factor) {
                    Some(nanos) => Some((Span { nanos }).min(max_delay)),
                    None => Some(max_delay),
                }
            },
        }
    }

    fn record_final_failure(&mut self, job_id: JobId, error: String, count: bool, now: Timestamp)
        ensures
            final(self)@ == old(self)@.finally_failed(job_id, error@, count, now),
            old(self)@.wf() ==> final(self)@.wf(),
    {
        let i: usize = match self.find_job(job_id) {
            Some(i) => i,
            None => {
                return ;
            },
        };
        let ghost job = self@.job(job_id);
        let failures: u32 = if count {
            self.jobs[i].consecutive_failures.saturating_add(1)
        } else {
            self.jobs[i].consecutive_failures
        };
        self.jobs[i].last_outcome = Some(error.clone());
        self.jobs[i].consecutive_failures = failures;
        let ghost recorded = JobView {
            last_outcome: Some(error@),
            consecutive_failures: failures,
            ..job
        };
        proof {
            assert(self@.jobs =~= old(self)@.jobs.update(i as int, recorded));
            lemma_with_job(old(self)@, job_id, recorded);
        }
        let disable = match self.jobs[i].failure.disable_after_consecutive_failures {
            Some(limit) => failures >= limit,
            None => false,
        };
        if disable {
            let _ = self.force_disable(job_id, error, now);
        } else if self.jobs[i].trigger.schedule.is_once() {
            self.jobs[i].state = JobState::Completed;
            self.jobs[i].updated_at = now;
            proof {
                assert(self@.jobs =~= old(self)@.jobs.update(
                    i as int,
                    JobView { state: JobStateView::Completed, updated_at: now, ..recorded },
                ));
            }
        }
    }

    fn handle_execution_failure(
        &mut self,
        execution: ExecutionMetadata,
        error: String,
        class: FailureClass,
        now: Timestamp,
    )
        requires
            old(self)@.is_current(execution),
            retry_after(old(self)@.job(execution.job_id), execution.attempt, class) matches Some(
                delay,
            ) ==> representable(now.nanos + delay.nanos),
        ensures
            final(self)@ == old(self)@.failed(execution, error@, class, now),
            old(self)@.wf() ==> final(self)@.wf(),
    {
        let ExecutionMetadata { job_id, version, run_id, attempt, scheduled_at } = execution;
        if class == FailureClass::Permanent {
            self.emit(
                SchedulerEventKind::ExecutionFailed {
                    job_id,
                    version,
                    run_id,
                    attempt,
                    error: error.clone(),
                    will_retry: false,
                },
                now,
            );
            let _ = self.force_disable(job_id, error, now);
            return ;
        }
        let retry = self.retry_delay(job_id, attempt, class);
        self.emit(
            SchedulerEventKind::ExecutionFailed {
                job_id,
                version,
                run_id,
                attempt,
                error: error.clone(),
                will_retry: retry.is_some(),
            },
            now,
        );
        match retry {
            Some(delay) => {
                if let Some(run_at) = now.checked_add(delay) {
                    self.schedule_retry(
                        job_id,
                        version,
                        run_id,
                        scheduled_at,
                        attempt + 1,
                        run_at,
                        now,
                    );
                }
            },
            None => {
                let mut count = true;
                if let Some(i) = self.find_job(job_id) {
                    count = match class {
                        FailureClass::Timeout => self.jobs[i].failure.count_timeout,
                        FailureClass::Panic => self.jobs[i].failure.count_panic,
                        _ => true,
                    };
                }
                self.record_final_failure(job_id, error, count, now);
            },
        }
    }

    fn record_success(
        &mut self,
        execution: ExecutionMetadata,
        elapsed: Span,
        delivered: bool,
        now: Timestamp,
    )
        requires
            old(self)@.has_job(execution.job_id),
        ensures
            final(self)@ == old(self)@.succeeded(execution, elapsed, delivered, now),
            old(self)@.wf() ==> final(self)@.wf(),
    {
        if let Some(i) = self.find_job(execution.job_id) {
            let ghost job = self@.job(execution.job_id);
            self.jobs[i].consecutive_failures = 0;
            self.jobs[i].last_outcome = Some("success".to_owned());
            if self.jobs[i].trigger.schedule.is_once() {
                self.jobs[i].state = JobState::Completed;
            }
            proof {
                assert(self@.jobs =~= old(self)@.jobs.update(
                    i as int,
                    JobView {
                        consecutive_failures: 0,
                        last_outcome: Some("success"@),
                        state: if job.trigger.schedule is Once {
                            JobStateView::Completed
                        } else {
                            job.state
                        },
                        ..job
                    },
                ));
            }
        }
        self.emit(
            SchedulerEventKind::ExecutionSucceeded {
                job_id: execution.job_id,
                version: execution.version,
                run_id: execution.run_id,
                attempt: execution.attempt,
                duration_ms: duration_ms(elapsed),
            },
            now,
        );
        if delivered {
            self.emit(
                SchedulerEventKind::OutputDelivered {
                    job_id: execution.job_id,
                    version: execution.version,
                    run_id: execution.run_id,
                },
                now,
            );
        }
    }

    fn release(&mut self, execution: ExecutionMetadata, now: Timestamp)
        ensures
            final(self)@ == old(self)@.released(execution, now),
            old(self)@.wf() ==> final(self)@.wf(),
    {
        self.remove_running(execution.run_id);
        self.total_running = self.total_running.saturating_sub(1);
        if let Some(i) = self.find_job(execution.job_id) {
            let ghost job = self@.job(execution.job_id);
            self.jobs[i].running_count = self.jobs[i].running_count.saturating_sub(1);
            self.jobs[i].last_finished_at = Some(now);
            proof {
                assert(self@.jobs =~= old(self)@.jobs.update(
                    i as int,
                    JobView {
                        running_count: max_int(job.running_count - 1, 0) as usize,
                        last_finished_at: Some(now),
                        ..job
                    },
                ));
            }
        }
    }

    /// Whether the calendar has the instant of the retry that an end leads to, if it leads to one.
    pub fn accepts_completion(&self, completion: &TaskCompletion, now: Timestamp) -> (accepts: bool)
        ensures
            accepts == self@.retry_representable(
                completion.metadata,
                completion.outcome@,
                now,
            ),
    {
        let i: usize = match self.find_job(completion.metadata.job_id) {
            Some(i) => i,
            None => {
                return true;
            },
        };
        if self.jobs[i].version != completion.metadata.version {
            return true;
        }
        let class = match &completion.outcome {
            CompletionOutcome::Finished(TaskRunResult::TaskTransient(_)) => FailureClass::Transient,
            CompletionOutcome::Finished(TaskRunResult::TaskPermanent(_)) => FailureClass::Permanent,
            CompletionOutcome::TimedOut => FailureClass::Timeout,
            CompletionOutcome::Panicked(_) => FailureClass::Panic,
            _ => {
                return true;
            },
        };
        match self.retry_delay(completion.metadata.job_id, completion.metadata.attempt, class) {
            Some(delay) => now.checked_add(delay).is_some(),
            None => true,
        }
    }

    /// Handles the end of an execution: gives back its slots and, where it belongs to the current
    /// version of its job, updates the job, tells of the end and plans a retry. One of an older
    /// version changes nothing else.
    pub fn handle_completion(&mut self, completion: TaskCompletion, now: Timestamp)
        requires
            old(self)@.retry_representable(completion.metadata, completion.outcome@, now),
        ensures
            final(self)@ == old(self)@.completed(
                completion.metadata,
                completion.elapsed,
                completion.outcome@,
                now,
            ),
            old(self)@.wf() ==> final(self)@.wf(),
    {
        let TaskCompletion { metadata, elapsed, outcome } = completion;
        let ExecutionMetadata { job_id, version, run_id, attempt, scheduled_at: _ } = metadata;
        self.release(metadata, now);
        let ghost freed = self@;
        proof {
            lemma_released(old(self)@, metadata, now);
        }
        match self.find_job(job_id) {
            None => {
                return ;
            },
            Some(i) => {
                if self.jobs[i].version != version {
                    return ;
                }
            },
        }
        match outcome {
            CompletionOutcome::Finished(TaskRunResult::Completed) => {
                self.record_success(metadata, elapsed, false, now);
            },
            CompletionOutcome::Finished(TaskRunResult::OutputDelivered) => {
                self.record_success(metadata, elapsed, true, now);
            },
            CompletionOutcome::Finished(TaskRunResult::TaskTransient(error)) => {
                self.handle_execution_failure(metadata, error, FailureClass::Transient, now);
            },
            CompletionOutcome::Finished(TaskRunResult::TaskPermanent(error)) => {
                self.handle_execution_failure(metadata, error, FailureClass::Permanent, now);
            },
            CompletionOutcome::Finished(TaskRunResult::CallbackTransient(error)) => {
                self.emit(
                    SchedulerEventKind::CallbackFailed {
                        job_id,
                        version,
                        run_id,
                        error: error.clone(),
                    },
                    now,
                );
                self.record_final_failure(job_id, error, false, now);
            },
            CompletionOutcome::Finished(TaskRunResult::CallbackPermanent(error)) => {
                self.emit(
                    SchedulerEventKind::CallbackFailed {
                        job_id,
                        version,
                        run_id,
                        error: error.clone(),
                    },
                    now,
                );
                let _ = self.force_disable(job_id, error, now);
            },
            CompletionOutcome::Finished(TaskRunResult::ChannelClosed) => {
                self.emit(
                    SchedulerEventKind::OutputChannelClosed { job_id, version, run_id },
                    now,
                );
                self.cancel_job_version(job_id, version);
                let _ = self.delete_job(job_id, version, true, now);
            },
            CompletionOutcome::TimedOut => {
                self.emit(
                    SchedulerEventKind::ExecutionTimedOut { job_id, version, run_id, attempt },
                    now,
                );
                self.handle_execution_failure(
                    metadata,
                    "task execution timed out".to_owned(),
                    FailureClass::Timeout,
                    now,
                );
            },
            CompletionOutcome::Panicked(message) => {
                self.emit(
                    SchedulerEventKind::ExecutionPanicked {
                        job_id,
                        version,
                        run_id,
                        attempt,
                        message: message.clone(),
                    },
                    now,
                );
                self.handle_execution_failure(metadata, message, FailureClass::Panic, now);
            },
            CompletionOutcome::Cancelled => {
                self.emit(
                    SchedulerEventKind::ExecutionCancelled { job_id, version, run_id },
                    now,
                );
            },
        }
    }
}

/// Giving back slots keeps the job's version and configuration.
pub proof fn lemma_released(state: SchedulerState, execution: ExecutionMetadata, now: Timestamp)
    ensures
        state.released(execution, now).has_job(execution.job_id) == state.has_job(
            execution.job_id,
        ),
        state.has_job(execution.job_id) ==> state.released(execution, now).job(execution.job_id)
            == (JobView {
            running_count: max_int(state.job(execution.job_id).running_count - 1, 0) as usize,
            last_finished_at: Some(now),
            ..state.job(execution.job_id)
        }),
        state.released(execution, now).is_current(execution) == state.is_current(execution),
{
    if state.has_job(execution.job_id) {
        let job = state.job(execution.job_id);
        assert(job_position(state.jobs, execution.job_id, state.position(execution.job_id)));
        let next = JobView {
            running_count: max_int(job.running_count - 1, 0) as usize,
            last_finished_at: Some(now),
            ..job
        };
        let freed = SchedulerState {
            running: without_running(state.running, execution.run_id),
            total_running: max_int(state.total_running - 1, 0) as usize,
            ..state
        };
        lemma_with_job(freed, execution.job_id, next);
    } else {
        assert(!state.released(execution, now).has_job(execution.job_id));
    }
}

} // verus!
