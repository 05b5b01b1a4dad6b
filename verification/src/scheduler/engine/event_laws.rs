//! What the scheduler tells of, and the timers that it sets.

use super::super::config::{SchedulerConfigPatch, SchedulerStatus};
use super::super::event::SchedulerEventKindView;
use super::super::model::{JobId, JobOptions, JobPatch, RunId, TriggerCoalescing, TriggerView};
use super::super::queue::{count_of, oldest_trigger, PendingExecution, TimerEntry, TimerKind};
use super::super::task::{TaskBindingView, TaskRunResultView};
use super::super::time::{Span, Timestamp};
use super::completion::{lemma_released, retry_after, CompletionOutcomeView, ExecutionMetadata};
use super::execution_laws::{failure_text, has_room, oldest_period, retryable};
use super::job_laws::lemma_same_ids;
use super::scheduling::lemma_filter_subset;
use super::{
    disarms, lemma_with_job, retry_of, retry_of_other, retry_position, EffectView, JobView,
    RetryTimer, SchedulerState,
};
use vstd::prelude::*;

verus! {

/// Whether the effect at a position tells of something that happened now.
pub open spec fn tells(
    effects: Seq<EffectView>,
    i: int,
    kind: SchedulerEventKindView,
    now: Timestamp,
) -> bool {
    &&& 0 <= i < effects.len()
    &&& effects[i] matches EffectView::Emit(event) && event.kind == kind && event.emitted_at == now
}

/// A planned period has a timer of its own under a number that was not used before, in the place
/// of the one that the job had. It is told when the job runs next.
pub proof fn law_planned_period_has_one_timer(
    state: SchedulerState,
    job_id: JobId,
    run_at: Timestamp,
    kind: TimerKind,
    now: Timestamp,
)
    requires
        state.has_job(job_id),
    ensures
        ({
            let job = state.job(job_id);
            let next = state.schedule_normal(job_id, run_at, kind, now);
            let n = next.effects.len() as int;
            &&& next.has_job(job_id)
            &&& next.job(job_id).next_run_at == Some(run_at)
            &&& next.job(job_id).normal_timer_key == Some(state.next_timer_key)
            &&& n >= state.effects.len() + 2
            &&& next.effects[n - 2] == (EffectView::ArmTimer {
                key: state.next_timer_key,
                entry: TimerEntry { job_id, version: job.version, run_at, kind },
            })
            &&& tells(
                next.effects,
                n - 1,
                SchedulerEventKindView::TriggerScheduled { job_id, version: job.version, run_at },
                now,
            )
            &&& job.normal_timer_key matches Some(key) ==> n == state.effects.len() + 3
                && next.effects[n - 3] == (EffectView::DisarmTimer { key })
            &&& job.normal_timer_key is None ==> n == state.effects.len() + 2
            &&& state.next_timer_key < u64::MAX ==> next.next_timer_key == state.next_timer_key + 1
            &&& next.ready == state.ready
        }),
{
    let job = state.job(job_id);
    let planned = JobView {
        normal_timer_key: Some(state.next_timer_key),
        next_run_at: Some(run_at),
        ..job
    };
    lemma_with_job(state, job_id, job);
    lemma_with_job(state, job_id, planned);
    lemma_same_ids(
        state.with_job(job_id, planned),
        state.schedule_normal(job_id, run_at, kind, now),
        job_id,
    );
}

/// What became of an execution that asked for room is told: that it waits and how many of its job
/// do, that it was skipped, or that it is held back.
pub proof fn law_admission_is_told(
    state: SchedulerState,
    pending: PendingExecution,
    force_backpressure: bool,
    now: Timestamp,
)
    requires
        state.has_job(pending.job_id),
        state.job(pending.job_id).coalescing == TriggerCoalescing::KeepAll,
    ensures
        ({
            let (next, admission) = state.admitted(pending, force_backpressure, now);
            let last = next.effects.len() - 1;
            &&& admission is Accepted ==> tells(
                next.effects,
                last,
                SchedulerEventKindView::ExecutionQueued {
                    job_id: pending.job_id,
                    version: pending.version,
                    run_id: pending.run_id,
                    pending_count: count_of(next.ready, pending.job_id) as int,
                },
                now,
            )
            &&& admission is Skipped ==> tells(
                next.effects,
                last,
                SchedulerEventKindView::TriggerSkipped {
                    job_id: pending.job_id,
                    version: pending.version,
                    scheduled_at: pending.scheduled_at,
                    reason: "pending capacity reached"@,
                },
                now,
            ) && last == state.effects.len()
            &&& admission is Blocked ==> tells(
                next.effects,
                last,
                SchedulerEventKindView::BackpressureApplied {
                    job_id: pending.job_id,
                    version: pending.version,
                },
                now,
            ) && last == state.effects.len()
            &&& admission is Accepted && has_room(state, state.job(pending.job_id)) ==> last
                == state.effects.len()
            &&& admission is Accepted && !has_room(state, state.job(pending.job_id)) ==> exists|
                i: int,
            | #[trigger]
                oldest_period(state.ready, pending.job_id, i) && tells(
                    next.effects,
                    last - 1,
                    SchedulerEventKindView::PendingReplaced {
                        job_id: pending.job_id,
                        removed_run_id: state.ready[i].run_id,
                        replacement_run_id: pending.run_id,
                    },
                    now,
                )
        }),
{
    let job_id = pending.job_id;
    lemma_with_job(state, job_id, state.job(job_id));
    let (next, admission) = state.admitted(pending, force_backpressure, now);
    if admission is Accepted && !has_room(state, state.job(job_id)) {
        let i = choose|i: int| oldest_trigger(state.ready, job_id, i);
        assert(oldest_period(state.ready, job_id, i));
    }
}

/// The end of an execution of the current version is told first of all: a success with its
/// duration, a timeout, a panic, a cancellation, or a failure to hand the output on.
pub proof fn law_ends_are_told(
    state: SchedulerState,
    execution: ExecutionMetadata,
    elapsed: Span,
    outcome: CompletionOutcomeView,
    now: Timestamp,
)
    requires
        state.has_job(execution.job_id),
        state.job(execution.job_id).version == execution.version,
    ensures
        ({
            let next = state.completed(execution, elapsed, outcome, now);
            let n = state.effects.len() as int;
            let job_id = execution.job_id;
            let version = execution.version;
            let run_id = execution.run_id;
            let attempt = execution.attempt;
            match outcome {
                CompletionOutcomeView::Finished(TaskRunResultView::Completed)
                | CompletionOutcomeView::Finished(TaskRunResultView::OutputDelivered) => {
                    &&& n < next.effects.len()
                    &&& next.effects[n] matches EffectView::Emit(event) && event.kind matches
                        SchedulerEventKindView::ExecutionSucceeded {
                        job_id: job,
                        version: of,
                        run_id: run,
                        attempt: at,
                        duration_ms,
                    } && job == job_id && of == version && run == run_id && at == attempt
                        && duration_ms * 1_000_000 <= elapsed.nanos && (duration_ms < u64::MAX
                        ==> elapsed.nanos < (duration_ms + 1) * 1_000_000)
                    &&& outcome->Finished_0 is OutputDelivered ==> next.effects.len() == n + 2
                        && tells(
                        next.effects,
                        n + 1,
                        SchedulerEventKindView::OutputDelivered { job_id, version, run_id },
                        now,
                    )
                    &&& outcome->Finished_0 is Completed ==> next.effects.len() == n + 1
                },
                CompletionOutcomeView::Finished(TaskRunResultView::ChannelClosed) => tells(
                    next.effects,
                    n,
                    SchedulerEventKindView::OutputChannelClosed { job_id, version, run_id },
                    now,
                ),
                CompletionOutcomeView::Finished(TaskRunResultView::CallbackTransient(error))
                | CompletionOutcomeView::Finished(
                    TaskRunResultView::CallbackPermanent(error),
                ) => tells(
                    next.effects,
                    n,
                    SchedulerEventKindView::CallbackFailed { job_id, version, run_id, error },
                    now,
                ),
                CompletionOutcomeView::TimedOut => tells(
                    next.effects,
                    n,
                    SchedulerEventKindView::ExecutionTimedOut { job_id, version, run_id, attempt },
                    now,
                ),
                CompletionOutcomeView::Panicked(message) => tells(
                    next.effects,
                    n,
                    SchedulerEventKindView::ExecutionPanicked {
                        job_id,
                        version,
                        run_id,
                        attempt,
                        message,
                    },
                    now,
                ),
                CompletionOutcomeView::Cancelled => next.effects.len() == n + 1 && tells(
                    next.effects,
                    n,
                    SchedulerEventKindView::ExecutionCancelled { job_id, version, run_id },
                    now,
                ),
                CompletionOutcomeView::Finished(TaskRunResultView::TaskTransient(_))
                | CompletionOutcomeView::Finished(TaskRunResultView::TaskPermanent(_)) => true,
            }
        }),
{
    lemma_released(state, execution, now);
}

/// A failure of the task is told with its text and with whether there is a further attempt; a
/// timeout and a panic are told as such before.
pub proof fn law_failures_are_told(
    state: SchedulerState,
    execution: ExecutionMetadata,
    elapsed: Span,
    outcome: CompletionOutcomeView,
    now: Timestamp,
)
    requires
        state.has_job(execution.job_id),
        state.job(execution.job_id).version == execution.version,
        retryable(outcome) is Some || (outcome matches CompletionOutcomeView::Finished(
            TaskRunResultView::TaskPermanent(_),
        )),
    ensures
        ({
            let next = state.completed(execution, elapsed, outcome, now);
            let n = state.effects.len() as int;
            tells(
                next.effects,
                if outcome is Finished {
                    n
                } else {
                    n + 1
                },
                SchedulerEventKindView::ExecutionFailed {
                    job_id: execution.job_id,
                    version: execution.version,
                    run_id: execution.run_id,
                    attempt: execution.attempt,
                    error: failure_text(outcome),
                    will_retry: retryable(outcome) is Some && retry_after(
                        state.job(execution.job_id),
                        execution.attempt,
                        retryable(outcome)->0,
                    ) is Some,
                },
                now,
            )
        }),
{
    lemma_released(state, execution, now);
    let freed = state.released(execution, now);
    if retryable(outcome) is Some {
        assert(retry_after(
            freed.job(execution.job_id),
            execution.attempt,
            retryable(outcome)->0,
        ) == retry_after(state.job(execution.job_id), execution.attempt, retryable(outcome)->0));
    }
}

/// Every start is told, with the attempt and the instant that it was planned for.
pub proof fn law_starts_are_told(state: SchedulerState, pending: PendingExecution, now: Timestamp)
    requires
        state.has_job(pending.job_id),
        state.job(pending.job_id).version == pending.version,
    ensures
        tells(
            state.started(pending, now).effects,
            state.effects.len() as int,
            SchedulerEventKindView::ExecutionStarted {
                job_id: pending.job_id,
                version: pending.version,
                run_id: pending.run_id,
                attempt: pending.attempt,
                scheduled_at: pending.scheduled_at,
            },
            now,
        ),
{
}

/// Every change of a job ends with telling of it, with the version that the job then has.
pub proof fn law_changes_are_told(
    state: SchedulerState,
    job_id: JobId,
    version: u64,
    enabled: bool,
    trigger: TriggerView,
    task: TaskBindingView,
    options: JobOptions,
    reason: Seq<char>,
    cancel: bool,
    now: Timestamp,
)
    ensures
        ({
            let added = state.added(job_id, version, enabled, trigger, task, options, now);
            &&& tells(
                added.effects,
                added.effects.len() - 1,
                SchedulerEventKindView::JobAdded { job_id, version },
                now,
            )
        }),
        ({
            let gone = state.deleted(job_id, version, cancel, now);
            &&& tells(
                gone.effects,
                gone.effects.len() - 1,
                SchedulerEventKindView::JobDeleted { job_id, version },
                now,
            )
        }),
        state.has_job(job_id) && state.job(job_id).version < u64::MAX ==> {
            let off = state.disabled(job_id, reason, now);
            let on = state.enabled(job_id, now);
            let later = (state.job(job_id).version + 1) as u64;
            &&& tells(
                off.effects,
                off.effects.len() - 1,
                SchedulerEventKindView::JobDisabled { job_id, version: later, reason },
                now,
            )
            &&& tells(
                on.effects,
                on.effects.len() - 1,
                SchedulerEventKindView::JobEnabled { job_id, version: later },
                now,
            )
        },
{
}

/// An update that was planned ends with telling of the job's next version.
pub proof fn law_updates_are_told(
    state: SchedulerState,
    job_id: JobId,
    expected: u64,
    patch: JobPatch,
    now: Timestamp,
)
    requires
        state.planned_update(job_id, expected, patch, now) is Ok,
    ensures
        ({
            let plan = state.planned_update(job_id, expected, patch, now)->Ok_0;
            let next = state.updated(job_id, expected, patch, plan, now);
            &&& state.job(job_id).version < u64::MAX
            &&& tells(
                next.effects,
                next.effects.len() - 1,
                SchedulerEventKindView::JobUpdated {
                    job_id,
                    version: (state.job(job_id).version + 1) as u64,
                },
                now,
            )
        }),
{
}

/// New limits are told with their revision, and both steps of a shutdown are told, each after the
/// status changed.
pub proof fn law_the_scheduler_tells_of_itself(
    state: SchedulerState,
    patch: SchedulerConfigPatch,
    now: Timestamp,
)
    ensures
        state.config_revision < u64::MAX ==> {
            let next = state.reconfigured(patch, now);
            tells(
                next.effects,
                next.effects.len() - 1,
                SchedulerEventKindView::SchedulerConfigUpdated {
                    revision: (state.config_revision + 1) as u64,
                },
                now,
            )
        },
        ({
            let next = state.stopping(now);
            let n = state.effects.len() as int;
            &&& next.effects.len() > n + 2
            &&& next.effects[n] == EffectView::SetStatus(SchedulerStatus::Stopping)
            &&& tells(next.effects, n + 1, SchedulerEventKindView::SchedulerStopping, now)
            &&& next.effects[n + 2] is ClearTimers
        }),
        ({
            let next = state.stopped(now);
            let n = state.effects.len() as int;
            &&& next.effects.len() == n + 2
            &&& next.effects[n] == EffectView::SetStatus(SchedulerStatus::Stopped)
            &&& tells(next.effects, n + 1, SchedulerEventKindView::SchedulerStopped, now)
            &&& next.total_running == 0 && next.running.len() == 0
        }),
{
}

/// When the retries of a job are dropped, the timer of each of them goes, and those of other jobs
/// stay.
pub proof fn law_dropped_retries_lose_their_timers(
    state: SchedulerState,
    job_id: JobId,
    timer: RetryTimer,
)
    requires
        state.retry_timers.contains(timer),
    ensures
        ({
            let next = state.clear_retries(job_id);
            &&& timer.job_id == job_id ==> next.effects.contains(
                EffectView::DisarmTimer { key: timer.key },
            )
            &&& timer.job_id != job_id ==> next.retry_timers.contains(timer)
            &&& forall|i: int|
                0 <= i < next.retry_timers.len() ==> (#[trigger] next.retry_timers[i]).job_id
                    != job_id
            &&& next.jobs == state.jobs && next.ready == state.ready
        }),
{
    if timer.job_id == job_id {
        lemma_kept(state.retry_timers, retry_of(job_id), timer);
    } else {
        lemma_kept(state.retry_timers, retry_of_other(job_id), timer);
    }
    lemma_filter_subset(state.retry_timers, retry_of_other(job_id));
    let dropped = state.retry_timers.filter(retry_of(job_id));
    let next = state.clear_retries(job_id);
    if timer.job_id == job_id {
        let i = dropped.index_of(timer);
        assert(disarms(dropped)[i] == (EffectView::DisarmTimer { key: timer.key }));
        assert(next.effects[state.effects.len() + i] == disarms(dropped)[i]);
    }
}

/// What a filter keeps is among what it gives.
pub proof fn lemma_kept<T>(items: Seq<T>, keep: spec_fn(T) -> bool, item: T)
    requires
        items.contains(item),
        keep(item),
    ensures
        items.filter(keep).contains(item),
    decreases items.len(),
{
    reveal(Seq::filter);
    let rest = items.drop_last();
    let i = items.index_of(item);
    if i < rest.len() {
        assert(rest[i] == item);
        lemma_kept(rest, keep, item);
        let k = rest.filter(keep).index_of(item);
        assert(items.filter(keep)[k] == item);
    } else {
        assert(items.filter(keep).last() == item);
    }
}

/// An execution has one retry at most: a new one takes the place of the old one, whose timer goes.
/// The new one is told with its attempt and its instant.
pub proof fn law_a_retry_replaces_the_one_before(
    state: SchedulerState,
    job_id: JobId,
    version: u64,
    run_id: RunId,
    scheduled_at: Timestamp,
    attempt: u32,
    run_at: Timestamp,
    now: Timestamp,
    i: int,
)
    requires
        0 <= i < state.retry_timers.len(),
        state.retry_timers[i].run_id == run_id,
        forall|k: int| 0 <= k < i ==> (#[trigger] state.retry_timers[k]).run_id != run_id,
    ensures
        ({
            let next = state.schedule_retry(
                job_id,
                version,
                run_id,
                scheduled_at,
                attempt,
                run_at,
                now,
            );
            let n = state.effects.len() as int;
            &&& next.retry_timers.len() == state.retry_timers.len()
            &&& next.retry_timers.last() == (RetryTimer {
                run_id,
                job_id,
                key: state.next_timer_key,
                run_at,
            })
            &&& next.effects.len() == n + 3
            &&& next.effects[n] == (EffectView::DisarmTimer { key: state.retry_timers[i].key })
            &&& next.effects[n + 1] == (EffectView::ArmTimer {
                key: state.next_timer_key,
                entry: TimerEntry {
                    job_id,
                    version,
                    run_at,
                    kind: TimerKind::Retry { run_id, scheduled_at, attempt },
                },
            })
            &&& tells(
                next.effects,
                n + 2,
                SchedulerEventKindView::RetryScheduled { job_id, version, run_id, attempt, run_at },
                now,
            )
        }),
{
    assert(retry_position(state.retry_timers, run_id, i));
    let k = choose|k: int| retry_position(state.retry_timers, run_id, k);
    assert(retry_position(state.retry_timers, run_id, k));
    if k < i {
        assert(state.retry_timers[k].run_id != run_id);
    } else if i < k {
        assert(state.retry_timers[i].run_id != run_id);
    }
}

} // verus!
