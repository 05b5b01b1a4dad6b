//! What holds of an execution from its trigger to its end: admission, start, retries and results.

use super::super::model::{
    CapacityPolicy, ExecutionRetryPolicy, JobId, JobStateView, RetryCondition, RunId,
    TriggerCoalescing,
};
use super::super::queue::{
    count_of, first_allowed, goes_before, oldest_trigger, PendingExecution, PendingKind, TimerEntry,
    TimerKind,
};
use super::super::task::TaskRunResultView;
use super::super::time::{Span, Timestamp};
use super::super::timing::due;
use super::completion::{
    doublings, lemma_released, more_failures, retry_after, CompletionOutcomeView, ExecutionMetadata,
    FailureClass,
};
use super::job_laws::lemma_same_ids;
use super::laws::law_deleted_job_is_gone;
use super::scheduling::planned_execution;
use super::{
    lemma_with_job, running_position, unique_jobs, EffectView, JobView, RunningExecution,
    SchedulerState,
};
use vstd::arithmetic::power2::{lemma2_to64, lemma_pow2_unfold, pow2};
use vstd::prelude::*;

verus! {

/// Whether the conditions of a retry policy name a kind of failure.
pub open spec fn names_failure(condition: RetryCondition, class: FailureClass) -> bool {
    match class {
        FailureClass::Transient => condition.transient_error,
        FailureClass::Timeout => condition.timeout,
        FailureClass::Panic => condition.panic,
        FailureClass::Permanent => false,
    }
}

/// There is a further attempt exactly where the policy retries, attempts are left, and the policy
/// names the kind of failure: transient errors, timeouts and panics each by its own switch, and
/// permanent errors never.
pub proof fn law_policy_decides_about_retries(job: JobView, attempt: u32, class: FailureClass)
    ensures
        match job.retry {
            ExecutionRetryPolicy::NoRetry => retry_after(job, attempt, class) is None,
            ExecutionRetryPolicy::Exponential { max_attempts, retry_on, .. } => {
                &&& class == FailureClass::Transient ==> (retry_after(job, attempt, class) is Some
                    <==> attempt < max_attempts && retry_on.transient_error)
                &&& class == FailureClass::Timeout ==> (retry_after(job, attempt, class) is Some
                    <==> attempt < max_attempts && retry_on.timeout)
                &&& class == FailureClass::Panic ==> (retry_after(job, attempt, class) is Some
                    <==> attempt < max_attempts && retry_on.panic)
                &&& class == FailureClass::Permanent ==> retry_after(job, attempt, class) is None
            },
        },
{
}

/// The first retry waits for the first delay; every further one waits twice as long as the one
/// before, up to the longest delay. From the thirty-second attempt on the delay stays.
pub proof fn law_retry_delay_doubles(job: JobView, attempt: u32, class: FailureClass)
    requires
        retry_after(job, attempt, class) is Some,
    ensures
        ({
            let delay = retry_after(job, attempt, class)->0.nanos;
            let initial = job.retry->initial_delay.nanos;
            let longest = job.retry->max_delay.nanos;
            &&& attempt <= 1 ==> delay == (if initial <= longest {
                initial
            } else {
                longest
            })
            &&& attempt >= 1 && attempt < 32 && retry_after(job, (attempt + 1) as u32, class)
                is Some ==> retry_after(job, (attempt + 1) as u32, class)->0.nanos == (if 2 * delay
                <= longest {
                2 * delay
            } else {
                longest as int
            })
            &&& attempt >= 32 && attempt < u32::MAX && retry_after(
                job,
                (attempt + 1) as u32,
                class,
            ) is Some ==> retry_after(job, (attempt + 1) as u32, class)->0.nanos == delay
        }),
{
    let initial = job.retry->initial_delay.nanos as int;
    lemma2_to64();
    if 1 <= attempt < 32 {
        let a = doublings(attempt);
        let b = doublings((attempt + 1) as u32);
        assert(b == a + 1);
        lemma_pow2_unfold(b);
        assert(initial * pow2(b) == 2 * (initial * pow2(a))) by (nonlinear_arith)
            requires
                pow2(b) == 2 * pow2(a),
        ;
        assert(initial * pow2(a) >= 0) by (nonlinear_arith)
            requires
                initial >= 0,
                pow2(a) >= 0,
        ;
    }
    assert(initial * 1 == initial);
}

/// Kind of failure of an end, where a policy may retry it.
pub open spec fn retryable(outcome: CompletionOutcomeView) -> Option<FailureClass> {
    match outcome {
        CompletionOutcomeView::Finished(TaskRunResultView::TaskTransient(_)) => Some(
            FailureClass::Transient,
        ),
        CompletionOutcomeView::TimedOut => Some(FailureClass::Timeout),
        CompletionOutcomeView::Panicked(_) => Some(FailureClass::Panic),
        _ => None,
    }
}

/// Text that an end leaves behind, where it is a failure.
pub open spec fn failure_text(outcome: CompletionOutcomeView) -> Seq<char> {
    match outcome {
        CompletionOutcomeView::Finished(TaskRunResultView::TaskTransient(error)) => error,
        CompletionOutcomeView::Finished(TaskRunResultView::TaskPermanent(error)) => error,
        CompletionOutcomeView::Finished(TaskRunResultView::CallbackTransient(error)) => error,
        CompletionOutcomeView::Finished(TaskRunResultView::CallbackPermanent(error)) => error,
        CompletionOutcomeView::TimedOut => "task execution timed out"@,
        CompletionOutcomeView::Panicked(message) => message,
        _ => Seq::empty(),
    }
}

/// The entry of a job once an execution of it has given back its slot.
pub open spec fn slot_given_back(job: JobView, now: Timestamp) -> JobView {
    JobView {
        running_count: if job.running_count > 0 {
            (job.running_count - 1) as usize
        } else {
            0
        },
        last_finished_at: Some(now),
        ..job
    }
}

/// A failed execution of the current version whose policy names the failure and has attempts left
/// is tried again: a timer is set for the next attempt of the same execution, after the policy's
/// delay, and the job is otherwise left as it is.
pub proof fn law_covered_failure_is_retried(
    state: SchedulerState,
    execution: ExecutionMetadata,
    elapsed: Span,
    outcome: CompletionOutcomeView,
    now: Timestamp,
)
    requires
        state.has_job(execution.job_id),
        state.job(execution.job_id).version == execution.version,
        retryable(outcome) is Some,
        state.job(execution.job_id).retry is Exponential,
        execution.attempt < state.job(execution.job_id).retry->max_attempts,
        names_failure(state.job(execution.job_id).retry->retry_on, retryable(outcome)->0),
        now.nanos + state.job(execution.job_id).retry->max_delay.nanos <= i128::MAX,
    ensures
        ({
            let job = state.job(execution.job_id);
            let next = state.completed(execution, elapsed, outcome, now);
            let delay = retry_after(job, execution.attempt, retryable(outcome)->0);
            &&& delay is Some
            &&& next.has_job(execution.job_id)
            &&& next.job(execution.job_id) == slot_given_back(job, now)
            &&& next.retry_timers.len() > 0
            &&& next.retry_timers.last().run_id == execution.run_id
            &&& next.retry_timers.last().job_id == execution.job_id
            &&& next.retry_timers.last().run_at.nanos == now.nanos + delay->0.nanos
            &&& next.effects.contains(
                EffectView::ArmTimer {
                    key: next.retry_timers.last().key,
                    entry: TimerEntry {
                        job_id: execution.job_id,
                        version: execution.version,
                        run_at: next.retry_timers.last().run_at,
                        kind: TimerKind::Retry {
                            run_id: execution.run_id,
                            scheduled_at: execution.scheduled_at,
                            attempt: (execution.attempt + 1) as u32,
                        },
                    },
                },
            )
            &&& next.ready == state.ready
        }),
{
    let job = state.job(execution.job_id);
    let class = retryable(outcome)->0;
    law_policy_decides_about_retries(job, execution.attempt, class);
    lemma_released(state, execution, now);
    let freed = state.released(execution, now);
    let next = state.completed(execution, elapsed, outcome, now);
    assert(retry_after(freed.job(execution.job_id), execution.attempt, class) == retry_after(
        job,
        execution.attempt,
        class,
    ));
    assert(next.jobs == freed.jobs);
    lemma_same_ids(freed, next, execution.job_id);
    let armed = (next.effects.len() - 2) as int;
    assert(next.effects[armed] is ArmTimer);
}

/// Whether a final failure counts towards the failure guard: timeouts and panics where the job
/// says so, failures to hand the output on never, every other failure always.
pub open spec fn counts_as_failure(job: JobView, outcome: CompletionOutcomeView) -> bool {
    match outcome {
        CompletionOutcomeView::TimedOut => job.failure.count_timeout,
        CompletionOutcomeView::Panicked(_) => job.failure.count_panic,
        CompletionOutcomeView::Finished(TaskRunResultView::CallbackTransient(_)) => false,
        _ => true,
    }
}

/// A failure that is not tried again is recorded: it counts as the job says, the failure guard
/// disables the job where its limit is reached, and a one-shot job is done otherwise. A recurring
/// job goes on. No retry is planned.
pub proof fn law_final_failure_is_recorded(
    state: SchedulerState,
    execution: ExecutionMetadata,
    elapsed: Span,
    outcome: CompletionOutcomeView,
    now: Timestamp,
)
    requires
        state.has_job(execution.job_id),
        state.job(execution.job_id).version == execution.version,
        execution.version < u64::MAX,
        state.job(execution.job_id).consecutive_failures < u32::MAX,
        (outcome matches CompletionOutcomeView::Finished(TaskRunResultView::CallbackTransient(_)))
            || (retryable(outcome) is Some && (match state.job(execution.job_id).retry {
            ExecutionRetryPolicy::NoRetry => true,
            ExecutionRetryPolicy::Exponential { max_attempts, retry_on, .. } => execution.attempt
                >= max_attempts || !names_failure(retry_on, retryable(outcome)->0),
        })),
    ensures
        ({
            let job = state.job(execution.job_id);
            let next = state.completed(execution, elapsed, outcome, now);
            let after = next.job(execution.job_id);
            let failures = if counts_as_failure(job, outcome) {
                job.consecutive_failures + 1
            } else {
                job.consecutive_failures as int
            };
            let guard = job.failure.disable_after_consecutive_failures;
            &&& next.has_job(execution.job_id)
            &&& after.last_outcome == Some(failure_text(outcome))
            &&& after.consecutive_failures == failures
            &&& guard is Some && failures >= guard->0 ==> after.state == (JobStateView::Disabled {
                reason: failure_text(outcome),
            }) && after.version == job.version + 1 && after.next_run_at is None
            &&& !(guard is Some && failures >= guard->0) ==> {
                &&& after.version == job.version
                &&& job.trigger.schedule is Once ==> after.state is Completed
                &&& !(job.trigger.schedule is Once) ==> after.state == job.state
                &&& after.next_run_at == job.next_run_at
                &&& next.retry_timers == state.retry_timers
                &&& next.ready == state.ready
            }
            &&& next.retry_timers.len() <= state.retry_timers.len()
        }),
{
    let job_id = execution.job_id;
    let job = state.job(job_id);
    if retryable(outcome) is Some {
        law_policy_decides_about_retries(job, execution.attempt, retryable(outcome)->0);
    }
    lemma_released(state, execution, now);
    let freed = state.released(execution, now);
    let next = state.completed(execution, elapsed, outcome, now);
    let given = freed.job(job_id);
    let count = counts_as_failure(job, outcome);
    let text = failure_text(outcome);
    let failures = more_failures(given, count);
    let recorded = JobView { last_outcome: Some(text), consecutive_failures: failures, ..given };
    lemma_with_job(freed, job_id, given);
    assert(given.id == job_id);
    assert(forall|k: int|
        0 <= k < freed.jobs.len() ==> (#[trigger] next.jobs[k]).id == freed.jobs[k].id) by {
        assert(freed.jobs[freed.position(job_id)].id == job_id);
    }
    lemma_same_ids(freed, next, job_id);
    lemma_filter_at_most(state.retry_timers, super::retry_of_other(job_id));
}

proof fn lemma_filter_at_most<T>(items: Seq<T>, keep: spec_fn(T) -> bool)
    ensures
        items.filter(keep).len() <= items.len(),
    decreases items.len(),
{
    reveal(Seq::filter);
    if items.len() > 0 {
        lemma_filter_at_most(items.drop_last(), keep);
    }
}

/// A success ends the run of failures, completes a one-shot job, and leaves a recurring one to its
/// next period; nothing is tried again.
pub proof fn law_success_is_recorded(
    state: SchedulerState,
    execution: ExecutionMetadata,
    elapsed: Span,
    outcome: CompletionOutcomeView,
    now: Timestamp,
)
    requires
        state.has_job(execution.job_id),
        state.job(execution.job_id).version == execution.version,
        outcome == CompletionOutcomeView::Finished(TaskRunResultView::Completed) || outcome
            == CompletionOutcomeView::Finished(TaskRunResultView::OutputDelivered),
    ensures
        ({
            let job = state.job(execution.job_id);
            let next = state.completed(execution, elapsed, outcome, now);
            let after = next.job(execution.job_id);
            &&& next.has_job(execution.job_id)
            &&& after == (JobView {
                consecutive_failures: 0,
                last_outcome: Some("success"@),
                state: if job.trigger.schedule is Once {
                    JobStateView::Completed
                } else {
                    job.state
                },
                ..slot_given_back(job, now)
            })
            &&& next.retry_timers == state.retry_timers
            &&& next.ready == state.ready
        }),
{
    lemma_released(state, execution, now);
    let freed = state.released(execution, now);
    let next = state.completed(execution, elapsed, outcome, now);
    lemma_with_job(freed, execution.job_id, freed.job(execution.job_id));
    lemma_same_ids(freed, next, execution.job_id);
}

/// A permanent failure of the task or of what takes its output disables the job for that reason,
/// whatever the retry policy.
pub proof fn law_permanent_failure_disables(
    state: SchedulerState,
    execution: ExecutionMetadata,
    elapsed: Span,
    outcome: CompletionOutcomeView,
    now: Timestamp,
)
    requires
        state.has_job(execution.job_id),
        state.job(execution.job_id).version == execution.version,
        execution.version < u64::MAX,
        (outcome matches CompletionOutcomeView::Finished(TaskRunResultView::TaskPermanent(_)))
            || (outcome matches CompletionOutcomeView::Finished(
            TaskRunResultView::CallbackPermanent(_),
        )),
    ensures
        ({
            let next = state.completed(execution, elapsed, outcome, now);
            let after = next.job(execution.job_id);
            &&& next.has_job(execution.job_id)
            &&& after.state == (JobStateView::Disabled { reason: failure_text(outcome) })
            &&& after.version == execution.version + 1
            &&& after.next_run_at is None
            &&& after.normal_timer_key is None
            &&& next.retry_timers.len() <= state.retry_timers.len()
        }),
{
    lemma_released(state, execution, now);
    let freed = state.released(execution, now);
    let next = state.completed(execution, elapsed, outcome, now);
    lemma_with_job(freed, execution.job_id, freed.job(execution.job_id));
    lemma_same_ids(freed, next, execution.job_id);
    lemma_filter_at_most(state.retry_timers, super::retry_of_other(execution.job_id));
}

/// A closed output channel removes the job. A cancelled execution leaves its job as it is, but for
/// the slot.
pub proof fn law_closed_channel_and_cancellation(
    state: SchedulerState,
    execution: ExecutionMetadata,
    elapsed: Span,
    now: Timestamp,
)
    requires
        state.has_job(execution.job_id),
        state.job(execution.job_id).version == execution.version,
        unique_jobs(state),
    ensures
        !state.completed(
            execution,
            elapsed,
            CompletionOutcomeView::Finished(TaskRunResultView::ChannelClosed),
            now,
        ).has_job(execution.job_id),
        ({
            let next = state.completed(execution, elapsed, CompletionOutcomeView::Cancelled, now);
            &&& next.has_job(execution.job_id)
            &&& next.job(execution.job_id) == slot_given_back(state.job(execution.job_id), now)
            &&& next.retry_timers == state.retry_timers
            &&& next.ready == state.ready
        }),
{
    lemma_released(state, execution, now);
    let freed = state.released(execution, now);
    let next = state.completed(execution, elapsed, CompletionOutcomeView::Cancelled, now);
    lemma_with_job(freed, execution.job_id, freed.job(execution.job_id));
    lemma_same_ids(freed, next, execution.job_id);
    lemma_with_job(state, execution.job_id, state.job(execution.job_id));
    assert(unique_jobs(freed)) by {
        assert forall|i: int, k: int| 0 <= i < k < freed.jobs.len() implies (
        #[trigger] freed.jobs[i]).id != (#[trigger] freed.jobs[k]).id by {
            assert(state.jobs[i].id != state.jobs[k].id);
        }
    }
    let told = freed.emit(
        super::super::event::SchedulerEventKindView::OutputChannelClosed {
            job_id: execution.job_id,
            version: execution.version,
            run_id: execution.run_id,
        },
        now,
    ).cancel_version(execution.job_id, execution.version);
    assert(told.jobs == freed.jobs);
    lemma_same_ids(freed, told, execution.job_id);
    law_deleted_job_is_gone(told, execution.job_id, execution.version, true, now);
}

/// Whatever its end, an execution gives back one slot of the scheduler and one of its job, and is
/// not among the running ones any more.
pub proof fn law_every_end_gives_back_the_slots(
    state: SchedulerState,
    execution: ExecutionMetadata,
    elapsed: Span,
    outcome: CompletionOutcomeView,
    now: Timestamp,
)
    requires
        state.total_running > 0,
        forall|i: int, k: int|
            0 <= i < k < state.running.len() ==> (#[trigger] state.running[i]).run_id != (
            #[trigger] state.running[k]).run_id,
    ensures
        ({
            let next = state.completed(execution, elapsed, outcome, now);
            &&& next.total_running == state.total_running - 1
            &&& forall|i: int|
                0 <= i < next.running.len() ==> (#[trigger] next.running[i]).run_id
                    != execution.run_id
            &&& forall|i: int|
                0 <= i < state.running.len() && (#[trigger] state.running[i]).run_id
                    != execution.run_id ==> next.running.contains(state.running[i])
        }),
{
    let next = state.completed(execution, elapsed, outcome, now);
    let run_id = execution.run_id;
    assert(next.running == state.released(execution, now).running);
    if exists|i: int| running_position(state.running, run_id, i) {
        let p = choose|i: int| running_position(state.running, run_id, i);
        assert(next.running == state.running.remove(p));
        assert forall|i: int| 0 <= i < next.running.len() implies (#[trigger] next.running[i]).run_id
            != run_id by {
            let x = if i < p {
                i
            } else {
                i + 1
            };
            if x < p {
                assert(state.running[x].run_id != state.running[p].run_id);
            } else {
                assert(state.running[p].run_id != state.running[x].run_id);
            }
        }
        assert forall|i: int|
            0 <= i < state.running.len() && (#[trigger] state.running[i]).run_id
                != run_id implies next.running.contains(state.running[i]) by {
            let x = if i < p {
                i
            } else {
                i - 1
            };
            assert(next.running[x] == state.running[i]);
        }
    } else {
        assert forall|i: int| 0 <= i < state.running.len() implies (
        #[trigger] state.running[i]).run_id != run_id by {
            lemma_no_position(state.running, run_id, i);
        }
        assert forall|i: int|
            0 <= i < state.running.len() && (#[trigger] state.running[i]).run_id
                != run_id implies next.running.contains(state.running[i]) by {
            assert(next.running[i] == state.running[i]);
        }
    }
}

proof fn lemma_no_position(running: Seq<RunningExecution>, run_id: RunId, k: int)
    requires
        0 <= k < running.len(),
        forall|i: int| !running_position(running, run_id, i),
    ensures
        running[k].run_id != run_id,
    decreases k,
{
    if running[k].run_id == run_id {
        if exists|j: int| 0 <= j < k && (#[trigger] running[j]).run_id == run_id {
            let j = choose|j: int| 0 <= j < k && (#[trigger] running[j]).run_id == run_id;
            lemma_no_position(running, run_id, j);
        } else {
            assert(running_position(running, run_id, k));
        }
    }
}

/// Room for another execution of a job in the ready queue.
pub open spec fn has_room(state: SchedulerState, job: JobView) -> bool {
    &&& state.ready.len() < state.config.global_max_pending
    &&& count_of(state.ready, job.id) < (match job.max_pending {
        Some(limit) => limit,
        None => state.config.default_job_max_pending,
    })
}

/// Where there is room an execution joins the end of the ready queue. Where there is none, a job
/// that keeps every trigger does what its capacity policy says: the new one is skipped, or takes
/// the place of the oldest waiting period of the job, or is held back.
pub proof fn law_admission_follows_the_capacity(
    state: SchedulerState,
    pending: PendingExecution,
    now: Timestamp,
)
    requires
        state.has_job(pending.job_id),
        state.job(pending.job_id).coalescing == TriggerCoalescing::KeepAll,
    ensures
        ({
            let job = state.job(pending.job_id);
            let (next, admission) = state.admitted(pending, false, now);
            &&& has_room(state, job) ==> admission is Accepted && next.ready == state.ready.push(
                pending,
            ) && next.jobs == state.jobs
            &&& !has_room(state, job) && pending.kind is Normal && job.capacity
                == CapacityPolicy::SkipNewest ==> admission is Skipped && next.ready == state.ready
                && next.jobs == state.jobs
            &&& !has_room(state, job) && (!(pending.kind is Normal) || job.capacity
                == CapacityPolicy::Backpressure) ==> admission is Blocked && next.ready
                == state.ready && next.has_job(pending.job_id) && next.job(pending.job_id)
                == (JobView { blocked: job.blocked.push(pending), ..job })
            &&& !has_room(state, job) && pending.kind is Normal && job.capacity
                == CapacityPolicy::ReplaceOldestTrigger ==> {
                ||| (forall|i: int|
                    0 <= i < state.ready.len() ==> !((#[trigger] state.ready[i]).job_id
                        == pending.job_id && state.ready[i].kind is Normal)) && admission is Blocked
                    && next.ready == state.ready
                ||| admission is Accepted && exists|i: int| #[trigger]
                    oldest_period(state.ready, pending.job_id, i) && next.ready
                        == state.ready.remove(i).push(pending)
            }
        }),
{
    let job = state.job(pending.job_id);
    lemma_with_job(state, pending.job_id, job);
    let held = JobView { blocked: job.blocked.push(pending), ..job };
    lemma_with_job(state, pending.job_id, held);
    let (next, admission) = state.admitted(pending, false, now);
    if admission is Blocked {
        lemma_same_ids(state.with_job(pending.job_id, held), next, pending.job_id);
    }
    if !has_room(state, job) && pending.kind is Normal && job.capacity
        == CapacityPolicy::ReplaceOldestTrigger {
        if exists|i: int| oldest_trigger(state.ready, pending.job_id, i) {
            let i = choose|i: int|
                oldest_trigger(state.ready, pending.job_id, i);
            assert(oldest_period(state.ready, pending.job_id, i));
        } else {
            assert forall|i: int| 0 <= i < state.ready.len() implies !((
            #[trigger] state.ready[i]).job_id == pending.job_id && state.ready[i].kind is Normal) by {
                lemma_no_period(state.ready, pending.job_id, i);
            }
        }
    }
}

/// Whether the execution at a position is the oldest waiting period of a job.
pub open spec fn oldest_period(items: Seq<PendingExecution>, job_id: JobId, i: int) -> bool {
    &&& 0 <= i < items.len()
    &&& items[i].job_id == job_id
    &&& items[i].kind is Normal
    &&& forall|k: int|
        0 <= k < i ==> !((#[trigger] items[k]).job_id == job_id && items[k].kind is Normal)
}

proof fn lemma_no_period(items: Seq<PendingExecution>, job_id: JobId, k: int)
    requires
        0 <= k < items.len(),
        forall|i: int| !oldest_trigger(items, job_id, i),
    ensures
        !(items[k].job_id == job_id && items[k].kind is Normal),
    decreases k,
{
    if items[k].job_id == job_id && items[k].kind is Normal {
        if exists|j: int|
            0 <= j < k && (#[trigger] items[j]).job_id == job_id && items[j].kind is Normal {
            let j = choose|j: int|
                0 <= j < k && (#[trigger] items[j]).job_id == job_id && items[j].kind is Normal;
            lemma_no_period(items, job_id, j);
        } else {
            assert(oldest_trigger(items, job_id, k));
        }
    }
}

/// A timer counts only for the enabled job of its own version: any other changes nothing.
pub proof fn law_stale_timers_do_nothing(
    state: SchedulerState,
    entry: TimerEntry,
    batch_id: u64,
    now: Timestamp,
    run_ids: Seq<RunId>,
)
    requires
        !state.has_job(entry.job_id) || state.job(entry.job_id).version != entry.version || !(
        state.job(entry.job_id).state is Enabled),
    ensures
        state.timer_handled(entry, batch_id, now, run_ids) == state,
{
}

/// A period that fires on time waits for a slot as its first attempt, under the identifier drawn
/// for it, and the next period is planned.
pub proof fn law_timely_period_waits_and_goes_on(
    state: SchedulerState,
    entry: TimerEntry,
    batch_id: u64,
    now: Timestamp,
    run_ids: Seq<RunId>,
    occurrence: Timestamp,
    coming: Option<Timestamp>,
)
    requires
        state.has_job(entry.job_id),
        state.job(entry.job_id).version == entry.version,
        state.job(entry.job_id).state is Enabled,
        state.job(entry.job_id).coalescing == TriggerCoalescing::KeepAll,
        entry.kind == TimerKind::Normal,
        has_room(state, state.job(entry.job_id)),
        ({
            let found = due(
                state.job(entry.job_id).trigger,
                entry.run_at,
                now,
                state.config.maximum_catch_up,
            );
            found is Ok && found->Ok_0.occurrences == seq![occurrence] && found->Ok_0.next
                == coming
        }),
    ensures
        ({
            let job = state.job(entry.job_id);
            let next = state.timer_handled(entry, batch_id, now, run_ids);
            &&& next.ready == state.ready.push(
                PendingExecution {
                    job_id: entry.job_id,
                    version: entry.version,
                    run_id: run_ids[0],
                    attempt: 1,
                    scheduled_at: occurrence,
                    kind: if job.trigger.schedule is Once {
                        PendingKind::Once
                    } else {
                        PendingKind::Normal
                    },
                    priority: job.priority,
                    batch_id,
                },
            )
            &&& next.has_job(entry.job_id)
            &&& next.job(entry.job_id).next_run_at == coming
            &&& next.job(entry.job_id).state == job.state
            &&& next.job(entry.job_id).version == job.version
        }),
{
    let job_id = entry.job_id;
    let job = state.job(job_id);
    lemma_with_job(state, job_id, job);
    let idle = JobView { normal_timer_key: None, next_run_at: None, ..job };
    lemma_with_job(state, job_id, idle);
    let before = state.with_job(job_id, idle);
    reveal_with_fuel(SchedulerState::admitted_all, 2);
    let pending = planned_execution(
        idle,
        batch_id,
        false,
        occurrence,
        run_ids[0],
    );
    assert(seq![occurrence][0] == occurrence);
    let middle = before.enqueued(pending, now);
    assert(middle.jobs == before.jobs);
    lemma_same_ids(before, middle, job_id);
    let next = state.timer_handled(entry, batch_id, now, run_ids);
    lemma_same_ids(before, next, job_id);
}

/// The timer of a retry brings the same execution back with its next attempt; it is never dropped.
pub proof fn law_retry_timer_brings_the_attempt_back(
    state: SchedulerState,
    entry: TimerEntry,
    batch_id: u64,
    now: Timestamp,
    run_ids: Seq<RunId>,
)
    requires
        state.has_job(entry.job_id),
        state.job(entry.job_id).version == entry.version,
        state.job(entry.job_id).state is Enabled,
        entry.kind is Retry,
        has_room(state, state.job(entry.job_id)),
    ensures
        ({
            let next = state.timer_handled(entry, batch_id, now, run_ids);
            next.ready == state.ready.push(
                PendingExecution {
                    job_id: entry.job_id,
                    version: entry.version,
                    run_id: entry.kind->run_id,
                    attempt: entry.kind->attempt,
                    scheduled_at: entry.kind->scheduled_at,
                    kind: PendingKind::Retry,
                    priority: state.job(entry.job_id).priority,
                    batch_id,
                },
            )
        }),
{
    let job_id = entry.job_id;
    lemma_with_job(state, job_id, state.job(job_id));
    let clean = state.forget_retry(entry.kind->run_id);
    assert(clean.jobs == state.jobs);
    lemma_same_ids(state, clean, job_id);
}

/// Of the waiting executions that may start, the one of the earliest batch starts first; in a batch
/// the one with the largest priority; among those the one that came first.
pub proof fn law_order_of_starts(state: SchedulerState, k: int)
    requires
        state.can_dispatch(),
        0 <= k < state.ready.len(),
        state.has_job(state.ready[k].job_id),
        state.job(state.ready[k].job_id).version == state.ready[k].version,
        state.job(state.ready[k].job_id).state is Enabled,
        ({
            let job = state.job(state.ready[k].job_id);
            job.running_count < (match job.concurrency {
                Some(limit) => limit,
                None => state.config.default_job_concurrency,
            })
        }),
        k != state.next_start(),
    ensures
        ({
            let chosen = state.ready[state.next_start()];
            let other = state.ready[k];
            &&& 0 <= state.next_start() < state.ready.len()
            &&& chosen.batch_id <= other.batch_id
            &&& chosen.batch_id == other.batch_id ==> chosen.priority.value()
                >= other.priority.value()
            &&& chosen.batch_id == other.batch_id && chosen.priority.value()
                == other.priority.value() ==> state.next_start() < k
        }),
{
    let i = state.next_start();
    assert(first_allowed(state.ready, state.startable(), i));
    assert(state.startable()[k]);
    assert(goes_before(state.ready, i, k));
}

/// Nothing starts without a free slot, and only executions of an enabled job's current version that
/// has a free slot of its own start.
pub proof fn law_only_allowed_executions_start(state: SchedulerState)
    ensures
        state.can_dispatch() ==> state.total_running < state.config.global_concurrency,
        state.can_dispatch() ==> {
            let chosen = state.ready[state.next_start()];
            let job = state.job(chosen.job_id);
            &&& 0 <= state.next_start() < state.ready.len()
            &&& state.has_job(chosen.job_id)
            &&& job.version == chosen.version
            &&& job.state is Enabled
            &&& job.running_count < (match job.concurrency {
                Some(limit) => limit,
                None => state.config.default_job_concurrency,
            })
        },
{
    if state.can_dispatch() {
        let i = state.next_start();
        assert(first_allowed(state.ready, state.startable(), i));
        assert(state.startable()[i]);
    }
}

/// Starting an execution takes a slot of the scheduler and one of its job, and hands the task its
/// attempt and planned instant together with the trigger's time limit.
pub proof fn law_started_execution_is_told(
    state: SchedulerState,
    pending: PendingExecution,
    now: Timestamp,
)
    requires
        state.has_job(pending.job_id),
        state.job(pending.job_id).version == pending.version,
        state.total_running < usize::MAX,
        state.job(pending.job_id).running_count < usize::MAX,
    ensures
        ({
            let job = state.job(pending.job_id);
            let next = state.started(pending, now);
            &&& next.total_running == state.total_running + 1
            &&& next.has_job(pending.job_id)
            &&& next.job(pending.job_id) == (JobView {
                running_count: (job.running_count + 1) as usize,
                last_started_at: Some(now),
                last_fired_at: Some(pending.scheduled_at),
                ..job
            })
            &&& next.running.contains(
                RunningExecution {
                    run_id: pending.run_id,
                    job_id: pending.job_id,
                    version: pending.version,
                },
            )
            &&& next.effects.len() > 0
            &&& next.effects.last() matches EffectView::Start {
                handle,
                context,
                timeout,
                cancellation_mode,
            } && {
                &&& handle == job.task.handle
                &&& context.job_id == pending.job_id
                &&& context.version == pending.version
                &&& context.run_id == pending.run_id
                &&& context.attempt == pending.attempt
                &&& context.scheduled_at == pending.scheduled_at
                &&& context.started_at == now
                &&& timeout == job.trigger.timeout
                &&& cancellation_mode == job.task.cancellation_mode
            }
        }),
{
    let job = state.job(pending.job_id);
    lemma_with_job(state, pending.job_id, job);
    let next = state.started(pending, now);
    lemma_same_ids(state, next, pending.job_id);
    let item = RunningExecution {
        run_id: pending.run_id,
        job_id: pending.job_id,
        version: pending.version,
    };
    if exists|i: int| running_position(state.running, item.run_id, i) {
        let i = choose|i: int| running_position(state.running, item.run_id, i);
        assert(next.running[i] == item);
    } else {
        assert(next.running[state.running.len() as int] == item);
    }
}

/// What is held back of a job comes back to the ready queue while there is room, the longest held
/// one first.
pub proof fn law_longest_held_execution_comes_back_first(
    state: SchedulerState,
    i: int,
    resume: Option<Timestamp>,
    now: Timestamp,
)
    requires
        0 <= i < state.jobs.len(),
        state.jobs[i].blocked.len() > 0,
        state.jobs[i].blocked[0].version == state.jobs[i].version,
        has_room(state, state.jobs[i]),
    ensures
        ({
            let next = state.drained(i, resume, now).0;
            &&& next.ready.len() > state.ready.len()
            &&& next.ready[state.ready.len() as int] == state.jobs[i].blocked[0]
            &&& next.jobs[i].blocked.len() < state.jobs[i].blocked.len()
        }),
{
    let job = state.jobs[i];
    let pending = job.blocked[0];
    let popped = SchedulerState {
        jobs: state.jobs.update(i, JobView { blocked: job.blocked.remove(0), ..job }),
        ..state
    };
    let resumed = if pending.kind is Normal || pending.kind is RunNow {
        Some(pending.scheduled_at)
    } else {
        resume
    };
    lemma_drained_extends(popped.enqueued(pending, now), i, resumed, now);
}

/// What comes back joins the end of the ready queue, and no more is held back than before.
pub proof fn lemma_drained_extends(
    state: SchedulerState,
    i: int,
    resume: Option<Timestamp>,
    now: Timestamp,
)
    requires
        0 <= i < state.jobs.len(),
    ensures
        ({
            let next = state.drained(i, resume, now).0;
            &&& next.ready.len() >= state.ready.len()
            &&& forall|k: int|
                0 <= k < state.ready.len() ==> #[trigger] next.ready[k] == state.ready[k]
            &&& next.jobs.len() == state.jobs.len()
            &&& next.jobs[i].blocked.len() <= state.jobs[i].blocked.len()
        }),
    decreases state.jobs[i].blocked.len(),
{
    if state.room_at(i) && state.jobs[i].blocked.len() > 0 {
        let job = state.jobs[i];
        let pending = job.blocked[0];
        let popped = SchedulerState {
            jobs: state.jobs.update(i, JobView { blocked: job.blocked.remove(0), ..job }),
            ..state
        };
        if job.version == pending.version {
            let resumed = if pending.kind is Normal || pending.kind is RunNow {
                Some(pending.scheduled_at)
            } else {
                resume
            };
            let joined = popped.enqueued(pending, now);
            lemma_drained_extends(joined, i, resumed, now);
            let next = state.drained(i, resume, now).0;
            assert forall|k: int| 0 <= k < state.ready.len() implies #[trigger] next.ready[k]
                == state.ready[k] by {
                assert(joined.ready[k] == state.ready[k]);
            }
        } else {
            lemma_drained_extends(popped, i, resume, now);
        }
    }
}

/// After a change of the clock every timer is set again for the instant that it was planned for.
pub proof fn law_timers_keep_their_instants(state: SchedulerState, i: int)
    ensures
        0 <= i < state.jobs.len() && state.jobs[i].normal_timer_key is Some
            && state.jobs[i].next_run_at is Some ==> state.reanchored().effects.contains(
            EffectView::ResetTimer {
                key: state.jobs[i].normal_timer_key->0,
                run_at: state.jobs[i].next_run_at->0,
            },
        ),
        0 <= i < state.retry_timers.len() ==> state.reanchored().effects.contains(
            EffectView::ResetTimer {
                key: state.retry_timers[i].key,
                run_at: state.retry_timers[i].run_at,
            },
        ),
        state.reanchored().jobs == state.jobs,
        state.reanchored().ready == state.ready,
        state.reanchored().retry_timers == state.retry_timers,
{
    let effects = state.reanchored().effects;
    let first = super::lifecycle::job_resets(state.jobs);
    if 0 <= i < state.jobs.len() && state.jobs[i].normal_timer_key is Some
        && state.jobs[i].next_run_at is Some {
        lemma_job_reset(state.jobs, i);
        let reset = EffectView::ResetTimer {
            key: state.jobs[i].normal_timer_key->0,
            run_at: state.jobs[i].next_run_at->0,
        };
        let e = choose|e: int| 0 <= e < first.len() && #[trigger] first[e] == reset;
        assert(effects[state.effects.len() + e] == first[e]);
    }
    if 0 <= i < state.retry_timers.len() {
        assert(effects[state.effects.len() + first.len() + i] == (EffectView::ResetTimer {
            key: state.retry_timers[i].key,
            run_at: state.retry_timers[i].run_at,
        }));
    }
}

proof fn lemma_job_reset(jobs: Seq<JobView>, i: int)
    requires
        0 <= i < jobs.len(),
        jobs[i].normal_timer_key is Some,
        jobs[i].next_run_at is Some,
    ensures
        ({
            let resets = super::lifecycle::job_resets(jobs);
            exists|e: int|
                0 <= e < resets.len() && #[trigger] resets[e] == (EffectView::ResetTimer {
                    key: jobs[i].normal_timer_key->0,
                    run_at: jobs[i].next_run_at->0,
                })
        }),
    decreases jobs.len(),
{
    let front = jobs.drop_last();
    let known = super::lifecycle::job_resets(front);
    let resets = super::lifecycle::job_resets(jobs);
    let reset = EffectView::ResetTimer {
        key: jobs[i].normal_timer_key->0,
        run_at: jobs[i].next_run_at->0,
    };
    if i == jobs.len() - 1 {
        assert(resets[known.len() as int] == reset);
    } else {
        assert(front[i] == jobs[i]);
        lemma_job_reset(front, i);
        let e = choose|e: int| 0 <= e < known.len() && #[trigger] known[e] == reset;
        assert(resets[e] == known[e]);
    }
}

/// The beginning of a shutdown drops everything that waits and asks every running execution to
/// stop; the limits and the jobs stay.
pub proof fn law_shutdown_stops_everything(state: SchedulerState, now: Timestamp, i: int)
    requires
        0 <= i < state.running.len(),
    ensures
        state.stopping(now).effects.contains(
            EffectView::Cancel { run_id: state.running[i].run_id },
        ),
        state.stopping(now).effects.contains(EffectView::ClearTimers),
        state.stopping(now).ready.len() == 0,
        state.stopping(now).retry_timers.len() == 0,
        state.stopping(now).jobs == state.jobs,
        state.stopping(now).running == state.running,
{
    let effects = state.stopping(now).effects;
    assert(effects[state.effects.len() as int + 2] == EffectView::ClearTimers);
    assert(effects[state.effects.len() + 3 + i] == (EffectView::Cancel {
        run_id: state.running[i].run_id,
    }));
}

} // verus!
