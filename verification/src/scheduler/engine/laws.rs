//! What holds of the scheduler as a whole, proved over the state transitions that the operations'
//! contracts speak of.

use super::super::config::SchedulerErrorView;
use super::super::event::SchedulerEventKindView;
use super::super::model::{
    JobId, JobOptions, JobPatch, JobStateView, TriggerCoalescing, TriggerView,
};
use super::super::queue::{
    count_of, first_allowed, is_trigger_of, no_trigger_of, of_other_job, oldest_trigger, trigger_of,
    PendingExecution, TimerEntry,
};
use super::super::task::TaskBindingView;
use super::super::time::{max_int, min_int, Span, Timestamp};
use super::completion::{
    doublings, retry_after, ExecutionMetadata, CompletionOutcomeView, FailureClass,
};
use super::dispatch::without_running;
use super::management::{violates_limits, JobUpdatePlan};
use super::scheduling::{
    leaves_blocked, lemma_filter_subset, lemma_replaced, stays_blocked, Admission,
};
use super::{
    job_position, lemma_job_position, lemma_some_position, lemma_with_job, retry_of_other,
    running_position, successor, unique_jobs, EffectView, JobView, RunningExecution, SchedulerState,
};
use vstd::arithmetic::power2::{lemma_pow2_pos, lemma_pow2_strictly_increases, pow2};
use vstd::prelude::*;

verus! {

/// A change that names another version than the job has is refused as a conflict, with both
/// versions.
pub proof fn law_stale_version_is_refused(
    state: SchedulerState,
    job_id: JobId,
    expected: u64,
    patch: JobPatch,
    now: Timestamp,
)
    requires
        state.has_job(job_id),
        state.job(job_id).version != expected,
    ensures
        state.planned_update(job_id, expected, patch, now) == Err::<
            JobUpdatePlan,
            SchedulerErrorView,
        >(
            SchedulerErrorView::VersionConflict {
                job_id,
                expected,
                actual: state.job(job_id).version,
            },
        ),
        state.version_error(job_id, expected) == Some(
            SchedulerErrorView::VersionConflict {
                job_id,
                expected,
                actual: state.job(job_id).version,
            },
        ),
{
}

/// An update gives the job the next version and leaves every other job as it is.
pub proof fn law_update_moves_one_job(
    state: SchedulerState,
    job_id: JobId,
    expected: u64,
    patch: JobPatch,
    plan: JobUpdatePlan,
    now: Timestamp,
)
    requires
        state.planned_update(job_id, expected, patch, now) == Ok::<
            JobUpdatePlan,
            SchedulerErrorView,
        >(plan),
    ensures
        state.updated(job_id, expected, patch, plan, now).has_job(job_id),
        state.updated(job_id, expected, patch, plan, now).job(job_id).version == expected + 1,
        state.updated(job_id, expected, patch, plan, now).job(job_id).state == state.job(
            job_id,
        ).state,
        state.updated(job_id, expected, patch, plan, now).jobs.len() == state.jobs.len(),
        forall|i: int|
            0 <= i < state.jobs.len() && i != state.position(job_id)
                ==> #[trigger] state.updated(job_id, expected, patch, plan, now).jobs[i]
                == state.jobs[i],
{
    let job = state.updated_job(job_id, patch, plan, now);
    lemma_with_job(state, job_id, state.job(job_id));
    lemma_with_job(state, job_id, job);
    let next = state.updated(job_id, expected, patch, plan, now);
    let i = state.position(job_id);
    let moved = SchedulerState {
        ready: state.updated_ready(job_id, patch, plan, now),
        ..state.with_job(job_id, job).disarm(state.job(job_id).normal_timer_key).clear_retries(
            job_id,
        )
    };
    assert(moved.jobs == state.with_job(job_id, job).jobs);
    assert(job_position(moved.jobs, job_id, i));
    lemma_job_position(moved, job_id, i);
    assert forall|k: int| 0 <= k < i implies (#[trigger] next.jobs[k]).id != job_id by {
        assert(state.jobs[k].id != job_id) by {
            assert(job_position(state.jobs, job_id, i));
        }
    }
    assert(job_position(next.jobs, job_id, i));
    lemma_job_position(next, job_id, i);
}

/// A disabled job does nothing any more: none of its executions waits or may start, it has no
/// timer, and no timer that was set for it before counts.
pub proof fn law_disabled_job_is_at_rest(
    state: SchedulerState,
    job_id: JobId,
    reason: Seq<char>,
    now: Timestamp,
    pending: PendingExecution,
    entry: TimerEntry,
)
    requires
        state.disable_error(job_id) is None,
    ensures
        ({
            let next = state.disabled(job_id, reason, now);
            &&& next.has_job(job_id)
            &&& next.job(job_id).version == state.job(job_id).version + 1
            &&& next.job(job_id).state == (JobStateView::Disabled { reason })
            &&& next.job(job_id).normal_timer_key is None
            &&& next.job(job_id).next_run_at is None
            &&& next.job(job_id).blocked.len() == 0
            &&& count_of(next.ready, job_id) == 0
            &&& forall|i: int|
                0 <= i < next.retry_timers.len() ==> (#[trigger] next.retry_timers[i]).job_id
                    != job_id
            &&& pending.job_id == job_id ==> !next.may_start(pending)
            &&& entry.job_id == job_id ==> !next.timer_counts(entry)
        }),
{
    let job = state.job(job_id);
    let next = state.disabled(job_id, reason, now);
    let entry_after = JobView {
        version: (job.version + 1) as u64,
        normal_timer_key: None,
        next_run_at: None,
        blocked: Seq::empty(),
        state: JobStateView::Disabled { reason },
        updated_at: now,
        ..job
    };
    lemma_with_job(state, job_id, job);
    lemma_with_job(state, job_id, entry_after);
    let i = state.position(job_id);
    assert(next.jobs == state.with_job(job_id, entry_after).jobs);
    assert(job_position(state.with_job(job_id, entry_after).jobs, job_id, i));
    lemma_job_position(next, job_id, i);
    lemma_filter_subset(state.ready, of_other_job(job_id));
    lemma_nothing_of_job(next.ready, job_id);
    lemma_filter_subset(state.retry_timers, retry_of_other(job_id));
}

/// A queue without executions of a job counts none.
pub proof fn lemma_nothing_of_job(items: Seq<PendingExecution>, job_id: JobId)
    requires
        forall|i: int| 0 <= i < items.len() ==> of_other_job(job_id)(#[trigger] items[i]),
    ensures
        count_of(items, job_id) == 0,
    decreases items.len(),
{
    reveal(Seq::filter);
    if items.len() > 0 {
        let rest = items.drop_last();
        assert forall|i: int| 0 <= i < rest.len() implies of_other_job(job_id)(
            #[trigger] rest[i],
        ) by {
            assert(of_other_job(job_id)(items[i]));
        }
        lemma_nothing_of_job(rest, job_id);
        assert(of_other_job(job_id)(items[items.len() - 1]));
    }
}

/// The end of an execution of another version gives back its slots and changes nothing else.
pub proof fn law_stale_completion_only_releases(
    state: SchedulerState,
    execution: ExecutionMetadata,
    elapsed: Span,
    outcome: CompletionOutcomeView,
    now: Timestamp,
)
    requires
        !state.is_current(execution),
    ensures
        state.completed(execution, elapsed, outcome, now) == state.released(execution, now),
        state.completed(execution, elapsed, outcome, now).effects == state.effects,
        state.completed(execution, elapsed, outcome, now).ready == state.ready,
        state.completed(execution, elapsed, outcome, now).retry_timers == state.retry_timers,
{
    let freed = state.released(execution, now);
    if state.has_job(execution.job_id) {
        let job = state.job(execution.job_id);
        lemma_with_job(state, execution.job_id, job);
        let base = SchedulerState {
            running: without_running(state.running, execution.run_id),
            total_running: max_int(state.total_running - 1, 0) as usize,
            ..state
        };
        lemma_with_job(
            base,
            execution.job_id,
            JobView {
                running_count: max_int(job.running_count - 1, 0) as usize,
                last_finished_at: Some(now),
                ..job
            },
        );
    }
    assert(!freed.is_current(execution));
}

/// Every end of an execution gives a slot back, whatever the outcome.
pub proof fn law_completion_frees_a_slot(
    state: SchedulerState,
    execution: ExecutionMetadata,
    now: Timestamp,
)
    requires
        state.total_running > 0,
    ensures
        state.released(execution, now).total_running == state.total_running - 1,
{
}

/// Delays between attempts never exceed the longest delay, never fall below the first one, never
/// shrink, and end with the last attempt.
pub proof fn law_retry_delays(job: JobView, attempt: u32, later: u32, class: FailureClass)
    requires
        attempt <= later,
        retry_after(job, attempt, class) is Some,
    ensures
        job.retry is Exponential,
        attempt < job.retry->max_attempts,
        class != FailureClass::Permanent,
        retry_after(job, attempt, class)->0.nanos <= job.retry->max_delay.nanos,
        retry_after(job, attempt, class)->0.nanos >= min_int(
            job.retry->initial_delay.nanos as int,
            job.retry->max_delay.nanos as int,
        ),
        retry_after(job, later, class) matches Some(delay) ==> retry_after(
            job,
            attempt,
            class,
        )->0.nanos <= delay.nanos,
        later >= job.retry->max_attempts ==> retry_after(job, later, class) is None,
{
    let initial = job.retry->initial_delay.nanos as int;
    let a = doublings(attempt);
    let b = doublings(later);
    lemma_pow2_pos(a);
    lemma_pow2_pos(b);
    if a < b {
        lemma_pow2_strictly_increases(a, b);
    }
    assert(initial * pow2(a) >= initial) by (nonlinear_arith)
        requires
            initial >= 0,
            pow2(a) >= 1,
    ;
    assert(initial * pow2(b) >= initial * pow2(a)) by (nonlinear_arith)
        requires
            initial >= 0,
            pow2(b) >= pow2(a),
    ;
}

/// A one-shot job whose execution succeeded is done.
pub proof fn law_one_shot_success_completes(
    state: SchedulerState,
    execution: ExecutionMetadata,
    elapsed: Span,
    delivered: bool,
    now: Timestamp,
)
    requires
        state.has_job(execution.job_id),
        state.job(execution.job_id).trigger.schedule is Once,
    ensures
        state.succeeded(execution, elapsed, delivered, now).has_job(execution.job_id),
        state.succeeded(execution, elapsed, delivered, now).job(execution.job_id).state
            is Completed,
        state.succeeded(execution, elapsed, delivered, now).job(
            execution.job_id,
        ).consecutive_failures == 0,
{
    let job = state.job(execution.job_id);
    lemma_with_job(state, execution.job_id, job);
    let after = JobView {
        consecutive_failures: 0,
        last_outcome: Some("success"@),
        state: JobStateView::Completed,
        ..job
    };
    lemma_with_job(state, execution.job_id, after);
    let next = state.succeeded(execution, elapsed, delivered, now);
    assert(next.jobs == state.with_job(execution.job_id, after).jobs);
    let i = state.position(execution.job_id);
    assert(job_position(state.with_job(execution.job_id, after).jobs, execution.job_id, i));
    lemma_job_position(next, execution.job_id, i);
}

/// A job whose failure is final records it, and a one-shot job reaches an end: it is completed,
/// or disabled by the failure guard, unless its version cannot grow.
pub proof fn law_final_failure_ends_one_shot(
    state: SchedulerState,
    job_id: JobId,
    error: Seq<char>,
    count: bool,
    now: Timestamp,
)
    requires
        state.has_job(job_id),
        state.job(job_id).trigger.schedule is Once,
        state.job(job_id).version < u64::MAX,
    ensures
        state.finally_failed(job_id, error, count, now).has_job(job_id),
        !(state.finally_failed(job_id, error, count, now).job(job_id).state is Enabled),
        state.finally_failed(job_id, error, count, now).job(job_id).last_outcome == Some(error),
{
    let job = state.job(job_id);
    lemma_with_job(state, job_id, job);
    let failures = super::completion::more_failures(job, count);
    let recorded = JobView { last_outcome: Some(error), consecutive_failures: failures, ..job };
    lemma_with_job(state, job_id, recorded);
    let noted = state.with_job(job_id, recorded);
    if super::completion::too_many(job, failures) {
        law_disabled_job_is_at_rest(
            noted,
            job_id,
            error,
            now,
            arbitrary(),
            arbitrary(),
        );
        let entry_after = JobView {
            version: (job.version + 1) as u64,
            normal_timer_key: None,
            next_run_at: None,
            blocked: Seq::empty(),
            state: JobStateView::Disabled { reason: error },
            updated_at: now,
            ..recorded
        };
        lemma_with_job(noted, job_id, entry_after);
        let next = noted.disabled(job_id, error, now);
        assert(next.jobs == noted.with_job(job_id, entry_after).jobs);
        let i = noted.position(job_id);
        assert(job_position(noted.with_job(job_id, entry_after).jobs, job_id, i));
        lemma_job_position(next, job_id, i);
    } else {
        lemma_with_job(
            state,
            job_id,
            JobView { state: JobStateView::Completed, updated_at: now, ..recorded },
        );
    }
}

/// Enough counted failures in a row disable a job.
pub proof fn law_failure_guard_disables(
    state: SchedulerState,
    job_id: JobId,
    error: Seq<char>,
    limit: u32,
    now: Timestamp,
)
    requires
        state.has_job(job_id),
        state.job(job_id).version < u64::MAX,
        state.job(job_id).failure.disable_after_consecutive_failures == Some(limit),
        state.job(job_id).consecutive_failures + 1 >= limit,
        state.job(job_id).consecutive_failures < u32::MAX,
    ensures
        state.finally_failed(job_id, error, true, now).has_job(job_id),
        state.finally_failed(job_id, error, true, now).job(job_id).state == (
        JobStateView::Disabled { reason: error }),
{
    let job = state.job(job_id);
    lemma_with_job(state, job_id, job);
    let failures = super::completion::more_failures(job, true);
    let recorded = JobView { last_outcome: Some(error), consecutive_failures: failures, ..job };
    lemma_with_job(state, job_id, recorded);
    law_disabled_job_is_at_rest(
        state.with_job(job_id, recorded),
        job_id,
        error,
        now,
        arbitrary(),
        arbitrary(),
    );
}

/// A new job can be found, with the version and state it was registered with, and the other jobs
/// keep their place.
pub proof fn law_added_job_is_found(
    state: SchedulerState,
    id: JobId,
    generation: u64,
    enabled: bool,
    trigger: TriggerView,
    task: TaskBindingView,
    options: JobOptions,
    now: Timestamp,
)
    requires
        !state.has_job(id),
        unique_jobs(state),
    ensures
        ({
            let next = state.added(id, generation, enabled, trigger, task, options, now);
            &&& next.has_job(id)
            &&& next.position(id) == state.jobs.len()
            &&& next.job(id).version == generation
            &&& next.job(id).trigger == trigger
            &&& (next.job(id).state is Enabled) == enabled
            &&& next.jobs.take(state.jobs.len() as int) == state.jobs
            &&& unique_jobs(next)
        }),
{
    let next = state.added(id, generation, enabled, trigger, task, options, now);
    let n = state.jobs.len() as int;
    assert forall|k: int| 0 <= k < n implies (#[trigger] state.jobs[k]).id != id by {
        if state.jobs[k].id == id {
            lemma_some_position(state, id, k);
        }
    }
    let policies = super::super::timing::queue_policies(trigger, options);
    let job = JobView {
        id,
        version: generation,
        task,
        trigger,
        concurrency: options.concurrency,
        max_pending: options.max_pending,
        priority: options.priority,
        coalescing: policies.0,
        capacity: policies.1,
        retry: options.retry,
        failure: options.failure,
        state: if enabled {
            JobStateView::Enabled
        } else {
            JobStateView::Disabled { reason: "installed disabled"@ }
        },
        normal_timer_key: None,
        next_run_at: None,
        blocked: Seq::empty(),
        running_count: 0,
        consecutive_failures: 0,
        last_started_at: None,
        last_finished_at: None,
        last_outcome: None,
        last_fired_at: None,
        created_at: now,
        updated_at: now,
    };
    let listed = SchedulerState { jobs: state.jobs.push(job), ..state };
    assert(job_position(listed.jobs, id, n));
    lemma_job_position(listed, id, n);
    assert(next.jobs.len() == n + 1);
    assert forall|k: int| 0 <= k < n implies #[trigger] next.jobs[k] == state.jobs[k] by {
        assert(listed.jobs[k] == state.jobs[k]);
    }
    assert(next.jobs[n].id == id);
    assert(job_position(next.jobs, id, n));
    lemma_job_position(next, id, n);
    assert(next.jobs.take(n) =~= state.jobs);
    assert forall|i: int, k: int| 0 <= i < k < next.jobs.len() implies (
    #[trigger] next.jobs[i]).id != (#[trigger] next.jobs[k]).id by {
        if k < n {
            assert(state.jobs[i].id != state.jobs[k].id);
        }
    }
}

/// A deleted job is gone, with everything of it that waits.
pub proof fn law_deleted_job_is_gone(
    state: SchedulerState,
    job_id: JobId,
    version: u64,
    cancel_running: bool,
    now: Timestamp,
)
    requires
        state.has_job(job_id),
        unique_jobs(state),
    ensures
        !state.deleted(job_id, version, cancel_running, now).has_job(job_id),
        count_of(state.deleted(job_id, version, cancel_running, now).ready, job_id) == 0,
        unique_jobs(state.deleted(job_id, version, cancel_running, now)),
{
    let next = state.deleted(job_id, version, cancel_running, now);
    let p = state.position(job_id);
    assert(job_position(state.jobs, job_id, p));
    assert(next.jobs == state.jobs.remove(p));
    assert forall|i: int| 0 <= i < next.jobs.len() implies (#[trigger] next.jobs[i]).id
        != job_id by {
        if i < p {
            assert(state.jobs[i].id != job_id);
        } else {
            assert(state.jobs[p].id != state.jobs[i + 1].id);
        }
    }
    assert forall|i: int| !job_position(next.jobs, job_id, i) by {
        if 0 <= i < next.jobs.len() {
            assert(next.jobs[i].id != job_id);
        }
    }
    assert forall|i: int, k: int| 0 <= i < k < next.jobs.len() implies (
    #[trigger] next.jobs[i]).id != (#[trigger] next.jobs[k]).id by {
        let a = if i < p {
            i
        } else {
            i + 1
        };
        let b = if k < p {
            k
        } else {
            k + 1
        };
        assert(state.jobs[a].id != state.jobs[b].id);
    }
    lemma_filter_subset(state.ready, of_other_job(job_id));
    lemma_nothing_of_job(next.ready, job_id);
}

/// Numbers of events: an event gets the number after the last one.
pub proof fn law_events_are_numbered(
    state: SchedulerState,
    kind: SchedulerEventKindView,
    now: Timestamp,
)
    ensures
        state.emit(kind, now).effects.len() == state.effects.len() + 1,
        state.emit(kind, now).effects.last() matches EffectView::Emit(event) && event.sequence
            == successor(state.event_sequence) && event.sequence == state.emit(
            kind,
            now,
        ).event_sequence && event.emitted_at == now && event.kind == kind,
        state.event_sequence < u64::MAX ==> state.emit(kind, now).event_sequence
            > state.event_sequence,
{
}

/// Once a shutdown has begun nothing waits, so nothing can start.
pub proof fn law_nothing_starts_in_shutdown(state: SchedulerState, now: Timestamp)
    ensures
        state.stopping(now).ready.len() == 0,
        state.stopping(now).retry_timers.len() == 0,
        !state.stopping(now).can_dispatch(),
        state.stopping(now).dispatched(now) == state.stopping(now),
        state.stopped(now).total_running == 0,
        state.stopped(now).running.len() == 0,
{
    let next = state.stopping(now);
    assert forall|i: int| !first_allowed(next.ready, next.startable(), i) by {}
}

/// Starting one execution takes one slot of its job and one of the scheduler.
proof fn lemma_dispatched_one(state: SchedulerState, now: Timestamp)
    requires
        state.can_dispatch(),
    ensures
        ({
            let next = state.dispatched_one(now);
            let p = state.position(state.ready[state.next_start()].job_id);
            &&& next.config == state.config
            &&& next.ready.len() == state.ready.len() - 1
            &&& next.total_running == state.total_running + 1
            &&& next.jobs.len() == state.jobs.len()
            &&& 0 <= p < state.jobs.len()
            &&& state.jobs[p].state is Enabled
            &&& state.jobs[p].version == state.ready[state.next_start()].version
            &&& next.jobs[p].running_count == state.jobs[p].running_count + 1
            &&& next.jobs[p].running_count <= state.concurrency_limit(state.jobs[p])
            &&& next.jobs[p].concurrency == state.jobs[p].concurrency
            &&& forall|i: int|
                0 <= i < state.jobs.len() && i != p ==> #[trigger] next.jobs[i] == state.jobs[i]
        }),
{
    let i = state.next_start();
    assert(first_allowed(state.ready, state.startable(), i));
    assert(state.startable()[i]);
    let pending = state.ready[i];
    assert(state.may_start(pending));
    let p = state.position(pending.job_id);
    assert(job_position(state.jobs, pending.job_id, p));
    let popped = SchedulerState { ready: state.ready.remove(i), ..state };
    assert(popped.has_job(pending.job_id));
}

/// Dispatch never exceeds the concurrency limits: neither the scheduler's nor that of any job.
pub proof fn law_dispatch_respects_limits(state: SchedulerState, now: Timestamp)
    ensures
        ({
            let next = state.dispatched(now);
            &&& next.config == state.config
            &&& next.jobs.len() == state.jobs.len()
            &&& next.total_running <= max_int(
                state.total_running as int,
                state.config.global_concurrency as int,
            )
            &&& forall|i: int|
                0 <= i < state.jobs.len() ==> (#[trigger] next.jobs[i]).running_count <= max_int(
                    state.jobs[i].running_count as int,
                    state.concurrency_limit(state.jobs[i]) as int,
                ) && next.jobs[i].concurrency == state.jobs[i].concurrency
        }),
    decreases state.ready.len(),
{
    if state.can_dispatch() {
        lemma_dispatched_one(state, now);
        let one = state.dispatched_one(now);
        law_dispatch_respects_limits(one, now);
        let next = state.dispatched(now);
        assert forall|i: int| 0 <= i < state.jobs.len() implies (
        #[trigger] next.jobs[i]).running_count <= max_int(
            state.jobs[i].running_count as int,
            state.concurrency_limit(state.jobs[i]) as int,
        ) && next.jobs[i].concurrency == state.jobs[i].concurrency by {
            assert(next.jobs[i].running_count <= max_int(
                one.jobs[i].running_count as int,
                one.concurrency_limit(one.jobs[i]) as int,
            ));
        }
    }
}

/// Dispatch holds nothing back that could start: afterwards no slot is free or no waiting
/// execution may start.
pub proof fn law_dispatch_is_exhaustive(state: SchedulerState, now: Timestamp)
    ensures
        !state.dispatched(now).can_dispatch(),
    decreases state.ready.len(),
{
    if state.can_dispatch() {
        lemma_dispatched_one(state, now);
        law_dispatch_is_exhaustive(state.dispatched_one(now), now);
    }
}

/// Whether the slots in use are those of the running executions, each listed once.
pub open spec fn slots_match(state: SchedulerState) -> bool {
    &&& state.total_running == state.running.len()
    &&& forall|i: int, k: int|
        0 <= i < k < state.running.len() ==> (#[trigger] state.running[i]).run_id != (
        #[trigger] state.running[k]).run_id
}

/// Slots are neither lost nor invented: starting a new execution takes one, and the end of a
/// running one gives it back.
pub proof fn law_slots_are_conserved(
    state: SchedulerState,
    pending: PendingExecution,
    execution: ExecutionMetadata,
    now: Timestamp,
)
    requires
        slots_match(state),
    ensures
        state.total_running < usize::MAX && (forall|i: int|
            0 <= i < state.running.len() ==> (#[trigger] state.running[i]).run_id
                != pending.run_id) ==> slots_match(state.started(pending, now)),
        (exists|i: int| running_position(state.running, execution.run_id, i)) ==> slots_match(
            state.released(execution, now),
        ),
{
    if state.total_running < usize::MAX && (forall|i: int|
        0 <= i < state.running.len() ==> (#[trigger] state.running[i]).run_id
            != pending.run_id) {
        let next = state.started(pending, now);
        assert forall|i: int| !running_position(state.running, pending.run_id, i) by {
            if 0 <= i < state.running.len() {
                assert(state.running[i].run_id != pending.run_id);
            }
        }
        if state.has_job(pending.job_id) && state.job(pending.job_id).version
            == pending.version {
            let item = RunningExecution {
                run_id: pending.run_id,
                job_id: pending.job_id,
                version: pending.version,
            };
            assert(next.running == state.running.push(item));
        }
    }
    if exists|i: int| running_position(state.running, execution.run_id, i) {
        let i = choose|i: int| running_position(state.running, execution.run_id, i);
        let next = state.released(execution, now);
        assert(next.running == state.running.remove(i));
        assert forall|a: int, b: int| 0 <= a < b < next.running.len() implies (
        #[trigger] next.running[a]).run_id != (#[trigger] next.running[b]).run_id by {
            let x = if a < i {
                a
            } else {
                a + 1
            };
            let y = if b < i {
                b
            } else {
                b + 1
            };
            assert(state.running[x].run_id != state.running[y].run_id);
        }
    }
}

proof fn lemma_filter_shrinks<T>(items: Seq<T>, keep: spec_fn(T) -> bool)
    ensures
        items.filter(keep).len() <= items.len(),
    decreases items.len(),
{
    reveal(Seq::filter);
    if items.len() > 0 {
        lemma_filter_shrinks(items.drop_last(), keep);
    }
}

proof fn lemma_count_of_filtered(
    items: Seq<PendingExecution>,
    keep: spec_fn(PendingExecution) -> bool,
    job_id: JobId,
)
    ensures
        count_of(items.filter(keep), job_id) <= count_of(items, job_id),
    decreases items.len(),
{
    reveal(Seq::filter);
    if items.len() > 0 {
        lemma_count_of_filtered(items.drop_last(), keep, job_id);
        if keep(items.last()) {
            lemma_count_of_push(items.drop_last().filter(keep), items.last(), job_id);
        }
    }
}

proof fn lemma_count_of_push(items: Seq<PendingExecution>, item: PendingExecution, job_id: JobId)
    ensures
        count_of(items.push(item), job_id) == count_of(items, job_id) + if item.job_id == job_id {
            1nat
        } else {
            0nat
        },
{
    reveal(Seq::filter);
    assert(items.push(item).drop_last() =~= items);
}

proof fn lemma_count_of_removed(items: Seq<PendingExecution>, i: int, job_id: JobId)
    requires
        0 <= i < items.len(),
        items[i].job_id == job_id,
    ensures
        count_of(items.remove(i), job_id) == count_of(items, job_id) - 1,
    decreases items.len(),
{
    reveal(Seq::filter);
    let last = items.last();
    if i == items.len() - 1 {
        assert(items.remove(i) =~= items.drop_last());
    } else {
        lemma_count_of_removed(items.drop_last(), i, job_id);
        assert(items.remove(i).drop_last() =~= items.drop_last().remove(i));
        assert(items.remove(i).last() == last);
    }
}

proof fn lemma_count_of_other_removed(items: Seq<PendingExecution>, i: int, other: JobId)
    requires
        0 <= i < items.len(),
        items[i].job_id != other,
    ensures
        count_of(items.remove(i), other) == count_of(items, other),
    decreases items.len(),
{
    reveal(Seq::filter);
    if i == items.len() - 1 {
        assert(items.remove(i) =~= items.drop_last());
    } else {
        lemma_count_of_other_removed(items.drop_last(), i, other);
        assert(items.remove(i).drop_last() =~= items.drop_last().remove(i));
        assert(items.remove(i).last() == items.last());
    }
}

proof fn lemma_count_of_other_triggers(items: Seq<PendingExecution>, job_id: JobId, other: JobId)
    requires
        job_id != other,
    ensures
        count_of(items.filter(no_trigger_of(job_id)), other) == count_of(items, other),
    decreases items.len(),
{
    reveal(Seq::filter);
    if items.len() > 0 {
        let front = items.drop_last();
        lemma_count_of_other_triggers(front, job_id, other);
        if no_trigger_of(job_id)(items.last()) {
            lemma_count_of_push(front.filter(no_trigger_of(job_id)), items.last(), other);
        }
        assert(front.push(items.last()) =~= items);
        lemma_count_of_push(front, items.last(), other);
    }
}

/// What looking for room leaves of the ready queue.
proof fn lemma_room(state: SchedulerState, pending: PendingExecution, now: Timestamp)
    requires
        state.has_job(pending.job_id),
    ensures
        ({
            let room = state.made_room(pending, now);
            let job_id = pending.job_id;
            &&& room.config == state.config
            &&& room.ready == (if state.job(job_id).coalescing == TriggerCoalescing::KeepLatest
                && pending.kind.replaceable() {
                state.ready.filter(no_trigger_of(job_id))
            } else {
                state.ready
            })
            &&& room.ready.len() <= state.ready.len()
            &&& count_of(room.ready, job_id) <= count_of(state.ready, job_id)
            &&& room.has_job(job_id)
            &&& room.position(job_id) == state.position(job_id)
            &&& room.job(job_id) == (JobView {
                blocked: room.job(job_id).blocked,
                ..state.job(job_id)
            })
            &&& state.job(job_id).id == job_id
        }),
{
    let job_id = pending.job_id;
    let job = state.job(job_id);
    lemma_with_job(state, job_id, job);
    let kept = JobView { blocked: job.blocked.filter(stays_blocked()), ..job };
    let cleared = SchedulerState { ready: state.ready.filter(no_trigger_of(job_id)), ..state };
    assert(job_position(state.jobs, job_id, state.position(job_id)));
    lemma_job_position(cleared, job_id, state.position(job_id));
    lemma_with_job(cleared, job_id, kept);
    let quiet = cleared.with_job(job_id, kept);
    let first = state.ready.filter(trigger_of(job_id));
    let second = job.blocked.filter(leaves_blocked());
    lemma_replaced(quiet, job_id, first, pending.run_id, now);
    let told = quiet.replaced(job_id, first, pending.run_id, now);
    lemma_replaced(told, job_id, second, pending.run_id, now);
    let room = state.coalesced(job_id, pending.run_id, now);
    assert(room.jobs == quiet.jobs);
    assert(job_position(quiet.jobs, job_id, state.position(job_id)));
    lemma_job_position(room, job_id, state.position(job_id));
    lemma_filter_shrinks(state.ready, no_trigger_of(job_id));
    lemma_count_of_filtered(state.ready, no_trigger_of(job_id), job_id);
}

/// Admission keeps the ready queue within its limits: it grows past neither the scheduler's
/// pending limit nor that of the job, and what waits of other jobs keeps its number.
pub proof fn law_ready_queue_is_bounded(
    state: SchedulerState,
    pending: PendingExecution,
    force_backpressure: bool,
    now: Timestamp,
)
    requires
        state.has_job(pending.job_id),
    ensures
        ({
            let next = state.admitted(pending, force_backpressure, now).0;
            &&& next.ready.len() <= max_int(
                state.ready.len() as int,
                state.config.global_max_pending as int,
            )
            &&& count_of(next.ready, pending.job_id) <= max_int(
                count_of(state.ready, pending.job_id) as int,
                state.pending_limit(state.job(pending.job_id)) as int,
            )
            &&& forall|other: JobId|
                other != pending.job_id ==> #[trigger] count_of(next.ready, other) == count_of(
                    state.ready,
                    other,
                )
        }),
{
    let job_id = pending.job_id;
    lemma_room(state, pending, now);
    let room = state.made_room(pending, now);
    lemma_count_of_push(room.ready, pending, job_id);
    let next = state.admitted(pending, force_backpressure, now).0;
    assert forall|other: JobId| other != job_id implies #[trigger] count_of(next.ready, other)
        == count_of(state.ready, other) by {
        lemma_count_of_other_triggers(state.ready, job_id, other);
        lemma_count_of_push(room.ready, pending, other);
        if exists|i: int| oldest_trigger(room.ready, job_id, i) {
            let i = choose|i: int| oldest_trigger(room.ready, job_id, i);
            lemma_count_of_other_removed(room.ready, i, other);
            lemma_count_of_push(room.ready.remove(i), pending, other);
        }
    }
    if exists|i: int| oldest_trigger(room.ready, job_id, i) {
        let i = choose|i: int| oldest_trigger(room.ready, job_id, i);
        lemma_count_of_removed(room.ready, i, job_id);
        lemma_count_of_push(room.ready.remove(i), pending, job_id);
    }
}

/// One-shot, run-now and retried executions are never dropped: each enters the ready queue or is
/// held back until there is room.
pub proof fn law_protected_executions_are_kept(
    state: SchedulerState,
    pending: PendingExecution,
    force_backpressure: bool,
    now: Timestamp,
)
    requires
        state.has_job(pending.job_id),
        force_backpressure || !pending.kind.replaceable(),
    ensures
        ({
            let (next, admission) = state.admitted(pending, force_backpressure, now);
            match admission {
                Admission::Accepted => next.ready.last() == pending && next.ready.len() > 0,
                Admission::Blocked => next.has_job(pending.job_id) && next.job(
                    pending.job_id,
                ).blocked.len() > 0 && next.job(pending.job_id).blocked.last() == pending,
                Admission::Skipped => false,
            }
        }),
{
    let job_id = pending.job_id;
    lemma_room(state, pending, now);
    let room = state.made_room(pending, now);
    let job = room.job(job_id);
    let held = JobView { blocked: job.blocked.push(pending), ..job };
    lemma_with_job(room, job_id, held);
    let next = room.held_back(pending, now);
    assert(next.jobs == room.with_job(job_id, held).jobs);
    assert(job_position(room.with_job(job_id, held).jobs, job_id, room.position(job_id)));
    lemma_job_position(next, job_id, room.position(job_id));
}

/// A job that keeps only its latest trigger has exactly one waiting trigger after a new one was
/// accepted: the new one.
pub proof fn law_latest_trigger_only(
    state: SchedulerState,
    pending: PendingExecution,
    force_backpressure: bool,
    now: Timestamp,
)
    requires
        state.has_job(pending.job_id),
        state.job(pending.job_id).coalescing == TriggerCoalescing::KeepLatest,
        pending.kind.replaceable(),
        state.admitted(pending, force_backpressure, now).1 is Accepted,
    ensures
        state.admitted(pending, force_backpressure, now).0.ready.filter(
            trigger_of(pending.job_id),
        ) == seq![pending],
{
    let job_id = pending.job_id;
    lemma_room(state, pending, now);
    let room = state.made_room(pending, now);
    lemma_filter_subset(state.ready, no_trigger_of(job_id));
    assert forall|i: int| !oldest_trigger(room.ready, job_id, i) by {
        if 0 <= i < room.ready.len() {
            assert(no_trigger_of(job_id)(room.ready[i]));
        }
    }
    lemma_no_triggers(room.ready, job_id);
    reveal(Seq::filter);
    assert(room.ready.push(pending).drop_last() =~= room.ready);
    assert(room.ready.push(pending).filter(trigger_of(job_id)) =~= seq![pending]);
}

proof fn lemma_no_triggers(items: Seq<PendingExecution>, job_id: JobId)
    requires
        forall|i: int| 0 <= i < items.len() ==> !is_trigger_of(#[trigger] items[i], job_id),
    ensures
        items.filter(trigger_of(job_id)) == Seq::<PendingExecution>::empty(),
    decreases items.len(),
{
    reveal(Seq::filter);
    if items.len() > 0 {
        let rest = items.drop_last();
        assert forall|i: int| 0 <= i < rest.len() implies !is_trigger_of(
            #[trigger] rest[i],
            job_id,
        ) by {
            assert(!is_trigger_of(items[i], job_id));
        }
        lemma_no_triggers(rest, job_id);
        assert(!is_trigger_of(items[items.len() - 1], job_id));
    }
    assert(items.filter(trigger_of(job_id)) =~= Seq::<PendingExecution>::empty());
}

/// Whether a job that breaks the limits is out of action: it is not enabled, or its version
/// cannot grow.
pub open spec fn within_limits(state: SchedulerState, i: int) -> bool {
    violates_limits(state.jobs[i], state.config) ==> !(state.jobs[i].state is Enabled)
        || state.jobs[i].version == u64::MAX
}

/// After the limits were enforced on the first `n` jobs, none of them is enabled against the
/// limits.
pub proof fn law_limits_hold_after_a_change(state: SchedulerState, n: nat, now: Timestamp)
    requires
        unique_jobs(state),
        n <= state.jobs.len(),
    ensures
        ({
            let next = state.limits_enforced(n, now);
            &&& next.config == state.config
            &&& next.jobs.len() == state.jobs.len()
            &&& unique_jobs(next)
            &&& forall|i: int| 0 <= i < n ==> #[trigger] within_limits(next, i)
            &&& forall|i: int| n <= i < state.jobs.len() ==> #[trigger] next.jobs[i] == state.jobs[i]
        }),
    decreases n,
{
    if n > 0 {
        let m = (n - 1) as nat;
        law_limits_hold_after_a_change(state, m, now);
        let before = state.limits_enforced(m, now);
        let job = before.jobs[m as int];
        assert forall|k: int| 0 <= k < m implies (#[trigger] before.jobs[k]).id != job.id by {
            assert(before.jobs[k].id != before.jobs[m as int].id);
        }
        assert(job_position(before.jobs, job.id, m as int));
        lemma_job_position(before, job.id, m as int);
        let next = state.limits_enforced(n, now);
        assert forall|i: int| 0 <= i < n implies #[trigger] within_limits(next, i) by {
            if i < m {
                assert(within_limits(before, i));
            }
        }
        assert forall|i: int, k: int| 0 <= i < k < next.jobs.len() implies (
        #[trigger] next.jobs[i]).id != (#[trigger] next.jobs[k]).id by {
            assert(before.jobs[i].id != before.jobs[k].id);
        }
        assert forall|i: int| n <= i < state.jobs.len() implies #[trigger] next.jobs[i]
            == state.jobs[i] by {
            assert(before.jobs[i] == state.jobs[i]);
        }
    }
}

} // verus!
