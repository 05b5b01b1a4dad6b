//! What the scheduler's operations do to what is stored, whatever they are called with.

use super::config::{
    patched_config, validate_config, SchedulerConfig, SchedulerConfigPatch, SchedulerConfigSnapshot,
    SchedulerError,
};
use super::deadline::latest_supported_delay;
use super::engine::completion::{
    duration_ms, panic_message, CompletionOutcome, FailureClass, TaskCompletion,
};
use super::engine::execution_laws::{
    law_covered_failure_is_retried, law_policy_decides_about_retries,
    law_retry_timer_brings_the_attempt_back, law_timely_period_waits_and_goes_on, retryable,
};
use super::engine::job_laws::{
    law_enabled_job_starts_afresh, law_new_job_is_planned, law_registration_checks,
    law_update_changes_what_it_names, lemma_enforcing_keeps_revision, lemma_updated,
};
use super::engine::laws::{
    law_added_job_is_found, law_deleted_job_is_gone, law_disabled_job_is_at_rest,
    law_dispatch_is_exhaustive, law_dispatch_respects_limits, law_limits_hold_after_a_change,
    law_retry_delays,
};
use super::engine::lifecycle::{Command, Reply};
use super::engine::scheduling::Admission;
use super::engine::trigger_laws::law_run_now_fires_at_once;
use super::engine::{
    job_position, lemma_job_position, lemma_some_position, Effect, JobEntry, SchedulerActor,
    SchedulerState,
};
use super::model::{
    CapacityPolicy, ExecutionRetryPolicy, JobId, JobOptions, JobPatch, JobPriority, JobSnapshot,
    JobState, MisfirePolicy, PatchValue, RetryCondition, RunId, Schedule, ScheduleView, Trigger,
    TriggerCoalescing,
};
use super::queue::{count_of, first_allowed, goes_before, PendingExecution, TimerEntry, TimerKind};
use super::task::{TaskBinding, TaskRunResult};
use super::time::{representable, Span, Timestamp, LARGEST_DELTA_MILLIS, NANOS_PER_MILLI};
use super::timing::{
    due, due_occurrences, effective_queue_policies, elapsed_since, first_run_at, future_occurrence,
    in_phase, law_accepted_triggers, law_interval_keeps_phase,
    law_missed_intervals_follow_the_policy, law_queue_policies, law_timely_interval_runs_as_planned,
    lemma_steps, next_after, next_future_occurrence, steps_past, trigger_error, validate_trigger,
    DueSchedule,
};
use vstd::prelude::*;

verus! {

/// A one-shot trigger first runs at its own instant, or at once where that has passed. An interval
/// trigger first runs at its start, or at once where it has none. A cron trigger never runs at
/// once.
pub proof fn law_triggers_begin_in_time(
    trigger: Trigger,
    now: Timestamp,
    first: Result<Timestamp, SchedulerError>,
)
    requires
        call_ensures(first_run_at, (&trigger, now), first),
    ensures
        match trigger.schedule {
            Schedule::Once { at } => {
                &&& first is Ok
                &&& now.nanos <= at.nanos ==> first->Ok_0.nanos == at.nanos
                &&& now.nanos > at.nanos ==> first->Ok_0.nanos == now.nanos
            },
            Schedule::Interval { every, start_at } => {
                &&& first is Ok
                &&& start_at matches Some(start) ==> first->Ok_0.nanos == start.nanos
                &&& start_at is None ==> first->Ok_0.nanos == now.nanos
            },
            Schedule::Cron { .. } => first is Ok ==> first->Ok_0.nanos > now.nanos,
        },
{
}

/// One period later for an interval, nothing more for a one-shot schedule.
pub proof fn law_periods_follow_each_other(
    schedule: Schedule,
    after: Timestamp,
    next: Result<Option<Timestamp>, SchedulerError>,
)
    requires
        call_ensures(next_after, (&schedule, after), next),
    ensures
        schedule is Once ==> next is Ok && next->Ok_0 is None,
        schedule matches Schedule::Interval { every, .. } ==> (next is Ok ==> next->Ok_0 is Some
            && next->Ok_0->0.nanos == after.nanos + every.nanos),
        schedule is Cron && next is Ok ==> next->Ok_0 is Some && next->Ok_0->0.nanos
            > after.nanos,
{
}

/// A one-shot trigger executes its instant once, however late.
pub proof fn law_one_shot_triggers_run_once(
    trigger: Trigger,
    at: Timestamp,
    scheduled_at: Timestamp,
    now: Timestamp,
    maximum_catch_up: u32,
    answer: Result<DueSchedule, SchedulerError>,
)
    requires
        trigger.schedule == (Schedule::Once { at }),
        call_ensures(due_occurrences, (&trigger, scheduled_at, now, maximum_catch_up), answer),
    ensures
        answer is Ok,
        answer->Ok_0.occurrences@.len() == 1,
        answer->Ok_0.occurrences@[0] == scheduled_at,
        answer->Ok_0.next is None,
{
    assert(answer->Ok_0@.occurrences == seq![scheduled_at]);
}

/// A timer of an interval trigger that comes within its period executes the planned instant. Where
/// a whole period was missed nothing is executed, or the present instant once, or the missed
/// instants from the first on, as the misfire policy says. The next instant lies ahead and a whole
/// number of periods from the planned one.
pub proof fn law_interval_triggers_follow_their_policy(
    trigger: Trigger,
    every: Span,
    start_at: Option<Timestamp>,
    scheduled_at: Timestamp,
    now: Timestamp,
    maximum_catch_up: u32,
    found: DueSchedule,
) -> (periods: int)
    requires
        trigger.schedule == (Schedule::Interval { every, start_at }),
        every.nanos > 0,
        representable(scheduled_at.nanos as int),
        representable(now.nanos as int),
        call_ensures(
            due_occurrences,
            (&trigger, scheduled_at, now, maximum_catch_up),
            Ok::<DueSchedule, SchedulerError>(found),
        ),
    ensures
        now.nanos < scheduled_at.nanos + every.nanos ==> found.occurrences@.len() == 1
            && found.occurrences@[0] == scheduled_at,
        now.nanos >= scheduled_at.nanos + every.nanos ==> match trigger.misfire {
            MisfirePolicy::Skip => found.occurrences@.len() == 0,
            MisfirePolicy::FireOnce => found.occurrences@.len() == 1 && found.occurrences@[0]
                == now,
            MisfirePolicy::CatchUp { max_runs } => {
                &&& found.occurrences@.len() >= 1
                &&& found.occurrences@[0] == scheduled_at
                &&& max_runs > 0 && maximum_catch_up > 0 ==> found.occurrences@.len() <= max_runs
                    && found.occurrences@.len() <= maximum_catch_up
                &&& forall|k: int|
                    0 <= k < found.occurrences@.len() ==> (
                    #[trigger] found.occurrences@[k]).nanos == scheduled_at.nanos + k * every.nanos
            },
        },
        found.next is Some,
        found.next->0.nanos > now.nanos,
        periods >= 1,
        found.next->0.nanos == scheduled_at.nanos + periods * every.nanos,
        found.next->0.nanos - every.nanos <= now.nanos || found.next->0.nanos - every.nanos
            <= scheduled_at.nanos,
{
    let view = trigger@;
    assert(view.schedule == (ScheduleView::Interval { every, start_at }));
    assert(due(view, scheduled_at, now, maximum_catch_up) is Ok);
    let periods = law_interval_keeps_phase(
        view,
        every,
        start_at,
        scheduled_at,
        now,
        maximum_catch_up,
    );
    if now.nanos >= scheduled_at.nanos + every.nanos {
        law_missed_intervals_follow_the_policy(
            view,
            every,
            start_at,
            scheduled_at,
            now,
            maximum_catch_up,
        );
        if trigger.misfire is CatchUp {
            assert forall|k: int| 0 <= k < found.occurrences@.len() implies (
            #[trigger] found.occurrences@[k]).nanos == scheduled_at.nanos + k * every.nanos by {
                assert(in_phase(scheduled_at, every, k, found@.occurrences[k]));
            }
        }
    }
    periods
}

/// Whether the job at a position is the one with the given identifier.
pub open spec fn holds(actor: SchedulerActor, job_id: JobId, i: int) -> bool {
    &&& 0 <= i < actor.jobs@.len()
    &&& actor.jobs@[i].id == job_id
    &&& forall|k: int| 0 <= k < i ==> (#[trigger] actor.jobs@[k]).id != job_id
}

proof fn lemma_holds(actor: SchedulerActor, job_id: JobId, i: int)
    requires
        holds(actor, job_id, i),
    ensures
        actor@.has_job(job_id),
        actor@.position(job_id) == i,
        actor@.job(job_id) == actor.jobs@[i]@,
{
    assert forall|k: int| 0 <= k < i implies (#[trigger] actor@.jobs[k]).id != job_id by {
        assert(actor.jobs@[k].id != job_id);
    }
    assert(job_position(actor@.jobs, job_id, i));
    lemma_job_position(actor@, job_id, i);
}

/// A failed attempt is followed by another exactly where the job's policy retries, attempts are
/// left and the policy names the failure; never sooner than the first delay and never later than
/// the longest, where the one is not longer than the other.
pub proof fn law_policies_allow_retries(
    actor: SchedulerActor,
    job_id: JobId,
    i: int,
    attempt: u32,
    class: FailureClass,
    delay: Option<Span>,
)
    requires
        holds(actor, job_id, i),
        call_ensures(SchedulerActor::retry_delay, (&actor, job_id, attempt, class), delay),
    ensures
        delay is Some <==> match actor.jobs@[i].retry {
            ExecutionRetryPolicy::NoRetry => false,
            ExecutionRetryPolicy::Exponential { max_attempts, retry_on, .. } => attempt
                < max_attempts && match class {
                FailureClass::Transient => retry_on.transient_error,
                FailureClass::Timeout => retry_on.timeout,
                FailureClass::Panic => retry_on.panic,
                FailureClass::Permanent => false,
            },
        },
        delay matches Some(delay) ==> delay.nanos <= actor.jobs@[i].retry->max_delay.nanos,
        delay matches Some(delay) ==> (actor.jobs@[i].retry->initial_delay.nanos
            <= actor.jobs@[i].retry->max_delay.nanos ==> delay.nanos
            >= actor.jobs@[i].retry->initial_delay.nanos),
{
    lemma_holds(actor, job_id, i);
    let job = actor.jobs@[i]@;
    law_policy_decides_about_retries(job, attempt, class);
    if delay is Some {
        law_retry_delays(job, attempt, attempt, class);
    }
}

/// Whether a failure of this kind is retried where the switches of a policy say so.
pub open spec fn retried_by(job: JobEntry, outcome: CompletionOutcome) -> bool {
    match outcome {
        CompletionOutcome::Finished(TaskRunResult::TaskTransient(_)) => job.retry
            is Exponential && job.retry->retry_on.transient_error,
        CompletionOutcome::TimedOut => job.retry is Exponential && job.retry->retry_on.timeout,
        CompletionOutcome::Panicked(_) => job.retry is Exponential && job.retry->retry_on.panic,
        _ => false,
    }
}

/// An execution that failed, timed out or panicked, and whose job's policy names that and has
/// attempts left, gets a retry timer that lies no further ahead than the longest delay.
pub proof fn law_retried_ends_set_a_timer(
    actor: &mut SchedulerActor,
    completion: TaskCompletion,
    now: Timestamp,
    i: int,
)
    requires
        holds(*old(actor), completion.metadata.job_id, i),
        old(actor).jobs@[i].version == completion.metadata.version,
        retried_by(old(actor).jobs@[i], completion.outcome),
        completion.metadata.attempt < old(actor).jobs@[i].retry->max_attempts,
        now.nanos + old(actor).jobs@[i].retry->max_delay.nanos <= i128::MAX,
        call_ensures(SchedulerActor::handle_completion, (actor, completion, now), ()),
    ensures
        final(actor).retry_timers@.len() > 0,
        final(actor).retry_timers@.last().run_id == completion.metadata.run_id,
        final(actor).retry_timers@.last().job_id == completion.metadata.job_id,
        now.nanos <= final(actor).retry_timers@.last().run_at.nanos <= now.nanos + old(
            actor,
        ).jobs@[i].retry->max_delay.nanos,
        final(actor).ready@ == old(actor).ready@,
{
    lemma_holds(*old(actor), completion.metadata.job_id, i);
    law_covered_failure_is_retried(
        old(actor)@,
        completion.metadata,
        completion.elapsed,
        completion.outcome@,
        now,
    );
    law_retry_delays(
        old(actor)@.job(completion.metadata.job_id),
        completion.metadata.attempt,
        completion.metadata.attempt,
        retryable(completion.outcome@)->0,
    );
}

/// A new job comes after the others, under the wanted identifier or else under the fresh one, and
/// is stored as it was given. Where it is enabled its first run is planned. A refused one changes
/// nothing.
pub proof fn law_registered_jobs_are_stored(
    actor: &mut SchedulerActor,
    requested: Option<JobId>,
    fresh: JobId,
    generation: u64,
    enabled: bool,
    trigger: Trigger,
    task: TaskBinding,
    options: JobOptions,
    now: Timestamp,
    answer: Result<JobId, SchedulerError>,
)
    requires
        old(actor)@.wf(),
        requested is None ==> !old(actor)@.has_job(fresh),
        call_ensures(
            SchedulerActor::add_job,
            (actor, requested, fresh, generation, enabled, trigger, task, options, now),
            answer,
        ),
    ensures
        old(actor).jobs@.len() >= old(actor).config.max_jobs ==> answer is Err,
        answer is Err ==> final(actor)@ == old(actor)@,
        answer matches Ok(id) ==> {
            let n = old(actor).jobs@.len();
            let job = final(actor).jobs@[n as int];
            &&& id == (match requested {
                Some(wanted) => wanted,
                None => fresh,
            })
            &&& final(actor).jobs@.len() == n + 1
            &&& job.id == id
            &&& job.version == generation
            &&& job.trigger@ == trigger@
            &&& job.task@ == task@
            &&& job.priority == options.priority
            &&& job.concurrency == options.concurrency
            &&& job.max_pending == options.max_pending
            &&& job.retry == options.retry
            &&& job.failure == options.failure
            &&& job.running_count == 0
            &&& job.consecutive_failures == 0
            &&& job.blocked@.len() == 0
            &&& enabled <==> job.state is Enabled
            &&& enabled <==> job.next_run_at is Some
            &&& enabled ==> match trigger.schedule {
                Schedule::Once { at } => job.next_run_at->0.nanos == (if at.nanos >= now.nanos {
                    at.nanos
                } else {
                    now.nanos
                }),
                Schedule::Interval { every, start_at } => job.next_run_at == Some(
                    match start_at {
                        Some(start) => start,
                        None => now,
                    },
                ),
                Schedule::Cron { .. } => true,
            }
        },
{
    let before = old(actor)@;
    let after = final(actor)@;
    assert(before.jobs.len() == old(actor).jobs@.len());
    assert(after.jobs.len() == final(actor).jobs@.len());
    law_registration_checks(
        before,
        requested,
        trigger@,
        task@.cancellation_mode,
        options,
        now,
    );
    if let Ok(id) = answer {
        law_added_job_is_found(before, id, generation, enabled, trigger@, task@, options, now);
        law_new_job_is_planned(before, id, generation, enabled, trigger@, task@, options, now);
        let n = before.jobs.len() as int;
        assert(after.job(id) == after.jobs[n]);
        assert(after.jobs[n] == final(actor).jobs@[n]@);
    }
}

/// An update is carried out only for the version that it names, and changes exactly what it names;
/// a refused one changes nothing.
pub proof fn law_updated_jobs_are_stored(
    actor: &mut SchedulerActor,
    job_id: JobId,
    expected: u64,
    patch: JobPatch,
    now: Timestamp,
    answer: Result<JobSnapshot, SchedulerError>,
    i: int,
)
    requires
        holds(*old(actor), job_id, i),
        old(actor)@.wf(),
        call_ensures(SchedulerActor::update_job, (actor, job_id, expected, patch, now), answer),
    ensures
        old(actor).jobs@[i].version != expected ==> answer is Err,
        answer is Err ==> final(actor)@ == old(actor)@,
        answer is Ok ==> {
            let earlier = old(actor).jobs@[i];
            let job = final(actor).jobs@[i];
            &&& final(actor).jobs@.len() == old(actor).jobs@.len()
            &&& job.id == job_id
            &&& job.version == expected + 1
            &&& job.trigger@ == (match patch.trigger {
                Some(trigger) => trigger@,
                None => earlier.trigger@,
            })
            &&& job.task@ == (match patch.task {
                Some(task) => task@,
                None => earlier.task@,
            })
            &&& job.priority == (match patch.priority {
                Some(priority) => priority,
                None => earlier.priority,
            })
            &&& job.retry == (match patch.retry {
                Some(retry) => retry,
                None => earlier.retry,
            })
            &&& job.concurrency == (match patch.concurrency {
                PatchValue::Keep => earlier.concurrency,
                PatchValue::Assign(limit) => Some(limit),
                PatchValue::Inherit => None,
            })
            &&& job.max_pending == (match patch.max_pending {
                PatchValue::Keep => earlier.max_pending,
                PatchValue::Assign(limit) => Some(limit),
                PatchValue::Inherit => None,
            })
            &&& job.state@ == earlier.state@
            &&& job.running_count == earlier.running_count
        },
{
    lemma_holds(*old(actor), job_id, i);
    let before = old(actor)@;
    let after = final(actor)@;
    assert(before.jobs.len() == old(actor).jobs@.len());
    assert(after.jobs.len() == final(actor).jobs@.len());
    if let Ok(plan) = before.planned_update(job_id, expected, patch, now) {
        law_update_changes_what_it_names(before, job_id, expected, patch, plan, now);
        lemma_updated(before, job_id, expected, patch, plan, now);
        assert(before.jobs[i] == old(actor).jobs@[i]@);
        assert(after.job(job_id) == after.jobs[i]);
        assert(after.jobs[i] == final(actor).jobs@[i]@);
    }
}

/// A timer that is not that of an enabled job's current version changes nothing.
pub proof fn law_stale_timers_change_nothing(
    actor: &mut SchedulerActor,
    entry: TimerEntry,
    batch_id: u64,
    now: Timestamp,
    i: int,
)
    requires
        holds(*old(actor), entry.job_id, i),
        old(actor).jobs@[i].version != entry.version || !(old(actor).jobs@[i].state is Enabled),
        call_ensures(SchedulerActor::handle_timer, (actor, entry, batch_id, now), ()),
    ensures
        final(actor)@ == old(actor)@,
{
    lemma_holds(*old(actor), entry.job_id, i);
}

/// Filling the slots never starts more than the limits allow, of all jobs and of each.
pub proof fn law_slots_are_never_exceeded(actor: &mut SchedulerActor, now: Timestamp, i: int)
    requires
        call_ensures(SchedulerActor::dispatch_ready, (actor, now), ()),
        0 <= i < old(actor).jobs@.len(),
    ensures
        old(actor).total_running <= old(actor).config.global_concurrency
            ==> final(actor).total_running <= old(actor).config.global_concurrency,
        final(actor).jobs@.len() == old(actor).jobs@.len(),
        ({
            let limit = match old(actor).jobs@[i].concurrency {
                Some(own) => own,
                None => old(actor).config.default_job_concurrency,
            };
            old(actor).jobs@[i].running_count <= limit ==> final(actor).jobs@[i].running_count
                <= limit
        }),
{
    law_dispatch_respects_limits(old(actor)@, now);
    let next = final(actor)@;
    assert(next.jobs.len() == old(actor)@.jobs.len());
    assert(next.jobs[i] == final(actor).jobs@[i]@);
    assert(old(actor)@.jobs[i] == old(actor).jobs@[i]@);
}

/// Filling the slots leaves none free for which something waits that may start.
pub proof fn law_slots_are_filled(actor: &mut SchedulerActor, now: Timestamp, i: int)
    requires
        call_ensures(SchedulerActor::dispatch_ready, (actor, now), ()),
        0 <= i < final(actor).ready@.len(),
        final(actor).total_running < final(actor).config.global_concurrency,
    ensures
        !final(actor)@.may_start(final(actor).ready@[i]),
{
    law_dispatch_is_exhaustive(old(actor)@, now);
    let after = final(actor)@;
    assert(!after.can_dispatch());
    if after.may_start(after.ready[i]) {
        lemma_some_allowed(after.ready, after.startable(), i);
    }
}

proof fn lemma_some_allowed(items: Seq<PendingExecution>, allowed: Seq<bool>, i: int)
    requires
        items.len() == allowed.len(),
        0 <= i < items.len(),
        allowed[i],
    ensures
        exists|first: int| first_allowed(items, allowed, first),
{
    let first = best_allowed(items, allowed, items.len());
    lemma_best_allowed(items, allowed, items.len(), i);
    assert(first_allowed(items, allowed, first));
}

/// Position, among the first `n`, of the execution that starts before every other that may; -1
/// where none may.
spec fn best_allowed(items: Seq<PendingExecution>, allowed: Seq<bool>, n: nat) -> int
    decreases n,
{
    if n == 0 {
        -1
    } else {
        let best = best_allowed(items, allowed, (n - 1) as nat);
        if allowed[n - 1] && (best < 0 || goes_before(items, n - 1, best)) {
            n - 1
        } else {
            best
        }
    }
}

proof fn lemma_best_allowed(items: Seq<PendingExecution>, allowed: Seq<bool>, n: nat, i: int)
    requires
        items.len() == allowed.len(),
        n <= items.len(),
    ensures
        ({
            let best = best_allowed(items, allowed, n);
            &&& best < n
            &&& 0 <= i < n && allowed[i] ==> best >= 0
            &&& best >= 0 ==> allowed[best]
            &&& best < 0 ==> forall|k: int| 0 <= k < n ==> !#[trigger] allowed[k]
            &&& best >= 0 ==> forall|k: int|
                0 <= k < n && #[trigger] allowed[k] && k != best ==> goes_before(items, best, k)
        }),
    decreases n,
{
    if n > 0 {
        lemma_best_allowed(items, allowed, (n - 1) as nat, i);
    }
}

/// A job is deleted exactly where it is named with its own version; afterwards no job has its
/// identifier. A refused deletion changes nothing.
pub proof fn law_deletion_removes_the_job(
    actor: &mut SchedulerActor,
    job_id: JobId,
    expected: u64,
    cancel: bool,
    now: Timestamp,
    answer: Result<(), SchedulerError>,
    i: int,
)
    requires
        holds(*old(actor), job_id, i),
        old(actor)@.wf(),
        call_ensures(SchedulerActor::delete_job, (actor, job_id, expected, cancel, now), answer),
    ensures
        answer is Ok <==> old(actor).jobs@[i].version == expected,
        answer is Err ==> final(actor)@ == old(actor)@,
        answer is Ok ==> forall|k: int|
            0 <= k < final(actor).jobs@.len() ==> (#[trigger] final(actor).jobs@[k]).id != job_id,
        answer is Ok ==> final(actor).jobs@.len() == old(actor).jobs@.len() - 1,
{
    lemma_holds(*old(actor), job_id, i);
    let before = old(actor)@;
    assert(before.jobs.len() == old(actor).jobs@.len());
    if before.version_error(job_id, expected) is None {
        law_deleted_job_is_gone(before, job_id, expected, cancel, now);
        let after = final(actor)@;
        assert(after.jobs.len() == final(actor).jobs@.len());
        assert forall|k: int| 0 <= k < final(actor).jobs@.len() implies (
        #[trigger] final(actor).jobs@[k]).id != job_id by {
            assert(after.jobs[k] == final(actor).jobs@[k]@);
            if after.jobs[k].id == job_id {
                lemma_some_position(after, job_id, k);
            }
        }
    }
}

/// A job is disabled exactly where it is named with its own version and the version can grow. It
/// keeps the reason, moves to the next version, and has nothing planned and nothing held back.
pub proof fn law_disabling_keeps_the_reason(
    actor: &mut SchedulerActor,
    job_id: JobId,
    expected: u64,
    reason: String,
    now: Timestamp,
    answer: Result<JobSnapshot, SchedulerError>,
    i: int,
    pending: PendingExecution,
    entry: TimerEntry,
)
    requires
        holds(*old(actor), job_id, i),
        call_ensures(SchedulerActor::disable_job, (actor, job_id, expected, reason, now), answer),
    ensures
        answer is Ok <==> old(actor).jobs@[i].version == expected && expected < u64::MAX,
        answer is Err ==> final(actor)@ == old(actor)@,
        answer is Ok ==> {
            let job = final(actor).jobs@[i];
            &&& final(actor).jobs@.len() == old(actor).jobs@.len()
            &&& job.id == job_id
            &&& job.version == expected + 1
            &&& job.state matches JobState::Disabled { reason: kept } && kept@ == reason@
            &&& job.next_run_at is None
            &&& job.normal_timer_key is None
            &&& job.blocked@.len() == 0
            &&& job.updated_at == now
        },
{
    lemma_holds(*old(actor), job_id, i);
    let before = old(actor)@;
    if before.disable_refusal(job_id, expected) is None {
        law_disabled_job_is_at_rest(before, job_id, reason@, now, pending, entry);
        let after = final(actor)@;
        assert(after.jobs.len() == before.jobs.len());
        assert(after.jobs[i] == final(actor).jobs@[i]@);
        assert(before.jobs[i] == old(actor).jobs@[i]@);
    }
}

/// A job that is not enabled and can be planned becomes so under the next version, without
/// failures; one that is enabled stays as it is.
pub proof fn law_enabling_starts_afresh(
    actor: &mut SchedulerActor,
    job_id: JobId,
    expected: u64,
    now: Timestamp,
    answer: Result<JobSnapshot, SchedulerError>,
    i: int,
)
    requires
        holds(*old(actor), job_id, i),
        call_ensures(SchedulerActor::enable_job, (actor, job_id, expected, now), answer),
    ensures
        old(actor).jobs@[i].version != expected ==> answer is Err && final(actor)@ == old(actor)@,
        old(actor).jobs@[i].version == expected && old(actor).jobs@[i].state is Enabled ==> answer
            is Ok && final(actor)@ == old(actor)@,
        answer is Ok && !(old(actor).jobs@[i].state is Enabled) ==> {
            let job = final(actor).jobs@[i];
            &&& final(actor).jobs@.len() == old(actor).jobs@.len()
            &&& job.id == job_id
            &&& job.version == expected + 1
            &&& job.state is Enabled
            &&& job.consecutive_failures == 0
            &&& job.next_run_at is Some
            &&& job.normal_timer_key is Some
        },
{
    lemma_holds(*old(actor), job_id, i);
    let before = old(actor)@;
    if answer is Ok && !(old(actor).jobs@[i].state is Enabled) {
        assert(before.enable_error(job_id, now) is None);
        law_enabled_job_starts_afresh(before, job_id, now);
        let after = final(actor)@;
        assert(after.jobs.len() == before.jobs.len());
        assert(after.jobs[i] == final(actor).jobs@[i]@);
        assert(before.jobs[i] == old(actor).jobs@[i]@);
    }
}

/// New limits take the place of those that they name under the next revision, and come back with
/// it; a refused change leaves them.
pub proof fn law_limits_are_replaced(
    actor: &mut SchedulerActor,
    expected: u64,
    patch: SchedulerConfigPatch,
    now: Timestamp,
    answer: Result<SchedulerConfigSnapshot, SchedulerError>,
)
    requires
        old(actor)@.wf(),
        call_ensures(SchedulerActor::update_config, (actor, expected, patch, now), answer),
    ensures
        old(actor).config_revision != expected ==> answer is Err,
        answer is Err ==> final(actor)@ == old(actor)@,
        answer matches Ok(snapshot) ==> {
            &&& final(actor).config_revision == expected + 1
            &&& snapshot.revision == expected + 1
            &&& snapshot.config == final(actor).config
            &&& patch.global_concurrency matches Some(limit) ==> final(actor).config.global_concurrency
                == limit
            &&& patch.global_concurrency is None ==> final(actor).config.global_concurrency == old(
                actor,
            ).config.global_concurrency
            &&& patch.max_jobs matches Some(limit) ==> final(actor).config.max_jobs == limit
            &&& patch.max_jobs is None ==> final(actor).config.max_jobs == old(
                actor,
            ).config.max_jobs
            &&& final(actor).config.global_concurrency > 0
            &&& final(actor).config.max_jobs > 0
        },
{
    let before = old(actor)@;
    if before.config_error(expected, patch) is None {
        let changed = SchedulerState {
            config: patched_config(before.config, patch),
            config_revision: (before.config_revision + 1) as u64,
            ..before
        };
        law_limits_hold_after_a_change(changed, before.jobs.len(), now);
        lemma_enforcing_keeps_revision(changed, before.jobs.len(), now);
    }
}

/// A job is shown as it is stored, with the limits that apply to it, and with all of its
/// executions that wait.
pub proof fn law_jobs_are_shown_as_they_are(
    actor: SchedulerActor,
    job_id: JobId,
    i: int,
    shown: Option<JobSnapshot>,
    listed: Vec<JobSnapshot>,
)
    requires
        holds(actor, job_id, i),
        call_ensures(SchedulerActor::get, (&actor, job_id), shown),
        call_ensures(SchedulerActor::list, (&actor,), listed),
    ensures
        listed@.len() == actor.jobs@.len(),
        shown is Some,
        shown->0@ == listed@[i]@,
        ({
            let job = actor.jobs@[i];
            let picture = shown->0;
            &&& picture.id == job_id
            &&& picture.version == job.version
            &&& picture.state@ == job.state@
            &&& picture.trigger@ == job.trigger@
            &&& picture.priority == job.priority
            &&& picture.task_kind@ == job.task.kind@
            &&& picture.concurrency == (match job.concurrency {
                Some(own) => own,
                None => actor.config.default_job_concurrency,
            })
            &&& picture.max_pending == (match job.max_pending {
                Some(own) => own,
                None => actor.config.default_job_max_pending,
            })
            &&& picture.running_count == job.running_count
            &&& count_of(actor.ready@, job_id) + job.blocked@.len() <= usize::MAX
                ==> picture.pending_count == count_of(actor.ready@, job_id) + job.blocked@.len()
            &&& picture.consecutive_failures == job.consecutive_failures
            &&& picture.next_run_at == job.next_run_at
            &&& picture.last_started_at == job.last_started_at
            &&& picture.last_finished_at == job.last_finished_at
            &&& picture.created_at == job.created_at
            &&& picture.updated_at == job.updated_at
        }),
{
    lemma_holds(actor, job_id, i);
    assert(actor@.jobs.len() == actor.jobs@.len());
    assert(listed@[i]@ == actor@.snapshot_of(actor@.jobs[i]));
}

/// What there is to do is handed out in order, and only once.
pub proof fn law_effects_are_handed_out_once(actor: &mut SchedulerActor, effects: Vec<Effect>)
    requires
        call_ensures(SchedulerActor::take_effects, (actor,), effects),
    ensures
        final(actor).effects@.len() == 0,
        effects@.len() == old(actor).effects@.len(),
        forall|i: int|
            0 <= i < effects@.len() ==> (#[trigger] effects@[i])@ == old(actor).effects@[i]@,
        final(actor).jobs@.len() == old(actor).jobs@.len(),
        final(actor).ready@ == old(actor).ready@,
{
    let handed = effects@.map_values(|effect: Effect| effect@);
    let before = old(actor).effects@.map_values(|effect: Effect| effect@);
    assert(handed == before);
    assert(handed.len() == effects@.len() && before.len() == old(actor).effects@.len());
    assert(final(actor)@.effects.len() == final(actor).effects@.len());
    assert forall|i: int| 0 <= i < effects@.len() implies (#[trigger] effects@[i])@ == old(
        actor,
    ).effects@[i]@ by {
        assert(handed[i] == effects@[i]@ && before[i] == old(actor).effects@[i]@);
    }
    assert(final(actor)@.jobs.len() == final(actor).jobs@.len());
    assert(old(actor)@.jobs.len() == old(actor).jobs@.len());
}

/// A batch takes timers up to its limit, and a new scheduler has nothing to do.
pub proof fn law_batches_are_bounded(
    actor: SchedulerActor,
    collected: usize,
    room: bool,
    config: SchedulerConfig,
    fresh: SchedulerActor,
)
    requires
        call_ensures(SchedulerActor::batch_has_room, (&actor, collected), room),
        call_ensures(SchedulerActor::new, (config,), fresh),
    ensures
        room <==> collected < actor.config.due_batch_size,
        fresh@.config == config,
        fresh@.jobs.len() == 0 && fresh@.ready.len() == 0 && fresh@.running.len() == 0,
        fresh@.total_running == 0 && fresh@.effects.len() == 0 && fresh@.config_revision == 0,
{
}

/// A panic is told by its text where it has one, and a duration by its whole milliseconds.
pub proof fn law_texts_and_durations(
    payload: Option<String>,
    text: String,
    duration: Span,
    millis: u64,
)
    requires
        call_ensures(panic_message, (payload,), text),
        call_ensures(duration_ms, (duration,), millis),
    ensures
        payload matches Some(given) ==> text@ == given@,
        payload is None ==> text@ == "task panicked with a non-string payload"@,
        millis * 1_000_000 <= duration.nanos,
        millis < u64::MAX ==> duration.nanos < (millis + 1) * 1_000_000,
{
}

/// New triggers stop an execution after thirty seconds. One-shot triggers make up for a missed
/// instant, recurring ones do not; recurring ones begin at once, and cron expressions are read in
/// UTC.
pub proof fn law_new_triggers(
    at: Timestamp,
    every: Span,
    expression: String,
    once: Trigger,
    interval: Trigger,
    cron: Trigger,
)
    requires
        call_ensures(Trigger::once, (at,), once),
        call_ensures(Trigger::interval, (every,), interval),
        call_ensures(Trigger::cron, (expression,), cron),
    ensures
        once.timeout matches Some(limit) && limit.nanos == 30_000_000_000,
        interval.timeout == once.timeout && cron.timeout == once.timeout,
        once.misfire is FireOnce && interval.misfire is Skip && cron.misfire is Skip,
        once@.schedule == (ScheduleView::Once { at }),
        interval@.schedule == (ScheduleView::Interval { every, start_at: None }),
        cron@.schedule == (ScheduleView::Cron { expression: expression@, timezone: "UTC"@ }),
{
}

/// A trigger changes only in what it is asked to: its time limit, or the time zone of its cron
/// expression.
pub proof fn law_changed_triggers(
    trigger: Trigger,
    timeout: Option<Span>,
    limited: Trigger,
    timezone: String,
    moved: Trigger,
)
    requires
        call_ensures(Trigger::with_timeout, (trigger, timeout), limited),
        call_ensures(Trigger::with_timezone, (trigger, timezone), moved),
    ensures
        limited.timeout == timeout,
        limited.misfire == trigger.misfire && limited@.schedule == trigger@.schedule,
        moved.timeout == trigger.timeout && moved.misfire == trigger.misfire,
        !(trigger@.schedule is Cron) ==> moved@.schedule == trigger@.schedule,
        trigger@.schedule matches ScheduleView::Cron { expression, .. } ==> moved@.schedule == (
        ScheduleView::Cron { expression, timezone: timezone@ }),
{
}

/// On a clock that supports exactly the delays up to a longest one, the longest supported delay is
/// the shorter of the two.
pub proof fn law_longest_supported_delay<F: Fn(u64) -> bool>(
    supports: F,
    requested: u64,
    longest: u64,
    delay: u64,
)
    requires
        forall|seconds: u64, answer: bool| #[trigger]
            call_ensures(supports, (seconds,), answer) ==> answer == (seconds <= longest),
        call_ensures(latest_supported_delay::<F>, (supports, requested), delay),
    ensures
        delay <= requested && delay <= longest,
        delay == requested || delay == longest,
{
}

/// The named priorities are in order, and a number makes a priority exactly up to ten.
pub proof fn law_named_priorities(
    lowest: JobPriority,
    low: JobPriority,
    normal: JobPriority,
    high: JobPriority,
    critical: JobPriority,
    value: u8,
    made: Result<JobPriority, SchedulerError>,
)
    requires
        call_ensures(JobPriority::lowest, (), lowest),
        call_ensures(JobPriority::low, (), low),
        call_ensures(JobPriority::normal, (), normal),
        call_ensures(JobPriority::high, (), high),
        call_ensures(JobPriority::critical, (), critical),
        call_ensures(JobPriority::new, (value,), made),
    ensures
        lowest.value() < low.value() < normal.value() < high.value() < critical.value(),
        lowest.value() == 0 && normal.value() == 5 && critical.value() == 10,
        made is Ok <==> value <= 10,
        made matches Ok(priority) ==> priority.value() == value,
        made matches Err(error) ==> error == SchedulerError::InvalidPriority(value),
{
}

/// The limits that apply where none are given are in order, and a change of them that names
/// nothing changes nothing.
pub proof fn law_default_limits(
    config: SchedulerConfig,
    checked: Result<(), SchedulerError>,
    patch: SchedulerConfigPatch,
    current: SchedulerConfig,
)
    requires
        call_ensures(SchedulerConfig::default, (), config),
        call_ensures(validate_config, (&config,), checked),
        call_ensures(SchedulerConfigPatch::default, (), patch),
    ensures
        checked is Ok,
        patched_config(current, patch) == current,
        config.global_concurrency == 8 && config.default_job_concurrency == 1,
        config.global_max_pending == 1024 && config.default_job_max_pending == 16,
        config.due_batch_size == 64 && config.max_jobs == 1024,
        config.shutdown_timeout.nanos == 30_000_000_000,
        config.minimum_interval.nanos == 100_000_000,
        config.minimum_retry_delay.nanos == 100_000_000,
        config.maximum_catch_up == 100 && config.maximum_retry_attempts == 10,
        config.event_channel_capacity == 1024 && config.command_channel_capacity == 256,
{
}

/// Jobs without options of their own take the limits of the scheduler, are of ordinary priority,
/// are not retried and are disabled after five failures in a row. A policy without conditions of
/// its own retries transient errors and timeouts. A patch that names nothing keeps everything.
pub proof fn law_default_options(
    options: JobOptions,
    condition: RetryCondition,
    patch: JobPatch,
    other: JobPatch,
)
    requires
        call_ensures(JobOptions::default, (), options),
        call_ensures(RetryCondition::default, (), condition),
        call_ensures(JobPatch::new, (), patch),
        call_ensures(JobPatch::default, (), other),
    ensures
        options.concurrency is None && options.max_pending is None,
        options.coalescing is None && options.capacity is None,
        options.priority.value() == 5,
        options.retry is NoRetry,
        options.failure.disable_after_consecutive_failures == Some(5u32),
        options.failure.count_timeout && options.failure.count_panic,
        condition.transient_error && condition.timeout && !condition.panic,
        patch == other,
        patch.task is None && patch.trigger is None && patch.priority is None,
        patch.coalescing is None && patch.capacity is None,
        patch.retry is None && patch.failure is None,
        patch.concurrency is Keep && patch.max_pending is Keep,
        patch.reschedule is Preserve,
{
}

/// A waiting execution starts for the current version of its job: it takes a slot of the scheduler
/// and one of the job.
pub proof fn law_starts_take_slots(
    actor: &mut SchedulerActor,
    pending: PendingExecution,
    now: Timestamp,
    i: int,
)
    requires
        holds(*old(actor), pending.job_id, i),
        old(actor).total_running < usize::MAX,
        old(actor).jobs@[i].running_count < usize::MAX,
        call_ensures(SchedulerActor::spawn_execution, (actor, pending, now), ()),
    ensures
        final(actor).jobs@.len() == old(actor).jobs@.len(),
        old(actor).jobs@[i].version == pending.version ==> final(actor).total_running == old(
            actor,
        ).total_running + 1 && final(actor).jobs@[i].running_count == old(
            actor,
        ).jobs@[i].running_count + 1 && final(actor).jobs@[i].last_started_at == Some(now),
        old(actor).jobs@[i].version != pending.version ==> final(actor)@ == old(actor)@,
{
    lemma_holds(*old(actor), pending.job_id, i);
    let before = old(actor)@;
    let after = final(actor)@;
    assert(before.jobs.len() == old(actor).jobs@.len());
    assert(after.jobs.len() == final(actor).jobs@.len());
    assert(before.jobs[i] == old(actor).jobs@[i]@);
    assert(after.jobs[i] == final(actor).jobs@[i]@);
}

/// A shutdown drops everything that waits and every timer, and ends with nothing running. The jobs
/// and the limits stay.
pub proof fn law_shutdown_leaves_nothing(
    stopping: &mut SchedulerActor,
    stopped: &mut SchedulerActor,
    now: Timestamp,
)
    requires
        call_ensures(SchedulerActor::begin_shutdown, (stopping, now), ()),
        call_ensures(SchedulerActor::finish_shutdown, (stopped, now), ()),
    ensures
        final(stopping).ready@.len() == 0,
        final(stopping).retry_timers@.len() == 0,
        final(stopping)@.jobs == old(stopping)@.jobs,
        final(stopping).config == old(stopping).config,
        final(stopping).running@ == old(stopping).running@,
        final(stopped).running@.len() == 0,
        final(stopped).total_running == 0,
        final(stopped)@.jobs == old(stopped)@.jobs,
{
    assert(final(stopping)@.ready.len() == 0);
    assert(final(stopping)@.retry_timers.len() == 0);
    assert(final(stopped)@.running.len() == 0);
}

/// An execution that asks for room gets it where the ready queue and the job have some; a one-shot,
/// run-now or retried one is never dropped.
pub proof fn law_offers_are_answered(
    actor: &mut SchedulerActor,
    pending: PendingExecution,
    force: bool,
    now: Timestamp,
    admission: Admission,
    i: int,
)
    requires
        holds(*old(actor), pending.job_id, i),
        old(actor).jobs@[i].coalescing == TriggerCoalescing::KeepAll,
        call_ensures(SchedulerActor::offer, (actor, pending, force, now), admission),
    ensures
        ({
            let job = old(actor).jobs@[i];
            let limit = match job.max_pending {
                Some(own) => own,
                None => old(actor).config.default_job_max_pending,
            };
            let room = old(actor).ready@.len() < old(actor).config.global_max_pending && count_of(
                old(actor).ready@,
                pending.job_id,
            ) < limit;
            &&& room ==> admission is Accepted && final(actor).ready@ == old(actor).ready@.push(
                pending,
            )
            &&& !room && (force || !(pending.kind is Normal) || job.capacity
                == CapacityPolicy::Backpressure) ==> admission is Blocked && final(actor).ready@
                == old(actor).ready@
            &&& !room && !force && pending.kind is Normal && job.capacity
                == CapacityPolicy::SkipNewest ==> admission is Skipped && final(actor).ready@
                == old(actor).ready@
            &&& force || !(pending.kind is Normal) ==> !(admission is Skipped)
        }),
{
    lemma_holds(*old(actor), pending.job_id, i);
}

/// A trigger and its options are accepted by the same rules wherever they are checked, and its
/// queueing is the options' own or the safe one for its sort.
pub proof fn law_triggers_are_checked(
    trigger: Trigger,
    options: JobOptions,
    config: SchedulerConfig,
    checked: Result<(), SchedulerError>,
    policies: (TriggerCoalescing, CapacityPolicy),
)
    requires
        call_ensures(validate_trigger, (&trigger, &options, &config), checked),
        call_ensures(effective_queue_policies, (&trigger, &options), policies),
    ensures
        checked is Ok <==> trigger_error(trigger@, options, config) is None,
        checked is Ok && trigger.misfire is CatchUp ==> policies == (
            TriggerCoalescing::KeepAll,
            CapacityPolicy::Backpressure,
        ),
        trigger.schedule matches Schedule::Interval { every, .. } ==> (checked is Ok ==> every.nanos
            >= config.minimum_interval.nanos),
        options.concurrency == Some(0usize) || options.max_pending == Some(0usize) ==> checked
            is Err,
        options.coalescing matches Some(own) ==> policies.0 == own,
        options.capacity matches Some(own) ==> policies.1 == own,
        options.coalescing is None ==> (policies.0 == TriggerCoalescing::KeepAll
            <==> trigger.schedule is Once || trigger.misfire is CatchUp),
        options.capacity is None ==> (policies.1 == CapacityPolicy::Backpressure
            <==> trigger.schedule is Once || trigger.misfire is CatchUp),
{
    law_accepted_triggers(trigger@, options, config);
    law_queue_policies(trigger@, options);
}

/// An interval goes on in phase: the next occurrence past an instant lies ahead of it, a whole
/// number of periods after the anchor, and no more than one period ahead of both.
pub proof fn law_future_occurrences_are_in_phase(
    every: Span,
    start_at: Option<Timestamp>,
    anchor: Timestamp,
    now: Timestamp,
    next: Option<Timestamp>,
) -> (periods: int)
    requires
        every.nanos > 0,
        representable(anchor.nanos as int),
        representable(now.nanos as int),
        call_ensures(
            next_future_occurrence,
            (&Schedule::Interval { every, start_at }, anchor, now),
            Ok::<Option<Timestamp>, SchedulerError>(next),
        ),
    ensures
        next is Some,
        next->0.nanos > now.nanos,
        periods >= 1,
        next->0.nanos == anchor.nanos + periods * every.nanos,
{
    let view = Schedule::Interval { every, start_at }@;
    assert(view == (ScheduleView::Interval { every, start_at }));
    assert(future_occurrence(view, anchor, now) is Ok);
    let periods = steps_past(anchor, now, every.nanos as int);
    lemma_steps(elapsed_since(anchor, now), every.nanos as int);
    periods
}

/// Whether the ready queue and a job have room for one more execution.
pub open spec fn has_place(actor: SchedulerActor, i: int) -> bool {
    let job = actor.jobs@[i];
    let limit = match job.max_pending {
        Some(own) => own,
        None => actor.config.default_job_max_pending,
    };
    actor.ready@.len() < actor.config.global_max_pending && count_of(actor.ready@, job.id) < limit
}

/// The timer of an update that asked to run at once brings an execution for this moment, and that
/// of a retry the next attempt of its execution; each waits behind the others.
pub proof fn law_timers_bring_their_execution(
    actor: &mut SchedulerActor,
    entry: TimerEntry,
    batch_id: u64,
    now: Timestamp,
    i: int,
)
    requires
        holds(*old(actor), entry.job_id, i),
        old(actor).jobs@[i].version == entry.version,
        old(actor).jobs@[i].state is Enabled,
        has_place(*old(actor), i),
        entry.kind is RunNow || entry.kind is Retry,
        call_ensures(SchedulerActor::handle_timer, (actor, entry, batch_id, now), ()),
    ensures
        final(actor).ready@.len() == old(actor).ready@.len() + 1,
        ({
            let item = final(actor).ready@.last();
            &&& item.job_id == entry.job_id
            &&& item.version == entry.version
            &&& item.priority == old(actor).jobs@[i].priority
            &&& item.batch_id == batch_id
            &&& entry.kind is RunNow ==> item.scheduled_at == now && item.attempt == 1
            &&& entry.kind matches TimerKind::Retry { run_id, scheduled_at, attempt } ==> {
                &&& item.run_id == run_id
                &&& item.scheduled_at == scheduled_at
                &&& item.attempt == attempt
                &&& item.kind is Retry
            }
        }),
{
    lemma_holds(*old(actor), entry.job_id, i);
    let before = old(actor)@;
    let run_ids = choose|run_ids: Seq<RunId>|
        final(actor)@ == #[trigger] before.timer_handled(entry, batch_id, now, run_ids);
    if entry.kind is RunNow {
        law_run_now_fires_at_once(before, entry, batch_id, now, run_ids);
    } else {
        law_retry_timer_brings_the_attempt_back(before, entry, batch_id, now, run_ids);
    }
}

/// The timer of a period that fires in time brings an execution for the planned instant, and the
/// next period is planned one interval later.
pub proof fn law_timers_of_periods_go_on(
    actor: &mut SchedulerActor,
    entry: TimerEntry,
    batch_id: u64,
    now: Timestamp,
    i: int,
    every: Span,
    start_at: Option<Timestamp>,
)
    requires
        holds(*old(actor), entry.job_id, i),
        old(actor).jobs@[i].version == entry.version,
        old(actor).jobs@[i].state is Enabled,
        old(actor).jobs@[i].coalescing == TriggerCoalescing::KeepAll,
        old(actor).jobs@[i].trigger.schedule == (Schedule::Interval { every, start_at }),
        has_place(*old(actor), i),
        entry.kind == TimerKind::Normal,
        every.nanos <= LARGEST_DELTA_MILLIS * NANOS_PER_MILLI,
        representable(entry.run_at.nanos + every.nanos),
        now.nanos < entry.run_at.nanos + every.nanos,
        call_ensures(SchedulerActor::handle_timer, (actor, entry, batch_id, now), ()),
    ensures
        final(actor).ready@.len() == old(actor).ready@.len() + 1,
        final(actor).ready@.last().job_id == entry.job_id,
        final(actor).ready@.last().scheduled_at == entry.run_at,
        final(actor).ready@.last().attempt == 1,
        final(actor).ready@.last().kind is Normal,
        final(actor)@.has_job(entry.job_id),
        final(actor)@.job(entry.job_id).next_run_at matches Some(next) && next.nanos
            == entry.run_at.nanos + every.nanos,
{
    lemma_holds(*old(actor), entry.job_id, i);
    let before = old(actor)@;
    let run_ids = choose|run_ids: Seq<RunId>|
        final(actor)@ == #[trigger] before.timer_handled(entry, batch_id, now, run_ids);
    let trigger = old(actor).jobs@[i].trigger@;
    law_timely_interval_runs_as_planned(
        trigger,
        every,
        start_at,
        entry.run_at,
        now,
        before.config.maximum_catch_up,
    );
    let found = due(trigger, entry.run_at, now, before.config.maximum_catch_up)->Ok_0;
    assert(found.occurrences == seq![entry.run_at]);
    law_timely_period_waits_and_goes_on(
        before,
        entry,
        batch_id,
        now,
        run_ids,
        entry.run_at,
        found.next,
    );
}

/// Every request gets its own sort of answer. Looking, and the request to stop, change nothing. A
/// request that names a job or a revision that has moved on is refused and changes nothing; one
/// for the present version of an existing job is carried out for that job alone.
pub proof fn law_requests_are_carried_out(
    actor: &mut SchedulerActor,
    command: Command,
    now: Timestamp,
    reply: Reply,
    i: int,
)
    requires
        0 <= i < old(actor).jobs@.len(),
        forall|k: int| 0 <= k < i ==> (#[trigger] old(actor).jobs@[k]).id != old(actor).jobs@[i].id,
        call_ensures(SchedulerActor::handle_command, (actor, command, now), reply),
    ensures
        ({
            let job = old(actor).jobs@[i];
            let same = final(actor)@ == old(actor)@;
            match command {
                Command::Get { job_id } => {
                    &&& same && reply is Found
                    &&& job_id == job.id ==> reply->Found_0 is Some && reply->Found_0->0.version
                        == job.version
                },
                Command::List => same && reply is Listed && reply->Listed_0@.len() == old(
                    actor,
                ).jobs@.len() && reply->Listed_0@[i].id == job.id,
                Command::GetConfig => same && reply is Config && reply->Config_0.config == old(
                    actor,
                ).config && reply->Config_0.revision == old(actor).config_revision,
                Command::Shutdown => same && reply is Stop,
                Command::Delete { job_id, expected_version } => {
                    &&& reply is Deleted
                    &&& reply->Deleted_0 is Err ==> same
                    &&& job_id == job.id ==> (reply->Deleted_0 is Ok <==> expected_version
                        == job.version)
                },
                Command::Disable { job_id, expected_version, .. } => {
                    &&& reply is Changed
                    &&& reply->Changed_0 is Err ==> same
                    &&& job_id == job.id ==> (reply->Changed_0 is Ok <==> expected_version
                        == job.version && expected_version < u64::MAX)
                },
                Command::Enable { job_id, expected_version } => {
                    &&& reply is Changed
                    &&& job_id == job.id && expected_version != job.version ==> reply->Changed_0
                        is Err && same
                    &&& job_id == job.id && expected_version == job.version && job.state is Enabled
                        ==> reply->Changed_0 is Ok && same
                },
                Command::Update { job_id, expected_version, .. } => {
                    &&& reply is Changed
                    &&& reply->Changed_0 is Err ==> same
                    &&& job_id == job.id && expected_version != job.version ==> reply->Changed_0
                        is Err
                },
                Command::UpdateConfig { expected_revision, .. } => {
                    &&& reply is Reconfigured
                    &&& reply->Reconfigured_0 is Err ==> same
                    &&& expected_revision != old(actor).config_revision
                        ==> reply->Reconfigured_0 is Err
                },
                Command::Add { job_id, fresh_id, .. } => {
                    &&& reply is Added
                    &&& reply->Added_0 is Err ==> same
                    &&& job_id == Some(job.id) ==> reply->Added_0 is Err
                    &&& reply->Added_0 matches Ok(id) ==> id == (match job_id {
                        Some(wanted) => wanted,
                        None => fresh_id,
                    })
                },
            }
        }),
{
    let job = old(actor).jobs@[i];
    lemma_holds(*old(actor), job.id, i);
    let before = old(actor)@;
    assert(before.jobs.len() == old(actor).jobs@.len());
    assert(before.jobs[i] == job@);
}

} // verus!
