//! What holds of a job from its registration to its removal, and of the scheduler's limits.

use super::super::config::{
    patched_config, SchedulerConfig, SchedulerConfigPatch, SchedulerErrorView,
};
use super::super::cron::cron_next;
use super::super::model::{
    JobId, JobOptions, JobPatch, JobStateView, PatchValue, RescheduleMode, ScheduleView,
    TriggerCoalescing, TriggerView,
};
use super::super::queue::{count_of, of_other_job, PendingExecution, TimerEntry, TimerKind};
use super::super::task::{TaskBindingView, TaskCancellationMode};
use super::super::time::Timestamp;
use super::super::timing::trigger_error;
use super::laws::{
    law_added_job_is_found, law_deleted_job_is_gone, law_disabled_job_is_at_rest,
    law_update_moves_one_job, lemma_nothing_of_job,
};
use super::lifecycle::{carried_out, Command, Reply};
use super::management::{cancellation_error, violates_limits, JobUpdatePlan};
use super::scheduling::lemma_filter_subset;
use super::{
    answer_view, cancels, job_position, lemma_job_position, lemma_some_position, lemma_with_job,
    retry_of_other, runs_version, unique_jobs, EffectView, JobView, RunningExecution,
    SchedulerState,
};
use vstd::prelude::*;

verus! {

/// States whose jobs have the same identifiers in the same order find a job at the same place.
pub proof fn lemma_same_ids(a: SchedulerState, b: SchedulerState, job_id: JobId)
    requires
        a.has_job(job_id),
        a.jobs.len() == b.jobs.len(),
        forall|i: int| 0 <= i < a.jobs.len() ==> (#[trigger] b.jobs[i]).id == a.jobs[i].id,
    ensures
        b.has_job(job_id),
        b.position(job_id) == a.position(job_id),
        0 <= a.position(job_id) < a.jobs.len(),
        a.job(job_id).id == job_id,
{
    let i = a.position(job_id);
    assert(job_position(a.jobs, job_id, i));
    assert forall|k: int| 0 <= k < i implies (#[trigger] b.jobs[k]).id != job_id by {
        assert(a.jobs[k].id != job_id);
    }
    assert(b.jobs[i].id == a.jobs[i].id);
    assert(job_position(b.jobs, job_id, i));
    lemma_job_position(b, job_id, i);
}

/// First instant at which a trigger is planned that is registered, enabled or given anew at
/// `now`; `None` where a cron expression has no further occurrence.
pub open spec fn first_planned(trigger: TriggerView, now: Timestamp) -> Option<Timestamp> {
    match trigger.schedule {
        ScheduleView::Once { at } => Some(
            if at.nanos >= now.nanos {
                at
            } else {
                now
            },
        ),
        ScheduleView::Interval { every, start_at: Some(start) } => Some(start),
        ScheduleView::Interval { every, start_at: None } => Some(now),
        ScheduleView::Cron { expression, timezone } => match cron_next(expression, timezone, now) {
            Ok(next) => Some(next),
            Err(_) => None,
        },
    }
}

/// A new job is stored as it was given. Where it is enabled its first run is planned: a timer is
/// set for the instant that its trigger names. A disabled one has no timer.
pub proof fn law_new_job_is_planned(
    state: SchedulerState,
    id: JobId,
    generation: u64,
    enabled: bool,
    trigger: TriggerView,
    task: TaskBindingView,
    options: JobOptions,
    now: Timestamp,
)
    requires
        !state.has_job(id),
        unique_jobs(state),
        first_planned(trigger, now) is Some,
    ensures
        ({
            let next = state.added(id, generation, enabled, trigger, task, options, now);
            let job = next.job(id);
            let run_at = first_planned(trigger, now)->0;
            &&& next.has_job(id)
            &&& job.id == id
            &&& job.version == generation
            &&& job.trigger == trigger
            &&& job.task == task
            &&& job.concurrency == options.concurrency
            &&& job.max_pending == options.max_pending
            &&& job.priority == options.priority
            &&& job.retry == options.retry
            &&& job.failure == options.failure
            &&& options.coalescing is Some ==> job.coalescing == options.coalescing->0
            &&& options.capacity is Some ==> job.capacity == options.capacity->0
            &&& job.running_count == 0
            &&& job.consecutive_failures == 0
            &&& job.blocked.len() == 0
            &&& job.created_at == now
            &&& enabled ==> {
                &&& job.state is Enabled
                &&& job.next_run_at == Some(run_at)
                &&& job.normal_timer_key == Some(state.next_timer_key)
                &&& next.effects.contains(
                    EffectView::ArmTimer {
                        key: state.next_timer_key,
                        entry: TimerEntry {
                            job_id: id,
                            version: generation,
                            run_at,
                            kind: TimerKind::Normal,
                        },
                    },
                )
            }
            &&& !enabled ==> {
                &&& job.state is Disabled
                &&& job.next_run_at is None
                &&& job.normal_timer_key is None
                &&& next.next_timer_key == state.next_timer_key
            }
            &&& next.ready == state.ready
            &&& next.running == state.running
            &&& next.retry_timers == state.retry_timers
        }),
{
    law_added_job_is_found(state, id, generation, enabled, trigger, task, options, now);
    let next = state.added(id, generation, enabled, trigger, task, options, now);
    let n = state.jobs.len() as int;
    let off = state.added(id, generation, false, trigger, task, options, now);
    let listed_jobs = off.jobs;
    assert forall|k: int| 0 <= k < n implies (#[trigger] listed_jobs[k]).id != id by {
        if state.jobs[k].id == id {
            lemma_some_position(state, id, k);
        }
        assert(listed_jobs[k] == state.jobs[k]);
    }
    assert(job_position(listed_jobs, id, n));
    lemma_job_position(off, id, n);
    if enabled {
        let entry = TimerEntry {
            job_id: id,
            version: generation,
            run_at: first_planned(trigger, now)->0,
            kind: TimerKind::Normal,
        };
        let listed = SchedulerState {
            jobs: next.jobs.update(
                n,
                JobView {
                    normal_timer_key: None,
                    next_run_at: None,
                    ..next.jobs[n]
                },
            ),
            ..state
        };
        assert(listed.jobs[n].id == id);
        assert(job_position(listed.jobs, id, n)) by {
            assert forall|k: int| 0 <= k < n implies (#[trigger] listed.jobs[k]).id != id by {
                assert(next.jobs[k] == next.jobs.take(n)[k]);
                assert(state.jobs[k].id != id) by {
                    if state.jobs[k].id == id {
                        lemma_some_position(state, id, k);
                    }
                }
            }
        }
        lemma_job_position(listed, id, n);
        assert(next.effects[state.effects.len() as int] == (EffectView::ArmTimer {
            key: state.next_timer_key,
            entry,
        }));
    }
}

/// A job is registered exactly where there is room for it, its trigger passes the check, a task
/// that runs to its end has no timeout, the wanted identifier is free and there is a first run.
pub proof fn law_registration_checks(
    state: SchedulerState,
    requested: Option<JobId>,
    trigger: TriggerView,
    mode: TaskCancellationMode,
    options: JobOptions,
    now: Timestamp,
)
    ensures
        state.add_error(requested, trigger, mode, options, now) is None <==> {
            &&& state.jobs.len() < state.config.max_jobs
            &&& trigger_error(trigger, options, state.config) is None
            &&& !(mode == TaskCancellationMode::NonCancellable && trigger.timeout is Some)
            &&& requested matches Some(id) ==> !state.has_job(id)
            &&& first_planned(trigger, now) is Some
        },
        state.jobs.len() >= state.config.max_jobs ==> state.add_error(
            requested,
            trigger,
            mode,
            options,
            now,
        ) == Some(SchedulerErrorView::MaximumJobsReached(state.config.max_jobs)),
        state.jobs.len() < state.config.max_jobs && trigger_error(trigger, options, state.config)
            is None && trigger.timeout is None && requested is Some && state.has_job(requested->0)
            ==> state.add_error(requested, trigger, mode, options, now) == Some(
            SchedulerErrorView::JobAlreadyExists(requested->0),
        ),
{
}

/// A task that runs to its end cannot have a timeout; every other combination is in order.
pub proof fn law_lasting_tasks_have_no_timeout(trigger: TriggerView, mode: TaskCancellationMode)
    ensures
        cancellation_error(trigger, mode) is Some <==> mode == TaskCancellationMode::NonCancellable
            && trigger.timeout is Some,
        cancellation_error(trigger, mode) matches Some(error) ==> error is InvalidTrigger,
{
}

/// A job breaks the limits exactly where its trigger with its own options does, or where it runs
/// to its end and has a timeout.
pub proof fn law_jobs_are_held_to_the_limits(job: JobView, config: SchedulerConfig)
    ensures
        violates_limits(job, config) <==> {
            ||| trigger_error(
                job.trigger,
                JobOptions {
                    concurrency: job.concurrency,
                    max_pending: job.max_pending,
                    priority: job.priority,
                    coalescing: Some(job.coalescing),
                    capacity: Some(job.capacity),
                    retry: job.retry,
                    failure: job.failure,
                },
                config,
            ) is Some
            ||| job.task.cancellation_mode == TaskCancellationMode::NonCancellable
                && job.trigger.timeout is Some
        },
{
}

/// What a patch leaves of an optional limit.
pub open spec fn limit_after(current: Option<usize>, patch: PatchValue<usize>) -> Option<usize> {
    match patch {
        PatchValue::Keep => current,
        PatchValue::Assign(limit) => Some(limit),
        PatchValue::Inherit => None,
    }
}

/// An update changes exactly the parts of the job's configuration that the patch names. The job
/// keeps its state and what it counts of its executions.
pub proof fn law_update_changes_what_it_names(
    state: SchedulerState,
    job_id: JobId,
    expected: u64,
    patch: JobPatch,
    plan: JobUpdatePlan,
    now: Timestamp,
)
    requires
        state.planned_update(job_id, expected, patch, now) == Ok::<
            JobUpdatePlan,
            SchedulerErrorView,
        >(plan),
    ensures
        ({
            let before = state.job(job_id);
            let after = state.updated(job_id, expected, patch, plan, now).job(job_id);
            &&& before.version == expected
            &&& after.version == expected + 1
            &&& patch.trigger is Some ==> after.trigger == patch.trigger->0@
            &&& patch.trigger is None ==> after.trigger == before.trigger
            &&& patch.task is Some ==> after.task == patch.task->0@
            &&& patch.task is None ==> after.task == before.task
            &&& after.concurrency == limit_after(before.concurrency, patch.concurrency)
            &&& after.max_pending == limit_after(before.max_pending, patch.max_pending)
            &&& patch.priority is Some ==> after.priority == patch.priority->0
            &&& patch.priority is None ==> after.priority == before.priority
            &&& patch.coalescing is Some ==> after.coalescing == patch.coalescing->0
            &&& patch.coalescing is None ==> after.coalescing == before.coalescing
            &&& patch.capacity is Some ==> after.capacity == patch.capacity->0
            &&& patch.capacity is None ==> after.capacity == before.capacity
            &&& patch.retry is Some ==> after.retry == patch.retry->0
            &&& patch.retry is None ==> after.retry == before.retry
            &&& patch.failure is Some ==> after.failure == patch.failure->0
            &&& patch.failure is None ==> after.failure == before.failure
            &&& after.id == job_id
            &&& after.state == before.state
            &&& after.running_count == before.running_count
            &&& after.created_at == before.created_at
            &&& after.updated_at == now
            &&& after.consecutive_failures == (if patch.trigger is Some || patch.task is Some {
                0
            } else {
                before.consecutive_failures
            })
        }),
{
    lemma_updated(state, job_id, expected, patch, plan, now);
}

/// The job after an update that was planned.
pub proof fn lemma_updated(
    state: SchedulerState,
    job_id: JobId,
    expected: u64,
    patch: JobPatch,
    plan: JobUpdatePlan,
    now: Timestamp,
)
    requires
        state.planned_update(job_id, expected, patch, now) == Ok::<
            JobUpdatePlan,
            SchedulerErrorView,
        >(plan),
    ensures
        ({
            let next = state.updated(job_id, expected, patch, plan, now);
            let job = state.updated_job(job_id, patch, plan, now);
            &&& next.has_job(job_id)
            &&& next.job(job_id) == (if job.state is Enabled && plan.next_run_at is Some {
                JobView {
                    normal_timer_key: Some(state.next_timer_key),
                    next_run_at: plan.next_run_at,
                    ..job
                }
            } else {
                job
            })
        }),
{
    let job = state.updated_job(job_id, patch, plan, now);
    lemma_with_job(state, job_id, state.job(job_id));
    lemma_with_job(state, job_id, job);
    law_update_moves_one_job(state, job_id, expected, patch, plan, now);
    let i = state.position(job_id);
    let moved = SchedulerState {
        ready: state.updated_ready(job_id, patch, plan, now),
        ..state.with_job(job_id, job).disarm(state.job(job_id).normal_timer_key).clear_retries(
            job_id,
        )
    };
    assert(moved.jobs == state.with_job(job_id, job).jobs);
    assert(job_position(state.with_job(job_id, job).jobs, job_id, i));
    lemma_job_position(moved, job_id, i);
    let next = state.updated(job_id, expected, patch, plan, now);
    assert forall|k: int| 0 <= k < i implies (#[trigger] next.jobs[k]).id != job_id by {
        assert(job_position(state.jobs, job_id, i));
        assert(state.jobs[k].id != job_id);
    }
    assert(job_position(next.jobs, job_id, i));
    lemma_job_position(next, job_id, i);
}

/// An update plans the next run of an enabled job: at once where it asks for that, by its trigger
/// where that is new or the update asks to plan anew, and else as it was planned before. A job that
/// is not enabled gets no timer.
pub proof fn law_update_plans_the_next_run(
    state: SchedulerState,
    job_id: JobId,
    expected: u64,
    patch: JobPatch,
    plan: JobUpdatePlan,
    now: Timestamp,
)
    requires
        state.planned_update(job_id, expected, patch, now) == Ok::<
            JobUpdatePlan,
            SchedulerErrorView,
        >(plan),
    ensures
        ({
            let before = state.job(job_id);
            let next = state.updated(job_id, expected, patch, plan, now);
            let after = next.job(job_id);
            &&& before.state is Enabled ==> {
                &&& patch.reschedule == RescheduleMode::RunNow ==> after.next_run_at == Some(now)
                &&& patch.reschedule == RescheduleMode::Recalculate || (patch.reschedule
                    == RescheduleMode::Preserve && (patch.trigger is Some || before.next_run_at
                    is None)) ==> after.next_run_at is Some && after.next_run_at == first_planned(
                    after.trigger,
                    now,
                )
                &&& patch.reschedule == RescheduleMode::Preserve && patch.trigger is None
                    && before.next_run_at is Some ==> after.next_run_at == before.next_run_at
                &&& after.normal_timer_key == Some(state.next_timer_key)
            }
            &&& !(before.state is Enabled) ==> after.next_run_at is None && after.normal_timer_key
                is None
        }),
{
    lemma_updated(state, job_id, expected, patch, plan, now);
}

/// An update of the trigger or the task drops everything of the job that waits and asks what runs
/// of the old version to stop; any other update keeps what waits, moved to the new version. The
/// retry timers of the job are dropped either way.
pub proof fn law_update_and_what_waits(
    state: SchedulerState,
    job_id: JobId,
    expected: u64,
    patch: JobPatch,
    plan: JobUpdatePlan,
    now: Timestamp,
)
    requires
        state.planned_update(job_id, expected, patch, now) == Ok::<
            JobUpdatePlan,
            SchedulerErrorView,
        >(plan),
    ensures
        ({
            let next = state.updated(job_id, expected, patch, plan, now);
            let after = next.job(job_id);
            &&& forall|i: int|
                0 <= i < next.retry_timers.len() ==> (#[trigger] next.retry_timers[i]).job_id
                    != job_id
            &&& patch.trigger is Some || patch.task is Some ==> {
                &&& count_of(next.ready, job_id) == 0
                &&& after.blocked.len() == 0
                &&& forall|i: int|
                    0 <= i < state.running.len() && (#[trigger] state.running[i]).job_id == job_id
                        && state.running[i].version == expected ==> asked_to_stop(
                        next,
                        state.running[i].run_id,
                    )
            }
            &&& patch.trigger is None && patch.task is None ==> {
                &&& after.blocked.len() == state.job(job_id).blocked.len()
                &&& forall|i: int|
                    0 <= i < after.blocked.len() ==> (#[trigger] after.blocked[i])
                        == (PendingExecution {
                        version: after.version,
                        priority: after.priority,
                        ..state.job(job_id).blocked[i]
                    })
                &&& after.coalescing == TriggerCoalescing::KeepAll ==> {
                    &&& next.ready.len() == state.ready.len()
                    &&& forall|i: int|
                        0 <= i < next.ready.len() ==> (#[trigger] next.ready[i]) == (
                        if state.ready[i].job_id == job_id {
                            PendingExecution {
                                version: after.version,
                                priority: after.priority,
                                ..state.ready[i]
                            }
                        } else {
                            state.ready[i]
                        })
                }
            }
        }),
{
    lemma_updated(state, job_id, expected, patch, plan, now);
    lemma_filter_subset(state.ready, of_other_job(job_id));
    lemma_filter_subset(state.retry_timers, retry_of_other(job_id));
    let next = state.updated(job_id, expected, patch, plan, now);
    if patch.trigger is Some || patch.task is Some {
        lemma_nothing_of_job(next.ready, job_id);
        let stops = cancels(state.running.filter(runs_version(job_id, expected)));
        let earlier = (next.effects.len() - 1 - stops.len()) as int;
        assert forall|i: int|
            0 <= i < state.running.len() && (#[trigger] state.running[i]).job_id == job_id
                && state.running[i].version == expected implies asked_to_stop(
            next,
            state.running[i].run_id,
        ) by {
            lemma_cancels(state.running, job_id, expected, i);
            let e = choose|e: int|
                0 <= e < stops.len() && #[trigger] stops[e] == (EffectView::Cancel {
                    run_id: state.running[i].run_id,
                });
            assert(next.effects[earlier + e] == stops[e]);
        }
    }
}

/// Whether the runtime is asked to stop an execution.
pub open spec fn asked_to_stop(state: SchedulerState, run_id: super::super::model::RunId) -> bool {
    exists|e: int|
        0 <= e < state.effects.len() && #[trigger] state.effects[e] == (EffectView::Cancel {
            run_id,
        })
}

/// Every running execution of a version is among those asked to stop.
pub proof fn lemma_cancels(
    running: Seq<RunningExecution>,
    job_id: JobId,
    version: u64,
    i: int,
)
    requires
        0 <= i < running.len(),
        running[i].job_id == job_id,
        running[i].version == version,
    ensures
        ({
            let stops = cancels(running.filter(runs_version(job_id, version)));
            exists|e: int|
                0 <= e < stops.len() && #[trigger] stops[e] == (EffectView::Cancel {
                    run_id: running[i].run_id,
                })
        }),
    decreases running.len(),
{
    reveal(Seq::filter);
    let keep = runs_version(job_id, version);
    let front = running.drop_last();
    let stops = cancels(running.filter(keep));
    if i == running.len() - 1 {
        assert(keep(running.last()));
        let last = running.filter(keep).len() - 1;
        assert(stops[last] == (EffectView::Cancel { run_id: running[i].run_id }));
    } else {
        assert(front[i] == running[i]);
        lemma_cancels(front, job_id, version, i);
        let known = cancels(front.filter(keep));
        let e = choose|e: int|
            0 <= e < known.len() && #[trigger] known[e] == (EffectView::Cancel {
                run_id: running[i].run_id,
            });
        assert(stops[e] == known[e]);
    }
}

/// A job that is enabled gets the next version, a clean count of failures and a timer for the
/// first instant that its trigger names; nothing of its past waits.
pub proof fn law_enabled_job_starts_afresh(state: SchedulerState, job_id: JobId, now: Timestamp)
    requires
        state.has_job(job_id),
        state.job(job_id).version < u64::MAX,
        first_planned(state.job(job_id).trigger, now) is Some,
    ensures
        state.enable_error(job_id, now) is None,
        ({
            let next = state.enabled(job_id, now);
            let job = next.job(job_id);
            let run_at = first_planned(state.job(job_id).trigger, now)->0;
            &&& next.has_job(job_id)
            &&& job.state is Enabled
            &&& job.version == state.job(job_id).version + 1
            &&& job.consecutive_failures == 0
            &&& job.next_run_at == Some(run_at)
            &&& job.trigger == state.job(job_id).trigger
            &&& count_of(next.ready, job_id) == 0
            &&& next.effects.contains(
                EffectView::ArmTimer {
                    key: state.next_timer_key,
                    entry: TimerEntry {
                        job_id,
                        version: job.version,
                        run_at,
                        kind: TimerKind::Normal,
                    },
                },
            )
            &&& forall|i: int|
                0 <= i < next.retry_timers.len() ==> (#[trigger] next.retry_timers[i]).job_id
                    != job_id
        }),
{
    let job = state.job(job_id);
    let i = state.position(job_id);
    let cleared = state.clear_ready(job_id).clear_retries(job_id);
    lemma_same_ids(state, cleared, job_id);
    let renewed = JobView {
        version: (job.version + 1) as u64,
        state: JobStateView::Enabled,
        consecutive_failures: 0,
        updated_at: now,
        ..job
    };
    lemma_with_job(cleared, job_id, renewed);
    let middle = cleared.with_job(job_id, renewed);
    let next = state.enabled(job_id, now);
    lemma_same_ids(middle, next, job_id);
    lemma_filter_subset(state.ready, of_other_job(job_id));
    lemma_nothing_of_job(next.ready, job_id);
    lemma_filter_subset(state.retry_timers, retry_of_other(job_id));
    let armed = (next.effects.len() - 3) as int;
    assert(next.effects[armed] == (EffectView::ArmTimer {
        key: state.next_timer_key,
        entry: TimerEntry {
            job_id,
            version: renewed.version,
            run_at: first_planned(job.trigger, now)->0,
            kind: TimerKind::Normal,
        },
    }));
}

/// A job cannot be enabled exactly where its version cannot grow or its trigger has no first run.
pub proof fn law_enabling_is_refused(state: SchedulerState, job_id: JobId, now: Timestamp)
    ensures
        state.enable_error(job_id, now) is Some <==> first_planned(state.job(job_id).trigger, now)
            is None || state.job(job_id).version == u64::MAX,
{
}

/// Disabling a job asks everything of its version that runs to stop, and drops its timer.
pub proof fn law_disabling_stops_what_runs(
    state: SchedulerState,
    job_id: JobId,
    reason: Seq<char>,
    now: Timestamp,
)
    requires
        state.has_job(job_id),
        state.job(job_id).version < u64::MAX,
    ensures
        ({
            let next = state.disabled(job_id, reason, now);
            &&& forall|i: int|
                0 <= i < state.running.len() && (#[trigger] state.running[i]).job_id == job_id
                    && state.running[i].version == state.job(job_id).version ==> asked_to_stop(
                    next,
                    state.running[i].run_id,
                )
            &&& state.job(job_id).normal_timer_key matches Some(key) ==> next.effects.contains(
                EffectView::DisarmTimer { key },
            )
            &&& next.jobs.len() == state.jobs.len()
            &&& forall|i: int|
                0 <= i < state.jobs.len() && i != state.position(job_id)
                    ==> #[trigger] next.jobs[i] == state.jobs[i]
        }),
{
    let next = state.disabled(job_id, reason, now);
    let version = state.job(job_id).version;
    let stops = cancels(state.running.filter(runs_version(job_id, version)));
    let earlier = (next.effects.len() - 1 - stops.len()) as int;
    assert forall|i: int|
        0 <= i < state.running.len() && (#[trigger] state.running[i]).job_id == job_id
            && state.running[i].version == version implies asked_to_stop(
        next,
        state.running[i].run_id,
    ) by {
        lemma_cancels(state.running, job_id, version, i);
        let e = choose|e: int|
            0 <= e < stops.len() && #[trigger] stops[e] == (EffectView::Cancel {
                run_id: state.running[i].run_id,
            });
        assert(next.effects[earlier + e] == stops[e]);
    }
    if let Some(key) = state.job(job_id).normal_timer_key {
        assert(next.effects[state.effects.len() as int] == (EffectView::DisarmTimer { key }));
    }
}

/// Removing a job drops its timers and, where that is wanted, asks what runs of it to stop; the
/// other jobs stay as they are, in their order.
pub proof fn law_deletion_leaves_the_others(
    state: SchedulerState,
    job_id: JobId,
    version: u64,
    cancel_running: bool,
    now: Timestamp,
)
    requires
        state.has_job(job_id),
    ensures
        ({
            let next = state.deleted(job_id, version, cancel_running, now);
            let p = state.position(job_id);
            &&& next.jobs.len() == state.jobs.len() - 1
            &&& forall|i: int| 0 <= i < p ==> #[trigger] next.jobs[i] == state.jobs[i]
            &&& forall|i: int| p <= i < next.jobs.len() ==> #[trigger] next.jobs[i] == state.jobs[i
                + 1]
            &&& forall|i: int|
                0 <= i < next.retry_timers.len() ==> (#[trigger] next.retry_timers[i]).job_id
                    != job_id
            &&& state.job(job_id).normal_timer_key matches Some(key) ==> next.effects.contains(
                EffectView::DisarmTimer { key },
            )
            &&& cancel_running ==> forall|i: int|
                0 <= i < state.running.len() && (#[trigger] state.running[i]).job_id == job_id
                    && state.running[i].version == version ==> asked_to_stop(
                    next,
                    state.running[i].run_id,
                )
        }),
{
    assert(job_position(state.jobs, job_id, state.position(job_id)));
    let next = state.deleted(job_id, version, cancel_running, now);
    lemma_filter_subset(state.retry_timers, retry_of_other(job_id));
    if let Some(key) = state.job(job_id).normal_timer_key {
        assert(next.effects[state.effects.len() as int] == (EffectView::DisarmTimer { key }));
    }
    if cancel_running {
        let stops = cancels(state.running.filter(runs_version(job_id, version)));
        let earlier = (next.effects.len() - 1 - stops.len()) as int;
        assert forall|i: int|
            0 <= i < state.running.len() && (#[trigger] state.running[i]).job_id == job_id
                && state.running[i].version == version implies asked_to_stop(
            next,
            state.running[i].run_id,
        ) by {
            lemma_cancels(state.running, job_id, version, i);
            let e = choose|e: int|
                0 <= e < stops.len() && #[trigger] stops[e] == (EffectView::Cancel {
                    run_id: state.running[i].run_id,
                });
            assert(next.effects[earlier + e] == stops[e]);
        }
    }
}

/// Version that a request expects the job to have, with the job, for requests that name one.
pub open spec fn expectation(command: Command) -> Option<(JobId, u64)> {
    match command {
        Command::Update { job_id, expected_version, .. } => Some((job_id, expected_version)),
        Command::Enable { job_id, expected_version } => Some((job_id, expected_version)),
        Command::Disable { job_id, expected_version, .. } => Some((job_id, expected_version)),
        Command::Delete { job_id, expected_version } => Some((job_id, expected_version)),
        _ => None,
    }
}

/// Why a request was refused, where it was.
pub open spec fn refusal(reply: Reply) -> Option<SchedulerErrorView> {
    match reply {
        Reply::Added(Err(error)) => Some(error@),
        Reply::Changed(Err(error)) => Some(error@),
        Reply::Deleted(Err(error)) => Some(error@),
        Reply::Reconfigured(Err(error)) => Some(error@),
        _ => None,
    }
}

/// A request that expects another version than the job has changes nothing and is told both; one
/// for a job that does not exist changes nothing and is told so.
pub proof fn law_conflicting_requests_change_nothing(
    before: SchedulerState,
    command: Command,
    now: Timestamp,
    after: SchedulerState,
    reply: Reply,
)
    requires
        carried_out(before, command, now, after, reply),
        expectation(command) is Some,
    ensures
        ({
            let (job_id, expected) = expectation(command)->0;
            &&& !before.has_job(job_id) ==> after == before && refusal(reply) == Some(
                SchedulerErrorView::JobNotFound(job_id),
            )
            &&& before.has_job(job_id) && before.job(job_id).version != expected ==> after == before
                && refusal(reply) == Some(
                SchedulerErrorView::VersionConflict {
                    job_id,
                    expected,
                    actual: before.job(job_id).version,
                },
            )
        }),
{
}

/// Requests that only show something change nothing.
pub proof fn law_looking_changes_nothing(
    before: SchedulerState,
    command: Command,
    now: Timestamp,
    after: SchedulerState,
    reply: Reply,
)
    requires
        carried_out(before, command, now, after, reply),
        command is Get || command is List || command is GetConfig || command is Shutdown,
    ensures
        after == before,
        command matches Command::Get { job_id } ==> (reply->Found_0 is Some <==> before.has_job(
            job_id,
        )),
        command matches Command::Get { job_id } ==> (reply->Found_0 is Some ==> {
            let shown = reply->Found_0->0@;
            let job = before.job(job_id);
            &&& shown.id == job.id
            &&& shown.version == job.version
            &&& shown.state == job.state
            &&& shown.trigger == job.trigger
            &&& shown.next_run_at == job.next_run_at
            &&& shown.running_count == job.running_count
            &&& shown.consecutive_failures == job.consecutive_failures
            &&& shown.last_outcome == job.last_outcome
            &&& shown.priority == job.priority
            &&& job.concurrency is Some ==> shown.concurrency == job.concurrency->0
            &&& job.concurrency is None ==> shown.concurrency
                == before.config.default_job_concurrency
            &&& job.max_pending is Some ==> shown.max_pending == job.max_pending->0
            &&& job.max_pending is None ==> shown.max_pending
                == before.config.default_job_max_pending
            &&& count_of(before.ready, job.id) + job.blocked.len() <= usize::MAX
                ==> shown.pending_count == count_of(before.ready, job.id) + job.blocked.len()
        }),
        command is GetConfig ==> reply->Config_0.revision == before.config_revision
            && reply->Config_0.config == before.config,
{
}

/// A request that is not refused does what it says: a disabled job rests for the given reason, an
/// enabled one is enabled, a deleted one is gone, an updated one has the next version.
pub proof fn law_requests_do_what_they_say(
    before: SchedulerState,
    command: Command,
    now: Timestamp,
    after: SchedulerState,
    reply: Reply,
)
    requires
        carried_out(before, command, now, after, reply),
        expectation(command) is Some,
        refusal(reply) is None,
        unique_jobs(before),
    ensures
        ({
            let (job_id, expected) = expectation(command)->0;
            &&& before.has_job(job_id)
            &&& before.job(job_id).version == expected
            &&& match command {
                Command::Update { .. } => after.has_job(job_id) && after.job(job_id).version
                    == expected + 1 && after.job(job_id).state == before.job(job_id).state,
                Command::Enable { .. } => after.has_job(job_id) && after.job(job_id).state
                    is Enabled && (before.job(job_id).state is Enabled ==> after == before),
                Command::Disable { reason, .. } => after.has_job(job_id) && after.job(job_id).state
                    == (JobStateView::Disabled { reason: reason@ }),
                Command::Delete { .. } => !after.has_job(job_id),
                _ => true,
            }
        }),
{
    let (job_id, expected) = expectation(command)->0;
    match command {
        Command::Update { job_id, expected_version, patch } => {
            if let Ok(plan) = before.planned_update(job_id, expected_version, patch, now) {
                law_update_moves_one_job(before, job_id, expected_version, patch, plan, now);
            }
        },
        Command::Enable { job_id, .. } => {
            if !(before.job(job_id).state is Enabled) && before.enable_error(job_id, now) is None {
                law_enabling_is_refused(before, job_id, now);
                law_enabled_job_starts_afresh(before, job_id, now);
            }
        },
        Command::Disable { job_id, expected_version, reason } => {
            law_disabled_job_is_at_rest(
                before,
                job_id,
                reason@,
                now,
                arbitrary(),
                arbitrary(),
            );
        },
        Command::Delete { job_id, expected_version } => {
            law_deleted_job_is_gone(before, job_id, expected_version, true, now);
        },
        _ => {},
    }
}

/// A request with the right version is refused only where it has to be: disabling where the
/// version cannot grow, removing never.
pub proof fn law_requests_succeed(
    before: SchedulerState,
    command: Command,
    job_id: JobId,
    expected: u64,
    now: Timestamp,
    after: SchedulerState,
    reply: Reply,
)
    requires
        carried_out(before, command, now, after, reply),
        expectation(command) == Some((job_id, expected)),
        before.has_job(job_id),
        before.job(job_id).version == expected,
    ensures
        command is Delete ==> refusal(reply) is None,
        command is Disable ==> (refusal(reply) is Some <==> expected == u64::MAX),
        command is Enable && before.job(job_id).state is Enabled ==> refusal(reply) is None,
        command is Enable && expected < u64::MAX && first_planned(
            before.job(job_id).trigger,
            now,
        ) is Some ==> refusal(reply) is None,
{
}

/// A registration that is refused changes nothing; one that is not answers with the wanted
/// identifier, or the fresh one where none was wanted, and the job is there.
pub proof fn law_registration_answers_with_the_identifier(
    before: SchedulerState,
    command: Command,
    now: Timestamp,
    after: SchedulerState,
    reply: Reply,
)
    requires
        carried_out(before, command, now, after, reply),
        command is Add,
        command->Add_job_id is None ==> !before.has_job(command->Add_fresh_id),
        unique_jobs(before),
    ensures
        ({
            let wanted = command->Add_job_id;
            let id = if wanted is Some {
                wanted->0
            } else {
                command->Add_fresh_id
            };
            match answer_view(reply->Added_0) {
                Ok(given) => {
                    &&& given == id
                    &&& !before.has_job(id)
                    &&& after.has_job(id)
                    &&& after.job(id).version == command->Add_generation
                    &&& (after.job(id).state is Enabled) == command->Add_enabled
                },
                Err(_) => after == before,
            }
        }),
{
    let wanted = command->Add_job_id;
    let id = if wanted is Some {
        wanted->0
    } else {
        command->Add_fresh_id
    };
    if reply->Added_0 is Ok {
        law_added_job_is_found(
            before,
            id,
            command->Add_generation,
            command->Add_enabled,
            command->Add_trigger@,
            command->Add_task@,
            command->Add_options,
            now,
        );
    }
}

/// A patch of the limits changes exactly those that it names; the room of the channels stays.
pub proof fn law_limits_change_as_named(config: SchedulerConfig, patch: SchedulerConfigPatch)
    ensures
        ({
            let next = patched_config(config, patch);
            &&& next.event_channel_capacity == config.event_channel_capacity
            &&& next.command_channel_capacity == config.command_channel_capacity
            &&& next.global_concurrency == (match patch.global_concurrency {
                Some(limit) => limit,
                None => config.global_concurrency,
            })
            &&& next.default_job_concurrency == (match patch.default_job_concurrency {
                Some(limit) => limit,
                None => config.default_job_concurrency,
            })
            &&& next.global_max_pending == (match patch.global_max_pending {
                Some(limit) => limit,
                None => config.global_max_pending,
            })
            &&& next.default_job_max_pending == (match patch.default_job_max_pending {
                Some(limit) => limit,
                None => config.default_job_max_pending,
            })
            &&& next.due_batch_size == (match patch.due_batch_size {
                Some(limit) => limit,
                None => config.due_batch_size,
            })
            &&& next.max_jobs == (match patch.max_jobs {
                Some(limit) => limit,
                None => config.max_jobs,
            })
            &&& next.shutdown_timeout == (match patch.shutdown_timeout {
                Some(limit) => limit,
                None => config.shutdown_timeout,
            })
            &&& next.minimum_interval == (match patch.minimum_interval {
                Some(limit) => limit,
                None => config.minimum_interval,
            })
            &&& next.minimum_retry_delay == (match patch.minimum_retry_delay {
                Some(limit) => limit,
                None => config.minimum_retry_delay,
            })
            &&& next.maximum_catch_up == (match patch.maximum_catch_up {
                Some(limit) => limit,
                None => config.maximum_catch_up,
            })
            &&& next.maximum_retry_attempts == (match patch.maximum_retry_attempts {
                Some(limit) => limit,
                None => config.maximum_retry_attempts,
            })
        }),
{
}

/// A change of the limits is refused exactly where it names another revision, would make a limit
/// zero, or the revision cannot grow; the first of these is told.
pub proof fn law_limit_changes_are_checked(
    state: SchedulerState,
    expected: u64,
    patch: SchedulerConfigPatch,
)
    ensures
        ({
            let next = patched_config(state.config, patch);
            let positive = next.global_concurrency > 0 && next.default_job_concurrency > 0
                && next.due_batch_size > 0 && next.global_max_pending > 0
                && next.default_job_max_pending > 0 && next.max_jobs > 0
                && next.event_channel_capacity > 0 && next.command_channel_capacity > 0
                && next.minimum_interval.nanos > 0 && next.minimum_retry_delay.nanos > 0
                && next.maximum_catch_up > 0 && next.maximum_retry_attempts > 0;
            &&& state.config_revision != expected ==> state.config_error(expected, patch) == Some(
                SchedulerErrorView::ConfigRevisionConflict {
                    expected,
                    actual: state.config_revision,
                },
            )
            &&& state.config_revision == expected && !positive ==> state.config_error(
                expected,
                patch,
            ) is Some && state.config_error(expected, patch)->0 is Actor
            &&& state.config_revision == expected && positive && expected == u64::MAX
                ==> state.config_error(expected, patch) == Some(
                SchedulerErrorView::ConfigRevisionOverflow,
            )
            &&& state.config_revision == expected && positive && expected < u64::MAX
                ==> state.config_error(expected, patch) is None
        }),
{
}

/// A request to change the limits that is not refused puts the new ones in force under the next
/// revision and answers with both; a refused one changes nothing.
pub proof fn law_new_limits_are_in_force(
    before: SchedulerState,
    command: Command,
    now: Timestamp,
    after: SchedulerState,
    reply: Reply,
)
    requires
        carried_out(before, command, now, after, reply),
        command is UpdateConfig,
        unique_jobs(before),
    ensures
        match answer_view(reply->Reconfigured_0) {
            Ok(shown) => {
                &&& shown.revision == before.config_revision + 1
                &&& shown.config == patched_config(before.config, command->UpdateConfig_patch)
                &&& after.config == shown.config
                &&& after.config_revision == shown.revision
                &&& after.jobs.len() == before.jobs.len()
            },
            Err(_) => after == before,
        },
{
    if reply->Reconfigured_0 is Ok {
        let patch = command->UpdateConfig_patch;
        let revision = (before.config_revision + 1) as u64;
        let changed = SchedulerState {
            config: patched_config(before.config, patch),
            config_revision: revision,
            ..before
        };
        super::laws::law_limits_hold_after_a_change(changed, before.jobs.len(), now);
        lemma_enforcing_keeps_revision(changed, before.jobs.len(), now);
    }
}

/// Holding the jobs to the limits leaves the revision of the limits.
pub proof fn lemma_enforcing_keeps_revision(state: SchedulerState, n: nat, now: Timestamp)
    ensures
        state.limits_enforced(n, now).config_revision == state.config_revision,
    decreases n,
{
    if n > 0 {
        lemma_enforcing_keeps_revision(state, (n - 1) as nat, now);
    }
}

} // verus!
