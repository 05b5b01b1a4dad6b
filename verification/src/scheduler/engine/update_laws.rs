//! What holds of updates of jobs and of changed limits beyond the job itself.

use super::super::config::SchedulerErrorView;
use super::super::model::{JobId, JobPatch, JobStateView, RescheduleMode, TriggerCoalescing};
use super::super::queue::{
    migrated, migrated_queue, no_trigger_of, PendingExecution, TimerEntry, TimerKind,
};
use super::super::task::TaskCancellationMode;
use super::super::time::Timestamp;
use super::super::timing::trigger_error;
use super::event_laws::lemma_kept;
use super::job_laws::{first_planned, lemma_updated};
use super::laws::law_limits_hold_after_a_change;
use super::management::{options_of, patched_job, violates_limits, JobUpdatePlan};
use super::scheduling::lemma_filter_subset;
use super::{
    job_position, lemma_job_position, lemma_with_job, unique_jobs, EffectView, JobView,
    SchedulerState,
};
use vstd::prelude::*;

verus! {

/// Whether an update has to work out the first instant of the trigger that the job will have.
pub open spec fn plans_anew(job: JobView, patch: JobPatch) -> bool {
    match patch.reschedule {
        RescheduleMode::RunNow => false,
        RescheduleMode::Recalculate => true,
        RescheduleMode::Preserve => patch.trigger is Some || (job.next_run_at is None && job.state
            is Enabled),
    }
}

/// An update is accepted exactly where it names the job's version, the changed job passes the
/// checks of a new one, the version can grow, and the trigger has an instant where one has to be
/// worked out.
pub proof fn law_updates_are_checked(
    state: SchedulerState,
    job_id: JobId,
    expected: u64,
    patch: JobPatch,
    now: Timestamp,
)
    requires
        state.has_job(job_id),
    ensures
        ({
            let job = state.job(job_id);
            let changed = patched_job(job, patch);
            state.planned_update(job_id, expected, patch, now) is Ok <==> {
                &&& job.version == expected
                &&& expected < u64::MAX
                &&& trigger_error(changed.trigger, options_of(changed), state.config) is None
                &&& !(changed.task.cancellation_mode == TaskCancellationMode::NonCancellable
                    && changed.trigger.timeout is Some)
                &&& plans_anew(job, patch) ==> first_planned(changed.trigger, now) is Some
            }
        }),
{
}

/// The timer of an updated job that is enabled fires for a run at once where the update asks for
/// one, and for a normal period otherwise, at the instant that was planned.
pub proof fn law_updates_set_the_timer(
    state: SchedulerState,
    job_id: JobId,
    expected: u64,
    patch: JobPatch,
    plan: JobUpdatePlan,
    now: Timestamp,
)
    requires
        state.planned_update(job_id, expected, patch, now) == Ok::<
            JobUpdatePlan,
            SchedulerErrorView,
        >(plan),
        state.job(job_id).state is Enabled,
        plan.next_run_at is Some,
    ensures
        state.updated(job_id, expected, patch, plan, now).effects.contains(
            EffectView::ArmTimer {
                key: state.next_timer_key,
                entry: TimerEntry {
                    job_id,
                    version: (expected + 1) as u64,
                    run_at: plan.next_run_at->0,
                    kind: if patch.reschedule == RescheduleMode::RunNow {
                        TimerKind::RunNow
                    } else {
                        TimerKind::Normal
                    },
                },
            },
        ),
        patch.reschedule == RescheduleMode::RunNow ==> plan.next_run_at == Some(now),
{
    let job = state.updated_job(job_id, patch, plan, now);
    lemma_with_job(state, job_id, state.job(job_id));
    lemma_with_job(state, job_id, job);
    let i = state.position(job_id);
    let moved = SchedulerState {
        ready: state.updated_ready(job_id, patch, plan, now),
        ..state.with_job(job_id, job).disarm(state.job(job_id).normal_timer_key).clear_retries(
            job_id,
        )
    };
    assert(moved.jobs == state.with_job(job_id, job).jobs);
    assert(job_position(state.with_job(job_id, job).jobs, job_id, i));
    lemma_job_position(moved, job_id, i);
    let kind = if plan.reschedule == RescheduleMode::RunNow {
        TimerKind::RunNow
    } else {
        TimerKind::Normal
    };
    let planned = moved.schedule_normal(job_id, plan.next_run_at->0, kind, now);
    let place = planned.effects.len() - 2;
    assert(planned.effects[place] is ArmTimer);
    let next = state.updated(job_id, expected, patch, plan, now);
    assert(next.effects[place] == planned.effects[place]);
}

/// A job that keeps only its latest trigger loses its waiting periods by an update; everything
/// else that waits stays, that of the job under its new version and priority.
pub proof fn law_updates_of_merging_jobs(
    state: SchedulerState,
    job_id: JobId,
    expected: u64,
    patch: JobPatch,
    plan: JobUpdatePlan,
    now: Timestamp,
    i: int,
)
    requires
        state.planned_update(job_id, expected, patch, now) == Ok::<
            JobUpdatePlan,
            SchedulerErrorView,
        >(plan),
        patch.trigger is None,
        patch.task is None,
        patched_job(state.job(job_id), patch).coalescing == TriggerCoalescing::KeepLatest,
        0 <= i < state.ready.len(),
    ensures
        ({
            let next = state.updated(job_id, expected, patch, plan, now);
            let item = state.ready[i];
            &&& forall|k: int|
                0 <= k < next.ready.len() ==> !((#[trigger] next.ready[k]).job_id == job_id
                    && next.ready[k].kind is Normal)
            &&& item.job_id != job_id ==> next.ready.contains(item)
            &&& item.job_id == job_id && !(item.kind is Normal) ==> next.ready.contains(
                PendingExecution {
                    version: next.job(job_id).version,
                    priority: next.job(job_id).priority,
                    ..item
                },
            )
        }),
{
    lemma_updated(state, job_id, expected, patch, plan, now);
    let job = state.updated_job(job_id, patch, plan, now);
    let moved = migrated_queue(state.ready, job_id, plan.next_version, job.priority);
    let next = state.updated(job_id, expected, patch, plan, now);
    assert(next.ready == moved.filter(no_trigger_of(job_id)));
    lemma_filter_subset(moved, no_trigger_of(job_id));
    let item = state.ready[i];
    assert(moved[i] == migrated(item, job_id, plan.next_version, job.priority));
    if item.job_id != job_id || !(item.kind is Normal) {
        assert(moved.contains(moved[i]));
        lemma_kept(moved, no_trigger_of(job_id), moved[i]);
    }
}

/// Changed limits disable exactly the jobs that break them, whatever their state, and say why. The
/// others stay as they are.
pub proof fn law_changed_limits_disable_what_breaks_them(
    state: SchedulerState,
    n: nat,
    now: Timestamp,
    i: int,
)
    requires
        unique_jobs(state),
        0 <= i < n <= state.jobs.len(),
        state.jobs[i].version < u64::MAX,
    ensures
        ({
            let job = state.jobs[i];
            let after = state.limits_enforced(n, now).jobs[i];
            if violates_limits(job, state.config) {
                &&& after.state == (JobStateView::Disabled {
                    reason: "scheduler safety limits changed"@,
                })
                &&& after.version == job.version + 1
                &&& after.next_run_at is None
                &&& after.id == job.id
            } else {
                after == job
            }
        }),
    decreases n,
{
    let m = (n - 1) as nat;
    law_limits_hold_after_a_change(state, m, now);
    let before = state.limits_enforced(m, now);
    let job = before.jobs[m as int];
    assert forall|k: int| 0 <= k < m implies (#[trigger] before.jobs[k]).id != job.id by {
        assert(before.jobs[k].id != before.jobs[m as int].id);
    }
    assert(job_position(before.jobs, job.id, m as int));
    lemma_job_position(before, job.id, m as int);
    if i < m {
        law_changed_limits_disable_what_breaks_them(state, m, now, i);
    } else {
        assert(before.jobs[i] == state.jobs[i]);
    }
}

} // verus!
