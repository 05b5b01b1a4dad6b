//! What holds of triggers as they fire, of executions that are held back, and of what is told.

use super::super::config::error_text;
use super::super::event::SchedulerEventKindView;
use super::super::model::{CapacityPolicy, JobStateView, RunId, TriggerCoalescing};
use super::super::queue::{
    no_trigger_of, trigger_of, PendingExecution, PendingKind, TimerEntry, TimerKind,
};
use super::super::time::Timestamp;
use super::super::timing::{due, following};
use super::execution_laws::{has_room, lemma_drained_extends};
use super::job_laws::lemma_same_ids;
use super::scheduling::{
    leaves_blocked, lemma_filter_subset, lemma_replaced, planned_execution, stays_blocked,
};
use super::{job_position, lemma_job_position, lemma_with_job, EffectView, JobView, SchedulerState};
use vstd::prelude::*;

verus! {

/// Whether a timer still stands for its job: the job exists with the timer's version and is
/// enabled.
pub open spec fn stands(state: SchedulerState, entry: TimerEntry) -> bool {
    &&& state.has_job(entry.job_id)
    &&& state.job(entry.job_id).version == entry.version
    &&& state.job(entry.job_id).state is Enabled
}

/// A run that was asked for at once is planned for this moment, whatever the timer was set for.
/// The periods go on from this moment.
pub proof fn law_run_now_fires_at_once(
    state: SchedulerState,
    entry: TimerEntry,
    batch_id: u64,
    now: Timestamp,
    run_ids: Seq<RunId>,
)
    requires
        stands(state, entry),
        entry.kind == TimerKind::RunNow,
        has_room(state, state.job(entry.job_id)),
    ensures
        ({
            let job = state.job(entry.job_id);
            let next = state.timer_handled(entry, batch_id, now, run_ids);
            let coming = following(job.trigger.schedule, now);
            &&& next.ready == state.ready.push(
                PendingExecution {
                    job_id: entry.job_id,
                    version: entry.version,
                    run_id: run_ids[0],
                    attempt: 1,
                    scheduled_at: now,
                    kind: if job.trigger.schedule is Once {
                        PendingKind::Once
                    } else {
                        PendingKind::RunNow
                    },
                    priority: job.priority,
                    batch_id,
                },
            )
            &&& next.has_job(entry.job_id)
            &&& next.job(entry.job_id).next_run_at == (if coming is Ok {
                coming->Ok_0
            } else {
                None
            })
            &&& next.job(entry.job_id).state == job.state
        }),
{
    let job_id = entry.job_id;
    let job = state.job(job_id);
    lemma_with_job(state, job_id, job);
    let idle = JobView { normal_timer_key: None, next_run_at: None, ..job };
    lemma_with_job(state, job_id, idle);
    let before = state.with_job(job_id, idle);
    reveal_with_fuel(SchedulerState::admitted_all, 2);
    assert(seq![now][0] == now);
    let pending = planned_execution(idle, batch_id, true, now, run_ids[0]);
    let middle = before.enqueued(pending, now);
    lemma_same_ids(before, middle, job_id);
    lemma_same_ids(before, state.timer_handled(entry, batch_id, now, run_ids), job_id);
}

/// A trigger whose missed periods are all passed over leaves nothing that waits and says so. Its
/// next period is planned.
pub proof fn law_skipped_periods_leave_nothing(
    state: SchedulerState,
    entry: TimerEntry,
    batch_id: u64,
    now: Timestamp,
    run_ids: Seq<RunId>,
    coming: Timestamp,
)
    requires
        stands(state, entry),
        entry.kind == TimerKind::Normal,
        ({
            let found = due(
                state.job(entry.job_id).trigger,
                entry.run_at,
                now,
                state.config.maximum_catch_up,
            );
            found is Ok && found->Ok_0.occurrences.len() == 0 && found->Ok_0.next == Some(coming)
        }),
    ensures
        ({
            let job = state.job(entry.job_id);
            let next = state.timer_handled(entry, batch_id, now, run_ids);
            &&& next.ready == state.ready
            &&& next.has_job(entry.job_id)
            &&& next.job(entry.job_id).next_run_at == Some(coming)
            &&& next.job(entry.job_id).blocked == job.blocked
            &&& next.effects.len() > state.effects.len()
            &&& next.effects[state.effects.len() as int] matches EffectView::Emit(told)
                && told.kind matches SchedulerEventKindView::TriggerSkipped {
                job_id,
                version,
                scheduled_at,
                ..
            } && job_id == entry.job_id && version == entry.version && scheduled_at == entry.run_at
        }),
{
    let job_id = entry.job_id;
    let job = state.job(job_id);
    lemma_with_job(state, job_id, job);
    let idle = JobView { normal_timer_key: None, next_run_at: None, ..job };
    lemma_with_job(state, job_id, idle);
    let before = state.with_job(job_id, idle);
    reveal_with_fuel(SchedulerState::admitted_all, 1);
    lemma_same_ids(before, state.timer_handled(entry, batch_id, now, run_ids), job_id);
}

/// While a period is held back no further one is planned.
pub proof fn law_held_back_period_stops_the_plan(
    state: SchedulerState,
    entry: TimerEntry,
    batch_id: u64,
    now: Timestamp,
    run_ids: Seq<RunId>,
    occurrence: Timestamp,
)
    requires
        stands(state, entry),
        entry.kind == TimerKind::Normal,
        !has_room(state, state.job(entry.job_id)),
        state.job(entry.job_id).coalescing == TriggerCoalescing::KeepAll,
        state.job(entry.job_id).capacity == CapacityPolicy::Backpressure
            || state.job(entry.job_id).trigger.schedule is Once,
        ({
            let found = due(
                state.job(entry.job_id).trigger,
                entry.run_at,
                now,
                state.config.maximum_catch_up,
            );
            found is Ok && found->Ok_0.occurrences == seq![occurrence]
        }),
    ensures
        ({
            let job = state.job(entry.job_id);
            let next = state.timer_handled(entry, batch_id, now, run_ids);
            &&& next.ready == state.ready
            &&& next.has_job(entry.job_id)
            &&& next.job(entry.job_id).next_run_at is None
            &&& next.job(entry.job_id).blocked.len() == job.blocked.len() + 1
            &&& next.job(entry.job_id).blocked.last().scheduled_at == occurrence
            &&& next.job(entry.job_id).blocked.last().run_id == run_ids[0]
            &&& next.job(entry.job_id).blocked.last().version == entry.version
        }),
{
    let job_id = entry.job_id;
    let job = state.job(job_id);
    lemma_with_job(state, job_id, job);
    let idle = JobView { normal_timer_key: None, next_run_at: None, ..job };
    lemma_with_job(state, job_id, idle);
    let before = state.with_job(job_id, idle);
    reveal_with_fuel(SchedulerState::admitted_all, 2);
    assert(seq![occurrence][0] == occurrence);
    let pending = planned_execution(idle, batch_id, false, occurrence, run_ids[0]);
    lemma_with_job(before, job_id, JobView { blocked: idle.blocked.push(pending), ..idle });
    let held = before.with_job(job_id, JobView { blocked: idle.blocked.push(pending), ..idle });
    lemma_same_ids(held, state.timer_handled(entry, batch_id, now, run_ids), job_id);
}

/// A trigger that cannot be evaluated disables its job for that reason.
pub proof fn law_failing_trigger_disables(
    state: SchedulerState,
    entry: TimerEntry,
    batch_id: u64,
    now: Timestamp,
    run_ids: Seq<RunId>,
)
    requires
        stands(state, entry),
        entry.version < u64::MAX,
        entry.kind == TimerKind::Normal,
        due(
            state.job(entry.job_id).trigger,
            entry.run_at,
            now,
            state.config.maximum_catch_up,
        ) is Err,
    ensures
        ({
            let next = state.timer_handled(entry, batch_id, now, run_ids);
            let error = due(
                state.job(entry.job_id).trigger,
                entry.run_at,
                now,
                state.config.maximum_catch_up,
            )->Err_0;
            &&& next.has_job(entry.job_id)
            &&& next.job(entry.job_id).state == (JobStateView::Disabled {
                reason: error_text(error),
            })
            &&& next.job(entry.job_id).next_run_at is None
        }),
{
    let job_id = entry.job_id;
    let job = state.job(job_id);
    lemma_with_job(state, job_id, job);
    let idle = JobView { normal_timer_key: None, next_run_at: None, ..job };
    lemma_with_job(state, job_id, idle);
    let before = state.with_job(job_id, idle);
    lemma_same_ids(before, state.timer_handled(entry, batch_id, now, run_ids), job_id);
}

/// A job that keeps only its latest trigger lets go of its waiting periods when a new one comes,
/// and of nothing else. No other job does.
pub proof fn law_merging_spares_the_rest(
    state: SchedulerState,
    pending: PendingExecution,
    now: Timestamp,
    item: PendingExecution,
)
    requires
        state.has_job(pending.job_id),
    ensures
        ({
            let room = state.made_room(pending, now);
            let merges = state.job(pending.job_id).coalescing == TriggerCoalescing::KeepLatest
                && pending.kind is Normal;
            let older = item.job_id == pending.job_id && item.kind is Normal;
            &&& !merges ==> room == state
            &&& merges ==> (room.ready.contains(item) <==> state.ready.contains(item) && !older)
            &&& merges ==> room.has_job(pending.job_id) && (room.job(
                pending.job_id,
            ).blocked.contains(item) <==> state.job(pending.job_id).blocked.contains(item) && !(
            item.kind is Normal))
        }),
{
    let job_id = pending.job_id;
    let job = state.job(job_id);
    lemma_with_job(state, job_id, job);
    let kept = JobView { blocked: job.blocked.filter(stays_blocked()), ..job };
    lemma_with_job(state, job_id, kept);
    if job.coalescing == TriggerCoalescing::KeepLatest && pending.kind is Normal {
        let cleared = SchedulerState { ready: state.ready.filter(no_trigger_of(job_id)), ..state };
        lemma_same_ids(state, cleared, job_id);
        let middle = cleared.with_job(job_id, kept);
        let first = trigger_of(job_id);
        let second = leaves_blocked();
        let once = middle.replaced(job_id, state.ready.filter(first), pending.run_id, now);
        lemma_replaced(middle, job_id, state.ready.filter(first), pending.run_id, now);
        lemma_replaced(once, job_id, job.blocked.filter(second), pending.run_id, now);
        let room = state.made_room(pending, now);
        assert(room.jobs == state.with_job(job_id, kept).jobs);
        lemma_same_ids(state.with_job(job_id, kept), room, job_id);
        lemma_filtered(state.ready, no_trigger_of(job_id), item);
        lemma_filtered(job.blocked, stays_blocked(), item);
    }
}

proof fn lemma_filtered(
    items: Seq<PendingExecution>,
    keep: spec_fn(PendingExecution) -> bool,
    item: PendingExecution,
)
    ensures
        items.filter(keep).contains(item) <==> items.contains(item) && keep(item),
    decreases items.len(),
{
    reveal(Seq::filter);
    lemma_filter_subset(items, keep);
    if items.len() > 0 {
        let rest = items.drop_last();
        lemma_filtered(rest, keep, item);
        if items.contains(item) && keep(item) {
            let i = items.index_of(item);
            if i < rest.len() {
                assert(rest[i] == item);
                let k = rest.filter(keep).index_of(item);
                assert(items.filter(keep)[k] == item);
            } else {
                assert(items.filter(keep).last() == item);
            }
        }
    }
}

/// Once the only period that was held back waits again, the next period is planned, counted from
/// the one that was held back.
pub proof fn law_periods_go_on_in_phase(
    state: SchedulerState,
    i: int,
    now: Timestamp,
    coming: Timestamp,
)
    requires
        0 <= i < state.jobs.len(),
        forall|k: int| 0 <= k < i ==> (#[trigger] state.jobs[k]).id != state.jobs[i].id,
        state.jobs[i].state is Enabled,
        state.jobs[i].next_run_at is None,
        !(state.jobs[i].trigger.schedule is Once),
        state.jobs[i].blocked.len() == 1,
        state.jobs[i].blocked[0].version == state.jobs[i].version,
        state.jobs[i].blocked[0].kind is Normal || state.jobs[i].blocked[0].kind is RunNow,
        has_room(state, state.jobs[i]),
        following(state.jobs[i].trigger.schedule, state.jobs[i].blocked[0].scheduled_at) is Ok,
        following(state.jobs[i].trigger.schedule, state.jobs[i].blocked[0].scheduled_at)->Ok_0
            == Some(coming),
    ensures
        ({
            let next = state.restored_at(i, now);
            &&& next.ready == state.ready.push(state.jobs[i].blocked[0])
            &&& next.jobs.len() == state.jobs.len()
            &&& next.jobs[i].blocked.len() == 0
            &&& next.jobs[i].next_run_at == Some(coming)
        }),
{
    let job = state.jobs[i];
    let pending = job.blocked[0];
    let popped = SchedulerState {
        jobs: state.jobs.update(i, JobView { blocked: job.blocked.remove(0), ..job }),
        ..state
    };
    let joined = popped.enqueued(pending, now);
    reveal_with_fuel(SchedulerState::drained, 2);
    assert(joined.drained(i, Some(pending.scheduled_at), now) == (
        joined,
        Some(pending.scheduled_at),
    ));
    assert(state.drained(i, None, now) == (joined, Some(pending.scheduled_at)));
    assert forall|k: int| 0 <= k < i implies (#[trigger] joined.jobs[k]).id != job.id by {
        assert(state.jobs[k].id != job.id);
    }
    assert(job_position(joined.jobs, job.id, i));
    lemma_job_position(joined, job.id, i);
}

/// The timers of a batch are handled one after the other, all under the number of the batch, which
/// is the one after the last.
pub proof fn law_batches_handle_every_timer(
    state: SchedulerState,
    entries: Seq<TimerEntry>,
    entry: TimerEntry,
    batch_id: u64,
    now: Timestamp,
    run_ids: Seq<Seq<RunId>>,
)
    ensures
        state.batch_handled(Seq::empty(), 0, batch_id, now, run_ids) == state,
        state.batch_handled(entries.push(entry), entries.len() + 1, batch_id, now, run_ids)
            == state.batch_handled(entries, entries.len(), batch_id, now, run_ids).timer_handled(
            entry,
            batch_id,
            now,
            run_ids[entries.len() as int],
        ),
        state.batch_sequence < u64::MAX ==> state.next_batch().batch_sequence
            == state.batch_sequence + 1,
        state.next_batch().ready == state.ready && state.next_batch().jobs == state.jobs,
{
    lemma_batch_of_the_first(
        state,
        entries.push(entry),
        entries,
        entries.len(),
        batch_id,
        now,
        run_ids,
    );
}

proof fn lemma_batch_of_the_first(
    state: SchedulerState,
    longer: Seq<TimerEntry>,
    entries: Seq<TimerEntry>,
    n: nat,
    batch_id: u64,
    now: Timestamp,
    run_ids: Seq<Seq<RunId>>,
)
    requires
        n <= entries.len() < longer.len(),
        forall|k: int| 0 <= k < entries.len() ==> #[trigger] longer[k] == entries[k],
    ensures
        state.batch_handled(longer, n, batch_id, now, run_ids) == state.batch_handled(
            entries,
            n,
            batch_id,
            now,
            run_ids,
        ),
    decreases n,
{
    if n > 0 {
        lemma_batch_of_the_first(
            state,
            longer,
            entries,
            (n - 1) as nat,
            batch_id,
            now,
            run_ids,
        );
        assert(longer[n - 1] == entries[n - 1]);
    }
}

/// Nothing that is held back returns while the ready queue is full. Where it has room, the jobs
/// are served in the order in which they were registered.
pub proof fn law_held_back_executions_return_in_order(state: SchedulerState, now: Timestamp)
    ensures
        state.ready.len() >= state.config.global_max_pending ==> state.restored(now) == state,
        state.ready.len() < state.config.global_max_pending && state.jobs.len() > 0
            ==> state.restored(now) == state.restored_first(
            (state.jobs.len() - 1) as nat,
            now,
        ).restored_at(state.jobs.len() - 1, now),
        state.restored_first(0, now) == state,
{
}

/// Only executions of the job's current version come back, and nothing comes back that was not held
/// back.
pub proof fn law_only_current_executions_come_back(
    state: SchedulerState,
    i: int,
    resume: Option<Timestamp>,
    now: Timestamp,
    k: int,
)
    requires
        0 <= i < state.jobs.len(),
        state.ready.len() <= k < state.drained(i, resume, now).0.ready.len(),
    ensures
        ({
            let next = state.drained(i, resume, now).0;
            &&& next.ready[k].version == state.jobs[i].version
            &&& state.jobs[i].blocked.contains(next.ready[k])
        }),
    decreases state.jobs[i].blocked.len(),
{
    if state.room_at(i) && state.jobs[i].blocked.len() > 0 {
        let job = state.jobs[i];
        let pending = job.blocked[0];
        let left = job.blocked.remove(0);
        let popped = SchedulerState {
            jobs: state.jobs.update(i, JobView { blocked: left, ..job }),
            ..state
        };
        let resumed = if pending.kind is Normal || pending.kind is RunNow {
            Some(pending.scheduled_at)
        } else {
            resume
        };
        let next = state.drained(i, resume, now).0;
        if job.version == pending.version {
            let joined = popped.enqueued(pending, now);
            lemma_drained_extends(joined, i, resumed, now);
            if k > state.ready.len() {
                law_only_current_executions_come_back(joined, i, resumed, now, k);
            } else {
                assert(joined.ready[k] == pending);
                assert(next.ready[k] == joined.ready[k]);
            }
        } else {
            law_only_current_executions_come_back(popped, i, resume, now, k);
        }
        if left.contains(next.ready[k]) {
            let j = left.index_of(next.ready[k]);
            assert(job.blocked[j + 1] == next.ready[k]);
        }
    }
}

} // verus!
