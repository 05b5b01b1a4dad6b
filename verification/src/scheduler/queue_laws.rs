//! What the operations of the ready queue do to what waits in it.

use super::engine::event_laws::lemma_kept;
use super::engine::execution_laws::oldest_period;
use super::engine::scheduling::lemma_filter_subset;
use super::model::{JobId, JobPriority};
use super::queue::{
    first_allowed, is_trigger_of, no_trigger_of, of_other_job, oldest_trigger, trigger_of,
    PendingExecution, ReadyQueue,
};
use vstd::prelude::*;

verus! {

/// Whether the execution at one position starts before that at another: an earlier batch, in a
/// batch the higher priority, and of the same priority the one that came first.
pub open spec fn starts_before(items: Seq<PendingExecution>, i: int, k: int) -> bool {
    if items[i].batch_id != items[k].batch_id {
        items[i].batch_id < items[k].batch_id
    } else if items[i].priority.value() != items[k].priority.value() {
        items[i].priority.value() > items[k].priority.value()
    } else {
        i < k
    }
}

/// Whether the execution at a position may start and starts before every other that may.
pub open spec fn comes_first(
    items: Seq<PendingExecution>,
    allowed: Seq<bool>,
    place: int,
) -> bool {
    &&& 0 <= place < items.len()
    &&& allowed[place]
    &&& forall|k: int|
        0 <= k < items.len() && k != place && #[trigger] allowed[k] ==> starts_before(
            items,
            place,
            k,
        )
}

/// Whether an execution was taken that comes first, and the rest stays in order.
pub open spec fn first_taken(
    before: Seq<PendingExecution>,
    allowed: Seq<bool>,
    item: PendingExecution,
    after: Seq<PendingExecution>,
) -> bool {
    exists|place: int| #[trigger]
        comes_first(before, allowed, place) && item == before[place] && after == before.remove(
            place,
        )
}

/// The execution that is taken may start and starts before every other that may. The rest stays in
/// order. Where none is taken nothing changes.
pub proof fn law_first_of_those_allowed_is_taken(
    queue: &mut ReadyQueue,
    allowed: Vec<bool>,
    popped: Option<PendingExecution>,
)
    requires
        allowed@.len() == old(queue)@.len(),
        call_ensures(ReadyQueue::pop_dispatchable, (queue, &allowed), popped),
    ensures
        popped matches Some(item) ==> first_taken(
            old(queue)@,
            allowed@,
            item,
            final(queue)@,
        ),
        popped is None ==> final(queue)@ == old(queue)@,
{
    if let Some(item) = popped {
        lemma_first_taken(old(queue)@, allowed@, item, final(queue)@);
    }
}

proof fn lemma_first_taken(
    before: Seq<PendingExecution>,
    allowed: Seq<bool>,
    item: PendingExecution,
    after: Seq<PendingExecution>,
)
    requires
        exists|i: int| #[trigger]
            first_allowed(before, allowed, i) && item == before[i] && after == before.remove(i),
    ensures
        first_taken(before, allowed, item, after),
{
    let place = choose|i: int| #[trigger]
        first_allowed(before, allowed, i) && item == before[i] && after == before.remove(i);
    assert(comes_first(before, allowed, place));
}

/// Removing a job takes out exactly what belongs to it.
pub proof fn law_removed_jobs_leave_the_queue(
    queue: &mut ReadyQueue,
    job_id: JobId,
    item: PendingExecution,
)
    requires
        call_ensures(ReadyQueue::remove_job, (queue, job_id), ()),
        old(queue)@.contains(item),
    ensures
        forall|k: int|
            0 <= k < final(queue)@.len() ==> (#[trigger] final(queue)@[k]).job_id != job_id,
        item.job_id != job_id ==> final(queue)@.contains(item),
{
    lemma_filter_subset(old(queue)@, of_other_job(job_id));
    if item.job_id != job_id {
        lemma_kept(old(queue)@, of_other_job(job_id), item);
    }
}

/// Of a job that keeps only its latest trigger exactly the waiting periods are taken out, and they
/// are handed back.
pub proof fn law_waiting_periods_leave_the_queue(
    queue: &mut ReadyQueue,
    job_id: JobId,
    removed: Vec<PendingExecution>,
    item: PendingExecution,
)
    requires
        call_ensures(ReadyQueue::remove_normal_triggers, (queue, job_id), removed),
        old(queue)@.contains(item),
    ensures
        item.job_id == job_id && item.kind is Normal ==> removed@.contains(item),
        !(item.job_id == job_id && item.kind is Normal) ==> final(queue)@.contains(item),
        forall|k: int|
            0 <= k < final(queue)@.len() ==> !((#[trigger] final(queue)@[k]).job_id == job_id
                && final(queue)@[k].kind is Normal),
        forall|k: int|
            0 <= k < removed@.len() ==> (#[trigger] removed@[k]).job_id == job_id
                && removed@[k].kind is Normal,
{
    lemma_filter_subset(old(queue)@, no_trigger_of(job_id));
    lemma_filter_subset(old(queue)@, trigger_of(job_id));
    if is_trigger_of(item, job_id) {
        lemma_kept(old(queue)@, trigger_of(job_id), item);
    } else {
        lemma_kept(old(queue)@, no_trigger_of(job_id), item);
    }
}

/// Whether the oldest waiting period of a job was taken, and the rest stays in order.
pub open spec fn oldest_taken(
    before: Seq<PendingExecution>,
    job_id: JobId,
    item: PendingExecution,
    after: Seq<PendingExecution>,
) -> bool {
    exists|place: int| #[trigger]
        oldest_period(before, job_id, place) && item == before[place] && after == before.remove(
            place,
        )
}

/// The oldest waiting period of a job gives way, where there is one; everything else stays in
/// order.
pub proof fn law_oldest_period_gives_way(
    queue: &mut ReadyQueue,
    job_id: JobId,
    removed: Option<PendingExecution>,
)
    requires
        call_ensures(ReadyQueue::remove_oldest_trigger, (queue, job_id), removed),
    ensures
        removed matches Some(item) ==> oldest_taken(old(queue)@, job_id, item, final(queue)@),
        removed is None ==> final(queue)@ == old(queue)@,
{
    if let Some(item) = removed {
        lemma_oldest_taken(old(queue)@, job_id, item, final(queue)@);
    }
}

proof fn lemma_oldest_taken(
    before: Seq<PendingExecution>,
    job_id: JobId,
    item: PendingExecution,
    after: Seq<PendingExecution>,
)
    requires
        exists|i: int| #[trigger]
            oldest_trigger(before, job_id, i) && item == before[i] && after == before.remove(i),
    ensures
        oldest_taken(before, job_id, item, after),
{
    let place = choose|i: int| #[trigger]
        oldest_trigger(before, job_id, i) && item == before[i] && after == before.remove(i);
    assert(oldest_period(before, job_id, place));
}

/// What waits of a job moves to its new version and priority, and nothing else changes.
pub proof fn law_waiting_executions_move_along(
    queue: &mut ReadyQueue,
    job_id: JobId,
    version: u64,
    priority: JobPriority,
    i: int,
)
    requires
        call_ensures(ReadyQueue::migrate_job, (queue, job_id, version, priority), ()),
        0 <= i < old(queue)@.len(),
    ensures
        final(queue)@.len() == old(queue)@.len(),
        old(queue)@[i].job_id == job_id ==> final(queue)@[i] == (PendingExecution {
            version,
            priority,
            ..old(queue)@[i]
        }),
        old(queue)@[i].job_id != job_id ==> final(queue)@[i] == old(queue)@[i],
{
}

/// A new execution waits behind the others.
pub proof fn law_new_executions_wait_behind(queue: &mut ReadyQueue, pending: PendingExecution)
    requires
        call_ensures(ReadyQueue::insert, (queue, pending), ()),
    ensures
        final(queue)@.len() == old(queue)@.len() + 1,
        final(queue)@.last() == pending,
        final(queue)@.drop_last() == old(queue)@,
{
}

} // verus!
