//! Executions that wait for a slot, and the timers that bring them.

use super::model::{JobId, JobPriority, RunId};
use super::time::Timestamp;
use vstd::prelude::*;

verus! {

/// Where a pending execution comes from.
#[derive(Debug, Clone, Copy, PartialEq, Eq, Structural)]
pub enum PendingKind {
    /// A period of an interval or cron trigger.
    Normal,
    /// An update that asked to run at once.
    RunNow,
    /// A one-shot trigger.
    Once,
    /// A retry.
    Retry,
}

impl PendingKind {
    /// Whether a newer trigger may take the place of this execution.
    pub open spec fn replaceable(self) -> bool {
        self is Normal
    }

    /// Whether a newer trigger may take the place of this execution: only a normal period can be
    /// made up by a later one.
    pub fn is_replaceable_trigger(self) -> (replaceable: bool)
        ensures
            replaceable == self.replaceable(),
    {
        matches!(self, PendingKind::Normal)
    }
}

/// Execution that waits for a slot.
#[derive(Debug, Clone, Copy, PartialEq, Eq, Structural)]
pub struct PendingExecution {
    /// Job.
    pub job_id: JobId,
    /// Version of the job.
    pub version: u64,
    /// Execution.
    pub run_id: RunId,
    /// Attempt, counted from one.
    pub attempt: u32,
    /// Planned instant.
    pub scheduled_at: Timestamp,
    /// Where it comes from.
    pub kind: PendingKind,
    /// Priority of the job.
    pub priority: JobPriority,
    /// Batch of timers that brought it.
    pub batch_id: u64,
}

/// Why a timer was set.
#[derive(Debug, Clone, Copy, PartialEq, Eq, Structural)]
pub enum TimerKind {
    /// Next period.
    Normal,
    /// An update that asked to run at once.
    RunNow,
    /// Retry of an execution.
    Retry {
        /// Execution.
        run_id: RunId,
        /// Instant that the trigger planned.
        scheduled_at: Timestamp,
        /// Attempt to come.
        attempt: u32,
    },
}

/// Timer of a job.
#[derive(Debug, Clone, Copy, PartialEq, Eq, Structural)]
pub struct TimerEntry {
    /// Job.
    pub job_id: JobId,
    /// Version of the job.
    pub version: u64,
    /// Instant at which the timer fires.
    pub run_at: Timestamp,
    /// Why it was set.
    pub kind: TimerKind,
}

/// Whether an execution belongs to a job.
pub open spec fn of_job(job_id: JobId) -> spec_fn(PendingExecution) -> bool {
    |item: PendingExecution| item.job_id == job_id
}

/// Whether an execution does not belong to a job.
pub open spec fn of_other_job(job_id: JobId) -> spec_fn(PendingExecution) -> bool {
    |item: PendingExecution| item.job_id != job_id
}

/// Whether an execution is a replaceable trigger of a job.
pub open spec fn is_trigger_of(item: PendingExecution, job_id: JobId) -> bool {
    item.job_id == job_id && item.kind.replaceable()
}

/// Whether an execution is a replaceable trigger of a job.
pub open spec fn trigger_of(job_id: JobId) -> spec_fn(PendingExecution) -> bool {
    |item: PendingExecution| is_trigger_of(item, job_id)
}

/// Whether an execution is anything but a replaceable trigger of a job.
pub open spec fn no_trigger_of(job_id: JobId) -> spec_fn(PendingExecution) -> bool {
    |item: PendingExecution| !is_trigger_of(item, job_id)
}

/// Executions of a job in a queue.
pub open spec fn count_of(items: Seq<PendingExecution>, job_id: JobId) -> nat {
    items.filter(of_job(job_id)).len()
}

/// An execution moved to another version and priority where it belongs to a job.
pub open spec fn migrated(
    item: PendingExecution,
    job_id: JobId,
    version: u64,
    priority: JobPriority,
) -> PendingExecution {
    if item.job_id == job_id {
        PendingExecution { version, priority, ..item }
    } else {
        item
    }
}

/// A queue whose executions of one job moved to another version and priority.
pub open spec fn migrated_queue(
    items: Seq<PendingExecution>,
    job_id: JobId,
    version: u64,
    priority: JobPriority,
) -> Seq<PendingExecution> {
    items.map_values(|item: PendingExecution| migrated(item, job_id, version, priority))
}

/// Position of the first replaceable trigger of a job.
pub open spec fn oldest_trigger(items: Seq<PendingExecution>, job_id: JobId, i: int) -> bool {
    &&& 0 <= i < items.len()
    &&& is_trigger_of(items[i], job_id)
    &&& forall|k: int| 0 <= k < i ==> !is_trigger_of(#[trigger] items[k], job_id)
}

/// Whether the execution at one position goes before that at another: earlier batches first, in
/// a batch the larger priority, then the order of arrival.
pub open spec fn goes_before(items: Seq<PendingExecution>, i: int, k: int) -> bool {
    let a = items[i];
    let b = items[k];
    a.batch_id < b.batch_id || (a.batch_id == b.batch_id && (a.priority.value()
        > b.priority.value() || (a.priority.value() == b.priority.value() && i < k)))
}

/// Position of the first execution, in the order of dispatch, among those that may start.
pub open spec fn first_allowed(items: Seq<PendingExecution>, allowed: Seq<bool>, i: int) -> bool {
    &&& 0 <= i < items.len()
    &&& allowed[i]
    &&& forall|k: int|
        0 <= k < items.len() && #[trigger] allowed[k] && k != i ==> goes_before(items, i, k)
}

/// Executions that wait for a slot, in order of arrival.
#[derive(Debug)]
pub struct ReadyQueue {
    /// Waiting executions.
    pub items: Vec<PendingExecution>,
}

impl View for ReadyQueue {
    type V = Seq<PendingExecution>;

    open spec fn view(&self) -> Seq<PendingExecution> {
        self.items@
    }
}

proof fn lemma_filter_step(
    items: Seq<PendingExecution>,
    keep: spec_fn(PendingExecution) -> bool,
    i: int,
)
    requires
        0 <= i < items.len(),
    ensures
        items.take(i + 1).filter(keep) == (if keep(items[i]) {
            items.take(i).filter(keep).push(items[i])
        } else {
            items.take(i).filter(keep)
        }),
{
    reveal(Seq::filter);
    assert(items.take(i + 1).drop_last() =~= items.take(i));
    assert(items.take(i + 1).last() == items[i]);
}

impl ReadyQueue {
    /// Empty queue.
    pub fn new() -> (queue: Self)
        ensures
            queue@ == Seq::<PendingExecution>::empty(),
    {
        ReadyQueue { items: Vec::new() }
    }

    /// Number of waiting executions.
    pub fn len(&self) -> (count: usize)
        ensures
            count == self@.len(),
    {
        self.items.len()
    }

    /// Whether nothing waits.
    pub fn is_empty(&self) -> (empty: bool)
        ensures
            empty == (self@.len() == 0),
    {
        self.items.len() == 0
    }

    /// Number of waiting executions of a job.
    pub fn count_job(&self, job_id: JobId) -> (count: usize)
        ensures
            count == count_of(self@, job_id),
            count <= self@.len(),
    {
        let mut count: usize = 0;
        let mut i: usize = 0;
        proof {
            reveal(Seq::filter);
        }
        while i < self.items.len()
            invariant
                i <= self.items.len(),
                count == self@.take(i as int).filter(of_job(job_id)).len(),
                count <= i,
            decreases self.items.len() - i,
        {
            proof {
                lemma_filter_step(self@, of_job(job_id), i as int);
            }
            if self.items[i].job_id == job_id {
                count += 1;
            }
            i += 1;
        }
        assert(self@.take(i as int) =~= self@);
        count
    }

    /// Adds an execution at the end.
    pub fn insert(&mut self, pending: PendingExecution)
        ensures
            final(self)@ == old(self)@.push(pending),
    {
        self.items.push(pending);
    }

    /// Drops the executions of a job.
    pub fn remove_job(&mut self, job_id: JobId)
        ensures
            final(self)@ == old(self)@.filter(of_other_job(job_id)),
    {
        let mut kept: Vec<PendingExecution> = Vec::new();
        let mut i: usize = 0;
        proof {
            reveal(Seq::filter);
        }
        while i < self.items.len()
            invariant
                i <= self.items.len(),
                self.items@ == old(self).items@,
                kept@ == self@.take(i as int).filter(of_other_job(job_id)),
            decreases self.items.len() - i,
        {
            proof {
                lemma_filter_step(self@, of_other_job(job_id), i as int);
            }
            if self.items[i].job_id != job_id {
                kept.push(self.items[i]);
            }
            i += 1;
        }
        assert(self@.take(i as int) =~= self@);
        self.items = kept;
    }

    /// Moves the executions of a job to another version and priority.
    pub fn migrate_job(&mut self, job_id: JobId, version: u64, priority: JobPriority)
        ensures
            final(self)@ == migrated_queue(old(self)@, job_id, version, priority),
    {
        let mut moved: Vec<PendingExecution> = Vec::new();
        let mut i: usize = 0;
        while i < self.items.len()
            invariant
                i <= self.items.len(),
                self.items@ == old(self).items@,
                moved@.len() == i,
                forall|k: int|
                    0 <= k < i ==> #[trigger] moved@[k] == migrated(
                        self@[k],
                        job_id,
                        version,
                        priority,
                    ),
            decreases self.items.len() - i,
        {
            let item = self.items[i];
            if item.job_id == job_id {
                moved.push(PendingExecution { version, priority, ..item });
            } else {
                moved.push(item);
            }
            i += 1;
        }
        assert(moved@ =~= migrated_queue(self@, job_id, version, priority));
        self.items = moved;
    }

    /// Takes out the replaceable triggers of a job.
    pub fn remove_normal_triggers(&mut self, job_id: JobId) -> (removed: Vec<PendingExecution>)
        ensures
            final(self)@ == old(self)@.filter(no_trigger_of(job_id)),
            removed@ == old(self)@.filter(trigger_of(job_id)),
    {
        let mut kept: Vec<PendingExecution> = Vec::new();
        let mut removed: Vec<PendingExecution> = Vec::new();
        let mut i: usize = 0;
        proof {
            reveal(Seq::filter);
        }
        while i < self.items.len()
            invariant
                i <= self.items.len(),
                self.items@ == old(self).items@,
                kept@ == self@.take(i as int).filter(no_trigger_of(job_id)),
                removed@ == self@.take(i as int).filter(trigger_of(job_id)),
            decreases self.items.len() - i,
        {
            proof {
                lemma_filter_step(self@, no_trigger_of(job_id), i as int);
                lemma_filter_step(self@, trigger_of(job_id), i as int);
            }
            let item = self.items[i];
            if item.job_id == job_id && item.kind.is_replaceable_trigger() {
                removed.push(item);
            } else {
                kept.push(item);
            }
            i += 1;
        }
        assert(self@.take(i as int) =~= self@);
        self.items = kept;
        removed
    }

    /// Takes out the oldest replaceable trigger of a job, where it has one.
    pub fn remove_oldest_trigger(&mut self, job_id: JobId) -> (removed: Option<PendingExecution>)
        ensures
            match removed {
                Some(item) => exists|i: int| #[trigger]
                    oldest_trigger(old(self)@, job_id, i) && item == old(self)@[i] && final(self)@
                        == old(self)@.remove(i),
                None => final(self)@ == old(self)@ && forall|i: int|
                    !#[trigger] oldest_trigger(old(self)@, job_id, i),
            },
    {
        match self.find_oldest_trigger(job_id) {
            Some(i) => Some(self.items.remove(i)),
            None => None,
        }
    }

    fn find_oldest_trigger(&self, job_id: JobId) -> (found: Option<usize>)
        ensures
            match found {
                Some(i) => oldest_trigger(self@, job_id, i as int),
                None => forall|i: int| !oldest_trigger(self@, job_id, i),
            },
    {
        let mut i: usize = 0;
        while i < self.items.len()
            invariant
                i <= self.items.len(),
                forall|k: int| 0 <= k < i ==> !is_trigger_of(#[trigger] self@[k], job_id),
            decreases self.items.len() - i,
        {
            let item = self.items[i];
            if item.job_id == job_id && item.kind.is_replaceable_trigger() {
                return Some(i);
            }
            i += 1;
        }
        None
    }

    /// Takes out the first execution, in the order of dispatch, among those that may start.
    pub fn pop_dispatchable(&mut self, allowed: &Vec<bool>) -> (popped: Option<PendingExecution>)
        requires
            allowed@.len() == old(self)@.len(),
        ensures
            match popped {
                Some(item) => exists|i: int| #[trigger]
                    first_allowed(old(self)@, allowed@, i) && item == old(self)@[i]
                        && final(self)@ == old(self)@.remove(i),
                None => final(self)@ == old(self)@ && forall|i: int|
                    0 <= i < old(self)@.len() ==> !#[trigger] allowed@[i],
            },
    {
        let mut best: Option<usize> = None;
        let mut i: usize = 0;
        while i < self.items.len()
            invariant
                i <= self.items.len(),
                self.items@ == old(self).items@,
                allowed@.len() == self@.len(),
                match best {
                    Some(b) => b < i && allowed@[b as int] && forall|k: int|
                        0 <= k < i && #[trigger] allowed@[k] && k != b ==> goes_before(
                            self@,
                            b as int,
                            k,
                        ),
                    None => forall|k: int| 0 <= k < i ==> !#[trigger] allowed@[k],
                },
            decreases self.items.len() - i,
        {
            if allowed[i] {
                best = match best {
                    None => Some(i),
                    Some(b) => {
                        let current = self.items[b];
                        let item = self.items[i];
                        if item.batch_id < current.batch_id || (item.batch_id == current.batch_id
                            && item.priority.get() > current.priority.get()) {
                            Some(i)
                        } else {
                            Some(b)
                        }
                    },
                };
            }
            i += 1;
        }
        match best {
            Some(b) => {
                assert(first_allowed(old(self)@, allowed@, b as int));
                Some(self.items.remove(b))
            },
            None => None,
        }
    }

    /// Drops everything.
    pub fn clear(&mut self)
        ensures
            final(self)@ == Seq::<PendingExecution>::empty(),
    {
        self.items.clear();
    }
}

/// The position of dispatch is unique.
pub proof fn lemma_first_allowed_unique(
    items: Seq<PendingExecution>,
    allowed: Seq<bool>,
    i: int,
    k: int,
)
    requires
        first_allowed(items, allowed, i),
        first_allowed(items, allowed, k),
    ensures
        i == k,
{
    if i != k {
        assert(allowed[i] && allowed[k]);
    }
}

} // verus!
