//! Due timers, admission to the ready queue, and the way back from backpressure.

use super::super::config::error_text;
use super::super::cron::{cron_start, is_cron_start};
use super::super::event::{SchedulerEventKind, SchedulerEventKindView};
use super::super::model::{CapacityPolicy, JobId, RunId, TriggerCoalescing};
use super::super::queue::{
    count_of, no_trigger_of, oldest_trigger, trigger_of, PendingExecution, PendingKind, TimerEntry,
    TimerKind,
};
use super::super::time::{representable, Timestamp};
use super::super::timing::{
    askable, due, due_occurrences, following, next_after, DueSchedule, DueView,
};
use super::{
    job_position, lemma_filter_next, lemma_job_position, lemma_with_job, next_number, successor,
    JobView, SchedulerActor, SchedulerState,
};
use vstd::prelude::*;

verus! {

/// What became of a pending execution.
#[derive(Debug, Clone, Copy, PartialEq, Eq, Structural)]
pub enum Admission {
    /// It waits in the ready queue.
    Accepted,
    /// It was dropped.
    Skipped,
    /// It is held back, and further periods wait with it.
    Blocked,
}

/// Whether an execution that is held back stays when a newer trigger comes.
pub open spec fn stays_blocked() -> spec_fn(PendingExecution) -> bool {
    |item: PendingExecution| !item.kind.replaceable()
}

/// Whether an execution that is held back leaves when a newer trigger comes.
pub open spec fn leaves_blocked() -> spec_fn(PendingExecution) -> bool {
    |item: PendingExecution| item.kind.replaceable()
}

/// Execution of a planned instant.
pub open spec fn planned_execution(
    job: JobView,
    batch_id: u64,
    run_now: bool,
    occurrence: Timestamp,
    run_id: RunId,
) -> PendingExecution {
    PendingExecution {
        job_id: job.id,
        version: job.version,
        run_id,
        attempt: 1,
        scheduled_at: occurrence,
        kind: if job.trigger.schedule is Once {
            PendingKind::Once
        } else if run_now {
            PendingKind::RunNow
        } else {
            PendingKind::Normal
        },
        priority: job.priority,
        batch_id,
    }
}

/// What fires for a job, or the error that stops it.
pub open spec fn firing(
    job: JobView,
    scheduled_at: Timestamp,
    run_now: bool,
    now: Timestamp,
    maximum_catch_up: u32,
) -> Result<DueView, super::super::config::SchedulerErrorView> {
    if run_now {
        Ok(
            DueView {
                occurrences: seq![now],
                next: match following(job.trigger.schedule, now) {
                    Ok(next) => next,
                    Err(_) => None,
                },
            },
        )
    } else {
        due(job.trigger, scheduled_at, now, maximum_catch_up)
    }
}

impl SchedulerState {
    /// Pending limit in force for a job.
    pub open spec fn pending_limit(self, job: JobView) -> usize {
        match job.max_pending {
            Some(limit) => limit,
            None => self.config.default_job_max_pending,
        }
    }

    /// Whether there is no room for another execution of a job.
    pub open spec fn full(self, job: JobView) -> bool {
        self.ready.len() >= self.config.global_max_pending || count_of(self.ready, job.id)
            >= self.pending_limit(job)
    }

    /// Tells of executions that gave way to a newer one.
    pub open spec fn replaced(
        self,
        job_id: JobId,
        removed: Seq<PendingExecution>,
        by: RunId,
        now: Timestamp,
    ) -> Self
        decreases removed.len(),
    {
        if removed.len() == 0 {
            self
        } else {
            self.replaced(job_id, removed.drop_last(), by, now).emit(
                SchedulerEventKindView::PendingReplaced {
                    job_id,
                    removed_run_id: removed.last().run_id,
                    replacement_run_id: by,
                },
                now,
            )
        }
    }

    /// Drops the older triggers of a job, those held back too, in favour of a newer one.
    pub open spec fn coalesced(self, job_id: JobId, by: RunId, now: Timestamp) -> Self {
        let job = self.job(job_id);
        let cleared = SchedulerState { ready: self.ready.filter(no_trigger_of(job_id)), ..self };
        cleared.with_job(
            job_id,
            JobView { blocked: job.blocked.filter(stays_blocked()), ..job },
        ).replaced(job_id, self.ready.filter(trigger_of(job_id)), by, now).replaced(
            job_id,
            job.blocked.filter(leaves_blocked()),
            by,
            now,
        )
    }

    /// Adds an execution to the ready queue.
    pub open spec fn enqueued(self, pending: PendingExecution, now: Timestamp) -> Self {
        let ready = self.ready.push(pending);
        SchedulerState { ready, ..self }.emit(
            SchedulerEventKindView::ExecutionQueued {
                job_id: pending.job_id,
                version: pending.version,
                run_id: pending.run_id,
                pending_count: count_of(ready, pending.job_id) as int,
            },
            now,
        )
    }

    /// Holds an execution back.
    pub open spec fn held_back(self, pending: PendingExecution, now: Timestamp) -> Self {
        let job = self.job(pending.job_id);
        self.with_job(
            pending.job_id,
            JobView { blocked: job.blocked.push(pending), ..job },
        ).emit(
            SchedulerEventKindView::BackpressureApplied {
                job_id: pending.job_id,
                version: pending.version,
            },
            now,
        )
    }

    /// Capacity policy that applies to an execution: one-shot, run-now and retried executions are
    /// never dropped.
    pub open spec fn policy_for(
        self,
        pending: PendingExecution,
        force_backpressure: bool,
    ) -> CapacityPolicy {
        if force_backpressure || !pending.kind.replaceable() {
            CapacityPolicy::Backpressure
        } else {
            self.job(pending.job_id).capacity
        }
    }

    /// State before room is looked for: a job that keeps only its latest trigger drops the others.
    pub open spec fn made_room(self, pending: PendingExecution, now: Timestamp) -> Self {
        if self.job(pending.job_id).coalescing == TriggerCoalescing::KeepLatest
            && pending.kind.replaceable() {
            self.coalesced(pending.job_id, pending.run_id, now)
        } else {
            self
        }
    }

    /// Puts an execution into the ready queue, or does what the capacity policy says where there
    /// is no room.
    pub open spec fn admitted(
        self,
        pending: PendingExecution,
        force_backpressure: bool,
        now: Timestamp,
    ) -> (Self, Admission) {
        if !self.has_job(pending.job_id) {
            (self, Admission::Skipped)
        } else {
            let state = self.made_room(pending, now);
            if !state.full(self.job(pending.job_id)) {
                (state.enqueued(pending, now), Admission::Accepted)
            } else {
                match self.policy_for(pending, force_backpressure) {
                    CapacityPolicy::SkipNewest => (
                        state.emit(
                            SchedulerEventKindView::TriggerSkipped {
                                job_id: pending.job_id,
                                version: pending.version,
                                scheduled_at: pending.scheduled_at,
                                reason: "pending capacity reached"@,
                            },
                            now,
                        ),
                        Admission::Skipped,
                    ),
                    CapacityPolicy::ReplaceOldestTrigger => if exists|i: int|
                        oldest_trigger(state.ready, pending.job_id, i) {
                        let i = choose|i: int| oldest_trigger(state.ready, pending.job_id, i);
                        (
                            SchedulerState { ready: state.ready.remove(i), ..state }.emit(
                                SchedulerEventKindView::PendingReplaced {
                                    job_id: pending.job_id,
                                    removed_run_id: state.ready[i].run_id,
                                    replacement_run_id: pending.run_id,
                                },
                                now,
                            ).enqueued(pending, now),
                            Admission::Accepted,
                        )
                    } else {
                        (state.held_back(pending, now), Admission::Blocked)
                    },
                    CapacityPolicy::Backpressure => (
                        state.held_back(pending, now),
                        Admission::Blocked,
                    ),
                }
            }
        }
    }

    /// Admits the executions of the first `n` planned instants; tells whether one is held back.
    pub open spec fn admitted_all(
        self,
        job: JobView,
        batch_id: u64,
        run_now: bool,
        occurrences: Seq<Timestamp>,
        run_ids: Seq<RunId>,
        n: nat,
        now: Timestamp,
    ) -> (Self, bool)
        decreases n,
    {
        if n == 0 {
            (self, false)
        } else {
            let (state, blocked) = self.admitted_all(
                job,
                batch_id,
                run_now,
                occurrences,
                run_ids,
                (n - 1) as nat,
                now,
            );
            let pending = planned_execution(
                job,
                batch_id,
                run_now,
                occurrences[n - 1],
                run_ids[n - 1],
            );
            let (next, admission) = state.admitted(pending, job.trigger.schedule is Once, now);
            (next, blocked || admission is Blocked)
        }
    }

    /// Fires a normal trigger: the misfire policy tells what executes, and the next period is
    /// planned unless an execution is held back. `run_ids` are the identifiers drawn for the
    /// executions.
    pub open spec fn fired(
        self,
        job_id: JobId,
        scheduled_at: Timestamp,
        batch_id: u64,
        run_now: bool,
        now: Timestamp,
        run_ids: Seq<RunId>,
    ) -> Self {
        if !self.has_job(job_id) {
            self
        } else {
            let job = self.job(job_id);
            match firing(job, scheduled_at, run_now, now, self.config.maximum_catch_up) {
                Err(error) => self.force_disabled(job_id, error_text(error), now),
                Ok(batch) => {
                    let told = if batch.occurrences.len() == 0 {
                        self.emit(
                            SchedulerEventKindView::TriggerSkipped {
                                job_id,
                                version: job.version,
                                scheduled_at,
                                reason: "misfire policy skipped expired occurrences"@,
                            },
                            now,
                        )
                    } else {
                        self
                    };
                    let (state, blocked) = told.admitted_all(
                        job,
                        batch_id,
                        run_now,
                        batch.occurrences,
                        run_ids,
                        batch.occurrences.len(),
                        now,
                    );
                    if !blocked && batch.next is Some {
                        state.schedule_normal(job_id, batch.next->0, TimerKind::Normal, now)
                    } else {
                        state
                    }
                },
            }
        }
    }

    /// Whether a timer still counts: its job exists, has the same version and is enabled.
    pub open spec fn timer_counts(self, entry: TimerEntry) -> bool {
        &&& self.has_job(entry.job_id)
        &&& self.job(entry.job_id).version == entry.version
        &&& self.job(entry.job_id).state is Enabled
    }

    /// Handles a timer that fired; a stale one does nothing.
    pub open spec fn timer_handled(
        self,
        entry: TimerEntry,
        batch_id: u64,
        now: Timestamp,
        run_ids: Seq<RunId>,
    ) -> Self {
        if !self.timer_counts(entry) {
            self
        } else {
            let job = self.job(entry.job_id);
            match entry.kind {
                TimerKind::Retry { run_id, scheduled_at, attempt } => self.forget_retry(
                    run_id,
                ).admitted(
                    PendingExecution {
                        job_id: entry.job_id,
                        version: entry.version,
                        run_id,
                        attempt,
                        scheduled_at,
                        kind: PendingKind::Retry,
                        priority: job.priority,
                        batch_id,
                    },
                    true,
                    now,
                ).0,
                _ => self.with_job(
                    entry.job_id,
                    JobView { normal_timer_key: None, next_run_at: None, ..job },
                ).fired(
                    entry.job_id,
                    entry.run_at,
                    batch_id,
                    entry.kind is RunNow,
                    now,
                    run_ids,
                ),
            }
        }
    }

    /// The next batch of timers.
    pub open spec fn next_batch(self) -> Self {
        SchedulerState { batch_sequence: successor(self.batch_sequence), ..self }
    }

    /// Handles the first `n` timers of a batch, one after the other.
    pub open spec fn batch_handled(
        self,
        entries: Seq<TimerEntry>,
        n: nat,
        batch_id: u64,
        now: Timestamp,
        run_ids: Seq<Seq<RunId>>,
    ) -> Self
        decreases n,
    {
        if n == 0 {
            self
        } else {
            self.batch_handled(entries, (n - 1) as nat, batch_id, now, run_ids).timer_handled(
                entries[n - 1],
                batch_id,
                now,
                run_ids[n - 1],
            )
        }
    }

    /// Whether there is room for another execution of the job at a position.
    pub open spec fn room_at(self, i: int) -> bool {
        &&& 0 <= i < self.jobs.len()
        &&& !self.full(self.jobs[i])
    }

    /// Moves executions of the job at a position from being held back to the ready queue while
    /// there is room, oldest first; those of another version are dropped. Gives the planned
    /// instant of the last period that moved, else `resume`.
    pub open spec fn drained(self, i: int, resume: Option<Timestamp>, now: Timestamp) -> (
        Self,
        Option<Timestamp>,
    )
        decreases self.jobs[i].blocked.len(),
    {
        if self.room_at(i) && self.jobs[i].blocked.len() > 0 {
            let job = self.jobs[i];
            let pending = job.blocked[0];
            let popped = SchedulerState {
                jobs: self.jobs.update(i, JobView { blocked: job.blocked.remove(0), ..job }),
                ..self
            };
            if job.version == pending.version {
                popped.enqueued(pending, now).drained(
                    i,
                    if pending.kind is Normal || pending.kind is RunNow {
                        Some(pending.scheduled_at)
                    } else {
                        resume
                    },
                    now,
                )
            } else {
                popped.drained(i, resume, now)
            }
        } else {
            (self, resume)
        }
    }

    /// Brings back what is held back of the job at a position. Once nothing is held back any
    /// more, the periods go on in phase with the last one that was.
    pub open spec fn restored_at(self, i: int, now: Timestamp) -> Self {
        let (state, resume) = self.drained(i, None, now);
        let job = state.jobs[i];
        if job.blocked.len() == 0 && job.next_run_at is None && job.state is Enabled && !(
        job.trigger.schedule is Once) && resume is Some && following(
            job.trigger.schedule,
            resume->0,
        ) is Ok && following(job.trigger.schedule, resume->0)->Ok_0 is Some {
            state.schedule_normal(
                job.id,
                following(job.trigger.schedule, resume->0)->Ok_0->0,
                TimerKind::Normal,
                now,
            )
        } else {
            state
        }
    }

    /// Brings back what is held back of the first `n` jobs.
    pub open spec fn restored_first(self, n: nat, now: Timestamp) -> Self
        decreases n,
    {
        if n == 0 {
            self
        } else {
            self.restored_first((n - 1) as nat, now).restored_at(n - 1, now)
        }
    }

    /// Brings back what is held back, where the ready queue has room at all.
    pub open spec fn restored(self, now: Timestamp) -> Self {
        if self.ready.len() >= self.config.global_max_pending {
            self
        } else {
            self.restored_first(self.jobs.len(), now)
        }
    }

    /// Whether the next occurrence can be asked from the planned instant of an execution.
    pub open spec fn plannable(self, pending: PendingExecution) -> bool {
        self.has_job(pending.job_id) && self.job(pending.job_id).trigger.schedule is Cron
            ==> cron_start(pending.scheduled_at.nanos as int)
    }

    /// Whether the occurrences of a job can be asked from `now`.
    pub open spec fn asks(self, job_id: JobId, now: Timestamp) -> bool {
        self.has_job(job_id) ==> askable(self.job(job_id).trigger.schedule, now)
    }

    /// Whether the instants of a timer can be asked about.
    pub open spec fn accepts(self, entry: TimerEntry) -> bool {
        self.has_job(entry.job_id) ==> {
            let schedule = self.job(entry.job_id).trigger.schedule;
            &&& askable(schedule, entry.run_at)
            &&& entry.kind matches TimerKind::Retry { scheduled_at, .. } ==> askable(
                schedule,
                scheduled_at,
            )
        }
    }
}

/// Whether two lists of jobs hold the same jobs with the same triggers.
pub open spec fn same_triggers(a: Seq<JobView>, b: Seq<JobView>) -> bool {
    &&& a.len() == b.len()
    &&& forall|i: int|
        0 <= i < a.len() ==> (#[trigger] a[i]).id == b[i].id && a[i].trigger == b[i].trigger
}

/// Telling of replaced executions changes only the events.
pub proof fn lemma_replaced(
    state: SchedulerState,
    job_id: JobId,
    removed: Seq<PendingExecution>,
    by: RunId,
    now: Timestamp,
)
    ensures
        state.replaced(job_id, removed, by, now) == (SchedulerState {
            event_sequence: state.replaced(job_id, removed, by, now).event_sequence,
            effects: state.replaced(job_id, removed, by, now).effects,
            ..state
        }),
    decreases removed.len(),
{
    if removed.len() > 0 {
        lemma_replaced(state, job_id, removed.drop_last(), by, now);
    }
}

/// The position of the oldest trigger is unique.
proof fn lemma_oldest_trigger(items: Seq<PendingExecution>, job_id: JobId, i: int)
    requires
        oldest_trigger(items, job_id, i),
    ensures
        i == (choose|k: int| oldest_trigger(items, job_id, k)),
{
    let k = choose|k: int| oldest_trigger(items, job_id, k);
    assert(oldest_trigger(items, job_id, k));
    if k < i {
        assert(!super::super::queue::is_trigger_of(items[k], job_id));
    } else if i < k {
        assert(!super::super::queue::is_trigger_of(items[i], job_id));
    }
}

/// A state in which the trigger of every job is the same still accepts the same timers.
pub proof fn lemma_same_triggers(a: SchedulerState, b: SchedulerState, job_id: JobId)
    requires
        same_triggers(a.jobs, b.jobs),
    ensures
        a.has_job(job_id) == b.has_job(job_id),
        a.has_job(job_id) ==> a.position(job_id) == b.position(job_id) && a.job(job_id).trigger
            == b.job(job_id).trigger,
{
    if a.has_job(job_id) {
        let i = a.position(job_id);
        assert(job_position(a.jobs, job_id, i));
        assert forall|k: int| 0 <= k < i implies (#[trigger] b.jobs[k]).id != job_id by {
            assert(a.jobs[k].id != job_id);
        }
        assert(job_position(b.jobs, job_id, i));
        lemma_job_position(b, job_id, i);
        lemma_job_position(a, job_id, i);
    }
    if b.has_job(job_id) {
        let i = b.position(job_id);
        assert(job_position(b.jobs, job_id, i));
        assert forall|k: int| 0 <= k < i implies (#[trigger] a.jobs[k]).id != job_id by {
            assert(a.jobs[k].id == b.jobs[k].id);
        }
        assert(a.jobs[i].id == b.jobs[i].id);
        assert(job_position(a.jobs, job_id, i));
    }
}

impl SchedulerActor {
    fn emit_replaced(
        &mut self,
        job_id: JobId,
        removed: &Vec<PendingExecution>,
        by: RunId,
        now: Timestamp,
    )
        ensures
            final(self)@ == old(self)@.replaced(job_id, removed@, by, now),
            final(self).jobs == old(self).jobs,
            final(self)@.running == old(self)@.running,
            final(self)@.retry_timers == old(self)@.retry_timers,
    {
        let mut i: usize = 0;
        while i < removed.len()
            invariant
                i <= removed.len(),
                self@ == old(self)@.replaced(job_id, removed@.take(i as int), by, now),
                self.jobs == old(self).jobs,
                self@.running == old(self)@.running,
                self@.retry_timers == old(self)@.retry_timers,
            decreases removed.len() - i,
        {
            proof {
                assert(removed@.take(i as int + 1).drop_last() =~= removed@.take(i as int));
            }
            self.emit(
                SchedulerEventKind::PendingReplaced {
                    job_id,
                    removed_run_id: removed[i].run_id,
                    replacement_run_id: by,
                },
                now,
            );
            i += 1;
        }
        proof {
            assert(removed@.take(i as int) =~= removed@);
        }
    }

    fn coalesce(&mut self, job_id: JobId, by: RunId, now: Timestamp)
        requires
            old(self)@.has_job(job_id),
        ensures
            final(self)@ == old(self)@.coalesced(job_id, by, now),
            same_triggers(old(self)@.jobs, final(self)@.jobs),
            old(self)@.wf() ==> final(self)@.wf(),
    {
        let i: usize = match self.find_job(job_id) {
            Some(i) => i,
            None => {
                return ;
            },
        };
        let ghost job = self@.job(job_id);
        let removed = self.ready.remove_normal_triggers(job_id);
        let mut kept: Vec<PendingExecution> = Vec::new();
        let mut dropped: Vec<PendingExecution> = Vec::new();
        let mut k: usize = 0;
        proof {
            reveal(Seq::filter);
        }
        while k < self.jobs[i].blocked.len()
            invariant
                i < self.jobs.len(),
                k <= self.jobs[i as int].blocked.len(),
                kept@ == self.jobs@[i as int].blocked@.take(k as int).filter(stays_blocked()),
                dropped@ == self.jobs@[i as int].blocked@.take(k as int).filter(leaves_blocked()),
            decreases self.jobs[i as int].blocked.len() - k,
        {
            proof {
                lemma_filter_next(self.jobs@[i as int].blocked@, stays_blocked(), k as int);
                lemma_filter_next(self.jobs@[i as int].blocked@, leaves_blocked(), k as int);
            }
            let item = self.jobs[i].blocked[k];
            if item.kind.is_replaceable_trigger() {
                dropped.push(item);
            } else {
                kept.push(item);
            }
            k += 1;
        }
        proof {
            assert(job.blocked.take(k as int) =~= job.blocked);
            lemma_filter_subset(job.blocked, stays_blocked());
        }
        self.jobs[i].blocked = kept;
        proof {
            assert(self@.jobs =~= old(self)@.jobs.update(
                i as int,
                JobView { blocked: job.blocked.filter(stays_blocked()), ..job },
            ));
        }
        self.emit_replaced(job_id, &removed, by, now);
        self.emit_replaced(job_id, &dropped, by, now);
    }
}

impl SchedulerActor {
    /// Adds an execution to the ready queue.
    fn enqueue(&mut self, pending: PendingExecution, now: Timestamp)
        ensures
            final(self)@ == old(self)@.enqueued(pending, now),
            final(self).jobs == old(self).jobs,
    {
        self.ready.insert(pending);
        let pending_count: usize = self.ready.count_job(pending.job_id);
        self.emit(
            SchedulerEventKind::ExecutionQueued {
                job_id: pending.job_id,
                version: pending.version,
                run_id: pending.run_id,
                pending_count,
            },
            now,
        );
    }

    /// Holds an execution back.
    fn block(&mut self, pending: PendingExecution, now: Timestamp)
        requires
            old(self)@.has_job(pending.job_id),
        ensures
            final(self)@ == old(self)@.held_back(pending, now),
            same_triggers(old(self)@.jobs, final(self)@.jobs),
            old(self)@.wf() && (old(self)@.job(pending.job_id).trigger.schedule is Cron
                ==> cron_start(pending.scheduled_at.nanos as int)) ==> final(self)@.wf(),
    {
        let job_id: JobId = pending.job_id;
        if let Some(i) = self.find_job(job_id) {
            let ghost job = self@.job(job_id);
            self.jobs[i].blocked.push(pending);
            proof {
                assert(self@.jobs =~= old(self)@.jobs.update(
                    i as int,
                    JobView { blocked: job.blocked.push(pending), ..job },
                ));
            }
        }
        self.emit(
            SchedulerEventKind::BackpressureApplied { job_id, version: pending.version },
            now,
        );
    }

    /// Puts an execution into the ready queue, or does what the capacity policy says where there
    /// is no room.
    pub fn offer(&mut self, pending: PendingExecution, force_backpressure: bool, now: Timestamp)
        -> (admission: Admission)
        ensures
            (final(self)@, admission) == old(self)@.admitted(pending, force_backpressure, now),
            same_triggers(old(self)@.jobs, final(self)@.jobs),
            old(self)@.wf() && old(self)@.plannable(pending) ==> final(self)@.wf(),
    {
        let job_id: JobId = pending.job_id;
        let i: usize = match self.find_job(job_id) {
            Some(i) => i,
            None => {
                return Admission::Skipped;
            },
        };
        let ghost job = self@.job(job_id);
        let coalescing = self.jobs[i].coalescing;
        let replaceable = pending.kind.is_replaceable_trigger();
        let capacity = if force_backpressure || !replaceable {
            CapacityPolicy::Backpressure
        } else {
            self.jobs[i].capacity
        };
        let job_limit: usize = match self.jobs[i].max_pending {
            Some(limit) => limit,
            None => self.config.default_job_max_pending,
        };
        if coalescing == TriggerCoalescing::KeepLatest && replaceable {
            self.coalesce(job_id, pending.run_id, now);
        }
        let ghost room = self@;
        proof {
            lemma_made_room(*old(self), pending, now);
            lemma_same_triggers(old(self)@, room, job_id);
        }
        let global_full = self.ready.len() >= self.config.global_max_pending;
        let job_full = self.ready.count_job(job_id) >= job_limit;
        if global_full || job_full {
            match capacity {
                CapacityPolicy::SkipNewest => {
                    self.emit(
                        SchedulerEventKind::TriggerSkipped {
                            job_id,
                            version: pending.version,
                            scheduled_at: pending.scheduled_at,
                            reason: "pending capacity reached".to_owned(),
                        },
                        now,
                    );
                    return Admission::Skipped;
                },
                CapacityPolicy::ReplaceOldestTrigger => {
                    match self.ready.remove_oldest_trigger(job_id) {
                        Some(old_trigger) => {
                            proof {
                                let k = choose|k: int| #[trigger]
                                    oldest_trigger(room.ready, job_id, k) && old_trigger
                                        == room.ready[k] && self.ready@ == room.ready.remove(k);
                                lemma_oldest_trigger(room.ready, job_id, k);
                            }
                            self.emit(
                                SchedulerEventKind::PendingReplaced {
                                    job_id,
                                    removed_run_id: old_trigger.run_id,
                                    replacement_run_id: pending.run_id,
                                },
                                now,
                            );
                        },
                        None => {
                            self.block(pending, now);
                            return Admission::Blocked;
                        },
                    }
                },
                CapacityPolicy::Backpressure => {
                    self.block(pending, now);
                    return Admission::Blocked;
                },
            }
        }
        self.enqueue(pending, now);
        Admission::Accepted
    }
}

/// Looking for room keeps the limits, the jobs and their triggers.
proof fn lemma_made_room(actor: SchedulerActor, pending: PendingExecution, now: Timestamp)
    requires
        actor@.has_job(pending.job_id),
    ensures
        actor@.made_room(pending, now).config == actor@.config,
        actor@.made_room(pending, now).jobs.len() == actor@.jobs.len(),
        actor@.job(pending.job_id).id == pending.job_id,
{
    let state = actor@;
    let job_id = pending.job_id;
    let job = state.job(job_id);
    lemma_with_job(state, job_id, job);
    let cleared = SchedulerState { ready: state.ready.filter(no_trigger_of(job_id)), ..state };
    let kept = cleared.with_job(
        job_id,
        JobView { blocked: job.blocked.filter(stays_blocked()), ..job },
    );
    let first = state.ready.filter(trigger_of(job_id));
    lemma_replaced(kept, job_id, first, pending.run_id, now);
    lemma_replaced(
        kept.replaced(job_id, first, pending.run_id, now),
        job_id,
        job.blocked.filter(leaves_blocked()),
        pending.run_id,
        now,
    );
}

/// The state after the first executions depends on their identifiers alone.
proof fn lemma_admitted_all_prefix(
    state: SchedulerState,
    job: JobView,
    batch_id: u64,
    run_now: bool,
    occurrences: Seq<Timestamp>,
    a: Seq<RunId>,
    b: Seq<RunId>,
    n: nat,
    now: Timestamp,
)
    requires
        n <= a.len(),
        n <= b.len(),
        forall|k: int| 0 <= k < n ==> a[k] == b[k],
    ensures
        state.admitted_all(job, batch_id, run_now, occurrences, a, n, now)
            == state.admitted_all(job, batch_id, run_now, occurrences, b, n, now),
    decreases n,
{
    if n > 0 {
        lemma_admitted_all_prefix(
            state,
            job,
            batch_id,
            run_now,
            occurrences,
            a,
            b,
            (n - 1) as nat,
            now,
        );
    }
}

/// `uuid::Uuid::new_v4`: a random identifier of which nothing is known.
#[verifier::external_body]
pub(crate) fn draw_run_id() -> (run_id: RunId) {
    uuid::Uuid::new_v4().as_u128()
}

impl SchedulerActor {
    /// Fires a normal trigger: the misfire policy tells what executes, and the next period is
    /// planned unless an execution is held back. The executions get random identifiers; the
    /// contract holds whatever they are.
    #[verifier::rlimit(40)]
    pub fn handle_normal_trigger(
        &mut self,
        job_id: JobId,
        scheduled_at: Timestamp,
        batch_id: u64,
        run_now: bool,
        now: Timestamp,
    )
        requires
            old(self)@.asks(job_id, now),
            old(self)@.has_job(job_id) ==> askable(
                old(self)@.job(job_id).trigger.schedule,
                scheduled_at,
            ),
        ensures
            exists|run_ids: Seq<RunId>|
                final(self)@ == #[trigger] old(self)@.fired(
                    job_id,
                    scheduled_at,
                    batch_id,
                    run_now,
                    now,
                    run_ids,
                ),
            same_triggers(old(self)@.jobs, final(self)@.jobs),
            old(self)@.wf() ==> final(self)@.wf(),
    {
        let i: usize = match self.find_job(job_id) {
            Some(i) => i,
            None => {
                assert(self@ == old(self)@.fired(
                    job_id,
                    scheduled_at,
                    batch_id,
                    run_now,
                    now,
                    Seq::empty(),
                ));
                return ;
            },
        };
        let ghost job = self@.job(job_id);
        let trigger = self.jobs[i].trigger.clone();
        let version: u64 = self.jobs[i].version;
        let priority = self.jobs[i].priority;
        let once = trigger.schedule.is_once();
        let batch = if run_now {
            let next = match next_after(&trigger.schedule, now) {
                Ok(next) => next,
                Err(_) => None,
            };
            let occurrences = vec![now];
            assert(occurrences@ =~= seq![now]);
            DueSchedule { occurrences, next }
        } else {
            match due_occurrences(&trigger, scheduled_at, now, self.config.maximum_catch_up) {
                Ok(batch) => batch,
                Err(error) => {
                    let _ = self.force_disable(job_id, error.message(), now);
                    proof {
                        assert(self@ == old(self)@.fired(
                            job_id,
                            scheduled_at,
                            batch_id,
                            run_now,
                            now,
                            Seq::empty(),
                        ));
                    }
                    return ;
                },
            }
        };
        if batch.occurrences.len() == 0 {
            self.emit(
                SchedulerEventKind::TriggerSkipped {
                    job_id,
                    version,
                    scheduled_at,
                    reason: "misfire policy skipped expired occurrences".to_owned(),
                },
                now,
            );
        }
        let ghost told = self@;
        let ghost mut run_ids: Seq<RunId> = Seq::empty();
        let mut blocked = false;
        let mut k: usize = 0;
        while k < batch.occurrences.len()
            invariant
                k <= batch.occurrences.len(),
                run_ids.len() == k,
                (self@, blocked) == told.admitted_all(
                    job,
                    batch_id,
                    run_now,
                    batch.occurrences@,
                    run_ids,
                    k as nat,
                    now,
                ),
                same_triggers(told.jobs, self@.jobs),
                told.wf() ==> self@.wf(),
                told.has_job(job_id),
                told.job(job_id) == job,
                job.id == job_id,
                job.version == version,
                job.priority == priority,
                once == (job.trigger.schedule is Once),
                job.trigger.schedule is Cron ==> forall|j: int|
                    0 <= j < batch.occurrences@.len() ==> cron_start(
                        (#[trigger] batch.occurrences@[j]).nanos as int,
                    ),
            decreases batch.occurrences.len() - k,
        {
            let run_id: RunId = draw_run_id();
            let pending = PendingExecution {
                job_id,
                version,
                run_id,
                attempt: 1,
                scheduled_at: batch.occurrences[k],
                kind: if once {
                    PendingKind::Once
                } else if run_now {
                    PendingKind::RunNow
                } else {
                    PendingKind::Normal
                },
                priority,
                batch_id,
            };
            proof {
                lemma_same_triggers(told, self@, job_id);
                lemma_admitted_all_prefix(
                    told,
                    job,
                    batch_id,
                    run_now,
                    batch.occurrences@,
                    run_ids,
                    run_ids.push(run_id),
                    k as nat,
                    now,
                );
                assert(self@.plannable(pending));
                run_ids = run_ids.push(run_id);
                assert(pending == planned_execution(
                    job,
                    batch_id,
                    run_now,
                    batch.occurrences@[k as int],
                    run_ids[k as int],
                ));
            }
            let admission = self.offer(pending, once, now);
            if matches!(admission, Admission::Blocked) {
                blocked = true;
            }
            k += 1;
        }
        if !blocked {
            if let Some(next) = batch.next {
                self.schedule_normal(job_id, next, TimerKind::Normal, now);
            }
        }
        proof {
            assert(self@ == old(self)@.fired(
                job_id,
                scheduled_at,
                batch_id,
                run_now,
                now,
                run_ids,
            ));
        }
    }
}

impl SchedulerActor {
    /// Whether the instants of a timer can be asked about.
    pub fn accepts_timer(&self, entry: &TimerEntry) -> (accepts: bool)
        ensures
            accepts == self@.accepts(*entry),
    {
        let i: usize = match self.find_job(entry.job_id) {
            Some(i) => i,
            None => {
                return true;
            },
        };
        let cron = self.jobs[i].trigger.schedule.is_cron();
        if !askable_instant(cron, entry.run_at) {
            return false;
        }
        match entry.kind {
            TimerKind::Retry { scheduled_at, .. } => askable_instant(cron, scheduled_at),
            _ => true,
        }
    }

    /// Handles a timer that fired. A timer of a missing, changed or disabled job does nothing.
    pub fn handle_timer(&mut self, entry: TimerEntry, batch_id: u64, now: Timestamp)
        requires
            !(entry.kind is Retry) ==> old(self)@.asks(entry.job_id, now),
            old(self)@.accepts(entry),
        ensures
            exists|run_ids: Seq<RunId>|
                final(self)@ == #[trigger] old(self)@.timer_handled(entry, batch_id, now, run_ids),
            same_triggers(old(self)@.jobs, final(self)@.jobs),
            old(self)@.wf() ==> final(self)@.wf(),
    {
        let ghost nobody: Seq<RunId> = Seq::empty();
        let i: usize = match self.find_job(entry.job_id) {
            Some(i) => i,
            None => {
                assert(self@ == old(self)@.timer_handled(entry, batch_id, now, nobody));
                return ;
            },
        };
        if self.jobs[i].version != entry.version || !self.jobs[i].state.is_enabled() {
            assert(self@ == old(self)@.timer_handled(entry, batch_id, now, nobody));
            return ;
        }
        let ghost job = self@.job(entry.job_id);
        match entry.kind {
            TimerKind::Retry { run_id, scheduled_at, attempt } => {
                let priority = self.jobs[i].priority;
                self.forget_retry(run_id);
                let pending = PendingExecution {
                    job_id: entry.job_id,
                    version: entry.version,
                    run_id,
                    attempt,
                    scheduled_at,
                    kind: PendingKind::Retry,
                    priority,
                    batch_id,
                };
                self.offer(pending, true, now);
                assert(self@ == old(self)@.timer_handled(entry, batch_id, now, nobody));
            },
            _ => {
                self.jobs[i].normal_timer_key = None;
                self.jobs[i].next_run_at = None;
                let ghost cleared = self@;
                proof {
                    lemma_with_job(
                        old(self)@,
                        entry.job_id,
                        JobView { normal_timer_key: None, next_run_at: None, ..job },
                    );
                    assert(self@.jobs =~= old(self)@.jobs.update(
                        i as int,
                        JobView { normal_timer_key: None, next_run_at: None, ..job },
                    ));
                }
                assert(same_triggers(old(self)@.jobs, cleared.jobs));
                let run_now = matches!(entry.kind, TimerKind::RunNow);
                self.handle_normal_trigger(entry.job_id, entry.run_at, batch_id, run_now, now);
                proof {
                    let run_ids = choose|run_ids: Seq<RunId>|
                        self@ == #[trigger] cleared.fired(
                            entry.job_id,
                            entry.run_at,
                            batch_id,
                            run_now,
                            now,
                            run_ids,
                        );
                    assert(self@ == old(self)@.timer_handled(entry, batch_id, now, run_ids));
                }
            },
        }
    }

    /// Whether a batch of due timers takes one more.
    pub fn batch_has_room(&self, collected: usize) -> (room: bool)
        ensures
            room == (collected < self@.config.due_batch_size),
    {
        collected < self.config.due_batch_size
    }

    /// Handles a batch of timers that fired together, under one new batch number.
    pub fn handle_expired_batch(&mut self, entries: Vec<TimerEntry>, now: Timestamp)
        requires
            forall|k: int|
                0 <= k < entries@.len() ==> {
                    let entry = #[trigger] entries@[k];
                    &&& old(self)@.accepts(entry)
                    &&& !(entry.kind is Retry) ==> old(self)@.asks(entry.job_id, now)
                },
        ensures
            exists|run_ids: Seq<Seq<RunId>>|
                final(self)@ == #[trigger] old(self)@.next_batch().batch_handled(
                    entries@,
                    entries@.len(),
                    successor(old(self)@.batch_sequence),
                    now,
                    run_ids,
                ),
            same_triggers(old(self)@.jobs, final(self)@.jobs),
            old(self)@.wf() ==> final(self)@.wf(),
    {
        self.batch_sequence = next_number(self.batch_sequence);
        let batch_id: u64 = self.batch_sequence;
        let ghost start = self@;
        let ghost mut run_ids: Seq<Seq<RunId>> = Seq::empty();
        let mut k: usize = 0;
        while k < entries.len()
            invariant
                k <= entries.len(),
                start == old(self)@.next_batch(),
                batch_id == successor(old(self)@.batch_sequence),
                run_ids.len() == k,
                self@ == start.batch_handled(entries@, k as nat, batch_id, now, run_ids),
                same_triggers(start.jobs, self@.jobs),
                old(self)@.wf() ==> self@.wf(),
                forall|j: int|
                    0 <= j < entries@.len() ==> {
                        let entry = #[trigger] entries@[j];
                        &&& old(self)@.accepts(entry)
                        &&& !(entry.kind is Retry) ==> old(self)@.asks(entry.job_id, now)
                    },
            decreases entries.len() - k,
        {
            let ghost here = self@;
            let entry = entries[k];
            proof {
                assert(old(self)@.accepts(entries@[k as int]));
                lemma_same_triggers(start, here, entry.job_id);
                lemma_same_triggers(start, old(self)@, entry.job_id);
            }
            self.handle_timer(entry, batch_id, now);
            proof {
                let drawn = choose|drawn: Seq<RunId>|
                    self@ == #[trigger] here.timer_handled(entry, batch_id, now, drawn);
                lemma_batch_prefix(
                    start,
                    entries@,
                    k as nat,
                    batch_id,
                    now,
                    run_ids,
                    run_ids.push(drawn),
                );
                run_ids = run_ids.push(drawn);
            }
            k += 1;
        }
        proof {
            assert(self@ == old(self)@.next_batch().batch_handled(
                entries@,
                entries@.len(),
                successor(old(self)@.batch_sequence),
                now,
                run_ids,
            ));
        }
    }
}

impl SchedulerActor {
    fn drain_blocked(&mut self, i: usize, now: Timestamp) -> (resume: Option<Timestamp>)
        requires
            i < old(self)@.jobs.len(),
            old(self)@.wf(),
        ensures
            (final(self)@, resume) == old(self)@.drained(i as int, None, now),
            same_triggers(old(self)@.jobs, final(self)@.jobs),
            final(self)@.wf(),
            resume matches Some(instant) && old(self)@.jobs[i as int].trigger.schedule is Cron
                ==> cron_start(resume->0.nanos as int),
    {
        let mut resume: Option<Timestamp> = None;
        let job_id: JobId = self.jobs[i].id;
        let version: u64 = self.jobs[i].version;
        let job_limit: usize = match self.jobs[i].max_pending {
            Some(limit) => limit,
            None => self.config.default_job_max_pending,
        };
        let global_limit: usize = self.config.global_max_pending;
        while self.ready.len() < global_limit && self.ready.count_job(job_id) < job_limit
            && self.jobs[i].blocked.len() > 0
            invariant
                i < self.jobs@.len(),
                self@.drained(i as int, resume, now) == old(self)@.drained(i as int, None, now),
                same_triggers(old(self)@.jobs, self@.jobs),
                self@.wf(),
                resume is Some && old(self)@.jobs[i as int].trigger.schedule is Cron
                    ==> cron_start(resume->0.nanos as int),
                self@.jobs[i as int].id == job_id,
                self@.jobs[i as int].version == version,
                self@.pending_limit(self@.jobs[i as int]) == job_limit,
                self@.config.global_max_pending == global_limit,
            decreases self.jobs@[i as int].blocked@.len(),
        {
            let ghost before = self@;
            let ghost job = before.jobs[i as int];
            let pending = self.jobs[i].blocked.remove(0);
            proof {
                assert(pending == before.jobs[i as int].blocked[0]);
                assert(self@.jobs =~= before.jobs.update(
                    i as int,
                    JobView { blocked: job.blocked.remove(0), ..job },
                ));
                assert(job.trigger == old(self)@.jobs[i as int].trigger);
                assert(self@.wf()) by {
                    assert forall|a: int, k: int|
                        0 <= a < self@.jobs.len() && self@.jobs[a].trigger.schedule is Cron && 0
                            <= k < self@.jobs[a].blocked.len() implies cron_start(
                        (#[trigger] self@.jobs[a].blocked[k]).scheduled_at.nanos as int,
                    ) by {
                        if a == i {
                            assert(self@.jobs[a].blocked[k] == before.jobs[a].blocked[k + 1]);
                        } else {
                            assert(self@.jobs[a].blocked[k] == before.jobs[a].blocked[k]);
                        }
                    }
                }
            }
            if pending.version == version {
                if matches!(pending.kind, PendingKind::Normal | PendingKind::RunNow) {
                    resume = Some(pending.scheduled_at);
                }
                self.enqueue(pending, now);
            }
        }
        resume
    }

    fn restore_job(&mut self, i: usize, now: Timestamp)
        requires
            i < old(self)@.jobs.len(),
            old(self)@.wf(),
        ensures
            final(self)@ == old(self)@.restored_at(i as int, now),
            same_triggers(old(self)@.jobs, final(self)@.jobs),
            final(self)@.wf(),
    {
        let resume = self.drain_blocked(i, now);
        if self.jobs[i].blocked.len() > 0 || self.jobs[i].next_run_at.is_some()
            || !self.jobs[i].state.is_enabled() || self.jobs[i].trigger.schedule.is_once() {
            return ;
        }
        if let Some(from) = resume {
            if let Ok(Some(next)) = next_after(&self.jobs[i].trigger.schedule, from) {
                let job_id: JobId = self.jobs[i].id;
                self.schedule_normal(job_id, next, TimerKind::Normal, now);
            }
        }
    }

    /// Brings executions that are held back into the ready queue while it has room, job by job.
    pub fn restore_blocked(&mut self, now: Timestamp)
        requires
            old(self)@.wf(),
        ensures
            final(self)@ == old(self)@.restored(now),
            same_triggers(old(self)@.jobs, final(self)@.jobs),
            final(self)@.wf(),
    {
        if self.ready.len() >= self.config.global_max_pending {
            return ;
        }
        let count: usize = self.jobs.len();
        let mut i: usize = 0;
        while i < count
            invariant
                i <= count,
                count == old(self)@.jobs.len(),
                self@ == old(self)@.restored_first(i as nat, now),
                same_triggers(old(self)@.jobs, self@.jobs),
                self@.wf(),
            decreases count - i,
        {
            let ghost before = self@;
            self.restore_job(i, now);
            proof {
                assert forall|k: int| 0 <= k < old(self)@.jobs.len() implies (
                #[trigger] old(self)@.jobs[k]).id == self@.jobs[k].id && old(self)@.jobs[k].trigger
                    == self@.jobs[k].trigger by {
                    assert(old(self)@.jobs[k].id == before.jobs[k].id);
                }
            }
            i += 1;
        }
    }
}

/// Whether an instant can be asked about.
fn askable_instant(cron: bool, instant: Timestamp) -> (yes: bool)
    ensures
        yes == (representable(instant.nanos as int) && (cron ==> cron_start(instant.nanos as int))),
{
    if cron {
        is_cron_start(instant)
    } else {
        instant.is_representable()
    }
}

proof fn lemma_batch_prefix(
    state: SchedulerState,
    entries: Seq<TimerEntry>,
    n: nat,
    batch_id: u64,
    now: Timestamp,
    a: Seq<Seq<RunId>>,
    b: Seq<Seq<RunId>>,
)
    requires
        n <= a.len(),
        n <= b.len(),
        forall|k: int| 0 <= k < n ==> a[k] == b[k],
    ensures
        state.batch_handled(entries, n, batch_id, now, a) == state.batch_handled(
            entries,
            n,
            batch_id,
            now,
            b,
        ),
    decreases n,
{
    if n > 0 {
        lemma_batch_prefix(state, entries, (n - 1) as nat, batch_id, now, a, b);
    }
}

/// What a filter keeps was there before.
pub proof fn lemma_filter_subset<T>(items: Seq<T>, keep: spec_fn(T) -> bool)
    ensures
        forall|k: int|
            0 <= k < items.filter(keep).len() ==> items.contains(#[trigger] items.filter(keep)[k])
                && keep(items.filter(keep)[k]),
    decreases items.len(),
{
    reveal(Seq::filter);
    if items.len() > 0 {
        let rest = items.drop_last();
        lemma_filter_subset(rest, keep);
        assert forall|k: int| 0 <= k < items.filter(keep).len() implies items.contains(
            #[trigger] items.filter(keep)[k],
        ) && keep(items.filter(keep)[k]) by {
            if k < rest.filter(keep).len() {
                let x = rest.filter(keep)[k];
                assert(rest.contains(x));
                let j = choose|j: int| 0 <= j < rest.len() && rest[j] == x;
                assert(items[j] == x);
            } else {
                assert(items[items.len() - 1] == items.filter(keep)[k]);
            }
        }
    }
}

} // verus!
