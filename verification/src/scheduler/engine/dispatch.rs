//! Starting executions within the concurrency limits.

use super::super::event::{SchedulerEventKind, SchedulerEventKindView};
use super::super::model::RunId;
use super::super::queue::{first_allowed, lemma_first_allowed_unique, PendingExecution};
use super::super::task::TaskContext;
use super::super::time::Timestamp;
use super::{
    running_position, unique_runs, Effect, EffectView, JobView, RetryTimer, RunningExecution,
    SchedulerActor, SchedulerState,
};
use vstd::prelude::*;

verus! {

/// Running executions with one more; an execution with the same identifier gives way.
pub open spec fn with_running(
    running: Seq<RunningExecution>,
    item: RunningExecution,
) -> Seq<RunningExecution> {
    if exists|i: int| running_position(running, item.run_id, i) {
        running.update(choose|i: int| running_position(running, item.run_id, i), item)
    } else {
        running.push(item)
    }
}

/// Running executions without one.
pub open spec fn without_running(
    running: Seq<RunningExecution>,
    run_id: RunId,
) -> Seq<RunningExecution> {
    if exists|i: int| running_position(running, run_id, i) {
        running.remove(choose|i: int| running_position(running, run_id, i))
    } else {
        running
    }
}

/// The position of a running execution is unique.
pub proof fn lemma_running_position(running: Seq<RunningExecution>, run_id: RunId, i: int)
    requires
        running_position(running, run_id, i),
    ensures
        i == (choose|k: int| running_position(running, run_id, k)),
{
    let k = choose|k: int| running_position(running, run_id, k);
    assert(running_position(running, run_id, k));
    if k < i {
        assert(running[k].run_id != run_id);
    } else if i < k {
        assert(running[i].run_id != run_id);
    }
}

proof fn lemma_with_running(
    running: Seq<RunningExecution>,
    timers: Seq<RetryTimer>,
    item: RunningExecution,
)
    requires
        unique_runs(running, timers),
    ensures
        unique_runs(with_running(running, item), timers),
{
    reveal(unique_runs);
    if forall|i: int| !running_position(running, item.run_id, i) {
        assert forall|k: int| 0 <= k < running.len() implies (#[trigger] running[k]).run_id
            != item.run_id by {
            lemma_not_running(running, item.run_id, k);
        }
    } else {
        let i = choose|i: int| running_position(running, item.run_id, i);
        assert(running_position(running, item.run_id, i));
    }
}

proof fn lemma_not_running(running: Seq<RunningExecution>, run_id: RunId, k: int)
    requires
        0 <= k < running.len(),
        forall|i: int| !running_position(running, run_id, i),
    ensures
        running[k].run_id != run_id,
    decreases k,
{
    if running[k].run_id == run_id {
        if exists|j: int| 0 <= j < k && (#[trigger] running[j]).run_id == run_id {
            let j = choose|j: int| 0 <= j < k && (#[trigger] running[j]).run_id == run_id;
            lemma_not_running(running, run_id, j);
        } else {
            assert(running_position(running, run_id, k));
        }
    }
}

impl SchedulerState {
    /// Concurrency limit in force for a job.
    pub open spec fn concurrency_limit(self, job: JobView) -> usize {
        match job.concurrency {
            Some(limit) => limit,
            None => self.config.default_job_concurrency,
        }
    }

    /// Whether an execution may start: its job exists, has the same version, is enabled and has a
    /// free slot.
    pub open spec fn may_start(self, pending: PendingExecution) -> bool {
        &&& self.has_job(pending.job_id)
        &&& self.job(pending.job_id).version == pending.version
        &&& self.job(pending.job_id).state is Enabled
        &&& self.job(pending.job_id).running_count < self.concurrency_limit(
            self.job(pending.job_id),
        )
    }

    /// Which of the waiting executions may start.
    pub open spec fn startable(self) -> Seq<bool> {
        self.ready.map_values(|pending: PendingExecution| self.may_start(pending))
    }

    /// Starts an execution of the job's current version.
    pub open spec fn started(self, pending: PendingExecution, now: Timestamp) -> Self {
        if !self.has_job(pending.job_id) || self.job(pending.job_id).version != pending.version {
            self
        } else {
            let job = self.job(pending.job_id);
            let next = self.with_job(
                pending.job_id,
                JobView {
                    running_count: (job.running_count + 1) as usize,
                    last_started_at: Some(now),
                    last_fired_at: Some(pending.scheduled_at),
                    ..job
                },
            );
            SchedulerState {
                total_running: (self.total_running + 1) as usize,
                running: with_running(
                    self.running,
                    RunningExecution {
                        run_id: pending.run_id,
                        job_id: pending.job_id,
                        version: pending.version,
                    },
                ),
                ..next
            }.emit(
                SchedulerEventKindView::ExecutionStarted {
                    job_id: pending.job_id,
                    version: pending.version,
                    run_id: pending.run_id,
                    attempt: pending.attempt,
                    scheduled_at: pending.scheduled_at,
                },
                now,
            ).effect(
                EffectView::Start {
                    handle: job.task.handle,
                    context: TaskContext {
                        job_id: pending.job_id,
                        version: pending.version,
                        run_id: pending.run_id,
                        attempt: pending.attempt,
                        scheduled_at: pending.scheduled_at,
                        started_at: now,
                    },
                    timeout: job.trigger.timeout,
                    cancellation_mode: job.task.cancellation_mode,
                },
            )
        }
    }

    /// Whether a slot is free and an execution may start.
    pub open spec fn can_dispatch(self) -> bool {
        &&& self.total_running < self.config.global_concurrency
        &&& exists|i: int| first_allowed(self.ready, self.startable(), i)
    }

    /// Position of the execution that starts next.
    pub open spec fn next_start(self) -> int {
        choose|i: int| first_allowed(self.ready, self.startable(), i)
    }

    /// Starts the next execution.
    pub open spec fn dispatched_one(self, now: Timestamp) -> Self {
        let i = self.next_start();
        SchedulerState { ready: self.ready.remove(i), ..self }.started(self.ready[i], now)
    }

    /// Starts executions, in the order of dispatch, while slots are free; executions whose job is
    /// at its limit are passed over.
    pub open spec fn dispatched(self, now: Timestamp) -> Self
        decreases self.ready.len(),
    {
        if self.can_dispatch() {
            self.dispatched_one(now).dispatched(now)
        } else {
            self
        }
    }
}

impl SchedulerActor {
    fn find_running(&self, run_id: RunId) -> (found: Option<usize>)
        ensures
            match found {
                Some(i) => running_position(self@.running, run_id, i as int) && i as int == (
                choose|k: int| running_position(self@.running, run_id, k)),
                None => forall|i: int| !running_position(self@.running, run_id, i),
            },
    {
        let mut i: usize = 0;
        while i < self.running.len()
            invariant
                i <= self.running.len(),
                forall|k: int| 0 <= k < i ==> (#[trigger] self@.running[k]).run_id != run_id,
            decreases self.running.len() - i,
        {
            if self.running[i].run_id == run_id {
                proof {
                    assert(self@.running[i as int].run_id == run_id);
                    lemma_running_position(self@.running, run_id, i as int);
                }
                return Some(i);
            }
            i += 1;
        }
        None
    }

    /// Forgets a running execution.
    pub fn remove_running(&mut self, run_id: RunId)
        ensures
            final(self)@ == (SchedulerState {
                running: without_running(old(self)@.running, run_id),
                ..old(self)@
            }),
            final(self).jobs == old(self).jobs,
            old(self)@.keyed() ==> final(self)@.keyed(),
    {
        proof {
            reveal(unique_runs);
        }
        if let Some(i) = self.find_running(run_id) {
            self.running.remove(i);
        }
    }

    /// Takes a slot and starts an execution of the job's current version.
    pub fn spawn_execution(&mut self, pending: PendingExecution, now: Timestamp)
        requires
            old(self)@.total_running < usize::MAX,
            old(self)@.has_job(pending.job_id) ==> old(self)@.job(pending.job_id).running_count
                < usize::MAX,
        ensures
            final(self)@ == old(self)@.started(pending, now),
            old(self)@.wf() ==> final(self)@.wf(),
    {
        let i: usize = match self.find_job(pending.job_id) {
            Some(i) => i,
            None => {
                return ;
            },
        };
        if self.jobs[i].version != pending.version {
            return ;
        }
        let ghost job = self@.job(pending.job_id);
        let handle: u64 = self.jobs[i].task.handle;
        let cancellation_mode = self.jobs[i].task.cancellation_mode;
        let timeout = self.jobs[i].trigger.timeout;
        let count: usize = self.jobs[i].running_count;
        self.jobs[i].running_count = count + 1;
        self.jobs[i].last_started_at = Some(now);
        self.jobs[i].last_fired_at = Some(pending.scheduled_at);
        self.total_running = self.total_running + 1;
        proof {
            assert(self@.jobs =~= old(self)@.jobs.update(
                i as int,
                JobView {
                    running_count: (job.running_count + 1) as usize,
                    last_started_at: Some(now),
                    last_fired_at: Some(pending.scheduled_at),
                    ..job
                },
            ));
        }
        let item = RunningExecution {
            run_id: pending.run_id,
            job_id: pending.job_id,
            version: pending.version,
        };
        assert(self@.running == old(self)@.running);
        match self.find_running(pending.run_id) {
            Some(k) => {
                proof {
                    lemma_running_position(old(self)@.running, item.run_id, k as int);
                }
                self.running.set(k, item);
            },
            None => {
                self.running.push(item);
            },
        }
        assert(self@.running == with_running(old(self)@.running, item));
        proof {
            if old(self)@.keyed() {
                lemma_with_running(old(self)@.running, old(self)@.retry_timers, item);
            }
        }
        self.emit(
            SchedulerEventKind::ExecutionStarted {
                job_id: pending.job_id,
                version: pending.version,
                run_id: pending.run_id,
                attempt: pending.attempt,
                scheduled_at: pending.scheduled_at,
            },
            now,
        );
        let context = TaskContext {
            job_id: pending.job_id,
            version: pending.version,
            run_id: pending.run_id,
            attempt: pending.attempt,
            scheduled_at: pending.scheduled_at,
            started_at: now,
        };
        self.push_effect(Effect::Start { handle, context, timeout, cancellation_mode });
    }

    fn startable_flags(&self) -> (allowed: Vec<bool>)
        ensures
            allowed@ == self@.startable(),
    {
        let mut allowed: Vec<bool> = Vec::new();
        let mut i: usize = 0;
        while i < self.ready.items.len()
            invariant
                i <= self.ready.items.len(),
                allowed@.len() == i,
                forall|k: int|
                    0 <= k < i ==> #[trigger] allowed@[k] == self@.may_start(self@.ready[k]),
            decreases self.ready.items.len() - i,
        {
            let pending = self.ready.items[i];
            let flag = match self.find_job(pending.job_id) {
                None => false,
                Some(j) => {
                    let limit: usize = match self.jobs[j].concurrency {
                        Some(limit) => limit,
                        None => self.config.default_job_concurrency,
                    };
                    self.jobs[j].version == pending.version && self.jobs[j].state.is_enabled()
                        && self.jobs[j].running_count < limit
                },
            };
            allowed.push(flag);
            i += 1;
        }
        assert(allowed@ =~= self@.startable());
        allowed
    }

    /// Starts executions, in the order of dispatch, while slots are free. Executions whose job is
    /// at its limit are passed over, so they hold up no other job.
    pub fn dispatch_ready(&mut self, now: Timestamp)
        ensures
            final(self)@ == old(self)@.dispatched(now),
            old(self)@.wf() ==> final(self)@.wf(),
    {
        while self.total_running < self.config.global_concurrency && !self.ready.is_empty()
            invariant_except_break
                self@.dispatched(now) == old(self)@.dispatched(now),
            invariant
                old(self)@.wf() ==> self@.wf(),
            ensures
                self@ == old(self)@.dispatched(now),
            decreases self.ready@.len(),
        {
            let ghost before = self@;
            let allowed = self.startable_flags();
            match self.ready.pop_dispatchable(&allowed) {
                None => {
                    proof {
                        assert forall|i: int| !first_allowed(before.ready, before.startable(), i) by {
                            if 0 <= i < before.ready.len() {
                                assert(!allowed@[i]);
                            }
                        }
                        assert(!before.can_dispatch());
                        assert(self@ == before);
                    }
                    break;
                },
                Some(pending) => {
                    proof {
                        let i = choose|i: int| #[trigger]
                            first_allowed(before.ready, allowed@, i) && pending == before.ready[i]
                                && self.ready@ == before.ready.remove(i);
                        lemma_first_allowed_unique(
                            before.ready,
                            before.startable(),
                            i,
                            before.next_start(),
                        );
                        assert(before.startable()[i]);
                        assert(before.may_start(pending));
                        assert(self@.jobs == before.jobs);
                        assert(self@.has_job(pending.job_id));
                        assert(before.can_dispatch());
                    }
                    self.spawn_execution(pending, now);
                },
            }
        }
    }
}

} // verus!
