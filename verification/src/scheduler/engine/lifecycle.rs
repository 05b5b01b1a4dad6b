//! Commands, turns of the main loop, clock changes and the end of the scheduler.

use super::super::config::{
    patched, patched_config, SchedulerConfigPatch, SchedulerConfigSnapshot, SchedulerError,
    SchedulerErrorView, SchedulerStatus,
};
use super::super::cron::cron_start;
use super::super::event::{SchedulerEventKind, SchedulerEventKindView};
use super::super::model::{JobId, JobOptions, JobPatch, JobSnapshot, JobSnapshotView, Trigger};
use super::super::task::TaskBinding;
use super::super::time::Timestamp;
use super::management::snapshot_answer;
use super::{
    answer_view, cancels, unique_runs, Effect, EffectView, JobView, RetryTimer, SchedulerActor,
    SchedulerState,
};
use vstd::prelude::*;

verus! {

/// Timer resets of jobs, in order.
pub open spec fn job_resets(jobs: Seq<JobView>) -> Seq<EffectView>
    decreases jobs.len(),
{
    if jobs.len() == 0 {
        Seq::empty()
    } else {
        let rest = job_resets(jobs.drop_last());
        match (jobs.last().normal_timer_key, jobs.last().next_run_at) {
            (Some(key), Some(run_at)) => rest.push(EffectView::ResetTimer { key, run_at }),
            _ => rest,
        }
    }
}

/// Resets of retry timers, in order.
pub open spec fn retry_resets(timers: Seq<RetryTimer>) -> Seq<EffectView> {
    timers.map_values(
        |timer: RetryTimer| EffectView::ResetTimer { key: timer.key, run_at: timer.run_at },
    )
}

impl SchedulerState {
    /// Moves every timer to its wall clock instant.
    pub open spec fn reanchored(self) -> Self {
        SchedulerState {
            effects: self.effects + job_resets(self.jobs) + retry_resets(self.retry_timers),
            ..self
        }
    }

    /// Drops everything that waits and asks every running execution to stop.
    pub open spec fn stopping(self, now: Timestamp) -> Self {
        let told = self.effect(EffectView::SetStatus(SchedulerStatus::Stopping)).emit(
            SchedulerEventKindView::SchedulerStopping,
            now,
        ).effect(EffectView::ClearTimers);
        SchedulerState {
            ready: Seq::empty(),
            retry_timers: Seq::empty(),
            effects: told.effects + cancels(self.running),
            ..told
        }
    }

    /// Nothing runs any more.
    pub open spec fn stopped(self, now: Timestamp) -> Self {
        SchedulerState { running: Seq::empty(), total_running: 0, ..self }.effect(
            EffectView::SetStatus(SchedulerStatus::Stopped),
        ).emit(SchedulerEventKindView::SchedulerStopped, now)
    }
}

impl SchedulerActor {
    /// Tells that the scheduler runs.
    pub fn start(&mut self, now: Timestamp)
        ensures
            final(self)@ == old(self)@.emit(SchedulerEventKindView::SchedulerStarted, now),
            old(self)@.wf() ==> final(self)@.wf(),
    {
        self.emit(SchedulerEventKind::SchedulerStarted, now);
    }

    /// What comes before every wait of the main loop: executions that were held back enter the
    /// ready queue, then free slots are filled.
    pub fn advance(&mut self, now: Timestamp)
        requires
            old(self)@.wf(),
        ensures
            final(self)@ == old(self)@.restored(now).dispatched(now),
            final(self)@.wf(),
    {
        self.restore_blocked(now);
        self.dispatch_ready(now);
    }

    /// Hands the effects to the runtime.
    pub fn take_effects(&mut self) -> (effects: Vec<Effect>)
        ensures
            effects@.map_values(|effect: Effect| effect@) == old(self)@.effects,
            final(self)@ == (SchedulerState { effects: Seq::empty(), ..old(self)@ }),
            old(self)@.wf() ==> final(self)@.wf(),
    {
        let mut effects: Vec<Effect> = Vec::new();
        std::mem::swap(&mut effects, &mut self.effects);
        assert(self@.effects =~= Seq::empty());
        effects
    }

    /// Moves every timer to its wall clock instant after a change of the clock.
    pub fn reanchor_timers(&mut self)
        ensures
            final(self)@ == old(self)@.reanchored(),
            old(self)@.wf() ==> final(self)@.wf(),
    {
        let ghost before = self@;
        let mut i: usize = 0;
        assert(before.effects + job_resets(before.jobs.take(0)) =~= before.effects);
        while i < self.jobs.len()
            invariant
                i <= self.jobs.len(),
                self.jobs == old(self).jobs,
                before == old(self)@,
                self@ == (SchedulerState {
                    effects: before.effects + job_resets(before.jobs.take(i as int)),
                    ..before
                }),
            decreases self.jobs.len() - i,
        {
            let ghost done = before.jobs.take(i as int);
            proof {
                assert(before.jobs.take(i as int + 1).drop_last() =~= done);
                assert(before.jobs[i as int] == self.jobs@[i as int]@);
            }
            if let Some(key) = self.jobs[i].normal_timer_key {
                if let Some(run_at) = self.jobs[i].next_run_at {
                    self.push_effect(Effect::ResetTimer { key, run_at });
                    proof {
                        assert(self@.effects =~= before.effects + job_resets(
                            before.jobs.take(i as int + 1),
                        ));
                    }
                }
            }
            i += 1;
        }
        assert(before.jobs.take(i as int) =~= before.jobs);
        let ghost halfway = self@;
        let mut k: usize = 0;
        assert(halfway.effects + retry_resets(before.retry_timers.take(0)) =~= halfway.effects);
        while k < self.retry_timers.len()
            invariant
                k <= self.retry_timers.len(),
                halfway.retry_timers == before.retry_timers,
                self@ == (SchedulerState {
                    effects: halfway.effects + retry_resets(before.retry_timers.take(k as int)),
                    ..halfway
                }),
            decreases self.retry_timers.len() - k,
        {
            let timer = self.retry_timers[k];
            let ghost done = before.retry_timers.take(k as int);
            self.push_effect(Effect::ResetTimer { key: timer.key, run_at: timer.run_at });
            proof {
                assert(before.retry_timers.take(k as int + 1) =~= done.push(timer));
                assert(retry_resets(done.push(timer)) =~= retry_resets(done).push(
                    EffectView::ResetTimer { key: timer.key, run_at: timer.run_at },
                ));
                assert(self@.effects =~= halfway.effects + retry_resets(done.push(timer)));
            }
            k += 1;
        }
        assert(before.retry_timers.take(k as int) =~= before.retry_timers);
    }

    /// Begins the end: nothing waits any more, no timer is set, and every running execution is
    /// asked to stop.
    pub fn begin_shutdown(&mut self, now: Timestamp)
        ensures
            final(self)@ == old(self)@.stopping(now),
            old(self)@.wf() ==> final(self)@.wf(),
    {
        proof {
            reveal(unique_runs);
        }
        self.push_effect(Effect::SetStatus(SchedulerStatus::Stopping));
        self.emit(SchedulerEventKind::SchedulerStopping, now);
        self.push_effect(Effect::ClearTimers);
        self.ready.clear();
        self.retry_timers.clear();
        let ghost before = self@;
        let mut i: usize = 0;
        assert(before.effects + cancels(before.running.take(0)) =~= before.effects);
        while i < self.running.len()
            invariant
                i <= self.running.len(),
                self@ == (SchedulerState {
                    effects: before.effects + cancels(before.running.take(i as int)),
                    ..before
                }),
            decreases self.running.len() - i,
        {
            let item = self.running[i];
            let ghost done = before.running.take(i as int);
            self.push_effect(Effect::Cancel { run_id: item.run_id });
            proof {
                assert(before.running.take(i as int + 1) =~= done.push(item));
                assert(cancels(done.push(item)) =~= cancels(done).push(
                    EffectView::Cancel { run_id: item.run_id },
                ));
                assert(self@.effects =~= before.effects + cancels(done.push(item)));
            }
            i += 1;
        }
        assert(before.running.take(i as int) =~= before.running);
    }

    /// The end: every execution has ended or was abandoned.
    pub fn finish_shutdown(&mut self, now: Timestamp)
        ensures
            final(self)@ == old(self)@.stopped(now),
            old(self)@.wf() ==> final(self)@.wf(),
    {
        proof {
            reveal(unique_runs);
        }
        self.running.clear();
        self.total_running = 0;
        self.push_effect(Effect::SetStatus(SchedulerStatus::Stopped));
        self.emit(SchedulerEventKind::SchedulerStopped, now);
    }
}

/// Request to the scheduler.
#[derive(Debug)]
pub enum Command {
    /// Register a job.
    Add {
        /// Wanted identifier.
        job_id: Option<JobId>,
        /// Identifier to take without a wanted one.
        fresh_id: JobId,
        /// First version.
        generation: u64,
        /// Whether the job takes triggers at once.
        enabled: bool,
        /// Trigger.
        trigger: Trigger,
        /// Task.
        task: TaskBinding,
        /// Options.
        options: JobOptions,
    },
    /// Change a job.
    Update {
        /// Job.
        job_id: JobId,
        /// Version that the job must have.
        expected_version: u64,
        /// Change.
        patch: JobPatch,
    },
    /// Show a job.
    Get {
        /// Job.
        job_id: JobId,
    },
    /// Show all jobs.
    List,
    /// Enable a job.
    Enable {
        /// Job.
        job_id: JobId,
        /// Version that the job must have.
        expected_version: u64,
    },
    /// Disable a job.
    Disable {
        /// Job.
        job_id: JobId,
        /// Version that the job must have.
        expected_version: u64,
        /// Why.
        reason: String,
    },
    /// Remove a job.
    Delete {
        /// Job.
        job_id: JobId,
        /// Version that the job must have.
        expected_version: u64,
    },
    /// Show the limits.
    GetConfig,
    /// Change the limits.
    UpdateConfig {
        /// Revision that the limits must have.
        expected_revision: u64,
        /// Change.
        patch: SchedulerConfigPatch,
    },
    /// Stop.
    Shutdown,
}

/// Answer to a request.
#[derive(Debug)]
pub enum Reply {
    /// To `Command::Add`.
    Added(Result<JobId, SchedulerError>),
    /// To `Command::Update`, `Command::Enable` and `Command::Disable`.
    Changed(Result<JobSnapshot, SchedulerError>),
    /// To `Command::Get`.
    Found(Option<JobSnapshot>),
    /// To `Command::List`.
    Listed(Vec<JobSnapshot>),
    /// To `Command::Delete`.
    Deleted(Result<(), SchedulerError>),
    /// To `Command::GetConfig`.
    Config(SchedulerConfigSnapshot),
    /// To `Command::UpdateConfig`.
    Reconfigured(Result<SchedulerConfigSnapshot, SchedulerError>),
    /// To `Command::Shutdown`: the main loop ends, and the answer is due once the end is complete.
    Stop,
}

/// Whether the state after a request and its answer are what the request asks for.
pub open spec fn carried_out(
    before: SchedulerState,
    command: Command,
    now: Timestamp,
    after: SchedulerState,
    reply: Reply,
) -> bool {
    match command {
        Command::Add { job_id, fresh_id, generation, enabled, trigger, task, options } => {
            &&& reply is Added
            &&& match before.add_error(job_id, trigger@, task@.cancellation_mode, options, now) {
                Some(error) => {
                    &&& after == before
                    &&& answer_view(reply->Added_0) == Err::<JobId, SchedulerErrorView>(error)
                },
                None => {
                    let id = patched(job_id, fresh_id);
                    &&& after == before.added(
                        id,
                        generation,
                        enabled,
                        trigger@,
                        task@,
                        options,
                        now,
                    )
                    &&& answer_view(reply->Added_0) == Ok::<JobId, SchedulerErrorView>(id)
                },
            }
        },
        Command::Update { job_id, expected_version, patch } => {
            &&& reply is Changed
            &&& match before.planned_update(job_id, expected_version, patch, now) {
                Err(error) => {
                    &&& after == before
                    &&& snapshot_answer(reply->Changed_0) == Err::<
                        JobSnapshotView,
                        SchedulerErrorView,
                    >(error)
                },
                Ok(plan) => {
                    &&& after == before.updated(job_id, expected_version, patch, plan, now)
                    &&& snapshot_answer(reply->Changed_0) == Ok::<
                        JobSnapshotView,
                        SchedulerErrorView,
                    >(after.snapshot_of(after.job(job_id)))
                },
            }
        },
        Command::Get { job_id } => {
            &&& after == before
            &&& reply is Found
            &&& match reply->Found_0 {
                Some(snapshot) => before.has_job(job_id) && snapshot@ == before.snapshot_of(
                    before.job(job_id),
                ),
                None => !before.has_job(job_id),
            }
        },
        Command::List => {
            &&& after == before
            &&& reply is Listed
            &&& reply->Listed_0@.len() == before.jobs.len()
            &&& forall|i: int|
                0 <= i < before.jobs.len() ==> (#[trigger] reply->Listed_0@[i])@
                    == before.snapshot_of(before.jobs[i])
        },
        Command::Enable { job_id, expected_version } => {
            &&& reply is Changed
            &&& match before.version_error(job_id, expected_version) {
                Some(error) => {
                    &&& after == before
                    &&& snapshot_answer(reply->Changed_0) == Err::<
                        JobSnapshotView,
                        SchedulerErrorView,
                    >(error)
                },
                None => if before.job(job_id).state is Enabled {
                    &&& after == before
                    &&& snapshot_answer(reply->Changed_0) == Ok::<
                        JobSnapshotView,
                        SchedulerErrorView,
                    >(before.snapshot_of(before.job(job_id)))
                } else {
                    match before.enable_error(job_id, now) {
                        Some(error) => {
                            &&& after == before.clear_ready(job_id).clear_retries(job_id)
                            &&& snapshot_answer(reply->Changed_0) == Err::<
                                JobSnapshotView,
                                SchedulerErrorView,
                            >(error)
                        },
                        None => {
                            &&& after == before.enabled(job_id, now)
                            &&& snapshot_answer(reply->Changed_0) == Ok::<
                                JobSnapshotView,
                                SchedulerErrorView,
                            >(after.snapshot_of(after.job(job_id)))
                        },
                    }
                },
            }
        },
        Command::Disable { job_id, expected_version, reason } => {
            &&& reply is Changed
            &&& match before.disable_refusal(job_id, expected_version) {
                Some(error) => {
                    &&& after == before
                    &&& snapshot_answer(reply->Changed_0) == Err::<
                        JobSnapshotView,
                        SchedulerErrorView,
                    >(error)
                },
                None => {
                    &&& after == before.disabled(job_id, reason@, now)
                    &&& snapshot_answer(reply->Changed_0) == Ok::<
                        JobSnapshotView,
                        SchedulerErrorView,
                    >(after.snapshot_of(after.job(job_id)))
                },
            }
        },
        Command::Delete { job_id, expected_version } => {
            &&& reply is Deleted
            &&& match before.version_error(job_id, expected_version) {
                Some(error) => {
                    &&& after == before
                    &&& answer_view(reply->Deleted_0) == Err::<(), SchedulerErrorView>(error)
                },
                None => {
                    &&& after == before.deleted(job_id, expected_version, true, now)
                    &&& reply->Deleted_0 is Ok
                },
            }
        },
        Command::GetConfig => {
            &&& after == before
            &&& reply is Config
            &&& reply->Config_0.revision == before.config_revision
            &&& reply->Config_0.config == before.config
        },
        Command::UpdateConfig { expected_revision, patch } => {
            &&& reply is Reconfigured
            &&& match before.config_error(expected_revision, patch) {
                Some(error) => {
                    &&& after == before
                    &&& answer_view(reply->Reconfigured_0) == Err::<
                        SchedulerConfigSnapshot,
                        SchedulerErrorView,
                    >(error)
                },
                None => {
                    &&& after == before.reconfigured(patch, now)
                    &&& answer_view(reply->Reconfigured_0) == Ok::<
                        SchedulerConfigSnapshot,
                        SchedulerErrorView,
                    >(
                        SchedulerConfigSnapshot {
                            revision: (before.config_revision + 1) as u64,
                            config: patched_config(before.config, patch),
                        },
                    )
                },
            }
        },
        Command::Shutdown => after == before && reply is Stop,
    }
}

/// Whether the occurrences that a request plans can be asked from `now`. Only requests for cron
/// jobs plan such occurrences.
pub open spec fn command_asks(state: SchedulerState, command: Command, now: Timestamp) -> bool {
    match command {
        Command::Add { trigger, .. } => trigger@.schedule is Cron ==> cron_start(
            now.nanos as int,
        ),
        Command::Update { job_id, patch, .. } => state.update_asks(job_id, patch, now),
        Command::Enable { job_id, .. } => state.enable_asks(job_id, now),
        _ => true,
    }
}

impl SchedulerActor {
    /// Carries out one request and answers it.
    pub fn handle_command(&mut self, command: Command, now: Timestamp) -> (reply: Reply)
        requires
            command_asks(old(self)@, command, now),
            command matches Command::Add { job_id, fresh_id, .. } ==> job_id is None
                ==> !old(self)@.has_job(fresh_id),
        ensures
            carried_out(old(self)@, command, now, final(self)@, reply),
            old(self)@.wf() ==> final(self)@.wf(),
    {
        match command {
            Command::Add { job_id, fresh_id, generation, enabled, trigger, task, options } =>
                Reply::Added(
                self.add_job(job_id, fresh_id, generation, enabled, trigger, task, options, now),
            ),
            Command::Update { job_id, expected_version, patch } => Reply::Changed(
                self.update_job(job_id, expected_version, patch, now),
            ),
            Command::Get { job_id } => Reply::Found(self.get(job_id)),
            Command::List => Reply::Listed(self.list()),
            Command::Enable { job_id, expected_version } => Reply::Changed(
                self.enable_job(job_id, expected_version, now),
            ),
            Command::Disable { job_id, expected_version, reason } => Reply::Changed(
                self.disable_job(job_id, expected_version, reason, now),
            ),
            Command::Delete { job_id, expected_version } => Reply::Deleted(
                self.delete_job(job_id, expected_version, true, now),
            ),
            Command::GetConfig => Reply::Config(self.get_config()),
            Command::UpdateConfig { expected_revision, patch } => Reply::Reconfigured(
                self.update_config(expected_revision, patch, now),
            ),
            Command::Shutdown => Reply::Stop,
        }
    }
}

} // verus!
