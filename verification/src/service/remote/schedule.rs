//! Recurring probes: which of them exist, and whose worker has to be started or stopped.

use crate::service::protocol::{RemoteJobApplyRequest, RemoteJobOperation};
use crate::service::remote::job::{
    apply_error, asks_for, job_name, law_accepted_jobs_are_distinct, RemoteJobApply,
};
use crate::service::remote::probe::{
    checks, same_job, ProbeRateState, RateView, RemoteProbeExecutionRequest, RemoteProbeJobSpec,
};
use vstd::prelude::*;

verus! {

/// Recurring probe and its worker.
#[derive(Debug)]
pub struct ScheduledProbeJob {
    /// The probe.
    pub spec: RemoteProbeJobSpec,
    /// Whether its worker runs.
    pub running: bool,
}

/// What the runtime has to do with the worker of a recurring probe.
#[derive(Debug)]
pub enum WorkerEffect {
    /// Stop the worker of the job with this identity.
    Stop(String),
    /// Start a worker for this job.
    Start(RemoteProbeJobSpec),
}

impl WorkerEffect {
    /// Identity of the job whose worker is meant.
    pub open spec fn job(self) -> Seq<char> {
        match self {
            WorkerEffect::Stop(job_id) => job_id@,
            WorkerEffect::Start(spec) => spec.job_id@,
        }
    }
}

/// Recurring probes and what has to be done for them.
pub type Change = (Seq<ScheduledProbeJob>, Seq<WorkerEffect>);

/// Place of a job; the place after the last where there is none.
pub open spec fn job_place(jobs: Seq<ScheduledProbeJob>, id: Seq<char>) -> int
    decreases jobs.len(),
{
    if jobs.len() == 0 || jobs[0].spec.job_id@ == id {
        0
    } else {
        1 + job_place(jobs.drop_first(), id)
    }
}

/// The place of a job is the first with its identity.
pub proof fn lemma_job_place(jobs: Seq<ScheduledProbeJob>, id: Seq<char>, place: int)
    requires
        0 <= place <= jobs.len(),
        forall|i: int| 0 <= i < place ==> jobs[i].spec.job_id@ != id,
        place < jobs.len() ==> jobs[place].spec.job_id@ == id,
    ensures
        job_place(jobs, id) == place,
    decreases jobs.len(),
{
    if place > 0 {
        let rest = jobs.drop_first();
        assert forall|i: int| 0 <= i < place - 1 implies rest[i].spec.job_id@ != id by {
            assert(rest[i] == jobs[i + 1]);
        }
        lemma_job_place(rest, id, place - 1);
    }
}

/// The place of a job lies among the jobs, or behind them where there is none.
pub proof fn lemma_job_place_range(jobs: Seq<ScheduledProbeJob>, id: Seq<char>)
    ensures
        0 <= job_place(jobs, id) <= jobs.len(),
        job_place(jobs, id) < jobs.len() ==> jobs[job_place(jobs, id)].spec.job_id@ == id,
        forall|i: int| 0 <= i < job_place(jobs, id) ==> (#[trigger] jobs[i]).spec.job_id@ != id,
    decreases jobs.len(),
{
    if jobs.len() > 0 && jobs[0].spec.job_id@ != id {
        let rest = jobs.drop_first();
        lemma_job_place_range(rest, id);
        assert forall|i: int| 0 <= i < job_place(jobs, id) implies (#[trigger] jobs[i]).spec.job_id@
            != id by {
            if i > 0 {
                assert(jobs[i] == rest[i - 1]);
            }
        }
    }
}

/// Whether no two jobs have the same identity.
pub open spec fn distinct_jobs(jobs: Seq<ScheduledProbeJob>) -> bool {
    forall|i: int, j: int|
        0 <= i < j < jobs.len() ==> (#[trigger] jobs[i]).spec.job_id@ != (
        #[trigger] jobs[j]).spec.job_id@
}

/// Whether no two definitions have the same identity.
pub open spec fn distinct_specs(specs: Seq<RemoteProbeJobSpec>) -> bool {
    forall|i: int, j: int|
        0 <= i < j < specs.len() ==> (#[trigger] specs[i]).job_id@ != (#[trigger] specs[j]).job_id@
}

/// Whether a job with the given identity is defined.
pub open spec fn defines(specs: Seq<RemoteProbeJobSpec>, id: Seq<char>) -> bool {
    exists|i: int| 0 <= i < specs.len() && (#[trigger] specs[i]).job_id@ == id
}

/// Effect that stops the worker of a job, where it has one.
pub open spec fn stop_worker(job: ScheduledProbeJob) -> Seq<WorkerEffect> {
    if job.running {
        seq![WorkerEffect::Stop(job.spec.job_id)]
    } else {
        Seq::empty()
    }
}

/// New job in place of the old ones: the worker of a job that is defined as before goes on.
pub open spec fn taken_over(
    jobs: Seq<ScheduledProbeJob>,
    spec: RemoteProbeJobSpec,
) -> ScheduledProbeJob {
    let place = job_place(jobs, spec.job_id@);
    ScheduledProbeJob {
        spec,
        running: place < jobs.len() && same_job(jobs[place].spec, spec) && jobs[place].running,
    }
}

/// Workers to stop because their job is defined anew.
pub open spec fn redefined(
    jobs: Seq<ScheduledProbeJob>,
    specs: Seq<RemoteProbeJobSpec>,
) -> Seq<WorkerEffect>
    decreases specs.len(),
{
    if specs.len() == 0 {
        Seq::empty()
    } else {
        let place = job_place(jobs, specs.last().job_id@);
        redefined(jobs, specs.drop_last()) + (if place < jobs.len() && !same_job(
            jobs[place].spec,
            specs.last(),
        ) {
            stop_worker(jobs[place])
        } else {
            Seq::empty()
        })
    }
}

/// Workers to stop because their job is not defined any more.
pub open spec fn dropped(
    jobs: Seq<ScheduledProbeJob>,
    specs: Seq<RemoteProbeJobSpec>,
) -> Seq<WorkerEffect>
    decreases jobs.len(),
{
    if jobs.len() == 0 {
        Seq::empty()
    } else {
        dropped(jobs.drop_last(), specs) + (if defines(specs, jobs.last().spec.job_id@) {
            Seq::empty()
        } else {
            stop_worker(jobs.last())
        })
    }
}

/// Job whose worker runs exactly where the job is switched on.
pub open spec fn reconciled(job: ScheduledProbeJob) -> ScheduledProbeJob {
    ScheduledProbeJob { running: job.spec.enabled, ..job }
}

/// Workers to start for jobs that are switched on and to stop for those that are not.
pub open spec fn reconciling(jobs: Seq<ScheduledProbeJob>) -> Seq<WorkerEffect>
    decreases jobs.len(),
{
    if jobs.len() == 0 {
        Seq::empty()
    } else {
        let job = jobs.last();
        reconciling(jobs.drop_last()) + (if job.spec.enabled && !job.running {
            seq![WorkerEffect::Start(job.spec)]
        } else if !job.spec.enabled {
            stop_worker(job)
        } else {
            Seq::empty()
        })
    }
}

/// Jobs whose workers have been brought in line.
pub open spec fn in_line(change: Change) -> Change {
    (
        change.0.map_values(|job: ScheduledProbeJob| reconciled(job)),
        change.1 + reconciling(change.0),
    )
}

/// Jobs after all of them were replaced.
pub open spec fn replaced(
    jobs: Seq<ScheduledProbeJob>,
    specs: Seq<RemoteProbeJobSpec>,
) -> Change {
    in_line(
        (
            specs.map_values(|spec: RemoteProbeJobSpec| taken_over(jobs, spec)),
            redefined(jobs, specs) + dropped(jobs, specs),
        ),
    )
}

/// Jobs without the given one.
pub open spec fn without_job(change: Change, id: Seq<char>) -> Change {
    let (jobs, effects) = change;
    let place = job_place(jobs, id);
    if place < jobs.len() {
        (jobs.remove(place), effects + stop_worker(jobs[place]))
    } else {
        change
    }
}

/// Jobs without the given ones.
pub open spec fn without_jobs(change: Change, ids: Seq<String>) -> Change
    decreases ids.len(),
{
    if ids.len() == 0 {
        change
    } else {
        without_job(without_jobs(change, ids.drop_last()), ids.last()@)
    }
}

/// Jobs with the given one added or changed. One that is defined as before stays as it is.
pub open spec fn with_job(change: Change, spec: RemoteProbeJobSpec) -> Change {
    let (jobs, effects) = change;
    let place = job_place(jobs, spec.job_id@);
    if place >= jobs.len() {
        (jobs.push(ScheduledProbeJob { spec, running: false }), effects)
    } else if same_job(jobs[place].spec, spec) {
        change
    } else {
        (
            jobs.update(place, ScheduledProbeJob { spec, running: false }),
            effects + stop_worker(jobs[place]),
        )
    }
}

/// Jobs with the given ones added or changed.
pub open spec fn with_jobs(change: Change, specs: Seq<RemoteProbeJobSpec>) -> Change
    decreases specs.len(),
{
    if specs.len() == 0 {
        change
    } else {
        with_job(with_jobs(change, specs.drop_last()), specs.last())
    }
}

/// Jobs after some of them were removed and others added or changed.
pub open spec fn patched(
    jobs: Seq<ScheduledProbeJob>,
    ids: Seq<String>,
    specs: Seq<RemoteProbeJobSpec>,
) -> Change {
    in_line(with_jobs(without_jobs((jobs, Seq::empty()), ids), specs))
}

/// Recurring probes.
#[derive(Debug)]
pub struct ProbeSchedulerState {
    /// Generation of the last change.
    pub generation: Option<u64>,
    /// The probes; no identity occurs twice.
    pub jobs: Vec<ScheduledProbeJob>,
}

/// Whether a change comes too late: a later generation was seen before.
pub open spec fn stale(current: Option<u64>, generation: u64) -> bool {
    current matches Some(current) && generation < current
}

impl ProbeSchedulerState {
    /// Whether the recurring probes fit together.
    pub open spec fn wf(self) -> bool {
        distinct_jobs(self.jobs@)
    }

    /// No recurring probes.
    pub fn new() -> (state: ProbeSchedulerState)
        ensures
            state.generation is None,
            state.jobs@ == Seq::<ScheduledProbeJob>::empty(),
            state.wf(),
    {
        ProbeSchedulerState { generation: None, jobs: Vec::new() }
    }

    fn find(&self, id: &String) -> (place: usize)
        ensures
            place == job_place(self.jobs@, id@),
            place <= self.jobs@.len(),
    {
        let mut i: usize = 0;
        while i < self.jobs.len() && self.jobs[i].spec.job_id != *id
            invariant
                i <= self.jobs@.len(),
                forall|j: int| 0 <= j < i ==> self.jobs@[j].spec.job_id@ != id@,
            decreases self.jobs@.len() - i,
        {
            i += 1;
        }
        proof {
            lemma_job_place(self.jobs@, id@, i as int);
        }
        i
    }

    fn push_stop(&self, place: usize, effects: &mut Vec<WorkerEffect>)
        requires
            place < self.jobs@.len(),
        ensures
            final(effects)@ == old(effects)@ + stop_worker(self.jobs@[place as int]),
    {
        if self.jobs[place].running {
            effects.push(WorkerEffect::Stop(self.jobs[place].spec.job_id.clone()));
        }
        assert(effects@ =~= old(effects)@ + stop_worker(self.jobs@[place as int]));
    }

    /// Brings the workers in line with the jobs.
    fn reconcile_job_workers(&mut self, effects: &mut Vec<WorkerEffect>)
        ensures
            (final(self).jobs@, final(effects)@) == in_line((old(self).jobs@, old(effects)@)),
            final(self).generation == old(self).generation,
    {
        let ghost before = self.jobs@;
        let mut i: usize = 0;
        assert(before.take(0) =~= Seq::empty());
        assert(effects@ =~= old(effects)@ + reconciling(before.take(0)));
        while i < self.jobs.len()
            invariant
                self.jobs@.len() == before.len(),
                i <= before.len(),
                forall|j: int| 0 <= j < i ==> self.jobs@[j] == reconciled(#[trigger] before[j]),
                forall|j: int| i <= j < before.len() ==> self.jobs@[j] == #[trigger] before[j],
                effects@ == old(effects)@ + reconciling(before.take(i as int)),
                self.generation == old(self).generation,
            decreases before.len() - i,
        {
            let ghost prior = effects@;
            proof {
                assert(before.take(i + 1).drop_last() =~= before.take(i as int));
                assert(before.take(i + 1).last() == before[i as int]);
            }
            if self.jobs[i].spec.enabled {
                if !self.jobs[i].running {
                    effects.push(WorkerEffect::Start(self.jobs[i].spec.clone()));
                    self.jobs[i].running = true;
                }
            } else {
                self.push_stop(i, effects);
                self.jobs[i].running = false;
            }
            assert(effects@ =~= old(effects)@ + reconciling(before.take(i + 1)));
            i += 1;
        }
        assert(before.take(i as int) =~= before);
        assert(self.jobs@ =~= before.map_values(|job: ScheduledProbeJob| reconciled(job)));
    }

    /// Whether a change comes too late.
    fn is_stale(&self, generation: u64) -> (yes: bool)
        ensures
            yes == stale(self.generation, generation),
    {
        match self.generation {
            Some(current) => generation < current,
            None => false,
        }
    }

    /// Replaces all recurring probes. The worker of a probe that is defined as before goes on; a
    /// change of an earlier generation is ignored.
    pub fn apply_replace(&mut self, generation: u64, specs: Vec<RemoteProbeJobSpec>) -> (effects:
        Vec<WorkerEffect>)
        requires
            old(self).wf(),
            distinct_specs(specs@),
        ensures
            final(self).wf(),
            if stale(old(self).generation, generation) {
                &&& *final(self) == *old(self)
                &&& effects@.len() == 0
            } else {
                &&& final(self).generation == Some(generation)
                &&& (final(self).jobs@, effects@) == replaced(old(self).jobs@, specs@)
            },
    {
        let mut effects: Vec<WorkerEffect> = Vec::new();
        if self.is_stale(generation) {
            return effects;
        }
        let ghost before = self.jobs@;
        let mut rebuilt: Vec<ScheduledProbeJob> = Vec::new();
        let mut i: usize = 0;
        assert(specs@.take(0) =~= Seq::empty());
        assert(effects@ =~= redefined(before, specs@.take(0)));
        while i < specs.len()
            invariant
                i <= specs@.len(),
                self.jobs@ == before,
                rebuilt@.len() == i,
                forall|j: int| 0 <= j < i ==> rebuilt@[j] == taken_over(before, #[trigger] specs@[j]),
                effects@ == redefined(before, specs@.take(i as int)),
            decreases specs@.len() - i,
        {
            proof {
                assert(specs@.take(i + 1).drop_last() =~= specs@.take(i as int));
                assert(specs@.take(i + 1).last() == specs@[i as int]);
            }
            let spec = specs[i].clone();
            let place = self.find(&spec.job_id);
            let mut running = false;
            if place < self.jobs.len() {
                if self.jobs[place].spec.same(&spec) {
                    running = self.jobs[place].running;
                } else {
                    self.push_stop(place, &mut effects);
                }
            }
            assert(effects@ =~= redefined(before, specs@.take(i + 1)));
            rebuilt.push(ScheduledProbeJob { spec, running });
            i += 1;
        }
        assert(specs@.take(i as int) =~= specs@);
        let ghost first = effects@;
        let mut k: usize = 0;
        assert(before.take(0) =~= Seq::empty());
        assert(effects@ =~= first + dropped(before.take(0), specs@));
        while k < self.jobs.len()
            invariant
                k <= before.len(),
                self.jobs@ == before,
                effects@ == first + dropped(before.take(k as int), specs@),
            decreases before.len() - k,
        {
            proof {
                assert(before.take(k + 1).drop_last() =~= before.take(k as int));
                assert(before.take(k + 1).last() == before[k as int]);
            }
            let ghost prior = effects@;
            if !is_defined(&specs, &self.jobs[k].spec.job_id) {
                self.push_stop(k, &mut effects);
            }
            assert(effects@ =~= first + dropped(before.take(k + 1), specs@));
            k += 1;
        }
        assert(before.take(k as int) =~= before);
        self.jobs = rebuilt;
        assert(self.jobs@ =~= specs@.map_values(
            |spec: RemoteProbeJobSpec| taken_over(before, spec),
        ));
        self.generation = Some(generation);
        self.reconcile_job_workers(&mut effects);
        proof {
            assert forall|a: int, b: int| 0 <= a < b < self.jobs@.len() implies (
            #[trigger] self.jobs@[a]).spec.job_id@ != (#[trigger] self.jobs@[b]).spec.job_id@ by {
                assert(specs@[a].job_id@ != specs@[b].job_id@);
            }
        }
        effects
    }

    fn remove_job(&mut self, id: &String, effects: &mut Vec<WorkerEffect>)
        requires
            old(self).wf(),
        ensures
            (final(self).jobs@, final(effects)@) == without_job(
                (old(self).jobs@, old(effects)@),
                id@,
            ),
            final(self).generation == old(self).generation,
            final(self).wf(),
    {
        let ghost before = self.jobs@;
        let place = self.find(id);
        if place < self.jobs.len() {
            self.push_stop(place, effects);
            self.jobs.remove(place);
            proof {
                assert forall|a: int, b: int| 0 <= a < b < self.jobs@.len() implies (
                #[trigger] self.jobs@[a]).spec.job_id@ != (
                #[trigger] self.jobs@[b]).spec.job_id@ by {
                    let from = if a < place {
                        a
                    } else {
                        a + 1
                    };
                    let to = if b < place {
                        b
                    } else {
                        b + 1
                    };
                    assert(before[from].spec.job_id@ != before[to].spec.job_id@);
                }
            }
        }
    }

    fn upsert_job(&mut self, spec: RemoteProbeJobSpec, effects: &mut Vec<WorkerEffect>)
        requires
            old(self).wf(),
        ensures
            (final(self).jobs@, final(effects)@) == with_job(
                (old(self).jobs@, old(effects)@),
                spec,
            ),
            final(self).generation == old(self).generation,
            final(self).wf(),
    {
        let ghost before = self.jobs@;
        let place = self.find(&spec.job_id);
        proof {
            lemma_job_place_range(before, spec.job_id@);
        }
        if place < self.jobs.len() {
            if !self.jobs[place].spec.same(&spec) {
                self.push_stop(place, effects);
                self.jobs[place] = ScheduledProbeJob { spec, running: false };
                proof {
                    assert forall|a: int, b: int| 0 <= a < b < self.jobs@.len() implies (
                    #[trigger] self.jobs@[a]).spec.job_id@ != (
                    #[trigger] self.jobs@[b]).spec.job_id@ by {
                        assert(before[a].spec.job_id@ != before[b].spec.job_id@);
                    }
                }
            }
        } else {
            self.jobs.push(ScheduledProbeJob { spec, running: false });
            proof {
                assert forall|a: int, b: int| 0 <= a < b < self.jobs@.len() implies (
                #[trigger] self.jobs@[a]).spec.job_id@ != (
                #[trigger] self.jobs@[b]).spec.job_id@ by {
                    assert(self.jobs@[a] == before[a]);
                    if b < before.len() {
                        assert(self.jobs@[b] == before[b]);
                    }
                }
            }
        }
    }

    /// Removes some recurring probes and adds or changes others. A change of an earlier
    /// generation is ignored.
    pub fn apply_patch(
        &mut self,
        generation: u64,
        upsert_jobs: Vec<RemoteProbeJobSpec>,
        remove_job_ids: Vec<String>,
    ) -> (effects: Vec<WorkerEffect>)
        requires
            old(self).wf(),
        ensures
            final(self).wf(),
            if stale(old(self).generation, generation) {
                &&& *final(self) == *old(self)
                &&& effects@.len() == 0
            } else {
                &&& final(self).generation == Some(generation)
                &&& (final(self).jobs@, effects@) == patched(
                    old(self).jobs@,
                    remove_job_ids@,
                    upsert_jobs@,
                )
            },
    {
        let mut effects: Vec<WorkerEffect> = Vec::new();
        if self.is_stale(generation) {
            return effects;
        }
        let ghost start = (self.jobs@, effects@);
        assert(effects@ =~= Seq::empty());
        let mut i: usize = 0;
        assert(remove_job_ids@.take(0) =~= Seq::empty());
        while i < remove_job_ids.len()
            invariant
                i <= remove_job_ids@.len(),
                self.wf(),
                (self.jobs@, effects@) == without_jobs(start, remove_job_ids@.take(i as int)),
            decreases remove_job_ids@.len() - i,
        {
            proof {
                assert(remove_job_ids@.take(i + 1).drop_last() =~= remove_job_ids@.take(i as int));
            }
            self.remove_job(&remove_job_ids[i], &mut effects);
            i += 1;
        }
        assert(remove_job_ids@.take(i as int) =~= remove_job_ids@);
        let ghost middle = (self.jobs@, effects@);
        let mut k: usize = 0;
        assert(upsert_jobs@.take(0) =~= Seq::empty());
        while k < upsert_jobs.len()
            invariant
                k <= upsert_jobs@.len(),
                self.wf(),
                (self.jobs@, effects@) == with_jobs(middle, upsert_jobs@.take(k as int)),
            decreases upsert_jobs@.len() - k,
        {
            proof {
                assert(upsert_jobs@.take(k + 1).drop_last() =~= upsert_jobs@.take(k as int));
            }
            self.upsert_job(upsert_jobs[k].clone(), &mut effects);
            k += 1;
        }
        assert(upsert_jobs@.take(k as int) =~= upsert_jobs@);
        let ghost prior = self.jobs@;
        self.generation = Some(generation);
        self.reconcile_job_workers(&mut effects);
        proof {
            assert forall|a: int, b: int| 0 <= a < b < self.jobs@.len() implies (
            #[trigger] self.jobs@[a]).spec.job_id@ != (#[trigger] self.jobs@[b]).spec.job_id@ by {
                assert(prior[a].spec.job_id@ != prior[b].spec.job_id@);
            }
        }
        effects
    }
}

/// Whether a job with the given identity is defined.
fn is_defined(specs: &Vec<RemoteProbeJobSpec>, id: &String) -> (found: bool)
    ensures
        found == defines(specs@, id@),
{
    let mut i: usize = 0;
    while i < specs.len()
        invariant
            i <= specs@.len(),
            forall|j: int| 0 <= j < i ==> (#[trigger] specs@[j]).job_id@ != id@,
        decreases specs@.len() - i,
    {
        if specs[i].job_id == *id {
            return true;
        }
        i += 1;
    }
    false
}

/// Probes: the limits of their rate and the recurring ones.
#[derive(Debug)]
pub struct RemoteProbeManager {
    /// Probes of the recent past.
    pub rate_state: ProbeRateState,
    /// Recurring probes.
    pub scheduler_state: ProbeSchedulerState,
}

impl RemoteProbeManager {
    /// No probes.
    pub fn new() -> (manager: RemoteProbeManager)
        ensures
            manager.rate_state@ == (RateView { last_global: None, targets: Seq::empty() }),
            manager.rate_state@.wf(),
            manager.scheduler_state.generation is None,
            manager.scheduler_state.jobs@.len() == 0,
            manager.scheduler_state.wf(),
    {
        RemoteProbeManager {
            rate_state: ProbeRateState::new(),
            scheduler_state: ProbeSchedulerState::new(),
        }
    }
}

/// What a request for remote jobs leads to.
#[derive(Debug)]
pub enum JobWork {
    /// Probes to start, one after the other.
    Runs(Vec<RemoteProbeExecutionRequest>),
    /// Workers to start and stop.
    Workers(Vec<WorkerEffect>),
}

/// Remote jobs.
#[derive(Debug)]
pub struct RemoteJobManager {
    /// Probes.
    pub probe: RemoteProbeManager,
}

/// Whether the recurring probes of a request can be told apart.
pub open spec fn tells_apart(request: RemoteJobApply) -> bool {
    match request {
        RemoteJobApply::Replace { generation, jobs } => distinct_specs(jobs@),
        _ => true,
    }
}

/// Whether a request was carried out: what it leads to, and the recurring probes afterwards.
pub open spec fn carried_out(
    before: ProbeSchedulerState,
    request: RemoteJobApply,
    after: ProbeSchedulerState,
    work: JobWork,
) -> bool {
    match request {
        RemoteJobApply::Once { runs } => work == JobWork::Runs(runs) && after == before,
        RemoteJobApply::Replace { generation, jobs } => work matches JobWork::Workers(effects)
            && if stale(before.generation, generation) {
            after == before && effects@.len() == 0
        } else {
            after.generation == Some(generation) && (after.jobs@, effects@) == replaced(
                before.jobs@,
                jobs@,
            )
        },
        RemoteJobApply::Patch { generation, upsert_jobs, remove_job_ids } => work matches
            JobWork::Workers(effects) && if stale(before.generation, generation) {
            after == before && effects@.len() == 0
        } else {
            after.generation == Some(generation) && (after.jobs@, effects@) == patched(
                before.jobs@,
                remove_job_ids@,
                upsert_jobs@,
            )
        },
    }
}

impl RemoteJobManager {
    /// Remote jobs that run probes.
    pub fn new(probe: RemoteProbeManager) -> (manager: RemoteJobManager)
        ensures
            manager == (RemoteJobManager { probe }),
    {
        RemoteJobManager { probe }
    }

    /// Carries out a checked request.
    pub fn apply(&mut self, request: RemoteJobApply) -> (work: JobWork)
        requires
            old(self).probe.scheduler_state.wf(),
            tells_apart(request),
        ensures
            final(self).probe.scheduler_state.wf(),
            final(self).probe.rate_state == old(self).probe.rate_state,
            carried_out(
                old(self).probe.scheduler_state,
                request,
                final(self).probe.scheduler_state,
                work,
            ),
    {
        match request {
            RemoteJobApply::Once { runs } => JobWork::Runs(runs),
            RemoteJobApply::Replace { generation, jobs } => JobWork::Workers(
                self.probe.scheduler_state.apply_replace(generation, jobs),
            ),
            RemoteJobApply::Patch { generation, upsert_jobs, remove_job_ids } => JobWork::Workers(
                self.probe.scheduler_state.apply_patch(generation, upsert_jobs, remove_job_ids),
            ),
        }
    }

    /// Checks a request and carries it out where nothing is wrong with it.
    pub fn submit(&mut self, request: RemoteJobApplyRequest) -> (work: Result<JobWork, String>)
        requires
            old(self).probe.scheduler_state.wf(),
        ensures
            final(self).probe.scheduler_state.wf(),
            final(self).probe.rate_state == old(self).probe.rate_state,
            checks(work, apply_error(request)),
            work is Err ==> *final(self) == *old(self),
            work matches Ok(work) ==> exists|apply: RemoteJobApply|
                #![trigger asks_for(apply, request)]
                asks_for(apply, request) && carried_out(
                    old(self).probe.scheduler_state,
                    apply,
                    final(self).probe.scheduler_state,
                    work,
                ),
    {
        let ghost asked = request;
        match RemoteJobApply::try_from(request) {
            Err(text) => Err(text),
            Ok(apply) => {
                proof {
                    if asked.operation == RemoteJobOperation::Replace {
                        law_accepted_jobs_are_distinct(asked.jobs@);
                        let jobs = apply->Replace_jobs@;
                        assert forall|i: int, j: int| 0 <= i < j < jobs.len() implies (
                        #[trigger] jobs[i]).job_id@ != (#[trigger] jobs[j]).job_id@ by {
                            assert(job_name(asked.jobs@[i]) != job_name(asked.jobs@[j]));
                        }
                    }
                }
                Ok(self.apply(apply))
            },
        }
    }
}

/// What the worker of a recurring probe does next.
#[derive(Debug, Clone, Copy, PartialEq, Eq, Structural)]
pub enum WorkerStep {
    /// Run the probe, and look again.
    Run,
    /// Sleep for the interval.
    Sleep,
    /// Look again.
    Again,
    /// End.
    Stop,
}

/// Worker of a recurring probe.
#[derive(Debug, PartialEq, Eq, Structural)]
pub struct ProbeWorker {
    /// Whether the probe has not run yet.
    pub first_run: bool,
}

impl ProbeWorker {
    /// The worker after it looked at what to do, and what it does.
    pub open spec fn looked(self, stopping: bool) -> (ProbeWorker, WorkerStep) {
        if stopping {
            (self, WorkerStep::Stop)
        } else if self.first_run {
            (ProbeWorker { first_run: false }, WorkerStep::Run)
        } else {
            (self, WorkerStep::Sleep)
        }
    }

    /// Worker whose probe has not run yet.
    pub fn new() -> (worker: ProbeWorker)
        ensures
            worker.first_run,
    {
        ProbeWorker { first_run: true }
    }

    /// Looks at what to do: the first run comes at once, every other after the interval.
    pub fn look(&mut self, stopping: bool) -> (step: WorkerStep)
        ensures
            (*final(self), step) == old(self).looked(stopping),
    {
        if stopping {
            WorkerStep::Stop
        } else if self.first_run {
            self.first_run = false;
            WorkerStep::Run
        } else {
            WorkerStep::Sleep
        }
    }

    /// The interval has passed.
    pub fn slept(&self, stopping: bool) -> (step: WorkerStep)
        ensures
            step == (if stopping {
                WorkerStep::Stop
            } else {
                WorkerStep::Run
            }),
    {
        if stopping {
            WorkerStep::Stop
        } else {
            WorkerStep::Run
        }
    }

    /// The sleep was interrupted by a change of the stop signal.
    pub fn interrupted(&self, sender_gone: bool, stopping: bool) -> (step: WorkerStep)
        ensures
            step == (if sender_gone || stopping {
                WorkerStep::Stop
            } else {
                WorkerStep::Again
            }),
    {
        if sender_gone || stopping {
            WorkerStep::Stop
        } else {
            WorkerStep::Again
        }
    }
}

/// The generation of the recurring probes never goes back.
pub proof fn law_generation_never_goes_back(
    before: ProbeSchedulerState,
    request: RemoteJobApply,
    after: ProbeSchedulerState,
    work: JobWork,
)
    requires
        carried_out(before, request, after, work),
    ensures
        before.generation matches Some(earlier) ==> after.generation matches Some(now) && now
            >= earlier,
{
}

/// After a change the worker of a recurring probe runs exactly where the probe is switched on.
pub proof fn law_workers_follow_the_switch(change: Change, i: int)
    requires
        0 <= i < change.0.len(),
    ensures
        in_line(change).0[i].running == change.0[i].spec.enabled,
        in_line(change).0[i].spec == change.0[i].spec,
{
}

proof fn lemma_redefined_jobs(
    jobs: Seq<ScheduledProbeJob>,
    specs: Seq<RemoteProbeJobSpec>,
    id: Seq<char>,
)
    requires
        forall|j: int|
            0 <= j < specs.len() && (#[trigger] specs[j]).job_id@ == id ==> same_job(
                jobs[job_place(jobs, id)].spec,
                specs[j],
            ),
    ensures
        forall|e: int|
            0 <= e < redefined(jobs, specs).len() ==> (#[trigger] redefined(
                jobs,
                specs,
            )[e]).job() != id,
    decreases specs.len(),
{
    if specs.len() > 0 {
        let front = specs.drop_last();
        assert forall|j: int| 0 <= j < front.len() && (#[trigger] front[j]).job_id@
            == id implies same_job(jobs[job_place(jobs, id)].spec, front[j]) by {
            assert(front[j] == specs[j]);
        }
        lemma_redefined_jobs(jobs, front, id);
        lemma_job_place_range(jobs, specs.last().job_id@);
        let known = redefined(jobs, front);
        let all = redefined(jobs, specs);
        assert(specs[specs.len() - 1] == specs.last());
        assert forall|e: int| 0 <= e < all.len() implies (#[trigger] all[e]).job() != id by {
            if e < known.len() {
                assert(all[e] == known[e]);
            }
        }
    }
}

proof fn lemma_dropped_jobs(
    jobs: Seq<ScheduledProbeJob>,
    specs: Seq<RemoteProbeJobSpec>,
    id: Seq<char>,
)
    requires
        defines(specs, id),
    ensures
        forall|e: int|
            0 <= e < dropped(jobs, specs).len() ==> (#[trigger] dropped(jobs, specs)[e]).job()
                != id,
    decreases jobs.len(),
{
    if jobs.len() > 0 {
        lemma_dropped_jobs(jobs.drop_last(), specs, id);
        let known = dropped(jobs.drop_last(), specs);
        let all = dropped(jobs, specs);
        assert forall|e: int| 0 <= e < all.len() implies (#[trigger] all[e]).job() != id by {
            if e < known.len() {
                assert(all[e] == known[e]);
            }
        }
    }
}

proof fn lemma_reconciling_jobs(jobs: Seq<ScheduledProbeJob>, id: Seq<char>)
    requires
        forall|j: int|
            0 <= j < jobs.len() && (#[trigger] jobs[j]).spec.job_id@ == id ==> jobs[j].running
                == jobs[j].spec.enabled,
    ensures
        forall|e: int|
            0 <= e < reconciling(jobs).len() ==> (#[trigger] reconciling(jobs)[e]).job() != id,
    decreases jobs.len(),
{
    if jobs.len() > 0 {
        let front = jobs.drop_last();
        assert forall|j: int| 0 <= j < front.len() && (#[trigger] front[j]).spec.job_id@
            == id implies front[j].running == front[j].spec.enabled by {
            assert(front[j] == jobs[j]);
        }
        lemma_reconciling_jobs(front, id);
        let known = reconciling(front);
        let all = reconciling(jobs);
        assert(jobs[jobs.len() - 1] == jobs.last());
        assert forall|e: int| 0 <= e < all.len() implies (#[trigger] all[e]).job() != id by {
            if e < known.len() {
                assert(all[e] == known[e]);
            }
        }
    }
}

/// A replacement leaves the worker of a probe alone that is defined as before: nothing is
/// started or stopped for it.
pub proof fn law_unchanged_probe_keeps_its_worker(
    jobs: Seq<ScheduledProbeJob>,
    specs: Seq<RemoteProbeJobSpec>,
    k: int,
)
    requires
        distinct_specs(specs),
        0 <= k < specs.len(),
        ({
            let place = job_place(jobs, specs[k].job_id@);
            place < jobs.len() && same_job(jobs[place].spec, specs[k]) && jobs[place].running
                == jobs[place].spec.enabled
        }),
    ensures
        forall|e: int|
            0 <= e < replaced(jobs, specs).1.len() ==> (#[trigger] replaced(jobs, specs).1[e]).job()
                != specs[k].job_id@,
{
    let id = specs[k].job_id@;
    let rebuilt = specs.map_values(|spec: RemoteProbeJobSpec| taken_over(jobs, spec));
    let first = redefined(jobs, specs);
    let second = dropped(jobs, specs);
    let third = reconciling(rebuilt);
    let all = replaced(jobs, specs).1;
    assert forall|j: int| 0 <= j < specs.len() && (#[trigger] specs[j]).job_id@
        == id implies same_job(jobs[job_place(jobs, id)].spec, specs[j]) by {
        if j != k {
            assert(specs[j].job_id@ != specs[k].job_id@);
        }
    }
    lemma_redefined_jobs(jobs, specs, id);
    lemma_dropped_jobs(jobs, specs, id);
    assert forall|j: int| 0 <= j < rebuilt.len() && (#[trigger] rebuilt[j]).spec.job_id@
        == id implies rebuilt[j].running == rebuilt[j].spec.enabled by {
        if j != k {
            assert(specs[j].job_id@ != specs[k].job_id@);
        }
    }
    lemma_reconciling_jobs(rebuilt, id);
    assert forall|e: int| 0 <= e < all.len() implies (#[trigger] all[e]).job() != id by {
        if e < first.len() {
            assert(all[e] == first[e]);
        } else if e < first.len() + second.len() {
            assert(all[e] == second[e - first.len()]);
        } else {
            assert(all[e] == third[e - first.len() - second.len()]);
        }
    }
}

} // verus!
