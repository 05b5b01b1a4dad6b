//! Laws of the recurring probes: what is stored of a request, and whose worker is started or
//! stopped for it.

use crate::service::protocol::RemoteProbeId;
use crate::service::remote::job::RemoteJobApply;
use crate::service::remote::probe::{same_job, RemoteProbeJobSpec};
use crate::service::remote::schedule::{
    carried_out, defines, distinct_jobs, distinct_specs, dropped, in_line, job_place,
    lemma_job_place, lemma_job_place_range, patched, reconciled, reconciling, redefined, replaced,
    stop_worker, taken_over, with_job, with_jobs, without_job, without_jobs, Change, JobWork,
    ProbeSchedulerState, ProbeWorker, ScheduledProbeJob, WorkerEffect, WorkerStep,
};
use vstd::prelude::*;

verus! {

/// Whether two measured points are the same.
pub open spec fn same_point(a: Option<RemoteProbeId>, b: Option<RemoteProbeId>) -> bool {
    match (a, b) {
        (Some(RemoteProbeId::Text(a)), Some(RemoteProbeId::Text(b))) => a@ == b@,
        (Some(RemoteProbeId::Number(a)), Some(RemoteProbeId::Number(b))) => a == b,
        (None, None) => true,
        _ => false,
    }
}

/// Whether two recurring probes agree in everything: identity, point, switch, protocol, target,
/// interval and time limit.
pub open spec fn defined_alike(a: RemoteProbeJobSpec, b: RemoteProbeJobSpec) -> bool {
    &&& a.job_id@ == b.job_id@
    &&& same_point(a.point_id, b.point_id)
    &&& a.enabled == b.enabled
    &&& a.probe_type == b.probe_type
    &&& a.target@ == b.target@
    &&& a.interval.nanos == b.interval.nanos
    &&& match (a.timeout, b.timeout) {
        (Some(a), Some(b)) => a.nanos == b.nanos,
        (None, None) => true,
        _ => false,
    }
}

/// Two recurring probes count as the same exactly where they agree in everything.
pub proof fn law_probes_are_compared_field_by_field(a: RemoteProbeJobSpec, b: RemoteProbeJobSpec)
    ensures
        same_job(a, b) <==> defined_alike(a, b),
{
}

/// Whether some effect from `from` on stops the worker of a job.
pub open spec fn stops_from(effects: Seq<WorkerEffect>, from: int, id: Seq<char>) -> bool {
    exists|e: int|
        from <= e < effects.len() && (#[trigger] effects[e]) is Stop && effects[e]->Stop_0@ == id
}

/// Whether some effect stops the worker of a job.
pub open spec fn stops(effects: Seq<WorkerEffect>, id: Seq<char>) -> bool {
    stops_from(effects, 0, id)
}

/// Whether some effect starts a worker with exactly this definition, and no later one stops it.
pub open spec fn starts(effects: Seq<WorkerEffect>, spec: RemoteProbeJobSpec) -> bool {
    exists|e: int|
        0 <= e < effects.len() && #[trigger] effects[e] == WorkerEffect::Start(spec) && !stops_from(
            effects,
            e,
            spec.job_id@,
        )
}

/// Whether no effect concerns a job.
pub open spec fn leaves_alone(effects: Seq<WorkerEffect>, id: Seq<char>) -> bool {
    forall|e: int| 0 <= e < effects.len() ==> (#[trigger] effects[e]).job() != id
}

proof fn lemma_stops_added(a: Seq<WorkerEffect>, b: Seq<WorkerEffect>, id: Seq<char>)
    ensures
        stops(a + b, id) <==> stops(a, id) || stops(b, id),
{
    let all = a + b;
    if stops(a, id) {
        let e = choose|e: int|
            0 <= e < a.len() && (#[trigger] a[e]) is Stop && a[e]->Stop_0@ == id;
        assert(all[e] == a[e]);
    }
    if stops(b, id) {
        let e = choose|e: int|
            0 <= e < b.len() && (#[trigger] b[e]) is Stop && b[e]->Stop_0@ == id;
        assert(all[a.len() + e] == b[e]);
    }
    if stops(all, id) {
        let e = choose|e: int|
            0 <= e < all.len() && (#[trigger] all[e]) is Stop && all[e]->Stop_0@ == id;
        if e < a.len() {
            assert(a[e] == all[e]);
        } else {
            assert(b[e - a.len()] == all[e]);
        }
    }
}

proof fn lemma_stop_worker(job: ScheduledProbeJob, id: Seq<char>)
    ensures
        stops(stop_worker(job), id) <==> job.running && job.spec.job_id@ == id,
{
    if job.running && job.spec.job_id@ == id {
        assert(stop_worker(job)[0] is Stop);
    }
}

proof fn lemma_starts_added(a: Seq<WorkerEffect>, b: Seq<WorkerEffect>, spec: RemoteProbeJobSpec)
    requires
        starts(b, spec),
    ensures
        starts(a + b, spec),
{
    let all = a + b;
    let id = spec.job_id@;
    let e = choose|e: int|
        0 <= e < b.len() && #[trigger] b[e] == WorkerEffect::Start(spec) && !stops_from(b, e, id);
    assert(all[a.len() + e] == b[e]);
    assert forall|x: int| a.len() + e <= x < all.len() && (#[trigger] all[x]) is Stop implies
        all[x]->Stop_0@ != id by {
        assert(b[x - a.len()] == all[x]);
    }
    assert(!stops_from(all, a.len() + e, id));
}

/// What bringing the workers in line does for a job of its own identity.
proof fn lemma_reconciling(jobs: Seq<ScheduledProbeJob>, k: int)
    requires
        distinct_jobs(jobs),
        0 <= k < jobs.len(),
    ensures
        jobs[k].spec.enabled && !jobs[k].running ==> starts(reconciling(jobs), jobs[k].spec),
        stops(reconciling(jobs), jobs[k].spec.job_id@) <==> !jobs[k].spec.enabled
            && jobs[k].running,
        jobs[k].spec.enabled == jobs[k].running ==> leaves_alone(
            reconciling(jobs),
            jobs[k].spec.job_id@,
        ),
    decreases jobs.len(),
{
    let id = jobs[k].spec.job_id@;
    let front = jobs.drop_last();
    let last = jobs.last();
    let known = reconciling(front);
    let all = reconciling(jobs);
    let added = if last.spec.enabled && !last.running {
        seq![WorkerEffect::Start(last.spec)]
    } else if !last.spec.enabled {
        stop_worker(last)
    } else {
        Seq::empty()
    };
    assert(all == known + added);
    assert(distinct_jobs(front)) by {
        assert forall|i: int, j: int| 0 <= i < j < front.len() implies (
        #[trigger] front[i]).spec.job_id@ != (#[trigger] front[j]).spec.job_id@ by {
            assert(jobs[i].spec.job_id@ != jobs[j].spec.job_id@);
        }
    }
    lemma_stops_added(known, added, id);
    lemma_stop_worker(last, id);
    if k < jobs.len() - 1 {
        assert(front[k] == jobs[k]);
        lemma_reconciling(front, k);
        assert(jobs[k].spec.job_id@ != jobs[jobs.len() - 1].spec.job_id@);
        assert(!stops(added, id));
        if jobs[k].spec.enabled && !jobs[k].running {
            let e = choose|e: int|
                0 <= e < known.len() && #[trigger] known[e] == WorkerEffect::Start(jobs[k].spec)
                    && !stops_from(known, e, id);
            assert(all[e] == known[e]);
            assert forall|x: int| e <= x < all.len() && (#[trigger] all[x]) is Stop implies
                all[x]->Stop_0@ != id by {
                if x < known.len() {
                    assert(known[x] == all[x]);
                } else {
                    assert(added[x - known.len()] == all[x]);
                }
            }
            assert(!stops_from(all, e, id));
        }
        if jobs[k].spec.enabled == jobs[k].running {
            assert forall|e: int| 0 <= e < all.len() implies (#[trigger] all[e]).job() != id by {
                if e < known.len() {
                    assert(all[e] == known[e]);
                } else {
                    assert(all[e] == added[e - known.len()]);
                }
            }
        }
    } else {
        lemma_reconciling_others(front, id);
        if last.spec.enabled && !last.running {
            assert(all[known.len() as int] == WorkerEffect::Start(last.spec));
            assert(!stops_from(all, known.len() as int, id));
        }
        assert forall|e: int| last.spec.enabled == last.running && 0 <= e < all.len() implies (
        #[trigger] all[e]).job() != id by {
            assert(all[e] == known[e]);
        }
        assert(!stops(known, id));
    }
}

proof fn lemma_reconciling_others(jobs: Seq<ScheduledProbeJob>, id: Seq<char>)
    requires
        forall|j: int| 0 <= j < jobs.len() ==> (#[trigger] jobs[j]).spec.job_id@ != id,
    ensures
        leaves_alone(reconciling(jobs), id),
    decreases jobs.len(),
{
    if jobs.len() > 0 {
        let front = jobs.drop_last();
        assert forall|j: int| 0 <= j < front.len() implies (#[trigger] front[j]).spec.job_id@
            != id by {
            assert(front[j] == jobs[j]);
        }
        lemma_reconciling_others(front, id);
        let known = reconciling(front);
        let all = reconciling(jobs);
        assert(jobs[jobs.len() - 1] == jobs.last());
        assert forall|e: int| 0 <= e < all.len() implies (#[trigger] all[e]).job() != id by {
            if e < known.len() {
                assert(all[e] == known[e]);
            }
        }
    }
}

proof fn lemma_redefined_stops(
    jobs: Seq<ScheduledProbeJob>,
    specs: Seq<RemoteProbeJobSpec>,
    k: int,
)
    requires
        0 <= k < specs.len(),
        ({
            let place = job_place(jobs, specs[k].job_id@);
            place < jobs.len() && !same_job(jobs[place].spec, specs[k]) && jobs[place].running
        }),
    ensures
        stops(redefined(jobs, specs), specs[k].job_id@),
    decreases specs.len(),
{
    let id = specs[k].job_id@;
    let place = job_place(jobs, id);
    lemma_job_place_range(jobs, id);
    let front = specs.drop_last();
    let added = {
        let at = job_place(jobs, specs.last().job_id@);
        if at < jobs.len() && !same_job(jobs[at].spec, specs.last()) {
            stop_worker(jobs[at])
        } else {
            Seq::empty()
        }
    };
    assert(redefined(jobs, specs) == redefined(jobs, front) + added);
    lemma_stops_added(redefined(jobs, front), added, id);
    if k < specs.len() - 1 {
        assert(front[k] == specs[k]);
        lemma_redefined_stops(jobs, front, k);
    } else {
        lemma_stop_worker(jobs[place], id);
    }
}

proof fn lemma_dropped_stops(
    jobs: Seq<ScheduledProbeJob>,
    specs: Seq<RemoteProbeJobSpec>,
    p: int,
)
    requires
        0 <= p < jobs.len(),
        jobs[p].running,
        !defines(specs, jobs[p].spec.job_id@),
    ensures
        stops(dropped(jobs, specs), jobs[p].spec.job_id@),
    decreases jobs.len(),
{
    let id = jobs[p].spec.job_id@;
    let front = jobs.drop_last();
    let added = if defines(specs, jobs.last().spec.job_id@) {
        Seq::empty()
    } else {
        stop_worker(jobs.last())
    };
    assert(dropped(jobs, specs) == dropped(front, specs) + added);
    lemma_stops_added(dropped(front, specs), added, id);
    if p < jobs.len() - 1 {
        assert(front[p] == jobs[p]);
        lemma_dropped_stops(front, specs, p);
    } else {
        lemma_stop_worker(jobs[p], id);
    }
}

/// A replacement stores exactly the given probes, field by field and in their order, and the
/// worker of each runs exactly where the probe is switched on.
pub proof fn law_replacement_stores_what_was_given(
    jobs: Seq<ScheduledProbeJob>,
    specs: Seq<RemoteProbeJobSpec>,
)
    ensures
        replaced(jobs, specs).0.len() == specs.len(),
        forall|k: int|
            0 <= k < specs.len() ==> (#[trigger] replaced(jobs, specs).0[k]).spec == specs[k]
                && replaced(jobs, specs).0[k].running == specs[k].enabled,
{
}

/// A replacement starts and stops what it has to: a running probe that is given with another
/// definition, in whatever field, is stopped, and started with the new one where that is switched
/// on; a probe that did not run is started where it is switched on.
pub proof fn law_replacement_renews_changed_workers(
    jobs: Seq<ScheduledProbeJob>,
    specs: Seq<RemoteProbeJobSpec>,
    p: int,
    k: int,
)
    requires
        distinct_jobs(jobs),
        distinct_specs(specs),
        0 <= p < jobs.len(),
        0 <= k < specs.len(),
        jobs[p].spec.job_id@ == specs[k].job_id@,
    ensures
        jobs[p].running && !defined_alike(jobs[p].spec, specs[k]) ==> stops(
            replaced(jobs, specs).1,
            specs[k].job_id@,
        ),
        specs[k].enabled && !(jobs[p].running && defined_alike(jobs[p].spec, specs[k])) ==> starts(
            replaced(jobs, specs).1,
            specs[k],
        ),
{
    let id = specs[k].job_id@;
    assert forall|j: int| 0 <= j < p implies (#[trigger] jobs[j]).spec.job_id@ != id by {
        assert(jobs[j].spec.job_id@ != jobs[p].spec.job_id@);
    }
    lemma_job_place(jobs, id, p);
    law_probes_are_compared_field_by_field(jobs[p].spec, specs[k]);
    if specs[k].enabled && !(jobs[p].running && defined_alike(jobs[p].spec, specs[k])) {
        lemma_replacement_effects(jobs, specs, k);
    }
    if jobs[p].running && !defined_alike(jobs[p].spec, specs[k]) {
        let first = redefined(jobs, specs);
        let second = dropped(jobs, specs);
        let rebuilt = specs.map_values(|spec: RemoteProbeJobSpec| taken_over(jobs, spec));
        lemma_redefined_stops(jobs, specs, k);
        lemma_stops_added(first, second, id);
        lemma_stops_added(first + second, reconciling(rebuilt), id);
    }
}

proof fn lemma_replacement_effects(
    jobs: Seq<ScheduledProbeJob>,
    specs: Seq<RemoteProbeJobSpec>,
    k: int,
)
    requires
        distinct_specs(specs),
        0 <= k < specs.len(),
        specs[k].enabled,
        !taken_over(jobs, specs[k]).running,
    ensures
        starts(replaced(jobs, specs).1, specs[k]),
{
    let rebuilt = specs.map_values(|spec: RemoteProbeJobSpec| taken_over(jobs, spec));
    assert(distinct_jobs(rebuilt)) by {
        assert forall|i: int, j: int| 0 <= i < j < rebuilt.len() implies (
        #[trigger] rebuilt[i]).spec.job_id@ != (#[trigger] rebuilt[j]).spec.job_id@ by {
            assert(specs[i].job_id@ != specs[j].job_id@);
        }
    }
    assert(rebuilt[k] == taken_over(jobs, specs[k]));
    lemma_reconciling(rebuilt, k);
    lemma_starts_added(
        redefined(jobs, specs) + dropped(jobs, specs),
        reconciling(rebuilt),
        specs[k],
    );
}

/// A replacement starts every probe that was not known before and is switched on, and stops every
/// running one that it does not name.
pub proof fn law_replacement_adds_and_drops(
    jobs: Seq<ScheduledProbeJob>,
    specs: Seq<RemoteProbeJobSpec>,
)
    requires
        distinct_specs(specs),
    ensures
        forall|k: int|
            0 <= k < specs.len() && (#[trigger] specs[k]).enabled && (forall|p: int|
                0 <= p < jobs.len() ==> (#[trigger] jobs[p]).spec.job_id@ != specs[k].job_id@)
                ==> starts(replaced(jobs, specs).1, specs[k]),
        forall|p: int|
            0 <= p < jobs.len() && (#[trigger] jobs[p]).running && (forall|k: int|
                0 <= k < specs.len() ==> (#[trigger] specs[k]).job_id@ != jobs[p].spec.job_id@)
                ==> stops(replaced(jobs, specs).1, jobs[p].spec.job_id@),
{
    assert forall|k: int|
        0 <= k < specs.len() && (#[trigger] specs[k]).enabled && (forall|p: int|
            0 <= p < jobs.len() ==> (#[trigger] jobs[p]).spec.job_id@
                != specs[k].job_id@) implies starts(replaced(jobs, specs).1, specs[k]) by {
        lemma_job_place(jobs, specs[k].job_id@, jobs.len() as int);
        lemma_replacement_effects(jobs, specs, k);
    }
    assert forall|p: int|
        0 <= p < jobs.len() && (#[trigger] jobs[p]).running && (forall|k: int|
            0 <= k < specs.len() ==> (#[trigger] specs[k]).job_id@
                != jobs[p].spec.job_id@) implies stops(
        replaced(jobs, specs).1,
        jobs[p].spec.job_id@,
    ) by {
        let id = jobs[p].spec.job_id@;
        let first = redefined(jobs, specs);
        let second = dropped(jobs, specs);
        let rebuilt = specs.map_values(|spec: RemoteProbeJobSpec| taken_over(jobs, spec));
        lemma_dropped_stops(jobs, specs, p);
        lemma_stops_added(first, second, id);
        lemma_stops_added(first + second, reconciling(rebuilt), id);
    }
}

/// Stored probe with an identity.
pub open spec fn stored(jobs: Seq<ScheduledProbeJob>, id: Seq<char>) -> Option<
    ScheduledProbeJob,
> {
    if exists|i: int| 0 <= i < jobs.len() && (#[trigger] jobs[i]).spec.job_id@ == id {
        Some(
            jobs[choose|i: int| 0 <= i < jobs.len() && (#[trigger] jobs[i]).spec.job_id@ == id],
        )
    } else {
        None
    }
}

proof fn lemma_stored(jobs: Seq<ScheduledProbeJob>, id: Seq<char>)
    requires
        distinct_jobs(jobs),
    ensures
        stored(jobs, id) is Some <==> job_place(jobs, id) < jobs.len(),
        stored(jobs, id) matches Some(job) ==> job == jobs[job_place(jobs, id)],
        0 <= job_place(jobs, id) <= jobs.len(),
        forall|i: int|
            0 <= i < jobs.len() && (#[trigger] jobs[i]).spec.job_id@ == id ==> stored(jobs, id)
                == Some(jobs[i]) && job_place(jobs, id) == i,
{
    lemma_job_place_range(jobs, id);
    if stored(jobs, id) is Some {
        let i = choose|i: int| 0 <= i < jobs.len() && (#[trigger] jobs[i]).spec.job_id@ == id;
        let place = job_place(jobs, id);
        if place < i {
            assert(jobs[place].spec.job_id@ != jobs[i].spec.job_id@);
        }
        assert forall|j: int| 0 <= j < jobs.len() && (#[trigger] jobs[j]).spec.job_id@
            == id implies j == i by {
            if j < i {
                assert(jobs[j].spec.job_id@ != jobs[i].spec.job_id@);
            } else if i < j {
                assert(jobs[i].spec.job_id@ != jobs[j].spec.job_id@);
            }
        }
    }
}

proof fn lemma_without_job(change: Change, id: Seq<char>, other: Seq<char>)
    requires
        distinct_jobs(change.0),
    ensures
        ({
            let next = without_job(change, id);
            &&& distinct_jobs(next.0)
            &&& stored(next.0, id) is None
            &&& other != id ==> stored(next.0, other) == stored(change.0, other)
            &&& stops(next.1, other) <==> stops(change.1, other) || (other == id && stored(
                change.0,
                id,
            ) is Some && stored(change.0, id)->0.running)
            &&& other != id && leaves_alone(change.1, other) ==> leaves_alone(next.1, other)
        }),
{
    let (jobs, effects) = change;
    let place = job_place(jobs, id);
    lemma_stored(jobs, id);
    lemma_stored(jobs, other);
    lemma_job_place_range(jobs, id);
    if place < jobs.len() {
        let next = jobs.remove(place);
        assert forall|a: int, b: int| 0 <= a < b < next.len() implies (
        #[trigger] next[a]).spec.job_id@ != (#[trigger] next[b]).spec.job_id@ by {
            let x = if a < place {
                a
            } else {
                a + 1
            };
            let y = if b < place {
                b
            } else {
                b + 1
            };
            assert(jobs[x].spec.job_id@ != jobs[y].spec.job_id@);
        }
        lemma_stored(next, id);
        lemma_stored(next, other);
        assert forall|i: int| 0 <= i < next.len() implies (#[trigger] next[i]).spec.job_id@
            != id by {
            let x = if i < place {
                i
            } else {
                i + 1
            };
            assert(next[i] == jobs[x]);
            if jobs[x].spec.job_id@ == id {
                assert(job_place(jobs, id) == x);
            }
        }
        if other != id {
            if stored(jobs, other) is Some {
                let i = job_place(jobs, other);
                let x = if i < place {
                    i
                } else {
                    i - 1
                };
                lemma_job_place_range(jobs, other);
                assert(next[x] == jobs[i]);
            }
            if stored(next, other) is Some {
                lemma_job_place_range(next, other);
                let i = job_place(next, other);
                let x = if i < place {
                    i
                } else {
                    i + 1
                };
                assert(next[i] == jobs[x]);
            }
        }
        lemma_stops_added(effects, stop_worker(jobs[place]), other);
        lemma_stop_worker(jobs[place], other);
        if other != id && leaves_alone(effects, other) {
            let all = effects + stop_worker(jobs[place]);
            assert forall|e: int| 0 <= e < all.len() implies (#[trigger] all[e]).job() != other by {
                if e < effects.len() {
                    assert(all[e] == effects[e]);
                }
            }
        }
    }
}

proof fn lemma_with_job(change: Change, spec: RemoteProbeJobSpec, other: Seq<char>)
    requires
        distinct_jobs(change.0),
    ensures
        ({
            let next = with_job(change, spec);
            let id = spec.job_id@;
            &&& distinct_jobs(next.0)
            &&& stored(next.0, id) == (match stored(change.0, id) {
                Some(job) if same_job(job.spec, spec) => Some(job),
                _ => Some(ScheduledProbeJob { spec, running: false }),
            })
            &&& other != id ==> stored(next.0, other) == stored(change.0, other)
            &&& stops(next.1, other) <==> stops(change.1, other) || (other == id && stored(
                change.0,
                id,
            ) is Some && stored(change.0, id)->0.running && !same_job(
                stored(change.0, id)->0.spec,
                spec,
            ))
            &&& (other != id || (stored(change.0, id) is Some && same_job(
                stored(change.0, id)->0.spec,
                spec,
            ))) && leaves_alone(change.1, other) ==> leaves_alone(next.1, other)
        }),
{
    let (jobs, effects) = change;
    let id = spec.job_id@;
    let place = job_place(jobs, id);
    let next = with_job(change, spec).0;
    lemma_stored(jobs, id);
    lemma_stored(jobs, other);
    lemma_job_place_range(jobs, id);
    assert(distinct_jobs(next)) by {
        assert forall|a: int, b: int| 0 <= a < b < next.len() implies (
        #[trigger] next[a]).spec.job_id@ != (#[trigger] next[b]).spec.job_id@ by {
            if b < jobs.len() {
                assert(jobs[a].spec.job_id@ != jobs[b].spec.job_id@);
            } else {
                assert(jobs[a].spec.job_id@ != id);
            }
        }
    }
    lemma_stored(next, id);
    lemma_stored(next, other);
    assert(next[place].spec.job_id@ == id);
    if other != id {
        if stored(jobs, other) is Some {
            lemma_job_place_range(jobs, other);
            let i = job_place(jobs, other);
            assert(next[i] == jobs[i]);
        }
        if stored(next, other) is Some {
            lemma_job_place_range(next, other);
            let i = job_place(next, other);
            assert(next[i] == jobs[i]);
        }
    }
    if place < jobs.len() {
        lemma_stops_added(effects, stop_worker(jobs[place]), other);
        lemma_stop_worker(jobs[place], other);
        if other != id && leaves_alone(effects, other) {
            let all = effects + stop_worker(jobs[place]);
            assert forall|e: int| 0 <= e < all.len() implies (#[trigger] all[e]).job() != other by {
                if e < effects.len() {
                    assert(all[e] == effects[e]);
                }
            }
        }
    }
}

/// Whether an identity is among those to remove.
pub open spec fn removes(ids: Seq<String>, id: Seq<char>) -> bool {
    exists|i: int| 0 <= i < ids.len() && (#[trigger] ids[i])@ == id
}

proof fn lemma_without_jobs(change: Change, ids: Seq<String>, id: Seq<char>)
    requires
        distinct_jobs(change.0),
    ensures
        ({
            let next = without_jobs(change, ids);
            &&& distinct_jobs(next.0)
            &&& stored(next.0, id) == (if removes(ids, id) {
                None
            } else {
                stored(change.0, id)
            })
            &&& stops(next.1, id) <==> stops(change.1, id) || (removes(ids, id) && stored(
                change.0,
                id,
            ) is Some && stored(change.0, id)->0.running)
            &&& !removes(ids, id) && leaves_alone(change.1, id) ==> leaves_alone(next.1, id)
        }),
    decreases ids.len(),
{
    if ids.len() > 0 {
        let front = ids.drop_last();
        lemma_without_jobs(change, front, id);
        let middle = without_jobs(change, front);
        lemma_without_job(middle, ids.last()@, id);
        assert(ids[ids.len() - 1] == ids.last());
        if removes(front, id) {
            let i = choose|i: int| 0 <= i < front.len() && (#[trigger] front[i])@ == id;
            assert(ids[i]@ == id);
        }
        if removes(ids, id) && ids.last()@ != id {
            let i = choose|i: int| 0 <= i < ids.len() && (#[trigger] ids[i])@ == id;
            assert(front[i]@ == id);
        }
    }
}

proof fn lemma_with_jobs_other(change: Change, specs: Seq<RemoteProbeJobSpec>, id: Seq<char>)
    requires
        distinct_jobs(change.0),
    ensures
        distinct_jobs(with_jobs(change, specs).0),
        !defines(specs, id) ==> {
            let next = with_jobs(change, specs);
            &&& stored(next.0, id) == stored(change.0, id)
            &&& stops(next.1, id) <==> stops(change.1, id)
            &&& leaves_alone(change.1, id) ==> leaves_alone(next.1, id)
        },
    decreases specs.len(),
{
    if specs.len() > 0 {
        let front = specs.drop_last();
        lemma_with_jobs_other(change, front, id);
        lemma_with_job(with_jobs(change, front), specs.last(), id);
        assert(specs[specs.len() - 1] == specs.last());
        if defines(front, id) {
            let i = choose|i: int| 0 <= i < front.len() && (#[trigger] front[i]).job_id@ == id;
            assert(specs[i].job_id@ == id);
        }
    }
}

/// Whether no later definition has the same identity.
pub open spec fn last_of_its_identity(specs: Seq<RemoteProbeJobSpec>, k: int) -> bool {
    forall|j: int| k < j < specs.len() ==> (#[trigger] specs[j]).job_id@ != specs[k].job_id@
}

proof fn lemma_with_jobs_last(change: Change, specs: Seq<RemoteProbeJobSpec>, k: int)
    requires
        distinct_jobs(change.0),
        0 <= k < specs.len(),
        last_of_its_identity(specs, k),
    ensures
        ({
            let next = with_jobs(change, specs);
            let before = with_jobs(change, specs.take(k));
            let after = with_job(before, specs[k]);
            let id = specs[k].job_id@;
            &&& distinct_jobs(before.0)
            &&& distinct_jobs(next.0)
            &&& stored(next.0, id) == stored(after.0, id)
            &&& stops(next.1, id) <==> stops(after.1, id)
            &&& leaves_alone(after.1, id) ==> leaves_alone(next.1, id)
        }),
    decreases specs.len(),
{
    let id = specs[k].job_id@;
    lemma_with_jobs_other(change, specs.take(k), id);
    lemma_with_jobs_other(change, specs, id);
    let front = specs.drop_last();
    if k == specs.len() - 1 {
        assert(front =~= specs.take(k));
        assert(specs.last() == specs[k]);
    } else {
        assert forall|j: int| k < j < front.len() implies (#[trigger] front[j]).job_id@
            != front[k].job_id@ by {
            assert(specs[j].job_id@ != specs[k].job_id@);
        }
        lemma_with_jobs_last(change, front, k);
        assert(front.take(k) =~= specs.take(k));
        lemma_with_jobs_other(change, front, id);
        assert(specs[specs.len() - 1].job_id@ != specs[k].job_id@);
        lemma_with_job(with_jobs(change, front), specs.last(), id);
    }
}

proof fn lemma_in_line(change: Change, id: Seq<char>)
    requires
        distinct_jobs(change.0),
    ensures
        ({
            let next = in_line(change);
            &&& distinct_jobs(next.0)
            &&& stored(next.0, id) == (match stored(change.0, id) {
                Some(job) => Some(reconciled(job)),
                None => None,
            })
            &&& stops(change.1, id) ==> stops(next.1, id)
            &&& stored(change.0, id) matches Some(job) ==> {
                &&& job.spec.enabled && !job.running ==> starts(next.1, job.spec)
                &&& !job.spec.enabled && job.running ==> stops(next.1, id)
                &&& job.spec.enabled == job.running && leaves_alone(change.1, id) ==> leaves_alone(
                    next.1,
                    id,
                )
            }
        }),
{
    let (jobs, effects) = change;
    let next = in_line(change).0;
    assert(next.len() == jobs.len());
    assert(distinct_jobs(next)) by {
        assert forall|a: int, b: int| 0 <= a < b < next.len() implies (
        #[trigger] next[a]).spec.job_id@ != (#[trigger] next[b]).spec.job_id@ by {
            assert(jobs[a].spec.job_id@ != jobs[b].spec.job_id@);
        }
    }
    lemma_stored(jobs, id);
    lemma_stored(next, id);
    lemma_job_place_range(jobs, id);
    lemma_job_place_range(next, id);
    lemma_stops_added(effects, reconciling(jobs), id);
    if stored(jobs, id) is Some {
        let place = job_place(jobs, id);
        assert(next[place] == reconciled(jobs[place]));
        lemma_reconciling(jobs, place);
        if jobs[place].spec.enabled && !jobs[place].running {
            lemma_starts_added(effects, reconciling(jobs), jobs[place].spec);
        }
        if jobs[place].spec.enabled == jobs[place].running && leaves_alone(effects, id) {
            let all = effects + reconciling(jobs);
            assert forall|e: int| 0 <= e < all.len() implies (#[trigger] all[e]).job() != id by {
                if e < effects.len() {
                    assert(all[e] == effects[e]);
                } else {
                    assert(all[e] == reconciling(jobs)[e - effects.len()]);
                }
            }
        }
    } else if stored(next, id) is Some {
        let place = job_place(next, id);
        assert(next[place] == reconciled(jobs[place]));
    }
}

/// A patch stores every given probe, field by field, the last definition of an identity where
/// there are several, and its worker runs exactly where it is switched on.
pub proof fn law_patch_stores_what_was_given(
    jobs: Seq<ScheduledProbeJob>,
    ids: Seq<String>,
    specs: Seq<RemoteProbeJobSpec>,
    k: int,
)
    requires
        distinct_jobs(jobs),
        0 <= k < specs.len(),
        last_of_its_identity(specs, k),
    ensures
        stored(patched(jobs, ids, specs).0, specs[k].job_id@) matches Some(job) && {
            &&& defined_alike(job.spec, specs[k])
            &&& job.running == specs[k].enabled
        },
{
    let id = specs[k].job_id@;
    let start = (jobs, Seq::<WorkerEffect>::empty());
    let cleared = without_jobs(start, ids);
    lemma_without_jobs(start, ids, id);
    lemma_with_jobs_last(cleared, specs, k);
    lemma_with_job(with_jobs(cleared, specs.take(k)), specs[k], id);
    lemma_in_line(with_jobs(cleared, specs), id);
}

/// A patch removes the named probes that it does not define anew, and leaves every probe alone
/// that it does not name.
pub proof fn law_patch_removes_only_what_it_names(
    jobs: Seq<ScheduledProbeJob>,
    ids: Seq<String>,
    specs: Seq<RemoteProbeJobSpec>,
    id: Seq<char>,
)
    requires
        distinct_jobs(jobs),
        forall|k: int| 0 <= k < specs.len() ==> (#[trigger] specs[k]).job_id@ != id,
    ensures
        removes(ids, id) ==> stored(patched(jobs, ids, specs).0, id) is None,
        removes(ids, id) && stored(jobs, id) is Some && stored(jobs, id)->0.running ==> stops(
            patched(jobs, ids, specs).1,
            id,
        ),
        !removes(ids, id) ==> {
            &&& stored(jobs, id) is Some <==> stored(patched(jobs, ids, specs).0, id) is Some
            &&& stored(jobs, id) matches Some(job) ==> {
                &&& stored(patched(jobs, ids, specs).0, id)->0.spec == job.spec
                &&& job.running == job.spec.enabled ==> leaves_alone(
                    patched(jobs, ids, specs).1,
                    id,
                )
            }
        },
{
    let start = (jobs, Seq::<WorkerEffect>::empty());
    let cleared = without_jobs(start, ids);
    lemma_without_jobs(start, ids, id);
    lemma_with_jobs_other(cleared, specs, id);
    lemma_in_line(with_jobs(cleared, specs), id);
}

/// A patch starts and stops what it has to: a running probe that is removed, or given with another
/// definition in whatever field, is stopped, and started with the new definition where that is
/// switched on; a probe that did not run is started where it is switched on; one that is given as
/// it was is left alone.
pub proof fn law_patch_renews_changed_workers(
    jobs: Seq<ScheduledProbeJob>,
    ids: Seq<String>,
    specs: Seq<RemoteProbeJobSpec>,
    k: int,
)
    requires
        distinct_jobs(jobs),
        distinct_specs(specs),
        0 <= k < specs.len(),
    ensures
        ({
            let id = specs[k].job_id@;
            let effects = patched(jobs, ids, specs).1;
            match stored(jobs, id) {
                Some(job) => {
                    let goes_on = defined_alike(job.spec, specs[k]) && !removes(ids, id);
                    &&& job.running && !goes_on ==> stops(effects, id)
                    &&& specs[k].enabled && !goes_on ==> starts(effects, specs[k])
                    &&& goes_on && job.running == job.spec.enabled ==> leaves_alone(effects, id)
                    &&& goes_on && job.spec.enabled && !job.running ==> starts(effects, job.spec)
                },
                None => specs[k].enabled ==> starts(effects, specs[k]),
            }
        }),
{
    let id = specs[k].job_id@;
    let start = (jobs, Seq::<WorkerEffect>::empty());
    let cleared = without_jobs(start, ids);
    let before = specs.take(k);
    assert forall|j: int| k < j < specs.len() implies (#[trigger] specs[j]).job_id@
        != specs[k].job_id@ by {
        assert(specs[k].job_id@ != specs[j].job_id@);
    }
    assert forall|j: int| 0 <= j < before.len() implies (#[trigger] before[j]).job_id@ != id by {
        assert(specs[j].job_id@ != specs[k].job_id@);
    }
    lemma_without_jobs(start, ids, id);
    lemma_with_jobs_other(cleared, before, id);
    lemma_with_jobs_last(cleared, specs, k);
    lemma_with_job(with_jobs(cleared, before), specs[k], id);
    lemma_in_line(with_jobs(cleared, specs), id);
    if let Some(job) = stored(jobs, id) {
        law_probes_are_compared_field_by_field(job.spec, specs[k]);
    }
}

/// A change of the same or a later generation than the last one is carried out and its generation
/// remembered; an earlier one changes nothing. A request for single runs leads to exactly these
/// runs and leaves the recurring probes alone.
pub proof fn law_only_late_changes_are_ignored(
    before: ProbeSchedulerState,
    request: RemoteJobApply,
    after: ProbeSchedulerState,
    work: JobWork,
)
    requires
        carried_out(before, request, after, work),
    ensures
        match request {
            RemoteJobApply::Once { runs } => work == JobWork::Runs(runs) && after == before,
            RemoteJobApply::Replace { generation, jobs } => if before.generation is Some
                && generation < before.generation->0 {
                after == before && work->Workers_0@.len() == 0
            } else {
                &&& after.generation == Some(generation)
                &&& after.jobs@.len() == jobs@.len()
                &&& forall|k: int|
                    0 <= k < jobs@.len() ==> (#[trigger] after.jobs@[k]).spec == jobs@[k]
            },
            RemoteJobApply::Patch { generation, upsert_jobs, remove_job_ids } => if before.generation
                is Some && generation < before.generation->0 {
                after == before && work->Workers_0@.len() == 0
            } else {
                &&& after.generation == Some(generation)
                &&& (after.jobs@, work->Workers_0@) == patched(
                    before.jobs@,
                    remove_job_ids@,
                    upsert_jobs@,
                )
            },
        },
{
}

/// The worker of a recurring probe runs it at once, and then once after every interval. It ends
/// when it is told to stop, and when nobody is left to tell it; a change of the signal that does
/// not stop it makes it look again.
pub proof fn law_workers_run_their_probe(
    worker: ProbeWorker,
    fresh: ProbeWorker,
    stopping: bool,
    gone: bool,
    slept: WorkerStep,
    interrupted: WorkerStep,
)
    requires
        call_ensures(ProbeWorker::new, (), fresh),
        call_ensures(ProbeWorker::slept, (&worker, stopping), slept),
        call_ensures(ProbeWorker::interrupted, (&worker, gone, stopping), interrupted),
    ensures
        fresh.looked(false).1 is Run,
        fresh.looked(false).0.looked(false).1 is Sleep,
        fresh.looked(false).0.looked(false).0.looked(false).1 is Sleep,
        worker.looked(true).1 is Stop,
        worker.looked(true).0 == worker,
        slept is Stop <==> stopping,
        slept is Run <==> !stopping,
        interrupted is Stop <==> stopping || gone,
        interrupted is Again <==> !stopping && !gone,
{
}

} // verus!
