//! Remote job requests: what they ask for, and what is wrong with those that are refused.

use crate::service::protocol::{
    copied_id, probe_id_text, RemoteJobApplyRequest, RemoteJobOperation, RemoteJobRunRequest,
    RemoteJobSpec, RemoteProbeResultSource,
};
use crate::service::remote::probe::{
    checks, job_error, request_error, RemoteProbeExecutionRequest, RemoteProbeJobSpec,
};
use crate::text::{join, trim, trimmed};
use vstd::prelude::*;

verus! {

/// Remote job request whose parts have been checked.
#[derive(Debug, PartialEq, Eq)]
pub enum RemoteJobApply {
    /// Runs probes once.
    Once {
        /// The probes.
        runs: Vec<RemoteProbeExecutionRequest>,
    },
    /// Replaces all recurring probes.
    Replace {
        /// Generation of the recurring probes.
        generation: u64,
        /// The probes.
        jobs: Vec<RemoteProbeJobSpec>,
    },
    /// Changes some recurring probes.
    Patch {
        /// Generation of the recurring probes.
        generation: u64,
        /// Probes to add or change.
        upsert_jobs: Vec<RemoteProbeJobSpec>,
        /// Probes to remove.
        remove_job_ids: Vec<String>,
    },
}

/// Probe that a job runs once.
pub open spec fn run_of(run: RemoteJobRunRequest) -> RemoteProbeExecutionRequest {
    match run {
        RemoteJobRunRequest::Probe { request_id, point_id, probe_type, target, timeout } => {
            RemoteProbeExecutionRequest {
                source: RemoteProbeResultSource::Once,
                point_id,
                request_id: Some(request_id),
                job_id: None,
                probe_type,
                target,
                timeout,
            }
        },
    }
}

/// Probe that a recurring job runs.
pub open spec fn recurring_of(job: RemoteJobSpec) -> RemoteProbeJobSpec {
    match job {
        RemoteJobSpec::Probe { job_id, point_id, enabled, probe_type, target, interval, timeout } => {
            RemoteProbeJobSpec { job_id, point_id, enabled, probe_type, target, interval, timeout }
        },
    }
}

/// Text that identifies a run among the others of its request.
pub open spec fn run_name(run: RemoteJobRunRequest) -> Seq<char> {
    match run {
        RemoteJobRunRequest::Probe { request_id, .. } => probe_id_text(request_id),
    }
}

/// Text that identifies a recurring job.
pub open spec fn job_name(job: RemoteJobSpec) -> Seq<char> {
    recurring_of(job).job_id@
}

/// What is wrong with the run at `i`, where something is: by itself, or because an earlier run
/// has its name.
pub open spec fn run_error_at(runs: Seq<RemoteJobRunRequest>, i: int) -> Option<Seq<char>> {
    match request_error(run_of(runs[i])) {
        Some(error) => Some(error),
        None => if exists|j: int| 0 <= j < i && run_name(#[trigger] runs[j]) == run_name(runs[i]) {
            Some("duplicate job run request_id: "@ + run_name(runs[i]))
        } else {
            None
        },
    }
}

/// What is wrong with the first wrong run from `from` on, where one is.
pub open spec fn runs_error(runs: Seq<RemoteJobRunRequest>, from: int) -> Option<Seq<char>>
    decreases runs.len() - from,
{
    if from >= runs.len() || from < 0 {
        None
    } else {
        match run_error_at(runs, from) {
            Some(error) => Some(error),
            None => runs_error(runs, from + 1),
        }
    }
}

/// What is wrong with the recurring job at `i`, where something is: by itself, or because an
/// earlier job has its name.
pub open spec fn job_error_at(jobs: Seq<RemoteJobSpec>, i: int) -> Option<Seq<char>> {
    match job_error(recurring_of(jobs[i])) {
        Some(error) => Some(error),
        None => if exists|j: int| 0 <= j < i && job_name(#[trigger] jobs[j]) == job_name(jobs[i]) {
            Some("duplicate job_id: "@ + job_name(jobs[i]))
        } else {
            None
        },
    }
}

/// What is wrong with the first wrong recurring job from `from` on, where one is.
pub open spec fn jobs_error(jobs: Seq<RemoteJobSpec>, from: int) -> Option<Seq<char>>
    decreases jobs.len() - from,
{
    if from >= jobs.len() || from < 0 {
        None
    } else {
        match job_error_at(jobs, from) {
            Some(error) => Some(error),
            None => jobs_error(jobs, from + 1),
        }
    }
}

/// Texts of strings.
pub open spec fn texts(strings: Seq<String>) -> Seq<Seq<char>> {
    strings.map_values(|text: String| text@)
}

/// Texts without surrounding white space, each kept where it occurs first.
pub open spec fn distinct_trimmed(strings: Seq<Seq<char>>) -> Seq<Seq<char>>
    decreases strings.len(),
{
    if strings.len() == 0 {
        Seq::empty()
    } else {
        let front = distinct_trimmed(strings.drop_last());
        let last = trimmed(strings.last());
        if front.contains(last) {
            front
        } else {
            front.push(last)
        }
    }
}

/// What is wrong with identities, where something is.
pub open spec fn ids_error(ids: Seq<Seq<char>>) -> Option<Seq<char>> {
    if exists|i: int| 0 <= i < ids.len() && trimmed(#[trigger] ids[i]).len() == 0 {
        Some("job_id cannot be empty"@)
    } else {
        None
    }
}

/// First error of two.
pub open spec fn either(first: Option<Seq<char>>, second: Option<Seq<char>>) -> Option<Seq<char>> {
    if first is Some {
        first
    } else {
        second
    }
}

/// What is wrong with a request, where something is.
pub open spec fn apply_error(request: RemoteJobApplyRequest) -> Option<Seq<char>> {
    match request.operation {
        RemoteJobOperation::Once => if request.runs@.len() == 0 {
            Some("job_apply.once requires at least one run"@)
        } else if request.jobs@.len() > 0 || request.upsert_jobs@.len() > 0
            || request.remove_job_ids@.len() > 0 {
            Some("job_apply.once only accepts runs"@)
        } else {
            runs_error(request.runs@, 0)
        },
        RemoteJobOperation::Replace => if request.generation is None {
            Some("job_apply.replace requires generation"@)
        } else if request.runs@.len() > 0 || request.upsert_jobs@.len() > 0
            || request.remove_job_ids@.len() > 0 {
            Some("job_apply.replace only accepts jobs"@)
        } else {
            jobs_error(request.jobs@, 0)
        },
        RemoteJobOperation::Patch => if request.generation is None {
            Some("job_apply.patch requires generation"@)
        } else if request.runs@.len() > 0 || request.jobs@.len() > 0 {
            Some("job_apply.patch only accepts upsert_jobs/remove_job_ids"@)
        } else {
            either(
                jobs_error(request.upsert_jobs@, 0),
                ids_error(texts(request.remove_job_ids@)),
            )
        },
    }
}

/// Whether a checked request asks for what the request asked for.
pub open spec fn asks_for(apply: RemoteJobApply, request: RemoteJobApplyRequest) -> bool {
    match request.operation {
        RemoteJobOperation::Once => apply matches RemoteJobApply::Once { runs } && runs@
            == request.runs@.map_values(|run: RemoteJobRunRequest| run_of(run)),
        RemoteJobOperation::Replace => apply matches RemoteJobApply::Replace { generation, jobs }
            && Some(generation) == request.generation && jobs@ == request.jobs@.map_values(
            |job: RemoteJobSpec| recurring_of(job),
        ),
        RemoteJobOperation::Patch => apply matches RemoteJobApply::Patch {
            generation,
            upsert_jobs,
            remove_job_ids,
        } && Some(generation) == request.generation && upsert_jobs@
            == request.upsert_jobs@.map_values(|job: RemoteJobSpec| recurring_of(job)) && texts(
            remove_job_ids@,
        ) == distinct_trimmed(texts(request.remove_job_ids@)),
    }
}

/// Checks a job that runs once.
fn probe_run_request(run: &RemoteJobRunRequest) -> (checked: Result<
    RemoteProbeExecutionRequest,
    String,
>)
    ensures
        checks(checked, request_error(run_of(*run))),
        checked matches Ok(request) ==> request == run_of(*run),
{
    match run {
        RemoteJobRunRequest::Probe { request_id, point_id, probe_type, target, timeout } => {
            RemoteProbeExecutionRequest {
                source: RemoteProbeResultSource::Once,
                point_id: copied_id(point_id),
                request_id: Some(request_id.clone()),
                job_id: None,
                probe_type: *probe_type,
                target: target.clone(),
                timeout: *timeout,
            }.validated()
        },
    }
}

/// Checks a recurring job.
fn probe_job_spec(job: &RemoteJobSpec) -> (checked: Result<RemoteProbeJobSpec, String>)
    ensures
        checks(checked, job_error(recurring_of(*job))),
        checked matches Ok(spec) ==> spec == recurring_of(*job),
{
    match job {
        RemoteJobSpec::Probe { job_id, point_id, enabled, probe_type, target, interval, timeout } => {
            RemoteProbeJobSpec {
                job_id: job_id.clone(),
                point_id: copied_id(point_id),
                enabled: *enabled,
                probe_type: *probe_type,
                target: target.clone(),
                interval: *interval,
                timeout: *timeout,
            }.validated()
        },
    }
}

/// Whether a text is among strings.
fn contains_text(strings: &Vec<String>, text: &String) -> (found: bool)
    ensures
        found == texts(strings@).contains(text@),
{
    let mut i: usize = 0;
    while i < strings.len()
        invariant
            i <= strings@.len(),
            forall|j: int| 0 <= j < i ==> texts(strings@)[j] != text@,
        decreases strings@.len() - i,
    {
        if strings[i] == *text {
            assert(texts(strings@)[i as int] == text@);
            return true;
        }
        i += 1;
    }
    false
}

/// Checks jobs that run once.
fn parse_runs(runs: &Vec<RemoteJobRunRequest>) -> (checked: Result<
    Vec<RemoteProbeExecutionRequest>,
    String,
>)
    ensures
        checks(checked, runs_error(runs@, 0)),
        checked matches Ok(parsed) ==> parsed@ == runs@.map_values(
            |run: RemoteJobRunRequest| run_of(run),
        ),
{
    let mut names: Vec<String> = Vec::new();
    let mut parsed: Vec<RemoteProbeExecutionRequest> = Vec::new();
    let mut i: usize = 0;
    while i < runs.len()
        invariant
            i <= runs@.len(),
            names@.len() == i,
            parsed@.len() == i,
            forall|j: int| 0 <= j < i ==> texts(names@)[j] == run_name(#[trigger] runs@[j]),
            forall|j: int| 0 <= j < i ==> parsed@[j] == run_of(#[trigger] runs@[j]),
            runs_error(runs@, 0) == runs_error(runs@, i as int),
        decreases runs@.len() - i,
    {
        let run = match probe_run_request(&runs[i]) {
            Ok(run) => run,
            Err(text) => return Err(text),
        };
        let name = match &run.request_id {
            Some(id) => id.display(),
            None => String::new(),
        };
        let ghost known = names@;
        if contains_text(&names, &name) {
            proof {
                let j = choose|j: int| 0 <= j < texts(known).len() && texts(known)[j] == name@;
                assert(run_name(runs@[j]) == run_name(runs@[i as int]));
            }
            return Err(join("duplicate job run request_id: ", name.as_str()));
        }
        proof {
            assert forall|j: int| 0 <= j < i implies run_name(#[trigger] runs@[j]) != run_name(
                runs@[i as int],
            ) by {
                assert(texts(known)[j] != name@);
            }
        }
        names.push(name);
        parsed.push(run);
        assert(texts(names@) =~= texts(known).push(name@));
        i += 1;
    }
    assert(parsed@ =~= runs@.map_values(|run: RemoteJobRunRequest| run_of(run)));
    Ok(parsed)
}

/// Checks recurring jobs.
pub fn probe_job_specs(jobs: &Vec<RemoteJobSpec>) -> (checked: Result<
    Vec<RemoteProbeJobSpec>,
    String,
>)
    ensures
        checks(checked, jobs_error(jobs@, 0)),
        checked matches Ok(parsed) ==> parsed@ == jobs@.map_values(
            |job: RemoteJobSpec| recurring_of(job),
        ),
{
    let mut names: Vec<String> = Vec::new();
    let mut parsed: Vec<RemoteProbeJobSpec> = Vec::new();
    let mut i: usize = 0;
    while i < jobs.len()
        invariant
            i <= jobs@.len(),
            names@.len() == i,
            parsed@.len() == i,
            forall|j: int| 0 <= j < i ==> texts(names@)[j] == job_name(#[trigger] jobs@[j]),
            forall|j: int| 0 <= j < i ==> parsed@[j] == recurring_of(#[trigger] jobs@[j]),
            jobs_error(jobs@, 0) == jobs_error(jobs@, i as int),
        decreases jobs@.len() - i,
    {
        let spec = match probe_job_spec(&jobs[i]) {
            Ok(spec) => spec,
            Err(text) => return Err(text),
        };
        let name = spec.job_id.clone();
        let ghost known = names@;
        if contains_text(&names, &name) {
            proof {
                let j = choose|j: int| 0 <= j < texts(known).len() && texts(known)[j] == name@;
                assert(job_name(jobs@[j]) == job_name(jobs@[i as int]));
            }
            return Err(join("duplicate job_id: ", name.as_str()));
        }
        proof {
            assert forall|j: int| 0 <= j < i implies job_name(#[trigger] jobs@[j]) != job_name(
                jobs@[i as int],
            ) by {
                assert(texts(known)[j] != name@);
            }
        }
        names.push(name);
        parsed.push(spec);
        assert(texts(names@) =~= texts(known).push(name@));
        i += 1;
    }
    assert(parsed@ =~= jobs@.map_values(|job: RemoteJobSpec| recurring_of(job)));
    Ok(parsed)
}

/// Identities without surrounding white space, each once.
pub fn normalize_job_ids(job_ids: &Vec<String>) -> (checked: Result<Vec<String>, String>)
    ensures
        checks(checked, ids_error(texts(job_ids@))),
        checked matches Ok(ids) ==> texts(ids@) == distinct_trimmed(texts(job_ids@)),
{
    let ghost all = texts(job_ids@);
    let mut normalized: Vec<String> = Vec::new();
    let mut i: usize = 0;
    assert(all.take(0) =~= Seq::empty());
    assert(texts(normalized@) =~= Seq::empty());
    while i < job_ids.len()
        invariant
            all == texts(job_ids@),
            i <= job_ids@.len(),
            forall|j: int| 0 <= j < i ==> trimmed(#[trigger] all[j]).len() > 0,
            texts(normalized@) == distinct_trimmed(all.take(i as int)),
        decreases job_ids@.len() - i,
    {
        let id = trim(job_ids[i].as_str());
        assert(all[i as int] == job_ids@[i as int]@);
        if id.as_str().is_empty() {
            assert(trimmed(all[i as int]).len() == 0);
            return Err("job_id cannot be empty".to_owned());
        }
        proof {
            assert(all.take(i + 1).drop_last() =~= all.take(i as int));
            assert(all.take(i + 1).last() == all[i as int]);
        }
        let ghost known = normalized@;
        if !contains_text(&normalized, &id) {
            normalized.push(id);
            assert(texts(normalized@) =~= texts(known).push(id@));
        }
        i += 1;
    }
    assert(all.take(i as int) =~= all);
    Ok(normalized)
}

/// Checks a request to run jobs once.
fn parse_once_jobs(request: &RemoteJobApplyRequest) -> (checked: Result<RemoteJobApply, String>)
    requires
        request.operation == RemoteJobOperation::Once,
    ensures
        checks(checked, apply_error(*request)),
        checked matches Ok(apply) ==> asks_for(apply, *request),
{
    if request.runs.len() == 0 {
        return Err("job_apply.once requires at least one run".to_owned());
    }
    if request.jobs.len() > 0 || request.upsert_jobs.len() > 0 || request.remove_job_ids.len() > 0 {
        return Err("job_apply.once only accepts runs".to_owned());
    }
    match parse_runs(&request.runs) {
        Ok(runs) => Ok(RemoteJobApply::Once { runs }),
        Err(text) => Err(text),
    }
}

/// Checks a request to replace all recurring jobs.
fn parse_replace_jobs(request: &RemoteJobApplyRequest) -> (checked: Result<RemoteJobApply, String>)
    requires
        request.operation == RemoteJobOperation::Replace,
    ensures
        checks(checked, apply_error(*request)),
        checked matches Ok(apply) ==> asks_for(apply, *request),
{
    let generation: u64 = match request.generation {
        Some(generation) => generation,
        None => return Err("job_apply.replace requires generation".to_owned()),
    };
    if request.runs.len() > 0 || request.upsert_jobs.len() > 0 || request.remove_job_ids.len() > 0 {
        return Err("job_apply.replace only accepts jobs".to_owned());
    }
    match probe_job_specs(&request.jobs) {
        Ok(jobs) => Ok(RemoteJobApply::Replace { generation, jobs }),
        Err(text) => Err(text),
    }
}

/// Checks a request to change some recurring jobs.
fn parse_patch_jobs(request: &RemoteJobApplyRequest) -> (checked: Result<RemoteJobApply, String>)
    requires
        request.operation == RemoteJobOperation::Patch,
    ensures
        checks(checked, apply_error(*request)),
        checked matches Ok(apply) ==> asks_for(apply, *request),
{
    let generation: u64 = match request.generation {
        Some(generation) => generation,
        None => return Err("job_apply.patch requires generation".to_owned()),
    };
    if request.runs.len() > 0 || request.jobs.len() > 0 {
        return Err("job_apply.patch only accepts upsert_jobs/remove_job_ids".to_owned());
    }
    let upsert_jobs = match probe_job_specs(&request.upsert_jobs) {
        Ok(jobs) => jobs,
        Err(text) => return Err(text),
    };
    match normalize_job_ids(&request.remove_job_ids) {
        Ok(remove_job_ids) => Ok(
            RemoteJobApply::Patch { generation, upsert_jobs, remove_job_ids },
        ),
        Err(text) => Err(text),
    }
}

impl RemoteJobApply {
    /// Checks a request.
    pub fn try_from(request: RemoteJobApplyRequest) -> (checked: Result<RemoteJobApply, String>)
        ensures
            checks(checked, apply_error(request)),
            checked matches Ok(apply) ==> asks_for(apply, request),
    {
        match request.operation {
            RemoteJobOperation::Once => parse_once_jobs(&request),
            RemoteJobOperation::Replace => parse_replace_jobs(&request),
            RemoteJobOperation::Patch => parse_patch_jobs(&request),
        }
    }
}

/// Identities come out without surrounding white space, without repetition, and each of them was
/// asked for.
pub proof fn law_removed_ids_are_distinct(ids: Seq<Seq<char>>)
    ensures
        distinct_trimmed(ids).no_duplicates(),
        forall|i: int|
            0 <= i < ids.len() ==> distinct_trimmed(ids).contains(trimmed(#[trigger] ids[i])),
        forall|k: int|
            0 <= k < distinct_trimmed(ids).len() ==> exists|i: int|
                0 <= i < ids.len() && trimmed(#[trigger] ids[i]) == #[trigger] distinct_trimmed(
                    ids,
                )[k],
    decreases ids.len(),
{
    if ids.len() > 0 {
        let front = ids.drop_last();
        law_removed_ids_are_distinct(front);
        let known = distinct_trimmed(front);
        let last = trimmed(ids.last());
        let all = distinct_trimmed(ids);
        assert forall|i: int| 0 <= i < ids.len() implies all.contains(trimmed(#[trigger] ids[i])) by {
            if i < front.len() {
                assert(front[i] == ids[i]);
                let k = choose|k: int| 0 <= k < known.len() && known[k] == trimmed(front[i]);
                assert(all[k] == trimmed(ids[i]));
            } else if !known.contains(last) {
                assert(all[all.len() - 1] == last);
            }
        }
        assert forall|k: int| 0 <= k < all.len() implies exists|i: int|
            0 <= i < ids.len() && trimmed(#[trigger] ids[i]) == #[trigger] all[k] by {
            if k < known.len() {
                assert(all[k] == known[k]);
                let i = choose|i: int|
                    0 <= i < front.len() && trimmed(#[trigger] front[i]) == known[k];
                assert(ids[i] == front[i]);
            } else {
                assert(ids[ids.len() - 1] == ids.last());
            }
        }
    }
}

proof fn lemma_jobs_in_order_are_distinct(jobs: Seq<RemoteJobSpec>, from: int)
    requires
        0 <= from <= jobs.len(),
        jobs_error(jobs, from) is None,
    ensures
        forall|i: int, j: int|
            #![trigger jobs[i], jobs[j]]
            0 <= i < j < jobs.len() && from <= j ==> job_name(jobs[i]) != job_name(jobs[j]),
        forall|j: int| from <= j < jobs.len() ==> job_error(#[trigger] recurring_of(jobs[j])) is None,
    decreases jobs.len() - from,
{
    if from < jobs.len() {
        lemma_jobs_in_order_are_distinct(jobs, from + 1);
        assert forall|i: int, j: int|
            #![trigger jobs[i], jobs[j]]
            0 <= i < j < jobs.len() && from <= j implies job_name(jobs[i]) != job_name(jobs[j]) by {
            if j == from {
                assert(job_error_at(jobs, from) is None);
            }
        }
    }
}

/// Recurring jobs that pass the check are all in order and no two of them share a name.
pub proof fn law_accepted_jobs_are_distinct(jobs: Seq<RemoteJobSpec>)
    requires
        jobs_error(jobs, 0) is None,
    ensures
        forall|i: int, j: int|
            #![trigger jobs[i], jobs[j]]
            0 <= i < j < jobs.len() ==> job_name(jobs[i]) != job_name(jobs[j]),
        forall|j: int| 0 <= j < jobs.len() ==> job_error(#[trigger] recurring_of(jobs[j])) is None,
{
    lemma_jobs_in_order_are_distinct(jobs, 0);
}

} // verus!
