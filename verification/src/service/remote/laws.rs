//! Laws of remote tasks, single probes and requests for jobs.

use crate::scheduler::time::Span;
use crate::service::clock::Moment;
use crate::service::config::{RemoteProbeConfig, RemoteTaskConfig};
use crate::service::outbound::{OutboundEvent, OutboundSendError};
use crate::service::protocol::{
    probe_id_text, RemoteJobApplyRequest, RemoteJobOperation, RemoteJobResult, RemoteJobRunRequest,
    RemoteJobSpec, RemoteProbeId, RemoteProbeResult, RemoteProbeResultSource,
    RemoteProbeResultStatus, RemoteProbeType, RemoteTaskResult, RemoteTaskStatus,
};
use crate::service::remote::job::{
    apply_error, asks_for, distinct_trimmed, job_error_at, job_name, jobs_error,
    law_removed_ids_are_distinct, recurring_of, run_error_at, run_name, run_of, runs_error, texts,
    RemoteJobApply,
};
use crate::service::remote::probe::{
    after_request, connection_address, effective_timeout, executed_parts, job_error,
    lemma_oldest_place_range, lemma_target_place_range, parsed_url, probe_plan, probe_started,
    pruned, recent, recurring_run, refusal, refused_result_sent, rejected_parts, request_address,
    request_error, result_event, result_of, run_of_job, shown_id, target_key_of, target_place,
    web_target, with_target, ProbePlan, ProbeStart, RateView, RemoteProbeExecutionRequest,
    RemoteProbeJobSpec, TargetStartView,
};
use crate::service::remote::task::{
    exceeds, start_of, task_outcome, task_result_event, task_started, OutputText, RemoteTaskManager,
    RemoteTaskRunRequest, TaskExit, TaskStart,
};
use crate::text::{ascii_small, blank, decimal, names_endpoint, names_scheme, trimmed};
use vstd::prelude::*;

verus! {

/// A time limit never exceeds the configured one, nor the requested one where there is one, and is
/// always one of the two.
pub proof fn law_time_limits(requested: Option<Span>, configured: Span)
    ensures
        ({
            let limit = effective_timeout(requested, configured).nanos;
            &&& limit <= configured.nanos
            &&& requested matches Some(wanted) ==> limit <= wanted.nanos
            &&& requested is None ==> limit == configured.nanos
            &&& limit == configured.nanos || (requested is Some && limit == requested->0.nanos)
        }),
{
}

/// A task with an identity and a program runs exactly where tasks are switched on and a place is
/// free; it takes the place and gets the configured limits. Else it is refused with the reason, and
/// takes none. A request without identity or program is an error.
pub proof fn law_tasks_run_where_they_may(
    before: RemoteTaskManager,
    request: RemoteTaskRunRequest,
    config: RemoteTaskConfig,
    at: u64,
    after: RemoteTaskManager,
    start: Result<TaskStart, String>,
)
    requires
        task_started(before, request, config, at, after, start),
    ensures
        start is Err <==> blank(request.task_id@) || blank(request.program@),
        start is Err ==> after == before,
        start is Ok && before.options.enabled && before.running < config.max_concurrent ==> {
            &&& start->Ok_0 matches TaskStart::Run {
                request: accepted,
                timeout,
                max_stdout_bytes,
                max_stderr_bytes,
            } && accepted == request && timeout == effective_timeout(
                request.timeout,
                config.timeout,
            ) && max_stdout_bytes == config.max_stdout_bytes && max_stderr_bytes
                == config.max_stderr_bytes
            &&& after.running == before.running + 1
            &&& after.options == before.options
        },
        start is Ok && !(before.options.enabled && before.running < config.max_concurrent) ==> {
            &&& start->Ok_0 matches TaskStart::Refuse(result) && result.status
                == RemoteTaskStatus::Rejected && result.task_id == request.task_id
                && result.exit_code is None && !result.timed_out && result.error is Some
                && result.error->0@ == (if before.options.enabled {
                "remote task concurrency limit reached"@
            } else {
                "remote task is disabled"@
            })
            &&& after == before
        },
{
}

/// A task succeeds exactly where its program ended by itself and reported success. It counts as
/// out of time exactly where it was stopped for that; everything else is a failure. Its exit code
/// is that of the program, where it ended by itself.
pub proof fn law_task_results(
    task_id: String,
    exit: TaskExit,
    stdout: OutputText,
    stderr: OutputText,
    started_at: u64,
    finished_at: u64,
    duration: Span,
)
    ensures
        ({
            let result = task_outcome(
                task_id,
                exit,
                stdout,
                stderr,
                started_at,
                finished_at,
                duration,
            );
            &&& result.status == RemoteTaskStatus::Success <==> exit is Exited
                && exit->Exited_success
            &&& result.status == RemoteTaskStatus::TimedOut <==> exit is TimedOut
            &&& result.status == RemoteTaskStatus::Failed <==> exit is NotStarted || exit
                is WaitFailed || (exit is Exited && !exit->Exited_success)
            &&& result.timed_out <==> exit is TimedOut
            &&& exit is Exited ==> result.exit_code == exit->Exited_code && result.error is None
            &&& !(exit is Exited) ==> result.exit_code is None
            &&& exit matches TaskExit::NotStarted(error) ==> result.error == Some(error)
            &&& exit matches TaskExit::WaitFailed(error) ==> result.error == Some(error)
            &&& exit matches TaskExit::TimedOut { kill_error } ==> result.error == kill_error
            &&& result.task_id == task_id
            &&& result.stdout == stdout.text && result.stdout_truncated == stdout.truncated
            &&& result.stderr == stderr.text && result.stderr_truncated == stderr.truncated
            &&& result.started_at == started_at && result.finished_at == finished_at
            &&& duration.nanos / 1_000_000 <= u64::MAX ==> result.duration_ms == duration.nanos
                / 1_000_000
        }),
{
}

/// What is kept of an output is its beginning: all of it where the limit allows, else as much as the
/// limit.
pub proof fn law_beginning_is_kept(bytes: Seq<u8>, limit: int)
    requires
        limit >= 0,
    ensures
        bytes.len() <= limit ==> start_of(bytes, limit) == bytes,
        bytes.len() > limit ==> start_of(bytes, limit).len() == limit,
        forall|i: int|
            0 <= i < start_of(bytes, limit).len() ==> #[trigger] start_of(bytes, limit)[i]
                == bytes[i],
        exceeds(bytes, limit) <==> start_of(bytes, limit).len() < bytes.len(),
{
    assert(bytes.len() <= limit ==> start_of(bytes, limit) =~= bytes);
}

/// Whether an identity was given without content.
pub open spec fn given_blank(id: Option<RemoteProbeId>) -> bool {
    id is Some && id->0 is Text && blank(id->0->Text_0@)
}

/// A probe is in order exactly where it has a target, no identity without content, and the
/// identities that go with its source: a single run has a request and no job, a run of a job has a
/// job and no request.
pub proof fn law_probe_requests_are_checked(request: RemoteProbeExecutionRequest)
    ensures
        request_error(request) is None <==> {
            &&& !given_blank(request.point_id)
            &&& !blank(request.target@)
            &&& request.source == RemoteProbeResultSource::Once ==> request.job_id is None
                && request.request_id is Some && !given_blank(request.request_id)
            &&& request.source == RemoteProbeResultSource::Job ==> request.request_id is None
                && request.job_id is Some && !blank(request.job_id->0@)
        },
{
    assert(trimmed(Seq::<char>::empty()).len() == 0);
}

/// A recurring probe is in order exactly where it has an identity, a target and an interval, and no
/// point without content.
pub proof fn law_recurring_probes_are_checked(spec: RemoteProbeJobSpec)
    ensures
        job_error(spec) is None <==> !blank(spec.job_id@) && !given_blank(spec.point_id) && !blank(
            spec.target@,
        ) && spec.interval.nanos > 0,
{
}

/// A run of a recurring probe is the probe itself: its protocol, target, point and time limit, under
/// the name of the job.
pub proof fn law_runs_of_recurring_probes(spec: RemoteProbeJobSpec)
    ensures
        ({
            let run = run_of_job(spec);
            &&& run.source == RemoteProbeResultSource::Job
            &&& run.job_id == Some(spec.job_id)
            &&& run.request_id is None
            &&& run.point_id == spec.point_id
            &&& run.probe_type == spec.probe_type
            &&& run.target == spec.target
            &&& run.timeout == spec.timeout
            &&& job_error(spec) is None ==> request_error(run) is None
        }),
{
}

/// Probes of one protocol whose targets differ only in white space around them share their limits;
/// such probes share them only where the targets agree but for small and capital letters.
pub proof fn law_targets_are_told_apart(
    a: RemoteProbeExecutionRequest,
    b: RemoteProbeExecutionRequest,
)
    requires
        a.probe_type == b.probe_type,
    ensures
        trimmed(a.target@) == trimmed(b.target@) ==> target_key_of(a) == target_key_of(b),
        target_key_of(a) == target_key_of(b) <==> trimmed(a.target@).map_values(
            |c: char| ascii_small(c),
        ) == trimmed(b.target@).map_values(|c: char| ascii_small(c)),
{
    let small = |text: Seq<char>| text.map_values(|c: char| ascii_small(c));
    let head = crate::service::protocol::probe_type_name(a.probe_type) + ":"@;
    let x = small(trimmed(a.target@));
    let y = small(trimmed(b.target@));
    assert(target_key_of(a) == head + x);
    assert(target_key_of(b) == head + y);
    if head + x == head + y {
        assert(x =~= (head + x).skip(head.len() as int));
        assert(y =~= (head + y).skip(head.len() as int));
    }
}

proof fn lemma_recent_only(targets: Seq<TargetStartView>, now: Moment, min_interval: Span)
    ensures
        forall|i: int|
            0 <= i < pruned(targets, now, min_interval).len() ==> targets.contains(
                #[trigger] pruned(targets, now, min_interval)[i],
            ) && recent(now, min_interval)(pruned(targets, now, min_interval)[i]),
    decreases targets.len(),
{
    reveal(Seq::filter);
    if targets.len() > 0 {
        let front = targets.drop_last();
        lemma_recent_only(front, now, min_interval);
        let kept = pruned(front, now, min_interval);
        let all = pruned(targets, now, min_interval);
        assert forall|i: int| 0 <= i < all.len() implies targets.contains(#[trigger] all[i])
            && recent(now, min_interval)(all[i]) by {
            if i < kept.len() {
                assert(all[i] == kept[i]);
                assert(front.contains(kept[i]));
                let j = choose|j: int| 0 <= j < front.len() && front[j] == kept[i];
                assert(targets[j] == all[i]);
            } else {
                assert(targets[targets.len() - 1] == all[i]);
            }
        }
    }
}

/// A probe runs as soon as it may: probes are switched on, the distance to the last probe of any
/// target has passed, and so has that to the last probe of its own. Its start is then remembered.
pub proof fn law_probe_runs_as_soon_as_it_may(
    state: RateView,
    request: RemoteProbeExecutionRequest,
    config: RemoteProbeConfig,
    now: Moment,
)
    requires
        config.enabled,
        state.last_global matches Some(last) ==> last.nanos + config.global_min_interval.nanos
            <= now.nanos,
        forall|i: int|
            0 <= i < state.targets.len() && (#[trigger] state.targets[i]).0 == target_key_of(
                request,
            ) ==> state.targets[i].1.nanos + config.target_min_interval.nanos <= now.nanos,
    ensures
        refusal(state, request, config, now) is None,
        after_request(state, request, config, now).last_global == Some(now),
        exists|i: int|
            0 <= i < after_request(state, request, config, now).targets.len()
                && #[trigger] after_request(state, request, config, now).targets[i] == (
            target_key_of(request),
            now,
        ),
{
    let key = target_key_of(request);
    let targets = pruned(state.targets, now, config.target_min_interval);
    lemma_target_place_range(targets, key);
    lemma_recent_only(state.targets, now, config.target_min_interval);
    let place = target_place(targets, key);
    if place < targets.len() {
        assert(targets[place].0 == key);
        assert(state.targets.contains(targets[place]));
        let j = choose|j: int| 0 <= j < state.targets.len() && state.targets[j] == targets[place];
        assert(state.targets[j].0 == key);
        assert(recent(now, config.target_min_interval)(targets[place]));
    }
    let next = with_target(targets, key, now);
    assert(after_request(state, request, config, now).targets == next);
    if place < targets.len() {
        assert(next[place] == (key, now));
    } else {
        if targets.len() > 0 {
            lemma_oldest_place_range(targets);
        }
        assert(next[next.len() - 1] == (key, now));
    }
}

/// A probe that is switched off is refused, and leaves no trace.
pub proof fn law_switched_off_probes_are_refused(
    state: RateView,
    request: RemoteProbeExecutionRequest,
    config: RemoteProbeConfig,
    now: Moment,
)
    requires
        !config.enabled,
    ensures
        refusal(state, request, config, now) == Some("remote probe is disabled"@),
        after_request(state, request, config, now) == state,
{
}

/// A refused probe is not remembered as started: neither its own target's time nor the common one
/// moves.
pub proof fn law_refused_probes_do_not_count(
    state: RateView,
    request: RemoteProbeExecutionRequest,
    config: RemoteProbeConfig,
    now: Moment,
)
    requires
        refusal(state, request, config, now) is Some,
    ensures
        after_request(state, request, config, now).last_global == state.last_global,
        forall|i: int|
            0 <= i < after_request(state, request, config, now).targets.len()
                ==> state.targets.contains(
                #[trigger] after_request(state, request, config, now).targets[i],
            ),
{
    lemma_recent_only(state.targets, now, config.target_min_interval);
}

/// A request for a single probe is an error exactly where something is wrong with it, runs where
/// nothing speaks against it, with the time limit that applies, and is refused else.
pub proof fn law_single_probes(
    before: RateView,
    request: RemoteProbeExecutionRequest,
    config: RemoteProbeConfig,
    now: Moment,
    after: RateView,
    start: Result<ProbeStart, String>,
)
    requires
        probe_started(before, request, config, now, after, start),
    ensures
        start is Err <==> request_error(request) is Some,
        start is Err ==> after == before,
        start is Ok ==> (start->Ok_0 is Run <==> refusal(before, request, config, now) is None),
        start matches Ok(ProbeStart::Run { timeout }) ==> timeout.nanos <= config.timeout.nanos
            && timeout == effective_timeout(request.timeout, config.timeout) && after.last_global
            == Some(now),
        start is Ok && start->Ok_0 is Refuse ==> after.last_global == before.last_global,
{
}

/// The result of a probe carries the identities, the protocol and the target of its request. A
/// success has the time that it took as its latency and no error; a failure and a refusal have an
/// error and no latency.
pub proof fn law_probe_results(
    request: RemoteProbeExecutionRequest,
    run_id: String,
    started_at: u64,
    finished_at: u64,
    duration: Span,
    outcome: Result<(), String>,
    reason: String,
)
    ensures
        ({
            let ran = result_of(
                request,
                executed_parts(run_id, started_at, finished_at, duration, outcome),
            );
            let refused = result_of(request, rejected_parts(run_id, started_at, reason));
            &&& ran.source == request.source && refused.source == request.source
            &&& ran.point_id == request.point_id && refused.point_id == request.point_id
            &&& ran.request_id == request.request_id && refused.request_id == request.request_id
            &&& ran.job_id == request.job_id && refused.job_id == request.job_id
            &&& ran.probe_type == request.probe_type && refused.probe_type == request.probe_type
            &&& ran.target == request.target && refused.target == request.target
            &&& ran.run_id == run_id && refused.run_id == run_id
            &&& ran.started_at == started_at && ran.finished_at == finished_at
            &&& duration.nanos / 1_000_000 <= u64::MAX ==> ran.duration_ms == duration.nanos
                / 1_000_000
            &&& outcome is Ok ==> ran.status == RemoteProbeResultStatus::Success && ran.latency_ms
                == Some(ran.duration_ms) && ran.error is None
            &&& outcome matches Err(error) ==> ran.status == RemoteProbeResultStatus::Failed
                && ran.latency_ms is None && ran.error == Some(error)
            &&& refused.status == RemoteProbeResultStatus::Rejected
            &&& refused.latency_ms is None
            &&& refused.error == Some(reason)
            &&& refused.duration_ms == 0
        }),
{
}

/// A connection goes to `host:port` as it stands, or to the host and port of a `tcp://` address. An
/// address with another scheme, without a host or without a port is an error.
pub proof fn law_connection_targets(
    target: Seq<char>,
    scheme: Seq<char>,
    host: Option<Seq<char>>,
    port: Option<u16>,
    text: Seq<char>,
)
    ensures
        ({
            let read = connection_address(target, Ok((scheme, host, port, text)));
            &&& names_endpoint(target) ==> read == Ok::<Seq<char>, Seq<char>>(target)
            &&& !names_endpoint(target) ==> (read is Ok <==> scheme == "tcp"@ && host is Some
                && port is Some)
            &&& !names_endpoint(target) && read is Ok ==> read->Ok_0 == host->0 + ":"@ + decimal(
                port->0 as nat,
            )
        }),
{
}

/// A web address is asked for exactly where it has the scheme `http` or `https`; what cannot be
/// read as an address is an error. A target without a scheme is read with `http://` before it.
pub proof fn law_web_targets(
    target: Seq<char>,
    scheme: Seq<char>,
    host: Option<Seq<char>>,
    port: Option<u16>,
    text: Seq<char>,
    error: Seq<char>,
)
    ensures
        request_address(Ok((scheme, host, port, text))) is Ok <==> scheme == "http"@ || scheme
            == "https"@,
        request_address(Ok((scheme, host, port, text))) matches Ok(address) ==> address == text,
        request_address(Err(error)) == Err::<Seq<char>, Seq<char>>(error),
        names_scheme(trimmed(target)) ==> web_target(target) == trimmed(target),
        !names_scheme(trimmed(target)) ==> web_target(target) == "http://"@ + trimmed(target),
{
}

proof fn lemma_runs_in_order(runs: Seq<RemoteJobRunRequest>, from: int)
    requires
        0 <= from <= runs.len(),
    ensures
        runs_error(runs, from) is None <==> forall|i: int|
            from <= i < runs.len() ==> #[trigger] run_error_at(runs, i) is None,
    decreases runs.len() - from,
{
    if from < runs.len() {
        lemma_runs_in_order(runs, from + 1);
        if runs_error(runs, from) is None {
            assert forall|i: int| from <= i < runs.len() implies #[trigger] run_error_at(runs, i)
                is None by {}
        } else if forall|i: int| from <= i < runs.len() ==> #[trigger] run_error_at(runs, i) is None {
            assert(run_error_at(runs, from) is None);
        }
    }
}

proof fn lemma_jobs_in_order(jobs: Seq<RemoteJobSpec>, from: int)
    requires
        0 <= from <= jobs.len(),
    ensures
        jobs_error(jobs, from) is None <==> forall|i: int|
            from <= i < jobs.len() ==> #[trigger] job_error_at(jobs, i) is None,
    decreases jobs.len() - from,
{
    if from < jobs.len() {
        lemma_jobs_in_order(jobs, from + 1);
        if jobs_error(jobs, from) is None {
            assert forall|i: int| from <= i < jobs.len() implies #[trigger] job_error_at(jobs, i)
                is None by {}
        } else if forall|i: int| from <= i < jobs.len() ==> #[trigger] job_error_at(jobs, i) is None {
            assert(job_error_at(jobs, from) is None);
        }
    }
}

/// Whether a run is in order and no earlier one has its name.
pub open spec fn acceptable_run(runs: Seq<RemoteJobRunRequest>, i: int) -> bool {
    &&& request_error(run_of(runs[i])) is None
    &&& forall|j: int| 0 <= j < i ==> run_name(#[trigger] runs[j]) != run_name(runs[i])
}

/// Whether a recurring job is in order and no earlier one has its name.
pub open spec fn acceptable_job(jobs: Seq<RemoteJobSpec>, i: int) -> bool {
    &&& job_error(recurring_of(jobs[i])) is None
    &&& forall|j: int| 0 <= j < i ==> job_name(#[trigger] jobs[j]) != job_name(jobs[i])
}

/// Runs pass the check exactly where each of them is in order and no two share a name.
pub proof fn law_runs_are_checked(runs: Seq<RemoteJobRunRequest>)
    ensures
        runs_error(runs, 0) is None <==> forall|i: int|
            0 <= i < runs.len() ==> #[trigger] acceptable_run(runs, i),
{
    lemma_runs_in_order(runs, 0);
    if runs_error(runs, 0) is None {
        assert forall|i: int| 0 <= i < runs.len() implies #[trigger] acceptable_run(runs, i) by {
            assert(run_error_at(runs, i) is None);
        }
    } else if forall|i: int| 0 <= i < runs.len() ==> #[trigger] acceptable_run(runs, i) {
        assert forall|i: int| 0 <= i < runs.len() implies #[trigger] run_error_at(runs, i)
            is None by {
            assert(acceptable_run(runs, i));
        }
    }
}

/// Recurring jobs pass the check exactly where each of them is in order and no two share a name.
pub proof fn law_jobs_are_checked(jobs: Seq<RemoteJobSpec>)
    ensures
        jobs_error(jobs, 0) is None <==> forall|i: int|
            0 <= i < jobs.len() ==> #[trigger] acceptable_job(jobs, i),
{
    lemma_jobs_in_order(jobs, 0);
    if jobs_error(jobs, 0) is None {
        assert forall|i: int| 0 <= i < jobs.len() implies #[trigger] acceptable_job(jobs, i) by {
            assert(job_error_at(jobs, i) is None);
        }
    } else if forall|i: int| 0 <= i < jobs.len() ==> #[trigger] acceptable_job(jobs, i) {
        assert forall|i: int| 0 <= i < jobs.len() implies #[trigger] job_error_at(jobs, i)
            is None by {
            assert(acceptable_job(jobs, i));
        }
    }
}

/// A request for jobs passes the check exactly where it has what its operation needs, nothing that
/// belongs to another one, and everything in it is in order.
pub proof fn law_job_requests_are_checked(request: RemoteJobApplyRequest)
    ensures
        request.operation == RemoteJobOperation::Once ==> (apply_error(request) is None <==> {
            &&& request.runs@.len() > 0
            &&& request.jobs@.len() == 0
            &&& request.upsert_jobs@.len() == 0
            &&& request.remove_job_ids@.len() == 0
            &&& forall|i: int|
                0 <= i < request.runs@.len() ==> #[trigger] acceptable_run(request.runs@, i)
        }),
        request.operation == RemoteJobOperation::Replace ==> (apply_error(request) is None <==> {
            &&& request.generation is Some
            &&& request.runs@.len() == 0
            &&& request.upsert_jobs@.len() == 0
            &&& request.remove_job_ids@.len() == 0
            &&& forall|i: int|
                0 <= i < request.jobs@.len() ==> #[trigger] acceptable_job(request.jobs@, i)
        }),
        request.operation == RemoteJobOperation::Patch ==> (apply_error(request) is None <==> {
            &&& request.generation is Some
            &&& request.runs@.len() == 0
            &&& request.jobs@.len() == 0
            &&& forall|i: int|
                0 <= i < request.upsert_jobs@.len() ==> #[trigger] acceptable_job(
                    request.upsert_jobs@,
                    i,
                )
            &&& forall|i: int|
                0 <= i < request.remove_job_ids@.len() ==> !blank(
                    (#[trigger] request.remove_job_ids@[i])@,
                )
        }),
{
    law_runs_are_checked(request.runs@);
    law_jobs_are_checked(request.jobs@);
    law_jobs_are_checked(request.upsert_jobs@);
    let ids = texts(request.remove_job_ids@);
    assert forall|i: int| 0 <= i < ids.len() implies #[trigger] ids[i]
        == request.remove_job_ids@[i]@ by {}
    if exists|i: int| 0 <= i < ids.len() && trimmed(#[trigger] ids[i]).len() == 0 {
        let i = choose|i: int| 0 <= i < ids.len() && trimmed(#[trigger] ids[i]).len() == 0;
        assert(blank(request.remove_job_ids@[i]@));
    } else {
        assert forall|i: int| 0 <= i < request.remove_job_ids@.len() implies !blank(
            (#[trigger] request.remove_job_ids@[i])@,
        ) by {
            assert(trimmed(ids[i]).len() != 0);
        }
    }
}

/// A checked request asks for exactly what was asked: the same operation and generation, every run
/// and every recurring probe in order with its own values.
pub proof fn law_checked_requests_keep_their_values(
    apply: RemoteJobApply,
    request: RemoteJobApplyRequest,
)
    requires
        asks_for(apply, request),
    ensures
        request.operation == RemoteJobOperation::Once ==> apply is Once && apply->runs@.len()
            == request.runs@.len() && forall|i: int|
            0 <= i < request.runs@.len() ==> match request.runs@[i] {
                RemoteJobRunRequest::Probe { request_id, point_id, probe_type, target, timeout } => {
                    let run = #[trigger] apply->runs@[i];
                    &&& run.source == RemoteProbeResultSource::Once
                    &&& run.request_id == Some(request_id)
                    &&& run.point_id == point_id
                    &&& run.job_id is None
                    &&& run.probe_type == probe_type
                    &&& run.target == target
                    &&& run.timeout == timeout
                },
            },
        request.operation == RemoteJobOperation::Replace ==> apply is Replace && Some(
            apply->Replace_generation,
        ) == request.generation && apply->jobs@.len() == request.jobs@.len() && forall|i: int|
            0 <= i < request.jobs@.len() ==> defined_as(
                #[trigger] apply->jobs@[i],
                request.jobs@[i],
            ),
        request.operation == RemoteJobOperation::Patch ==> apply is Patch && Some(
            apply->Patch_generation,
        ) == request.generation && apply->upsert_jobs@.len() == request.upsert_jobs@.len()
            && forall|i: int|
            0 <= i < request.upsert_jobs@.len() ==> defined_as(
                #[trigger] apply->upsert_jobs@[i],
                request.upsert_jobs@[i],
            ),
        request.operation == RemoteJobOperation::Patch ==> forall|i: int|
            0 <= i < request.remove_job_ids@.len() ==> exists|k: int|
                0 <= k < apply->remove_job_ids@.len() && (#[trigger] apply->remove_job_ids@[k])@
                    == trimmed((#[trigger] request.remove_job_ids@[i])@),
        request.operation == RemoteJobOperation::Patch ==> forall|k: int|
            0 <= k < apply->remove_job_ids@.len() ==> exists|i: int|
                0 <= i < request.remove_job_ids@.len() && (#[trigger] apply->remove_job_ids@[k])@
                    == trimmed((#[trigger] request.remove_job_ids@[i])@),
{
    if request.operation == RemoteJobOperation::Patch {
        let asked = texts(request.remove_job_ids@);
        let taken = texts(apply->remove_job_ids@);
        law_removed_ids_are_distinct(asked);
        assert forall|i: int| 0 <= i < request.remove_job_ids@.len() implies exists|k: int|
            0 <= k < apply->remove_job_ids@.len() && (#[trigger] apply->remove_job_ids@[k])@
                == trimmed((#[trigger] request.remove_job_ids@[i])@) by {
            assert(distinct_trimmed(asked).contains(trimmed(asked[i])));
            let k = taken.index_of(trimmed(asked[i]));
            assert(taken[k] == apply->remove_job_ids@[k]@);
        }
        assert forall|k: int| 0 <= k < apply->remove_job_ids@.len() implies exists|i: int|
            0 <= i < request.remove_job_ids@.len() && (#[trigger] apply->remove_job_ids@[k])@
                == trimmed((#[trigger] request.remove_job_ids@[i])@) by {
            assert(taken[k] == apply->remove_job_ids@[k]@);
            let i = choose|i: int|
                0 <= i < asked.len() && trimmed(#[trigger] asked[i]) == distinct_trimmed(asked)[k];
            assert(asked[i] == request.remove_job_ids@[i]@);
        }
    }
}

/// Whether a recurring probe has all the values of a job.
pub open spec fn defined_as(spec: RemoteProbeJobSpec, job: RemoteJobSpec) -> bool {
    match job {
        RemoteJobSpec::Probe { job_id, point_id, enabled, probe_type, target, interval, timeout } => {
            &&& spec.job_id == job_id
            &&& spec.point_id == point_id
            &&& spec.enabled == enabled
            &&& spec.probe_type == probe_type
            &&& spec.target == target
            &&& spec.interval == interval
            &&& spec.timeout == timeout
        },
    }
}

/// A task gets a place exactly where fewer than the limit run; it counts until it gives the place
/// back, and the tasks are then as they were before.
pub proof fn law_task_places_come_back(manager: RemoteTaskManager, limit: usize)
    ensures
        ({
            let (after, acquired) = manager.with_slot(limit);
            &&& acquired <==> manager.running < limit
            &&& acquired ==> after.running == manager.running + 1 && after.running <= limit
                && after.without_slot() == manager
            &&& !acquired ==> after == manager
            &&& after.options == manager.options
        }),
{
}

/// The result of a task travels under the agent, the number and the time that it was given.
pub proof fn law_task_results_travel_unchanged(
    agent_id: String,
    sequence: u64,
    created_at: u64,
    result: RemoteTaskResult,
    event: OutboundEvent,
)
    requires
        call_ensures(task_result_event, (agent_id, sequence, created_at, result), event),
    ensures
        event matches OutboundEvent::RemoteTaskResult(envelope) && envelope.agent_id == agent_id
            && envelope.sequence == sequence && envelope.created_at == created_at
            && envelope.result == result,
{
}

/// A probe of a port connects and a probe of a web address asks; each goes to the address that its
/// target names, or fails where it names none. A probe by echo requests always fails.
pub proof fn law_probes_go_to_their_target(request: RemoteProbeExecutionRequest, plan: ProbePlan)
    requires
        call_ensures(probe_plan, (&request,), plan),
    ensures
        plan is Connect ==> request.probe_type == RemoteProbeType::Tcp,
        plan is Request ==> request.probe_type == RemoteProbeType::Http,
        request.probe_type == RemoteProbeType::Icmp ==> plan is Fail,
        request.probe_type == RemoteProbeType::Tcp ==> match connection_address(
            trimmed(request.target@),
            parsed_url(trimmed(request.target@)),
        ) {
            Ok(address) => plan matches ProbePlan::Connect(text) && text@ == address,
            Err(error) => plan matches ProbePlan::Fail(text) && text@ == error,
        },
        request.probe_type == RemoteProbeType::Http ==> match request_address(
            parsed_url(web_target(request.target@)),
        ) {
            Ok(address) => plan matches ProbePlan::Request(text) && text@ == address,
            Err(error) => plan matches ProbePlan::Fail(text) && text@ == error,
        },
{
}

/// A recurring probe runs whenever it is not refused, with its own values and within both time
/// limits; a refused one does not run.
pub proof fn law_recurring_probes_run(
    state: RateView,
    spec: RemoteProbeJobSpec,
    config: RemoteProbeConfig,
    now: Moment,
)
    ensures
        match recurring_run(state, spec, config, now) {
            Some((run, limit)) => {
                &&& refusal(state, run, config, now) is None
                &&& run.source == RemoteProbeResultSource::Job
                &&& run.job_id == Some(spec.job_id)
                &&& run.request_id is None
                &&& run.point_id == spec.point_id
                &&& run.probe_type == spec.probe_type
                &&& run.target == spec.target
                &&& limit.nanos <= config.timeout.nanos
                &&& spec.timeout matches Some(own) ==> limit.nanos <= own.nanos
                &&& limit == config.timeout || Some(limit) == spec.timeout
            },
            None => refusal(state, run_of_job(spec), config, now) is Some,
        },
{
}

/// The result of a probe travels under the agent, the number and the time that it was given. That
/// it could not be handed over is told.
pub proof fn law_probe_results_travel_unchanged(
    agent_id: String,
    sequence: u64,
    created_at: u64,
    result: RemoteProbeResult,
    event: OutboundEvent,
    sent: Result<(), OutboundSendError>,
    outcome: Result<(), String>,
)
    requires
        call_ensures(result_event, (agent_id, sequence, created_at, result), event),
        call_ensures(refused_result_sent, (sent,), outcome),
    ensures
        event matches OutboundEvent::RemoteJobResult(envelope) && envelope.agent_id == agent_id
            && envelope.sequence == sequence && envelope.created_at == created_at
            && envelope.result == RemoteJobResult::Probe(result),
        outcome is Ok <==> sent is Ok,
{
}

/// A request is shown by the point that it measures, else by its own identity, else by its job's.
pub proof fn law_requests_are_shown_by_an_identity(request: RemoteProbeExecutionRequest)
    ensures
        request.point_id matches Some(id) ==> shown_id(request) == probe_id_text(id),
        request.point_id is None ==> (request.request_id matches Some(id) ==> shown_id(request)
            == probe_id_text(id)),
        request.point_id is None && request.request_id is None ==> (request.job_id matches Some(
            job_id,
        ) ==> shown_id(request) == job_id@),
        request.point_id is None && request.request_id is None && request.job_id is None
            ==> shown_id(request).len() == 0,
{
}

} // verus!
