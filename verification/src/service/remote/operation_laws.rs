//! What the operations on remote requests and their results give, whatever they are called with.

use crate::scheduler::time::Span;
use crate::service::protocol::{
    RemoteJobApplyRequest, RemoteJobOperation, RemoteProbeResult, RemoteProbeResultSource,
    RemoteProbeResultStatus, RemoteTaskResult, RemoteTaskStatus,
};
use crate::service::remote::job::{apply_error, RemoteJobApply};
use crate::service::remote::probe::{
    executed_result, limited_timeout, rejected_result, RemoteProbeExecutionRequest,
    RemoteProbeJobSpec,
};
use crate::service::remote::shell::laws::says_something;
use crate::service::remote::shell::message::{
    carries, open_request_initial_size, output_event, validate_open_request, RemoteShellOpenRequest,
    RemoteShellStreamEvent,
};
use crate::service::remote::task::{
    task_result, LimitedOutput, OutputText, RemoteTaskRunRequest, TaskExit,
};
use crate::text::{
    ascii_lowercase, is_blank, law_blank_texts, law_trimming_cuts_white_space, trim, white_space,
};
use vstd::prelude::*;

verus! {

/// The result of a probe tells of its own request. It is a success with its duration as the
/// latency exactly where the target answered; a refused probe is told as such, with the reason.
pub proof fn law_results_tell_of_their_probe(
    request: RemoteProbeExecutionRequest,
    run_id: String,
    started_at: u64,
    finished_at: u64,
    duration: Span,
    outcome: Result<(), String>,
    ran: RemoteProbeResult,
    reason: String,
    refused: RemoteProbeResult,
)
    requires
        call_ensures(
            executed_result,
            (request, run_id, started_at, finished_at, duration, outcome),
            ran,
        ),
        call_ensures(rejected_result, (request, run_id, started_at, reason), refused),
    ensures
        ran.target == request.target && refused.target == request.target,
        ran.probe_type == request.probe_type && refused.probe_type == request.probe_type,
        ran.source == request.source && refused.source == request.source,
        ran.point_id == request.point_id && refused.point_id == request.point_id,
        ran.request_id == request.request_id && refused.request_id == request.request_id,
        ran.job_id == request.job_id && refused.job_id == request.job_id,
        ran.run_id == run_id && refused.run_id == run_id,
        ran.started_at == started_at && ran.finished_at == finished_at,
        ran.status == RemoteProbeResultStatus::Success <==> outcome is Ok,
        ran.status == RemoteProbeResultStatus::Failed <==> outcome is Err,
        outcome is Ok ==> ran.latency_ms == Some(ran.duration_ms) && ran.error is None,
        outcome matches Err(error) ==> ran.latency_ms is None && ran.error == Some(error),
        ran.duration_ms * 1_000_000 <= duration.nanos,
        refused.status == RemoteProbeResultStatus::Rejected,
        refused.error == Some(reason) && refused.latency_ms is None && refused.duration_ms == 0,
        refused.started_at == started_at && refused.finished_at == started_at,
{
}

/// The result of a task tells how its program ended, with what it wrote.
pub proof fn law_results_tell_of_their_task(
    task_id: String,
    exit: TaskExit,
    stdout: OutputText,
    stderr: OutputText,
    started_at: u64,
    finished_at: u64,
    duration: Span,
    result: RemoteTaskResult,
)
    requires
        call_ensures(
            task_result,
            (task_id, exit, stdout, stderr, started_at, finished_at, duration),
            result,
        ),
    ensures
        result.task_id == task_id,
        match exit {
            TaskExit::Exited { success, code } => {
                &&& result.status == (if success {
                    RemoteTaskStatus::Success
                } else {
                    RemoteTaskStatus::Failed
                })
                &&& result.exit_code == code && result.error is None && !result.timed_out
            },
            TaskExit::TimedOut { kill_error } => result.status == RemoteTaskStatus::TimedOut
                && result.timed_out && result.error == kill_error && result.exit_code is None,
            TaskExit::NotStarted(error) => result.status == RemoteTaskStatus::Failed
                && result.error == Some(error) && result.exit_code is None && !result.timed_out,
            TaskExit::WaitFailed(error) => result.status == RemoteTaskStatus::Failed
                && result.error == Some(error) && result.exit_code is None && !result.timed_out,
        },
        result.stdout == stdout.text && result.stdout_truncated == stdout.truncated,
        result.stderr == stderr.text && result.stderr_truncated == stderr.truncated,
        result.started_at == started_at && result.finished_at == finished_at,
        result.duration_ms * 1_000_000 <= duration.nanos,
{
}

/// Output is kept from its beginning up to the limit; what was kept stays, and that something was
/// cut is never forgotten.
pub proof fn law_output_is_kept_from_its_beginning(output: &mut LimitedOutput, chunk: &[u8])
    requires
        old(output).wf(),
        call_ensures(LimitedOutput::push, (output, chunk), ()),
    ensures
        final(output).limit() == old(output).limit(),
        final(output).kept().len() <= old(output).kept().len() + chunk@.len(),
        old(output).kept().len() + chunk@.len() <= old(output).limit() ==> final(output).kept()
            == old(output).kept() + chunk@ && final(output).cut() == old(output).cut(),
        old(output).kept().len() + chunk@.len() > old(output).limit() ==> final(output).cut()
            && final(output).kept().len() == old(output).limit(),
        old(output).cut() ==> final(output).cut(),
{
}

/// A time limit is the shorter of the requested and the configured one.
pub proof fn law_shorter_time_limit_counts(
    requested: Option<Span>,
    configured: Span,
    limit: Span,
)
    requires
        call_ensures(limited_timeout, (requested, configured), limit),
    ensures
        limit.nanos <= configured.nanos,
        requested matches Some(own) ==> limit.nanos <= own.nanos && (limit.nanos == own.nanos
            || limit.nanos == configured.nanos),
        requested is None ==> limit.nanos == configured.nanos,
{
}

/// A run of a recurring probe has the values of the probe and no identity of a single request.
pub proof fn law_recurring_runs_have_the_values_of_the_probe(
    spec: RemoteProbeJobSpec,
    run: RemoteProbeExecutionRequest,
)
    requires
        call_ensures(RemoteProbeJobSpec::to_execution_request, (&spec,), run),
    ensures
        run.source == RemoteProbeResultSource::Job,
        run.job_id == Some(spec.job_id),
        run.request_id is None,
        run.point_id == spec.point_id,
        run.probe_type == spec.probe_type,
        run.target == spec.target,
        run.timeout == spec.timeout,
{
}

/// A checked request for jobs keeps its operation and its generation; an unchecked one is refused.
pub proof fn law_checked_job_requests(
    request: RemoteJobApplyRequest,
    checked: Result<RemoteJobApply, String>,
)
    requires
        call_ensures(RemoteJobApply::try_from, (request,), checked),
    ensures
        checked is Ok <==> apply_error(request) is None,
        checked matches Ok(RemoteJobApply::Once { runs }) ==> request.operation
            == RemoteJobOperation::Once && runs@.len() == request.runs@.len(),
        checked matches Ok(RemoteJobApply::Replace { generation, jobs }) ==> request.operation
            == RemoteJobOperation::Replace && request.generation == Some(generation)
            && jobs@.len() == request.jobs@.len(),
        checked matches Ok(RemoteJobApply::Patch { generation, upsert_jobs, .. })
            ==> request.operation == RemoteJobOperation::Patch && request.generation == Some(
            generation,
        ) && upsert_jobs@.len() == request.upsert_jobs@.len(),
{
}

/// A task needs an identity and a program, a session an identity, an address and no empty side.
pub proof fn law_requests_need_their_parts(
    task: RemoteTaskRunRequest,
    task_checked: Result<(), String>,
    session: RemoteShellOpenRequest,
    session_checked: Result<(), String>,
    size: (u16, u16),
)
    requires
        call_ensures(RemoteTaskRunRequest::validate, (&task,), task_checked),
        call_ensures(validate_open_request, (&session,), session_checked),
        call_ensures(open_request_initial_size, (&session,), size),
    ensures
        task_checked is Ok <==> says_something(task.task_id@) && says_something(task.program@),
        session_checked is Ok <==> says_something(session.session_id@) && says_something(
            session.stream_url@,
        ) && session.cols != Some(0u16) && session.rows != Some(0u16),
        size.0 == (if session.cols is Some {
            session.cols->0
        } else {
            80
        }),
        size.1 == (if session.rows is Some {
            session.rows->0
        } else {
            24
        }),
{
    law_blank_texts(task.task_id@);
    law_blank_texts(task.program@);
    law_blank_texts(session.session_id@);
    law_blank_texts(session.stream_url@);
}

/// Output travels under the identity of its session as base64.
pub proof fn law_output_travels_as_base64(
    session_id: String,
    data: &[u8],
    event: RemoteShellStreamEvent,
)
    requires
        call_ensures(output_event, (session_id, data), event),
    ensures
        event matches RemoteShellStreamEvent::Output { session_id: id, data: text, encoding } && id
            == session_id && encoding is Base64 && carries(text@, data@),
{
}

/// Trimming takes away white space at both ends and nothing else; a text is blank exactly where
/// nothing is left. Only capital letters change when a text is made small.
pub proof fn law_texts_are_cleaned(
    text: &str,
    rest: String,
    empty: bool,
    small: String,
    i: int,
) -> (from: int)
    requires
        call_ensures(trim, (text,), rest),
        call_ensures(is_blank, (text,), empty),
        call_ensures(ascii_lowercase, (text,), small),
        0 <= i < text@.len(),
    ensures
        empty <==> rest@.len() == 0,
        empty ==> white_space(text@[i]),
        0 <= from && from + rest@.len() <= text@.len(),
        rest@ == text@.subrange(from, from + rest@.len()),
        i < from || i >= from + rest@.len() ==> white_space(text@[i]),
        rest@.len() > 0 ==> !white_space(rest@[0]) && !white_space(rest@.last()),
        small@.len() == text@.len(),
        !('A' <= text@[i] <= 'Z') ==> small@[i] == text@[i],
        'A' <= text@[i] <= 'Z' ==> small@[i] as int == text@[i] as int + 32,
{
    law_blank_texts(text@);
    let (from, to) = law_trimming_cuts_white_space(text@);
    from
}

} // verus!
