//! Tasks as the scheduler sees them: cancellation, results and reports.

use super::model::{JobId, RunId};
use super::time::{second_of, subsecond_of, Timestamp, NANOS_PER_SECOND};
use crate::text::join;
use vstd::prelude::*;

verus! {

/// What one execution is told.
#[derive(Debug, Clone, Copy, PartialEq, Eq, Structural)]
pub struct TaskContext {
    /// Job.
    pub job_id: JobId,
    /// Version of the job when the execution started.
    pub version: u64,
    /// Logical execution; retries keep it.
    pub run_id: RunId,
    /// Attempt, counted from one.
    pub attempt: u32,
    /// Instant that the trigger planned.
    pub scheduled_at: Timestamp,
    /// Instant of the start.
    pub started_at: Timestamp,
}

/// Error of the task itself; holds the text of the error chain.
#[derive(Debug, PartialEq, Eq)]
pub enum TaskError {
    /// May go away: the retry policy applies.
    Transient(String),
    /// Stays: the job is disabled.
    Permanent(String),
}

/// Error of handing a result on; holds the text of the error chain.
#[derive(Debug, PartialEq, Eq)]
pub enum CallbackError {
    /// This delivery failed; the task is not run again for it.
    Transient(String),
    /// No delivery will work any more; the job is disabled.
    Permanent(String),
}

/// What a cancellation means to a running task.
#[derive(Debug, Clone, Copy, PartialEq, Eq, Structural)]
pub enum TaskCancellationMode {
    /// The task stops when asked and may have a timeout.
    Cooperative,
    /// The task runs to its end once started and takes no timeout.
    NonCancellable,
}

/// What one execution came to.
#[derive(Debug, PartialEq, Eq)]
pub enum TaskRunResult {
    /// The task is done and has no output.
    Completed,
    /// The output was handed on.
    OutputDelivered,
    /// The task failed and may be retried.
    TaskTransient(String),
    /// The task failed for good.
    TaskPermanent(String),
    /// The output was not handed on this time.
    CallbackTransient(String),
    /// The output can never be handed on.
    CallbackPermanent(String),
    /// Nobody receives the output any more.
    ChannelClosed,
}

/// What a `TaskRunResult` holds.
pub enum TaskRunResultView {
    /// See `TaskRunResult::Completed`.
    Completed,
    /// See `TaskRunResult::OutputDelivered`.
    OutputDelivered,
    /// See `TaskRunResult::TaskTransient`.
    TaskTransient(Seq<char>),
    /// See `TaskRunResult::TaskPermanent`.
    TaskPermanent(Seq<char>),
    /// See `TaskRunResult::CallbackTransient`.
    CallbackTransient(Seq<char>),
    /// See `TaskRunResult::CallbackPermanent`.
    CallbackPermanent(Seq<char>),
    /// See `TaskRunResult::ChannelClosed`.
    ChannelClosed,
}

impl View for TaskRunResult {
    type V = TaskRunResultView;

    open spec fn view(&self) -> TaskRunResultView {
        match *self {
            TaskRunResult::Completed => TaskRunResultView::Completed,
            TaskRunResult::OutputDelivered => TaskRunResultView::OutputDelivered,
            TaskRunResult::TaskTransient(text) => TaskRunResultView::TaskTransient(text@),
            TaskRunResult::TaskPermanent(text) => TaskRunResultView::TaskPermanent(text@),
            TaskRunResult::CallbackTransient(text) => TaskRunResultView::CallbackTransient(text@),
            TaskRunResult::CallbackPermanent(text) => TaskRunResultView::CallbackPermanent(text@),
            TaskRunResult::ChannelClosed => TaskRunResultView::ChannelClosed,
        }
    }
}

/// Registered task: a handle that the runtime resolves, with what the scheduler has to know.
#[derive(Debug, PartialEq, Eq)]
pub struct TaskBinding {
    /// Handle of the runtime.
    pub handle: u64,
    /// Stable name of the task's kind.
    pub kind: String,
    /// What a cancellation means to the task.
    pub cancellation_mode: TaskCancellationMode,
}

/// What a `TaskBinding` holds.
pub struct TaskBindingView {
    /// See `TaskBinding::handle`.
    pub handle: u64,
    /// See `TaskBinding::kind`.
    pub kind: Seq<char>,
    /// See `TaskBinding::cancellation_mode`.
    pub cancellation_mode: TaskCancellationMode,
}

impl View for TaskBinding {
    type V = TaskBindingView;

    open spec fn view(&self) -> TaskBindingView {
        TaskBindingView {
            handle: self.handle,
            kind: self.kind@,
            cancellation_mode: self.cancellation_mode,
        }
    }
}

impl TaskBinding {
    /// Binds a handle of the runtime.
    pub fn new(handle: u64, kind: String, cancellation_mode: TaskCancellationMode) -> (binding:
        Self)
        ensures
            binding@ == (TaskBindingView { handle, kind: kind@, cancellation_mode }),
    {
        TaskBinding { handle, kind, cancellation_mode }
    }

    /// What a cancellation means to the task.
    pub fn cancellation_mode(&self) -> (mode: TaskCancellationMode)
        ensures
            mode == self@.cancellation_mode,
    {
        self.cancellation_mode
    }
}

/// Label of a result.
pub open spec fn outcome_label(outcome: TaskRunResultView) -> Seq<char> {
    match outcome {
        TaskRunResultView::Completed => "completed"@,
        TaskRunResultView::OutputDelivered => "output_delivered"@,
        TaskRunResultView::TaskTransient(_) => "task_transient"@,
        TaskRunResultView::TaskPermanent(_) => "task_permanent"@,
        TaskRunResultView::CallbackTransient(_) => "callback_transient"@,
        TaskRunResultView::CallbackPermanent(_) => "callback_permanent"@,
        TaskRunResultView::ChannelClosed => "channel_closed"@,
    }
}

/// Stable label of a result, without the text of an error.
pub fn task_outcome_name(outcome: &TaskRunResult) -> (name: &'static str)
    ensures
        name@ == outcome_label(outcome@),
{
    match outcome {
        TaskRunResult::Completed => "completed",
        TaskRunResult::OutputDelivered => "output_delivered",
        TaskRunResult::TaskTransient(_) => "task_transient",
        TaskRunResult::TaskPermanent(_) => "task_permanent",
        TaskRunResult::CallbackTransient(_) => "callback_transient",
        TaskRunResult::CallbackPermanent(_) => "callback_permanent",
        TaskRunResult::ChannelClosed => "channel_closed",
    }
}

/// Result of a task that returned an error.
pub open spec fn failed_task(error: TaskError) -> TaskRunResultView {
    match error {
        TaskError::Transient(text) => TaskRunResultView::TaskTransient(text@),
        TaskError::Permanent(text) => TaskRunResultView::TaskPermanent(text@),
    }
}

/// Result of a delivery.
pub open spec fn delivery(delivered: Result<(), CallbackError>) -> TaskRunResultView {
    match delivered {
        Ok(_) => TaskRunResultView::OutputDelivered,
        Err(CallbackError::Transient(text)) => TaskRunResultView::CallbackTransient(text@),
        Err(CallbackError::Permanent(text)) => TaskRunResultView::CallbackPermanent(text@),
    }
}

/// Result of a task that returned an error.
pub fn map_task_error(error: TaskError) -> (outcome: TaskRunResult)
    ensures
        outcome@ == failed_task(error),
{
    match error {
        TaskError::Transient(text) => TaskRunResult::TaskTransient(text),
        TaskError::Permanent(text) => TaskRunResult::TaskPermanent(text),
    }
}

/// Result of a task without output.
pub fn action_outcome(run: Result<(), TaskError>) -> (outcome: TaskRunResult)
    ensures
        outcome@ == (match run {
            Ok(_) => TaskRunResultView::Completed,
            Err(error) => failed_task(error),
        }),
{
    match run {
        Ok(_) => TaskRunResult::Completed,
        Err(error) => map_task_error(error),
    }
}

/// Result of handing an output to a channel: `sent` tells whether somebody still receives it.
pub fn channel_outcome(sent: bool) -> (outcome: TaskRunResult)
    ensures
        outcome@ == (if sent {
            TaskRunResultView::OutputDelivered
        } else {
            TaskRunResultView::ChannelClosed
        }),
{
    if sent {
        TaskRunResult::OutputDelivered
    } else {
        TaskRunResult::ChannelClosed
    }
}

/// Result of handing an output to a callback or a report sink.
pub fn callback_outcome(delivered: Result<(), CallbackError>) -> (outcome: TaskRunResult)
    ensures
        outcome@ == delivery(delivered),
{
    match delivered {
        Ok(_) => TaskRunResult::OutputDelivered,
        Err(CallbackError::Transient(text)) => TaskRunResult::CallbackTransient(text),
        Err(CallbackError::Permanent(text)) => TaskRunResult::CallbackPermanent(text),
    }
}

/// What an adapter does once the task has run.
#[derive(Debug)]
pub enum AdapterStep<T> {
    /// Hand the output on.
    Deliver(T),
    /// There is no output: the execution ends with this result.
    Finish(TaskRunResult),
}

/// Next step after a task with output: an error ends the execution without a delivery.
pub fn after_run<T>(run: Result<T, TaskError>) -> (step: AdapterStep<T>)
    ensures
        match run {
            Ok(value) => step == AdapterStep::Deliver(value),
            Err(error) => step matches AdapterStep::Finish(outcome) && outcome@ == failed_task(
                error,
            ),
        },
{
    match run {
        Ok(value) => AdapterStep::Deliver(value),
        Err(error) => AdapterStep::Finish(map_task_error(error)),
    }
}

/// What a report channel needs: the result of the report.
pub fn report_result<T>(result: Option<T>) -> (checked: Result<T, CallbackError>)
    ensures
        match result {
            Some(value) => checked == Ok::<T, CallbackError>(value),
            None => checked matches Err(CallbackError::Permanent(text)) && text@
                == "task report result is missing"@,
        },
{
    match result {
        Some(value) => Ok(value),
        None => Err(CallbackError::Permanent("task report result is missing".to_owned())),
    }
}

/// Answer of a report channel: a closed channel is an error for good.
pub fn report_sent(sent: bool) -> (answer: Result<(), CallbackError>)
    ensures
        if sent {
            answer is Ok
        } else {
            answer matches Err(CallbackError::Permanent(text)) && text@
                == "task report channel is closed"@
        },
{
    if sent {
        Ok(())
    } else {
        Err(CallbackError::Permanent("task report channel is closed".to_owned()))
    }
}

impl TaskError {
    /// Text of this error.
    pub fn message(&self) -> (text: String)
        ensures
            match *self {
                TaskError::Transient(cause) => text@ == "transient task error: "@ + cause@,
                TaskError::Permanent(cause) => text@ == "permanent task error: "@ + cause@,
            },
    {
        match self {
            TaskError::Transient(cause) => join("transient task error: ", cause.as_str()),
            TaskError::Permanent(cause) => join("permanent task error: ", cause.as_str()),
        }
    }
}

impl CallbackError {
    /// Text of this error.
    pub fn message(&self) -> (text: String)
        ensures
            match *self {
                CallbackError::Transient(cause) => text@ == "transient callback error: "@ + cause@,
                CallbackError::Permanent(cause) => text@ == "permanent callback error: "@ + cause@,
            },
    {
        match self {
            CallbackError::Transient(cause) => join("transient callback error: ", cause.as_str()),
            CallbackError::Permanent(cause) => join("permanent callback error: ", cause.as_str()),
        }
    }
}

/// Instant of a report: seconds and nanoseconds.
#[derive(Debug, Clone, Copy, PartialEq, Eq, Structural)]
pub struct ReportTimestamp {
    /// Seconds since the epoch.
    pub seconds: i64,
    /// Nanoseconds past the second.
    pub nanos: i32,
}

/// Instant of a report.
pub fn timestamp(value: Timestamp) -> (stamp: ReportTimestamp)
    requires
        i64::MIN <= second_of(value.nanos as int) <= i64::MAX,
    ensures
        stamp.seconds == second_of(value.nanos as int),
        stamp.nanos == subsecond_of(value.nanos as int),
        0 <= stamp.nanos < NANOS_PER_SECOND,
        stamp.seconds * NANOS_PER_SECOND + stamp.nanos == value.nanos,
{
    let (seconds, nanos) = value.parts();
    ReportTimestamp { seconds: seconds as i64, nanos: nanos as i32 }
}

/// Bytes of a number, most significant first.
pub open spec fn big_endian(value: nat, length: nat) -> Seq<u8>
    decreases length,
{
    if length == 0 {
        Seq::empty()
    } else {
        big_endian(value / 256, (length - 1) as nat).push((value % 256) as u8)
    }
}

/// `uuid::Uuid::from_u128` and `uuid::Uuid::as_bytes`: the sixteen bytes of an identifier, most
/// significant first.
#[verifier::external_body]
fn uuid_bytes(id: u128) -> (bytes: Vec<u8>)
    ensures
        bytes@ == big_endian(id as nat, 16),
{
    uuid::Uuid::from_u128(id).as_bytes().to_vec()
}

/// What a report says of an execution besides its result.
#[derive(Debug)]
pub struct ReportHeader {
    /// Job, as sixteen bytes.
    pub job_id: Vec<u8>,
    /// Revision of the job at the server.
    pub job_revision: u64,
    /// Execution, as sixteen bytes.
    pub run_id: Vec<u8>,
    /// Attempt, counted from one.
    pub attempt: u32,
    /// Instant that the trigger planned.
    pub scheduled_at: ReportTimestamp,
    /// Instant of the start.
    pub started_at: ReportTimestamp,
}

/// What the report of an execution says besides its result.
pub fn report_header(context: &TaskContext, job_revision: u64) -> (header: ReportHeader)
    requires
        i64::MIN <= second_of(context.scheduled_at.nanos as int) <= i64::MAX,
        i64::MIN <= second_of(context.started_at.nanos as int) <= i64::MAX,
    ensures
        header.job_id@ == big_endian(context.job_id as nat, 16),
        header.job_revision == job_revision,
        header.run_id@ == big_endian(context.run_id as nat, 16),
        header.attempt == context.attempt,
        header.scheduled_at.seconds == second_of(context.scheduled_at.nanos as int),
        header.scheduled_at.nanos == subsecond_of(context.scheduled_at.nanos as int),
        header.started_at.seconds == second_of(context.started_at.nanos as int),
        header.started_at.nanos == subsecond_of(context.started_at.nanos as int),
{
    ReportHeader {
        job_id: uuid_bytes(context.job_id),
        job_revision,
        run_id: uuid_bytes(context.run_id),
        attempt: context.attempt,
        scheduled_at: timestamp(context.scheduled_at),
        started_at: timestamp(context.started_at),
    }
}

/// A task that ends well ends its execution, or hands its output on. One that fails ends its
/// execution with the text of the failure, and only a failure for good is told as one.
pub proof fn law_failures_of_the_task_keep_their_nature(
    run: Result<(), TaskError>,
    outcome: TaskRunResult,
)
    requires
        call_ensures(action_outcome, (run,), outcome),
    ensures
        match run {
            Ok(_) => outcome is Completed,
            Err(TaskError::Transient(text)) => outcome is TaskTransient
                && outcome->TaskTransient_0@ == text@,
            Err(TaskError::Permanent(text)) => outcome is TaskPermanent
                && outcome->TaskPermanent_0@ == text@,
        },
{
}

/// A task with an output hands it on unchanged; one that failed hands nothing on.
pub proof fn law_only_an_output_is_handed_on<T>(
    run: Result<T, TaskError>,
    step: AdapterStep<T>,
)
    requires
        call_ensures(after_run::<T>, (run,), step),
    ensures
        match run {
            Ok(value) => step == AdapterStep::Deliver(value),
            Err(TaskError::Transient(text)) => step matches AdapterStep::Finish(
                TaskRunResult::TaskTransient(kept),
            ) && kept@ == text@,
            Err(TaskError::Permanent(text)) => step matches AdapterStep::Finish(
                TaskRunResult::TaskPermanent(kept),
            ) && kept@ == text@,
        },
{
    if let Err(error) = run {
        assert(step->Finish_0@ == failed_task(error));
    }
}

/// A delivery that worked is told as such. One that failed keeps its nature and its text, and a
/// channel that nobody receives from is told as closed.
pub proof fn law_failures_of_the_delivery_keep_their_nature(
    sent: bool,
    channel: TaskRunResult,
    delivered: Result<(), CallbackError>,
    outcome: TaskRunResult,
)
    requires
        call_ensures(channel_outcome, (sent,), channel),
        call_ensures(callback_outcome, (delivered,), outcome),
    ensures
        channel is OutputDelivered <==> sent,
        channel is ChannelClosed <==> !sent,
        match delivered {
            Ok(_) => outcome is OutputDelivered,
            Err(CallbackError::Transient(text)) => outcome is CallbackTransient
                && outcome->CallbackTransient_0@ == text@,
            Err(CallbackError::Permanent(text)) => outcome is CallbackPermanent
                && outcome->CallbackPermanent_0@ == text@,
        },
{
}

/// A report without its result, and one that nobody receives, fail for good; every other report
/// goes out with its result.
pub proof fn law_reports_fail_for_good<T>(
    result: Option<T>,
    checked: Result<T, CallbackError>,
    sent: bool,
    answer: Result<(), CallbackError>,
)
    requires
        call_ensures(report_result::<T>, (result,), checked),
        call_ensures(report_sent, (sent,), answer),
    ensures
        result matches Some(value) ==> checked == Ok::<T, CallbackError>(value),
        result is None ==> checked is Err && checked->Err_0 is Permanent,
        answer is Ok <==> sent,
        answer matches Err(error) ==> error is Permanent,
{
}

/// Number that bytes stand for, the most significant first.
pub open spec fn number_in(bytes: Seq<u8>) -> nat
    decreases bytes.len(),
{
    if bytes.len() == 0 {
        0
    } else {
        number_in(bytes.drop_last()) * 256 + bytes.last() as nat
    }
}

/// Powers of two hundred and fifty-six.
pub open spec fn byte_range(length: nat) -> nat
    decreases length,
{
    if length == 0 {
        1
    } else {
        256 * byte_range((length - 1) as nat)
    }
}

/// As many bytes as asked for hold every number that fits, and the number can be read back.
pub proof fn law_numbers_are_read_back(value: nat, length: nat)
    requires
        value < byte_range(length),
    ensures
        big_endian(value, length).len() == length,
        number_in(big_endian(value, length)) == value,
    decreases length,
{
    if length > 0 {
        let rest = (length - 1) as nat;
        assert(value / 256 < byte_range(rest));
        law_numbers_are_read_back(value / 256, rest);
        assert(big_endian(value, length).drop_last() == big_endian(value / 256, rest));
    }
}

/// A report names the job, its revision, the execution, the attempt and both instants of the
/// execution, each so that it can be read back.
pub proof fn law_reports_name_their_execution(
    context: TaskContext,
    job_revision: u64,
    header: ReportHeader,
)
    requires
        call_ensures(report_header, (&context, job_revision), header),
    ensures
        header.job_id@.len() == 16 && number_in(header.job_id@) == context.job_id,
        header.run_id@.len() == 16 && number_in(header.run_id@) == context.run_id,
        header.job_revision == job_revision,
        header.attempt == context.attempt,
        header.scheduled_at.seconds * NANOS_PER_SECOND + header.scheduled_at.nanos
            == context.scheduled_at.nanos,
        header.started_at.seconds * NANOS_PER_SECOND + header.started_at.nanos
            == context.started_at.nanos,
        0 <= header.scheduled_at.nanos < NANOS_PER_SECOND,
        0 <= header.started_at.nanos < NANOS_PER_SECOND,
{
    reveal_with_fuel(byte_range, 17);
    law_numbers_are_read_back(context.job_id as nat, 16);
    law_numbers_are_read_back(context.run_id as nat, 16);
}

/// No two results of different sorts have the same label.
pub proof fn law_labels_tell_results_apart(a: TaskRunResultView, b: TaskRunResultView)
    ensures
        outcome_label(a) == outcome_label(b) <==> {
            ||| a is Completed && b is Completed
            ||| a is OutputDelivered && b is OutputDelivered
            ||| a is TaskTransient && b is TaskTransient
            ||| a is TaskPermanent && b is TaskPermanent
            ||| a is CallbackTransient && b is CallbackTransient
            ||| a is CallbackPermanent && b is CallbackPermanent
            ||| a is ChannelClosed && b is ChannelClosed
        },
{
    reveal_strlit("completed");
    reveal_strlit("output_delivered");
    reveal_strlit("task_transient");
    reveal_strlit("task_permanent");
    reveal_strlit("callback_transient");
    reveal_strlit("callback_permanent");
    reveal_strlit("channel_closed");
    assert("task_transient"@[5] != "task_permanent"@[5]);
    assert("task_transient"@[0] != "channel_closed"@[0]);
    assert("task_permanent"@[0] != "channel_closed"@[0]);
    assert("callback_transient"@[9] != "callback_permanent"@[9]);
    assert("completed"@.len() == 9 && "output_delivered"@.len() == 16);
    assert("task_transient"@.len() == 14 && "callback_transient"@.len() == 18);
    assert("task_permanent"@.len() == 14 && "callback_permanent"@.len() == 18);
    assert("channel_closed"@.len() == 14);
}

} // verus!
