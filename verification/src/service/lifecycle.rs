//! Start and end of the service.

use crate::service::bootstrap::public_ip_required_for_first_report;
use crate::service::config::AgentConfig;
use crate::service::remote::probe::checks;
use vstd::prelude::*;

verus! {

/// Task of the service.
#[derive(Debug, Clone, Copy, PartialEq, Eq, Structural)]
pub enum ServiceTask {
    /// Delivery of outbound events.
    Export,
    /// Sampling.
    Collector,
    /// Renewal of the public address.
    PublicIp,
    /// Assembly of reports.
    Reporter,
    /// Commands of the server.
    InboundCommands,
}

/// How a task ended.
#[derive(Debug)]
pub enum TaskEnd {
    /// It ran to its end; only the delivery can report an error.
    Finished(Result<(), String>),
    /// It was torn down.
    Aborted(String),
}

/// How the service ends.
#[derive(Debug)]
pub struct ServiceEnd {
    /// Whether the other tasks are told to stop.
    pub signal_shutdown: bool,
    /// Outcome of the service.
    pub result: Result<(), String>,
}

/// Name of a task in an error.
pub open spec fn task_failure(task: ServiceTask) -> Seq<char> {
    match task {
        ServiceTask::Export => "export supervisor task failed: "@,
        ServiceTask::Collector => "collector task failed: "@,
        ServiceTask::PublicIp => "public IP refresh task failed: "@,
        ServiceTask::Reporter => "reporter task failed: "@,
        ServiceTask::InboundCommands => "inbound command task failed: "@,
    }
}

/// What is wrong when a task ended, where something is.
pub open spec fn end_error(task: ServiceTask, end: TaskEnd) -> Option<Seq<char>> {
    match end {
        TaskEnd::Aborted(error) => Some(task_failure(task) + error@),
        TaskEnd::Finished(Err(error)) => if task == ServiceTask::Export {
            Some(error@)
        } else {
            None
        },
        TaskEnd::Finished(Ok(_)) => None,
    }
}

/// The service ends with the first of its tasks. The others are told to stop, unless the task was
/// torn down.
pub fn service_end(task: ServiceTask, end: TaskEnd) -> (ended: ServiceEnd)
    ensures
        ended.signal_shutdown == (end is Finished),
        checks(ended.result, end_error(task, end)),
{
    match end {
        TaskEnd::Aborted(error) => {
            let text = match task {
                ServiceTask::Export => "export supervisor task failed: ",
                ServiceTask::Collector => "collector task failed: ",
                ServiceTask::PublicIp => "public IP refresh task failed: ",
                ServiceTask::Reporter => "reporter task failed: ",
                ServiceTask::InboundCommands => "inbound command task failed: ",
            };
            ServiceEnd {
                signal_shutdown: false,
                result: Err(text.to_owned().concat(error.as_str())),
            }
        },
        TaskEnd::Finished(result) => {
            if task == ServiceTask::Export {
                ServiceEnd { signal_shutdown: true, result }
            } else {
                ServiceEnd { signal_shutdown: true, result: Ok(()) }
            }
        },
    }
}

/// Whether the start waits for the public address: where the first report needs it and it is not
/// known yet.
pub fn waits_for_public_ip(config: &AgentConfig, public_ip_ready: bool) -> (waits: bool)
    ensures
        waits == (config.public_ip.enabled && config.public_ip.required_for_first_report
            && !public_ip_ready),
{
    public_ip_required_for_first_report(config) && !public_ip_ready
}

/// The service ends in order exactly where a task ran to its end, and the delivery without an
/// error; only then, or where the delivery reports its error, are the other tasks told to stop. A
/// task that was torn down is named in the error.
pub proof fn law_service_ends_with_its_tasks(task: ServiceTask, end: TaskEnd, ended: ServiceEnd)
    requires
        call_ensures(service_end, (task, end), ended),
    ensures
        ended.result is Ok <==> {
            ||| end matches TaskEnd::Finished(result) && result is Ok
            ||| end is Finished && task != ServiceTask::Export
        },
        ended.signal_shutdown <==> !(end is Aborted),
        task == ServiceTask::Export ==> (end matches TaskEnd::Finished(Err(error)) ==> ended.result
            is Err && ended.result->Err_0@ == error@),
        end matches TaskEnd::Aborted(error) ==> ended.result is Err && ended.result->Err_0@.len()
            > error@.len() && ended.result->Err_0@.subrange(
            ended.result->Err_0@.len() - error@.len(),
            ended.result->Err_0@.len() as int,
        ) == error@,
{
    reveal_strlit("export supervisor task failed: ");
    reveal_strlit("collector task failed: ");
    reveal_strlit("public IP refresh task failed: ");
    reveal_strlit("reporter task failed: ");
    reveal_strlit("inbound command task failed: ");
    if let TaskEnd::Aborted(error) = end {
        let text = task_failure(task) + error@;
        assert(text.subrange(text.len() - error@.len(), text.len() as int) == error@);
    }
}

/// The start waits for the public address only where the first report needs it, the address is
/// looked for and it is not known yet; and there it does wait.
pub proof fn law_start_waits_for_the_address(config: AgentConfig, ready: bool, waits: bool)
    requires
        call_ensures(waits_for_public_ip, (&config, ready), waits),
    ensures
        ready ==> !waits,
        !config.public_ip.enabled ==> !waits,
        !config.public_ip.required_for_first_report ==> !waits,
        config.public_ip.enabled && config.public_ip.required_for_first_report && !ready ==> waits,
{
}

} // verus!
