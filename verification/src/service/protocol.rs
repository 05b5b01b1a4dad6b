//! Values that the agent exchanges with its server.

use crate::scheduler::time::Span;
use crate::text::{decimal, decimal_text};
use vstd::prelude::*;

verus! {

/// Confirmation of a command.
#[derive(Debug, Clone, Copy, PartialEq, Eq, Structural)]
pub struct Ack {
    /// Sequence number of the command.
    pub sequence: u64,
}

/// Failure of a command.
#[derive(Debug, PartialEq, Eq)]
pub struct ProtocolError {
    /// Sequence number of the command, where it has one.
    pub sequence: Option<u64>,
    /// Stable name of the failure.
    pub code: String,
    /// Text of the failure.
    pub message: String,
}

impl Clone for ProtocolError {
    fn clone(&self) -> (copy: Self)
        ensures
            copy == *self,
    {
        ProtocolError {
            sequence: self.sequence,
            code: self.code.clone(),
            message: self.message.clone(),
        }
    }
}

/// How a remote task ended.
#[derive(Debug, Clone, Copy, PartialEq, Eq, Structural)]
pub enum RemoteTaskStatus {
    /// The program ended with success.
    Success,
    /// The program failed or could not be run.
    Failed,
    /// The program ran too long.
    TimedOut,
    /// The agent refused to run the program.
    Rejected,
}

/// Result of a remote task.
#[derive(Debug, PartialEq, Eq)]
pub struct RemoteTaskResult {
    /// Identity that the server gave the task.
    pub task_id: String,
    /// How the task ended.
    pub status: RemoteTaskStatus,
    /// Exit code of the program.
    pub exit_code: Option<i32>,
    /// Kept standard output.
    pub stdout: String,
    /// Kept error output.
    pub stderr: String,
    /// Start of the task, in Unix seconds.
    pub started_at: u64,
    /// End of the task, in Unix seconds.
    pub finished_at: u64,
    /// Duration in milliseconds.
    pub duration_ms: u64,
    /// Whether the task ran too long.
    pub timed_out: bool,
    /// Whether standard output was cut.
    pub stdout_truncated: bool,
    /// Whether error output was cut.
    pub stderr_truncated: bool,
    /// Why the task failed or was refused.
    pub error: Option<String>,
}

impl Clone for RemoteTaskResult {
    fn clone(&self) -> (copy: Self)
        ensures
            copy == *self,
    {
        RemoteTaskResult {
            task_id: self.task_id.clone(),
            status: self.status,
            exit_code: self.exit_code,
            stdout: self.stdout.clone(),
            stderr: self.stderr.clone(),
            started_at: self.started_at,
            finished_at: self.finished_at,
            duration_ms: self.duration_ms,
            timed_out: self.timed_out,
            stdout_truncated: self.stdout_truncated,
            stderr_truncated: self.stderr_truncated,
            error: copied_text(&self.error),
        }
    }
}

/// Identity of a probe, a point or a request.
#[derive(Debug, PartialEq, Eq)]
pub enum RemoteProbeId {
    /// Identity as text.
    Text(String),
    /// Identity as a number.
    Number(u64),
}

/// Text of an identity.
pub open spec fn probe_id_text(id: RemoteProbeId) -> Seq<char> {
    match id {
        RemoteProbeId::Text(text) => text@,
        RemoteProbeId::Number(number) => decimal(number as nat),
    }
}

impl RemoteProbeId {
    /// Text of this identity.
    pub fn display(&self) -> (text: String)
        ensures
            text@ == probe_id_text(*self),
    {
        match self {
            RemoteProbeId::Text(text) => text.clone(),
            RemoteProbeId::Number(number) => decimal_text(*number),
        }
    }

}

impl Clone for RemoteProbeId {
    fn clone(&self) -> (copy: Self)
        ensures
            copy == *self,
    {
        match self {
            RemoteProbeId::Text(text) => RemoteProbeId::Text(text.clone()),
            RemoteProbeId::Number(number) => RemoteProbeId::Number(*number),
        }
    }
}

/// The same optional identity once more.
pub fn copied_id(id: &Option<RemoteProbeId>) -> (copy: Option<RemoteProbeId>)
    ensures
        copy == *id,
{
    match id {
        Some(id) => Some(id.clone()),
        None => None,
    }
}

/// The same optional text once more.
pub fn copied_text(text: &Option<String>) -> (copy: Option<String>)
    ensures
        copy == *text,
{
    match text {
        Some(text) => Some(text.clone()),
        None => None,
    }
}

/// Network protocol of a probe.
#[derive(Debug, Clone, Copy, PartialEq, Eq, Structural)]
pub enum RemoteProbeType {
    /// Echo request.
    Icmp,
    /// Connection.
    Tcp,
    /// Web request.
    Http,
}

/// Stable name of a network protocol.
pub open spec fn probe_type_name(probe_type: RemoteProbeType) -> Seq<char> {
    match probe_type {
        RemoteProbeType::Icmp => "icmp"@,
        RemoteProbeType::Tcp => "tcp"@,
        RemoteProbeType::Http => "http"@,
    }
}

impl RemoteProbeType {
    /// Stable name of this protocol.
    pub fn as_str(self) -> (name: &'static str)
        ensures
            name@ == probe_type_name(self),
    {
        match self {
            RemoteProbeType::Icmp => "icmp",
            RemoteProbeType::Tcp => "tcp",
            RemoteProbeType::Http => "http",
        }
    }
}

/// What a probe was run for.
#[derive(Debug, Clone, Copy, PartialEq, Eq, Structural)]
pub enum RemoteProbeResultSource {
    /// A single request.
    Once,
    /// A recurring job.
    Job,
}

/// How a probe ended.
#[derive(Debug, Clone, Copy, PartialEq, Eq, Structural)]
pub enum RemoteProbeResultStatus {
    /// The target answered.
    Success,
    /// The target did not answer.
    Failed,
    /// The agent refused to run the probe.
    Rejected,
}

/// Result of a probe.
#[derive(Debug, PartialEq, Eq)]
pub struct RemoteProbeResult {
    /// Identity of the run.
    pub run_id: String,
    /// What the probe was run for.
    pub source: RemoteProbeResultSource,
    /// Point that the server measures.
    pub point_id: Option<RemoteProbeId>,
    /// Request that asked for the run.
    pub request_id: Option<RemoteProbeId>,
    /// Job that asked for the run.
    pub job_id: Option<String>,
    /// Network protocol.
    pub probe_type: RemoteProbeType,
    /// Probed target.
    pub target: String,
    /// How the probe ended.
    pub status: RemoteProbeResultStatus,
    /// Latency of a success, in milliseconds.
    pub latency_ms: Option<u64>,
    /// Start of the run, in Unix seconds.
    pub started_at: u64,
    /// End of the run, in Unix seconds.
    pub finished_at: u64,
    /// Duration in milliseconds.
    pub duration_ms: u64,
    /// Why the probe failed or was refused.
    pub error: Option<String>,
}

impl Clone for RemoteProbeResult {
    fn clone(&self) -> (copy: Self)
        ensures
            copy == *self,
    {
        RemoteProbeResult {
            run_id: self.run_id.clone(),
            source: self.source,
            point_id: copied_id(&self.point_id),
            request_id: copied_id(&self.request_id),
            job_id: copied_text(&self.job_id),
            probe_type: self.probe_type,
            target: self.target.clone(),
            status: self.status,
            latency_ms: self.latency_ms,
            started_at: self.started_at,
            finished_at: self.finished_at,
            duration_ms: self.duration_ms,
            error: copied_text(&self.error),
        }
    }
}

/// Sort of a remote job.
#[derive(Debug, Clone, Copy, PartialEq, Eq, Structural)]
pub enum RemoteJobKind {
    /// Network probe.
    Probe,
}

/// Result of a remote job.
#[derive(Debug, PartialEq, Eq)]
pub enum RemoteJobResult {
    /// Result of a network probe.
    Probe(RemoteProbeResult),
}

impl Clone for RemoteJobResult {
    fn clone(&self) -> (copy: Self)
        ensures
            copy == *self,
    {
        match self {
            RemoteJobResult::Probe(result) => RemoteJobResult::Probe(result.clone()),
        }
    }
}

impl RemoteJobResult {
    /// Result of a network probe.
    pub fn probe(result: RemoteProbeResult) -> (wrapped: RemoteJobResult)
        ensures
            wrapped == RemoteJobResult::Probe(result),
    {
        RemoteJobResult::Probe(result)
    }
}

/// What a remote job request changes.
#[derive(Debug, Clone, Copy, PartialEq, Eq, Structural)]
pub enum RemoteJobOperation {
    /// Runs jobs once.
    Once,
    /// Replaces all recurring jobs.
    Replace,
    /// Changes some recurring jobs.
    Patch,
}

/// Job to run once.
#[derive(Debug, Clone, PartialEq, Eq)]
pub enum RemoteJobRunRequest {
    /// Network probe.
    Probe {
        /// Identity of the request.
        request_id: RemoteProbeId,
        /// Point that the server measures.
        point_id: Option<RemoteProbeId>,
        /// Network protocol.
        probe_type: RemoteProbeType,
        /// Target.
        target: String,
        /// Time limit; the configured one where absent.
        timeout: Option<Span>,
    },
}

impl RemoteJobRunRequest {
    /// Sort of this job.
    pub fn kind(&self) -> (kind: RemoteJobKind)
        ensures
            kind == RemoteJobKind::Probe,
    {
        RemoteJobKind::Probe
    }
}

/// Recurring job.
#[derive(Debug, Clone, PartialEq, Eq)]
pub enum RemoteJobSpec {
    /// Network probe.
    Probe {
        /// Identity of the job.
        job_id: String,
        /// Point that the server measures.
        point_id: Option<RemoteProbeId>,
        /// Whether the job runs.
        enabled: bool,
        /// Network protocol.
        probe_type: RemoteProbeType,
        /// Target.
        target: String,
        /// Time between two runs.
        interval: Span,
        /// Time limit; the configured one where absent.
        timeout: Option<Span>,
    },
}

/// Request that runs or changes remote jobs.
#[derive(Debug, Clone, PartialEq, Eq)]
pub struct RemoteJobApplyRequest {
    /// What the request changes.
    pub operation: RemoteJobOperation,
    /// Generation of the recurring jobs.
    pub generation: Option<u64>,
    /// Jobs to run once.
    pub runs: Vec<RemoteJobRunRequest>,
    /// All recurring jobs.
    pub jobs: Vec<RemoteJobSpec>,
    /// Recurring jobs to add or change.
    pub upsert_jobs: Vec<RemoteJobSpec>,
    /// Recurring jobs to remove.
    pub remove_job_ids: Vec<String>,
}

/// Content of a report. Measured values stay with the runtime, which finds them by number.
#[derive(Debug, Clone, Copy, PartialEq, Eq, Structural)]
pub enum OutboundReportKind {
    /// All metrics.
    Snapshot {
        /// Number of the measured values.
        report: u64,
    },
    /// Metrics that changed.
    Delta {
        /// Number of the measured values.
        delta: u64,
    },
    /// Sign of life without metrics.
    Heartbeat {
        /// Time of the last report, in Unix seconds.
        last_report_at: Option<u64>,
        /// Sequence number of the last report.
        last_report_sequence: Option<u64>,
    },
}

/// Report to the server.
#[derive(Debug, PartialEq, Eq)]
pub struct OutboundReport {
    /// Identity of the agent.
    pub agent_id: String,
    /// Sequence number.
    pub sequence: u64,
    /// Creation time, in Unix seconds.
    pub created_at: u64,
    /// Content.
    pub kind: OutboundReportKind,
}

impl Clone for OutboundReport {
    fn clone(&self) -> (copy: Self)
        ensures
            copy == *self,
    {
        OutboundReport {
            agent_id: self.agent_id.clone(),
            sequence: self.sequence,
            created_at: self.created_at,
            kind: self.kind,
        }
    }
}

} // verus!
