//! Commands of the server: what each of them leads to and how it is answered.

use crate::service::clock::Moment;
use crate::service::collector::CollectorCommand;
use crate::service::config::{AgentConfig, DetailConfig, ExportConfig, MetricLevel};
use crate::service::options::{
    detail_amount, level_name, metric_level_name, permission_name, reach, DiagnosticOptions,
    RemoteMetricPermission,
};
use crate::service::outbound::{ControlAckEnvelope, ControlErrorEnvelope, OutboundEvent};
use crate::service::patch::{
    changed, changed_detail, changed_value, config_after, detail_after, AgentConfigPatch,
};
use crate::service::protocol::{Ack, ProtocolError, RemoteJobApplyRequest};
use crate::service::remote::job::{apply_error, asks_for, RemoteJobApply};
use crate::service::remote::probe::{checks, probe_started, ProbeStart, RemoteProbeExecutionRequest};
use crate::service::remote::schedule::{carried_out, JobWork, RemoteJobManager};
use crate::service::remote::shell::manager::{opened_by, RemoteShellManager};
use crate::service::remote::shell::message::{open_error, RemoteShellOpenRequest};
use crate::service::remote::shell::session::RemoteShellSession;
use crate::service::remote::shell::stream::{adapted_by, RemoteShellStreamCodec};
use crate::service::remote::task::{
    task_started, RemoteTaskManager, RemoteTaskRunRequest, TaskStart,
};
use crate::service::reporter::ReporterCommand;
use vstd::prelude::*;

verus! {

/// Commands that wait for the dispatcher.
pub const INBOUND_COMMAND_QUEUE_CAPACITY: usize = 128;

/// Command of the server, whatever protocol it came by. Interactive sessions bring the
/// conversion of their messages along.
#[derive(Debug)]
pub enum InboundCommand<C> {
    /// Change the configuration.
    ConfigPatch {
        /// The change.
        patch: AgentConfigPatch,
    },
    /// Sample the processes once.
    CollectProcessesOnce {
        /// Amount of detail; the configured one where absent.
        level: Option<MetricLevel>,
        /// Largest number of listed items; the configured one where absent.
        limit: Option<usize>,
    },
    /// Sample the sockets once.
    CollectSocketsOnce {
        /// Amount of detail; the configured one where absent.
        level: Option<MetricLevel>,
        /// Largest number of listed items; the configured one where absent.
        limit: Option<usize>,
    },
    /// Open an interactive session.
    RemoteShellOpen {
        /// The request.
        request: RemoteShellOpenRequest,
        /// Connection settings; those of the main connection where absent.
        stream_export_config: Option<ExportConfig>,
        /// Conversion of the session's messages.
        stream_codec: C,
    },
    /// Run a task.
    RemoteTaskRun {
        /// The request.
        request: RemoteTaskRunRequest,
    },
    /// Run a probe.
    RemoteProbeRun {
        /// The request.
        request: RemoteProbeExecutionRequest,
    },
    /// Change the recurring jobs, or run some once.
    JobApply {
        /// The request.
        request: RemoteJobApplyRequest,
    },
    /// Send all metrics as soon as possible.
    SnapshotRequest {
        /// Why they are wanted.
        reason: Option<String>,
    },
}

/// Name of a command.
pub open spec fn command_name<C>(command: InboundCommand<C>) -> Seq<char> {
    match command {
        InboundCommand::ConfigPatch { .. } => "config_patch"@,
        InboundCommand::CollectProcessesOnce { .. } => "collect_processes_once"@,
        InboundCommand::CollectSocketsOnce { .. } => "collect_sockets_once"@,
        InboundCommand::RemoteShellOpen { .. } => "remote_shell_open"@,
        InboundCommand::RemoteTaskRun { .. } => "remote_task_run"@,
        InboundCommand::RemoteProbeRun { .. } => "remote_probe_run"@,
        InboundCommand::JobApply { .. } => "job_apply"@,
        InboundCommand::SnapshotRequest { .. } => "snapshot_request"@,
    }
}

impl<C> InboundCommand<C> {
    /// Name of the command.
    pub fn name(&self) -> (name: &'static str)
        ensures
            name@ == command_name(*self),
    {
        match self {
            InboundCommand::ConfigPatch { .. } => "config_patch",
            InboundCommand::CollectProcessesOnce { .. } => "collect_processes_once",
            InboundCommand::CollectSocketsOnce { .. } => "collect_sockets_once",
            InboundCommand::RemoteShellOpen { .. } => "remote_shell_open",
            InboundCommand::RemoteTaskRun { .. } => "remote_task_run",
            InboundCommand::RemoteProbeRun { .. } => "remote_probe_run",
            InboundCommand::JobApply { .. } => "job_apply",
            InboundCommand::SnapshotRequest { .. } => "snapshot_request",
        }
    }
}

/// What an answer refers to.
#[derive(Debug, Clone, Copy, PartialEq, Eq, Structural)]
pub struct ServerCommandMeta {
    /// Number of the server's message.
    pub sequence: u64,
}

/// Command with what an answer refers to.
#[derive(Debug)]
pub struct InboundCommandEnvelope<C> {
    /// The command.
    pub command: InboundCommand<C>,
    /// What an answer refers to; absent where the server expects none.
    pub meta: Option<ServerCommandMeta>,
}

impl<C> InboundCommandEnvelope<C> {
    /// Command that is not answered.
    pub fn without_response(command: InboundCommand<C>) -> (envelope: InboundCommandEnvelope<C>)
        ensures
            envelope == (InboundCommandEnvelope { command, meta: None }),
    {
        InboundCommandEnvelope { command, meta: None }
    }

    /// Command that is answered.
    pub fn with_response(command: InboundCommand<C>, sequence: u64) -> (envelope:
        InboundCommandEnvelope<C>)
        ensures
            envelope == (InboundCommandEnvelope {
                command,
                meta: Some(ServerCommandMeta { sequence }),
            }),
    {
        InboundCommandEnvelope { command, meta: Some(ServerCommandMeta { sequence }) }
    }
}

/// What the runtime has to do for a command.
#[derive(Debug)]
pub enum DispatchAction<C> {
    /// Check the change of the configuration and carry it out.
    ApplyPatch(AgentConfigPatch),
    /// Hand a command to the collector.
    Collect(CollectorCommand),
    /// Hand a command to the reporter.
    Report(ReporterCommand),
    /// Start a session.
    OpenShell {
        /// The session.
        session: RemoteShellSession,
        /// Conversion of its messages.
        codec: C,
    },
    /// Start a task, or report that it does not run.
    StartTask(TaskStart),
    /// Start a probe, or report that it does not run.
    StartProbe {
        /// The probe.
        request: RemoteProbeExecutionRequest,
        /// What happens to it.
        start: ProbeStart,
    },
    /// Start probes and workers.
    Jobs(JobWork),
}

/// Why an amount of detail is not allowed.
pub open spec fn level_refusal(
    what: Seq<char>,
    level: MetricLevel,
    permission: RemoteMetricPermission,
) -> Seq<char> {
    what + " "@ + level_name(level)
        + " collection is not allowed by startup options; allowed level is "@ + permission_name(
        permission,
    )
}

/// Why an amount of detail is not allowed.
fn level_refusal_text(what: &str, level: MetricLevel, permission: RemoteMetricPermission) -> (text:
    String)
    ensures
        text@ == level_refusal(what@, level, permission),
{
    what.to_owned().concat(" ").concat(metric_level_name(level)).concat(
        " collection is not allowed by startup options; allowed level is ",
    ).concat(permission.as_str())
}

/// Whether a change switches sampling on or to another amount of detail.
pub open spec fn newly_sampled(current: DetailConfig, next: DetailConfig) -> bool {
    next.enabled && !(current.enabled && current.level == next.level)
}

/// Why a change of the configuration is not allowed, where it is not.
pub open spec fn patch_refusal(
    diagnostics: DiagnosticOptions,
    config: AgentConfig,
    patch: AgentConfigPatch,
) -> Option<Seq<char>> {
    let processes = detail_after(config.processes, patch.processes);
    let sockets = detail_after(config.sockets, patch.sockets);
    if newly_sampled(config.processes, processes) && !diagnostics.process_permission.covers(
        processes.level,
    ) {
        Some(level_refusal("process"@, processes.level, diagnostics.process_permission))
    } else if newly_sampled(config.sockets, sockets) && !diagnostics.socket_permission.covers(
        sockets.level,
    ) {
        Some(level_refusal("socket"@, sockets.level, diagnostics.socket_permission))
    } else {
        None
    }
}

/// Why a single sample is not allowed, where it is not.
pub open spec fn sample_refusal(
    what: Seq<char>,
    level: MetricLevel,
    permission: RemoteMetricPermission,
) -> Option<Seq<char>> {
    if permission.covers(level) {
        None
    } else {
        Some(level_refusal(what, level, permission))
    }
}

/// Why a single sample is not taken, where it is not: its options did not pass the check, or they
/// are not allowed.
pub open spec fn sample_error(
    checked: Result<(), String>,
    what: Seq<char>,
    level: MetricLevel,
    permission: RemoteMetricPermission,
) -> Option<Seq<char>> {
    match checked {
        Err(text) => Some(text@),
        Ok(_) => sample_refusal(what, level, permission),
    }
}

/// Single sample that a command asks for, where it asks for one. Absent options are those of the
/// configuration.
pub open spec fn sample_asked<C>(command: InboundCommand<C>, config: AgentConfig) -> Option<
    CollectorCommand,
> {
    match command {
        InboundCommand::CollectProcessesOnce { level, limit } => Some(
            CollectorCommand::SampleProcessesOnce {
                level: changed(config.processes.level, level),
                limit: changed(config.processes.limit, limit),
            },
        ),
        InboundCommand::CollectSocketsOnce { level, limit } => Some(
            CollectorCommand::SampleSocketsOnce {
                level: changed(config.sockets.level, level),
                limit: changed(config.sockets.limit, limit),
            },
        ),
        _ => None,
    }
}

impl<C> InboundCommand<C> {
    /// Single sample that the command asks for, where it asks for one. Its options are to be
    /// checked before the command is dispatched.
    pub fn asked_sample(&self, config: &AgentConfig) -> (sample: Option<CollectorCommand>)
        ensures
            sample == sample_asked(*self, *config),
    {
        match self {
            InboundCommand::CollectProcessesOnce { level, limit } => Some(
                CollectorCommand::SampleProcessesOnce {
                    level: changed_value(config.processes.level, *level),
                    limit: changed_value(config.processes.limit, *limit),
                },
            ),
            InboundCommand::CollectSocketsOnce { level, limit } => Some(
                CollectorCommand::SampleSocketsOnce {
                    level: changed_value(config.sockets.level, *level),
                    limit: changed_value(config.sockets.limit, *limit),
                },
            ),
            _ => None,
        }
    }
}

/// State behind the commands.
#[derive(Debug)]
pub struct ControlDispatcher {
    /// Interactive sessions.
    pub remote_shell: RemoteShellManager,
    /// Tasks.
    pub remote_task: RemoteTaskManager,
    /// Probes and recurring jobs.
    pub remote_jobs: RemoteJobManager,
    /// What the server may ask for.
    pub diagnostics: DiagnosticOptions,
}

/// Whether a command was dispatched: what it leads to, and the state afterwards. `checked` is the
/// outcome of the check of the options of a single sample.
pub open spec fn dispatched<C: RemoteShellStreamCodec>(
    before: ControlDispatcher,
    command: InboundCommand<C>,
    config: AgentConfig,
    checked: Result<(), String>,
    at: u64,
    now: Moment,
    after: ControlDispatcher,
    result: Result<DispatchAction<C>, String>,
) -> bool {
    match command {
        InboundCommand::ConfigPatch { patch } => {
            &&& after == before
            &&& checks(result, patch_refusal(before.diagnostics, config, patch))
            &&& result matches Ok(action) ==> action == DispatchAction::<C>::ApplyPatch(patch)
        },
        InboundCommand::CollectProcessesOnce { level, limit } => {
            let level = changed(config.processes.level, level);
            let limit = changed(config.processes.limit, limit);
            &&& after == before
            &&& checks(
                result,
                sample_error(checked, "process"@, level, before.diagnostics.process_permission),
            )
            &&& result matches Ok(action) ==> action == DispatchAction::<C>::Collect(
                CollectorCommand::SampleProcessesOnce { level, limit },
            )
        },
        InboundCommand::CollectSocketsOnce { level, limit } => {
            let level = changed(config.sockets.level, level);
            let limit = changed(config.sockets.limit, limit);
            &&& after == before
            &&& checks(
                result,
                sample_error(checked, "socket"@, level, before.diagnostics.socket_permission),
            )
            &&& result matches Ok(action) ==> action == DispatchAction::<C>::Collect(
                CollectorCommand::SampleSocketsOnce { level, limit },
            )
        },
        InboundCommand::RemoteShellOpen { request, stream_export_config, stream_codec } => {
            let opened = match result {
                Ok(DispatchAction::OpenShell { session, codec }) => Ok(session),
                Ok(_) => Ok(arbitrary()),
                Err(text) => Err(text),
            };
            &&& result matches Ok(action) ==> action is OpenShell && action->codec == stream_codec
            &&& opened_by(
                before.remote_shell,
                request,
                changed(config.export, stream_export_config),
                config.remote_shell,
                stream_codec,
                after.remote_shell,
                opened,
            )
            &&& after == (ControlDispatcher { remote_shell: after.remote_shell, ..before })
        },
        InboundCommand::RemoteTaskRun { request } => {
            let start = match result {
                Ok(DispatchAction::StartTask(start)) => Ok(start),
                Ok(_) => Ok(arbitrary()),
                Err(text) => Err(text),
            };
            &&& result matches Ok(action) ==> action is StartTask
            &&& task_started(
                before.remote_task,
                request,
                config.remote_task,
                at,
                after.remote_task,
                start,
            )
            &&& after == (ControlDispatcher { remote_task: after.remote_task, ..before })
        },
        InboundCommand::RemoteProbeRun { request } => {
            let start = match result {
                Ok(DispatchAction::StartProbe { request, start }) => Ok(start),
                Ok(_) => Ok(arbitrary()),
                Err(text) => Err(text),
            };
            &&& result matches Ok(action) ==> action is StartProbe && action->StartProbe_request
                == request
            &&& probe_started(
                before.remote_jobs.probe.rate_state@,
                request,
                config.remote_probe,
                now,
                after.remote_jobs.probe.rate_state@,
                start,
            )
            &&& after.remote_jobs.probe.scheduler_state
                == before.remote_jobs.probe.scheduler_state
            &&& after == (ControlDispatcher { remote_jobs: after.remote_jobs, ..before })
        },
        InboundCommand::JobApply { request } => {
            &&& checks(result, apply_error(request))
            &&& result is Err ==> after == before
            &&& result matches Ok(action) ==> action is Jobs && exists|apply: RemoteJobApply|
                #![trigger asks_for(apply, request)]
                asks_for(apply, request) && carried_out(
                    before.remote_jobs.probe.scheduler_state,
                    apply,
                    after.remote_jobs.probe.scheduler_state,
                    action->Jobs_0,
                )
            &&& after.remote_jobs.probe.rate_state == before.remote_jobs.probe.rate_state
            &&& after == (ControlDispatcher { remote_jobs: after.remote_jobs, ..before })
        },
        InboundCommand::SnapshotRequest { reason } => {
            &&& after == before
            &&& checks(
                result,
                if config.report.enabled {
                    None
                } else {
                    Some("reporting is disabled"@)
                },
            )
            &&& result matches Ok(action) ==> action == DispatchAction::<C>::Report(
                ReporterCommand::ForceSnapshot { reason },
            )
        },
    }
}

impl ControlDispatcher {
    /// State behind the commands.
    pub fn new(
        remote_shell: RemoteShellManager,
        remote_task: RemoteTaskManager,
        remote_jobs: RemoteJobManager,
        diagnostics: DiagnosticOptions,
    ) -> (dispatcher: ControlDispatcher)
        ensures
            dispatcher == (ControlDispatcher {
                remote_shell,
                remote_task,
                remote_jobs,
                diagnostics,
            }),
    {
        ControlDispatcher { remote_shell, remote_task, remote_jobs, diagnostics }
    }

    /// Decides what a command leads to. `checked` is the outcome of the check of the options of
    /// the single sample that the command asks for; other commands do not read it.
    pub fn dispatch_command<C: RemoteShellStreamCodec>(
        &mut self,
        command: InboundCommand<C>,
        config: &AgentConfig,
        checked: Result<(), String>,
        at: u64,
        now: Moment,
    ) -> (result: Result<DispatchAction<C>, String>)
        requires
            old(self).remote_jobs.probe.scheduler_state.wf(),
        ensures
            final(self).remote_jobs.probe.scheduler_state.wf(),
            old(self).remote_jobs.probe.rate_state@.wf()
                ==> final(self).remote_jobs.probe.rate_state@.wf(),
            dispatched(*old(self), command, *config, checked, at, now, *final(self), result),
    {
        match command {
            InboundCommand::ConfigPatch { patch } => {
                match self.ensure_config_patch_allowed(&patch, config) {
                    Ok(_) => Ok(DispatchAction::ApplyPatch(patch)),
                    Err(text) => Err(text),
                }
            },
            InboundCommand::CollectProcessesOnce { level, limit } => {
                match self.resolve_process_command(level, limit, config, checked) {
                    Ok(command) => Ok(DispatchAction::Collect(command)),
                    Err(text) => Err(text),
                }
            },
            InboundCommand::CollectSocketsOnce { level, limit } => {
                match self.resolve_socket_command(level, limit, config, checked) {
                    Ok(command) => Ok(DispatchAction::Collect(command)),
                    Err(text) => Err(text),
                }
            },
            InboundCommand::RemoteShellOpen { request, stream_export_config, stream_codec } => {
                let export = match stream_export_config {
                    Some(export) => export,
                    None => config.export.clone(),
                };
                match self.remote_shell.open(
                    request,
                    &export,
                    &config.remote_shell,
                    &stream_codec,
                ) {
                    Ok(session) => Ok(DispatchAction::OpenShell { session, codec: stream_codec }),
                    Err(text) => Err(text),
                }
            },
            InboundCommand::RemoteTaskRun { request } => {
                match self.remote_task.start(request, &config.remote_task, at) {
                    Ok(start) => Ok(DispatchAction::StartTask(start)),
                    Err(text) => Err(text),
                }
            },
            InboundCommand::RemoteProbeRun { request } => {
                match self.remote_jobs.probe.rate_state.start_once(
                    &request,
                    &config.remote_probe,
                    now,
                ) {
                    Ok(start) => Ok(DispatchAction::StartProbe { request, start }),
                    Err(text) => Err(text),
                }
            },
            InboundCommand::JobApply { request } => {
                match self.remote_jobs.submit(request) {
                    Ok(work) => Ok(DispatchAction::Jobs(work)),
                    Err(text) => Err(text),
                }
            },
            InboundCommand::SnapshotRequest { reason } => {
                if !config.report.enabled {
                    return Err("reporting is disabled".to_owned());
                }
                Ok(DispatchAction::Report(ReporterCommand::ForceSnapshot { reason }))
            },
        }
    }

    /// Checks that a change of the configuration stays within the permissions.
    pub fn ensure_config_patch_allowed(&self, patch: &AgentConfigPatch, config: &AgentConfig) -> (checked:
        Result<(), String>)
        ensures
            checks(checked, patch_refusal(self.diagnostics, *config, *patch)),
    {
        let processes = changed_detail(config.processes, patch.processes);
        if processes.enabled && !(config.processes.enabled && config.processes.level
            == processes.level) && !self.diagnostics.process_permission.allows(processes.level) {
            return Err(
                level_refusal_text(
                    "process",
                    processes.level,
                    self.diagnostics.process_permission,
                ),
            );
        }
        let sockets = changed_detail(config.sockets, patch.sockets);
        if sockets.enabled && !(config.sockets.enabled && config.sockets.level == sockets.level)
            && !self.diagnostics.socket_permission.allows(sockets.level) {
            return Err(
                level_refusal_text("socket", sockets.level, self.diagnostics.socket_permission),
            );
        }
        Ok(())
    }

    /// Command for a single sample of the processes. `checked` is the outcome of the check of its
    /// options, which comes first.
    pub fn resolve_process_command(
        &self,
        level: Option<MetricLevel>,
        limit: Option<usize>,
        config: &AgentConfig,
        checked: Result<(), String>,
    ) -> (command: Result<CollectorCommand, String>)
        ensures
            checked matches Err(text) ==> command == Err::<CollectorCommand, String>(text),
            checks(
                command,
                sample_error(
                    checked,
                    "process"@,
                    changed(config.processes.level, level),
                    self.diagnostics.process_permission,
                ),
            ),
            command matches Ok(command) ==> command == (CollectorCommand::SampleProcessesOnce {
                level: changed(config.processes.level, level),
                limit: changed(config.processes.limit, limit),
            }),
    {
        let level = changed_value(config.processes.level, level);
        let limit: usize = changed_value(config.processes.limit, limit);
        if let Err(text) = checked {
            return Err(text);
        }
        if !self.diagnostics.process_permission.allows(level) {
            return Err(
                level_refusal_text("process", level, self.diagnostics.process_permission),
            );
        }
        Ok(CollectorCommand::SampleProcessesOnce { level, limit })
    }

    /// Command for a single sample of the sockets. `checked` is the outcome of the check of its
    /// options, which comes first.
    pub fn resolve_socket_command(
        &self,
        level: Option<MetricLevel>,
        limit: Option<usize>,
        config: &AgentConfig,
        checked: Result<(), String>,
    ) -> (command: Result<CollectorCommand, String>)
        ensures
            checked matches Err(text) ==> command == Err::<CollectorCommand, String>(text),
            checks(
                command,
                sample_error(
                    checked,
                    "socket"@,
                    changed(config.sockets.level, level),
                    self.diagnostics.socket_permission,
                ),
            ),
            command matches Ok(command) ==> command == (CollectorCommand::SampleSocketsOnce {
                level: changed(config.sockets.level, level),
                limit: changed(config.sockets.limit, limit),
            }),
    {
        let level = changed_value(config.sockets.level, level);
        let limit: usize = changed_value(config.sockets.limit, limit);
        if let Err(text) = checked {
            return Err(text);
        }
        if !self.diagnostics.socket_permission.allows(level) {
            return Err(level_refusal_text("socket", level, self.diagnostics.socket_permission));
        }
        Ok(CollectorCommand::SampleSocketsOnce { level, limit })
    }

    /// Takes a command with its answer apart and decides what it leads to. The answer follows
    /// when the outcome is known.
    pub fn dispatch<C: RemoteShellStreamCodec>(
        &mut self,
        envelope: InboundCommandEnvelope<C>,
        config: &AgentConfig,
        checked: Result<(), String>,
        at: u64,
        now: Moment,
    ) -> (dispatch: (PendingResponse, Result<DispatchAction<C>, String>))
        requires
            old(self).remote_jobs.probe.scheduler_state.wf(),
        ensures
            final(self).remote_jobs.probe.scheduler_state.wf(),
            old(self).remote_jobs.probe.rate_state@.wf()
                ==> final(self).remote_jobs.probe.rate_state@.wf(),
            dispatch.0.meta == envelope.meta,
            dispatch.0.command_name@ == command_name(envelope.command),
            dispatched(
                *old(self),
                envelope.command,
                *config,
                checked,
                at,
                now,
                *final(self),
                dispatch.1,
            ),
    {
        let pending = PendingResponse {
            meta: envelope.meta,
            command_name: envelope.command.name(),
        };
        let result = self.dispatch_command(envelope.command, config, checked, at, now);
        (pending, result)
    }
}

/// Answer that a command still owes.
#[derive(Debug)]
pub struct PendingResponse {
    /// What the answer refers to; absent where the server expects none.
    pub meta: Option<ServerCommandMeta>,
    /// Name of the command.
    pub command_name: &'static str,
}

/// Whether an event is the answer that a command owes.
pub open spec fn answers(
    pending: PendingResponse,
    outcome: Result<(), String>,
    agent_id: String,
    sequence: u64,
    created_at: u64,
    response: Option<OutboundEvent>,
) -> bool {
    match (pending.meta, outcome) {
        (None, _) => response is None,
        (Some(meta), Ok(_)) => response == Some(
            OutboundEvent::ControlAck(
                ControlAckEnvelope {
                    agent_id,
                    sequence,
                    created_at,
                    ack: Ack { sequence: meta.sequence },
                },
            ),
        ),
        (Some(meta), Err(text)) => {
            &&& response matches Some(OutboundEvent::ControlError(envelope))
            &&& envelope.agent_id == agent_id
            &&& envelope.sequence == sequence
            &&& envelope.created_at == created_at
            &&& envelope.error.sequence == Some(meta.sequence)
            &&& envelope.error.code@ == pending.command_name@ + "_failed"@
            &&& envelope.error.message == text
        },
    }
}

impl PendingResponse {
    /// Answer to a command: a confirmation, or an error that says why it failed. A command
    /// without a number is not answered.
    pub fn queue_control_response(
        &self,
        outcome: &Result<(), String>,
        agent_id: &String,
        sequence: u64,
        created_at: u64,
    ) -> (response: Option<OutboundEvent>)
        ensures
            answers(*self, *outcome, *agent_id, sequence, created_at, response),
    {
        match self.meta {
            None => None,
            Some(meta) => match outcome {
                Ok(_) => Some(
                    OutboundEvent::ControlAck(
                        ControlAckEnvelope {
                            agent_id: agent_id.clone(),
                            sequence,
                            created_at,
                            ack: Ack { sequence: meta.sequence },
                        },
                    ),
                ),
                Err(text) => Some(
                    OutboundEvent::ControlError(
                        ControlErrorEnvelope {
                            agent_id: agent_id.clone(),
                            sequence,
                            created_at,
                            error: ProtocolError {
                                sequence: Some(meta.sequence),
                                code: self.command_name.to_owned().concat("_failed"),
                                message: text.clone(),
                            },
                        },
                    ),
                ),
            },
        }
    }
}

/// Outcome of handing something to a bounded queue without waiting.
#[derive(Debug, Clone, Copy, PartialEq, Eq, Structural)]
pub enum QueueOutcome {
    /// The queue took it.
    Queued,
    /// The queue is full.
    Full,
    /// Nobody receives any more.
    Closed,
}

/// What is wrong where the collector's queue did not take a command.
pub open spec fn collector_queue_error(outcome: QueueOutcome) -> Option<Seq<char>> {
    match outcome {
        QueueOutcome::Queued => None,
        QueueOutcome::Full => Some("collector command queue is full"@),
        QueueOutcome::Closed => Some("collector command channel is closed"@),
    }
}

/// Outcome of a command for the collector.
pub fn collector_queue_result(outcome: QueueOutcome) -> (result: Result<(), String>)
    ensures
        checks(result, collector_queue_error(outcome)),
{
    match outcome {
        QueueOutcome::Queued => Ok(()),
        QueueOutcome::Full => Err("collector command queue is full".to_owned()),
        QueueOutcome::Closed => Err("collector command channel is closed".to_owned()),
    }
}

/// What is wrong where the reporter's queue did not take a command.
pub open spec fn reporter_queue_error(outcome: QueueOutcome) -> Option<Seq<char>> {
    match outcome {
        QueueOutcome::Queued => None,
        QueueOutcome::Full => Some("reporter command queue is full"@),
        QueueOutcome::Closed => Some("reporter command channel is closed"@),
    }
}

/// Outcome of a command for the reporter.
pub fn reporter_queue_result(outcome: QueueOutcome) -> (result: Result<(), String>)
    ensures
        checks(result, reporter_queue_error(outcome)),
{
    match outcome {
        QueueOutcome::Queued => Ok(()),
        QueueOutcome::Full => Err("reporter command queue is full".to_owned()),
        QueueOutcome::Closed => Err("reporter command channel is closed".to_owned()),
    }
}

/// What is wrong where the outbound queue did not take an answer.
pub open spec fn response_queue_error(outcome: QueueOutcome) -> Option<Seq<char>> {
    match outcome {
        QueueOutcome::Queued => None,
        QueueOutcome::Full => Some("outbound event queue is full"@),
        QueueOutcome::Closed => Some("outbound event queue is closed"@),
    }
}

/// Outcome of an answer.
pub fn control_response_queue_result(outcome: QueueOutcome) -> (result: Result<(), String>)
    ensures
        checks(result, response_queue_error(outcome)),
{
    match outcome {
        QueueOutcome::Queued => Ok(()),
        QueueOutcome::Full => Err("outbound event queue is full".to_owned()),
        QueueOutcome::Closed => Err("outbound event queue is closed".to_owned()),
    }
}

/// Every command with a number is answered, and answers leave before reports; a command without
/// a number is not answered.
pub proof fn law_numbered_commands_are_answered(
    pending: PendingResponse,
    outcome: Result<(), String>,
    agent_id: String,
    sequence: u64,
    created_at: u64,
    response: Option<OutboundEvent>,
)
    requires
        answers(pending, outcome, agent_id, sequence, created_at, response),
    ensures
        response is Some <==> pending.meta is Some,
        response matches Some(event) ==> event.has_priority() && event.number() == sequence,
        response matches Some(event) ==> (event is ControlError <==> outcome is Err),
{
}

/// The server never gets more detail than the start arguments allow: not by a single sample, and
/// not by a change of the configuration. A single sample is taken only where its options passed
/// the check.
pub proof fn law_permissions_hold<C: RemoteShellStreamCodec>(
    before: ControlDispatcher,
    command: InboundCommand<C>,
    config: AgentConfig,
    checked: Result<(), String>,
    at: u64,
    now: Moment,
    after: ControlDispatcher,
    action: DispatchAction<C>,
)
    requires
        dispatched(
            before,
            command,
            config,
            checked,
            at,
            now,
            after,
            Ok::<DispatchAction<C>, String>(action),
        ),
    ensures
        after.diagnostics == before.diagnostics,
        action is Collect ==> checked is Ok && sample_asked(command, config) == Some(
            action->Collect_0,
        ),
        action matches DispatchAction::Collect(
            CollectorCommand::SampleProcessesOnce { level, limit },
        ) ==> before.diagnostics.process_permission.covers(level),
        action matches DispatchAction::Collect(
            CollectorCommand::SampleSocketsOnce { level, limit },
        ) ==> before.diagnostics.socket_permission.covers(level),
        action matches DispatchAction::ApplyPatch(patch) ==> {
            let processes = detail_after(config.processes, patch.processes);
            let sockets = detail_after(config.sockets, patch.sockets);
            &&& newly_sampled(config.processes, processes)
                ==> before.diagnostics.process_permission.covers(processes.level)
            &&& newly_sampled(config.sockets, sockets)
                ==> before.diagnostics.socket_permission.covers(sockets.level)
        },
{
}

/// A refused command changes nothing: no session, task, probe or recurring job.
pub proof fn law_refused_command_changes_nothing<C: RemoteShellStreamCodec>(
    before: ControlDispatcher,
    command: InboundCommand<C>,
    config: AgentConfig,
    checked: Result<(), String>,
    at: u64,
    now: Moment,
    after: ControlDispatcher,
    text: String,
)
    requires
        dispatched(
            before,
            command,
            config,
            checked,
            at,
            now,
            after,
            Err::<DispatchAction<C>, String>(text),
        ),
    ensures
        after.remote_shell == before.remote_shell,
        after.remote_task == before.remote_task,
        after.remote_jobs.probe.scheduler_state == before.remote_jobs.probe.scheduler_state,
        after.remote_jobs.probe.rate_state@ == before.remote_jobs.probe.rate_state@,
        after.diagnostics == before.diagnostics,
{
}

/// A single sample is taken with the options of the command, or those of the configuration where
/// it names none, exactly where its options passed the check and the permission reaches up to the
/// amount of detail. An option that did not pass is told as it is.
pub proof fn law_single_samples<C: RemoteShellStreamCodec>(
    before: ControlDispatcher,
    command: InboundCommand<C>,
    config: AgentConfig,
    checked: Result<(), String>,
    at: u64,
    now: Moment,
    after: ControlDispatcher,
    result: Result<DispatchAction<C>, String>,
)
    requires
        dispatched(before, command, config, checked, at, now, after, result),
    ensures
        command matches InboundCommand::CollectProcessesOnce { level, limit } ==> {
            let detail = if level is Some {
                level->0
            } else {
                config.processes.level
            };
            let most = if limit is Some {
                limit->0
            } else {
                config.processes.limit
            };
            &&& checked is Ok && reach(before.diagnostics.process_permission) >= detail_amount(
                detail,
            ) ==> result == Ok::<DispatchAction<C>, String>(
                DispatchAction::Collect(
                    CollectorCommand::SampleProcessesOnce { level: detail, limit: most },
                ),
            )
            &&& checked matches Err(text) ==> result is Err && result->Err_0@ == text@
            &&& reach(before.diagnostics.process_permission) < detail_amount(detail) ==> result
                is Err
        },
        command matches InboundCommand::CollectSocketsOnce { level, limit } ==> {
            let detail = if level is Some {
                level->0
            } else {
                config.sockets.level
            };
            let most = if limit is Some {
                limit->0
            } else {
                config.sockets.limit
            };
            &&& checked is Ok && reach(before.diagnostics.socket_permission) >= detail_amount(
                detail,
            ) ==> result == Ok::<DispatchAction<C>, String>(
                DispatchAction::Collect(
                    CollectorCommand::SampleSocketsOnce { level: detail, limit: most },
                ),
            )
            &&& checked matches Err(text) ==> result is Err && result->Err_0@ == text@
            &&& reach(before.diagnostics.socket_permission) < detail_amount(detail) ==> result
                is Err
        },
{
}

/// A change of the configuration is carried out as it was asked for, unless it switches the
/// sampling of processes or sockets on, or to another amount of detail, beyond the permission.
/// What is sampled already is not limited, and neither are the other values.
pub proof fn law_configuration_changes_within_permissions<C: RemoteShellStreamCodec>(
    before: ControlDispatcher,
    patch: AgentConfigPatch,
    config: AgentConfig,
    checked: Result<(), String>,
    at: u64,
    now: Moment,
    after: ControlDispatcher,
    result: Result<DispatchAction<C>, String>,
)
    requires
        dispatched(
            before,
            InboundCommand::ConfigPatch { patch },
            config,
            checked,
            at,
            now,
            after,
            result,
        ),
    ensures
        ({
            let processes = config_after(config, patch).processes;
            let sockets = config_after(config, patch).sockets;
            let more_processes = processes.enabled && (!config.processes.enabled
                || config.processes.level != processes.level) && reach(
                before.diagnostics.process_permission,
            ) < detail_amount(processes.level);
            let more_sockets = sockets.enabled && (!config.sockets.enabled || config.sockets.level
                != sockets.level) && reach(before.diagnostics.socket_permission) < detail_amount(
                sockets.level,
            );
            &&& result is Err <==> more_processes || more_sockets
            &&& result matches Ok(action) ==> action == DispatchAction::<C>::ApplyPatch(patch)
            &&& after == before
        }),
{
}

/// A snapshot is asked of the reporter with its reason exactly where reports are switched on.
pub proof fn law_snapshot_requests<C: RemoteShellStreamCodec>(
    before: ControlDispatcher,
    reason: Option<String>,
    config: AgentConfig,
    checked: Result<(), String>,
    at: u64,
    now: Moment,
    after: ControlDispatcher,
    result: Result<DispatchAction<C>, String>,
)
    requires
        dispatched(
            before,
            InboundCommand::SnapshotRequest { reason },
            config,
            checked,
            at,
            now,
            after,
            result,
        ),
    ensures
        config.report.enabled ==> result == Ok::<DispatchAction<C>, String>(
            DispatchAction::Report(ReporterCommand::ForceSnapshot { reason }),
        ),
        !config.report.enabled ==> result is Err && result->Err_0@ == "reporting is disabled"@,
        after == before,
{
}

/// The answer to a command names the command's own number: a confirmation where it succeeded, else
/// an error that carries the reason and the name of the command.
pub proof fn law_answers_name_the_command(
    pending: PendingResponse,
    outcome: Result<(), String>,
    agent_id: String,
    sequence: u64,
    created_at: u64,
    response: Option<OutboundEvent>,
    meta: ServerCommandMeta,
)
    requires
        answers(pending, outcome, agent_id, sequence, created_at, response),
        pending.meta == Some(meta),
    ensures
        match outcome {
            Ok(_) => response matches Some(OutboundEvent::ControlAck(envelope))
                && envelope.ack.sequence == meta.sequence && envelope.agent_id == agent_id
                && envelope.sequence == sequence && envelope.created_at == created_at,
            Err(text) => response matches Some(OutboundEvent::ControlError(envelope))
                && envelope.error.sequence == Some(meta.sequence) && envelope.error.message == text
                && envelope.error.code@ == pending.command_name@ + "_failed"@ && envelope.agent_id
                == agent_id && envelope.sequence == sequence && envelope.created_at == created_at,
        },
{
}

/// A queue that took something is no failure; a full one and a closed one are, each with its own
/// text.
pub proof fn law_queue_outcomes(outcome: QueueOutcome)
    ensures
        collector_queue_error(outcome) is None <==> outcome == QueueOutcome::Queued,
        reporter_queue_error(outcome) is None <==> outcome == QueueOutcome::Queued,
        response_queue_error(outcome) is None <==> outcome == QueueOutcome::Queued,
        outcome == QueueOutcome::Full ==> collector_queue_error(outcome) == Some(
            "collector command queue is full"@,
        ) && reporter_queue_error(outcome) == Some("reporter command queue is full"@)
            && response_queue_error(outcome) == Some("outbound event queue is full"@),
        outcome == QueueOutcome::Closed ==> collector_queue_error(outcome) == Some(
            "collector command channel is closed"@,
        ) && reporter_queue_error(outcome) == Some("reporter command channel is closed"@)
            && response_queue_error(outcome) == Some("outbound event queue is closed"@),
{
}

/// A session is opened within the limits of the configuration, over the connection that the
/// command brings along or else over the main one, and keeps the conversion of its messages.
pub proof fn law_sessions_use_their_connection<C: RemoteShellStreamCodec>(
    before: ControlDispatcher,
    request: RemoteShellOpenRequest,
    own: Option<ExportConfig>,
    conversion: C,
    config: AgentConfig,
    checked: Result<(), String>,
    at: u64,
    now: Moment,
    after: ControlDispatcher,
    result: Result<DispatchAction<C>, String>,
)
    requires
        dispatched(
            before,
            InboundCommand::RemoteShellOpen {
                request,
                stream_export_config: own,
                stream_codec: conversion,
            },
            config,
            checked,
            at,
            now,
            after,
            result,
        ),
    ensures
        result is Ok <==> before.remote_shell.options.enabled && open_error(request) is None
            && before.remote_shell.active_sessions < config.remote_shell.max_sessions,
        result matches Ok(action) ==> match action {
            DispatchAction::OpenShell { session, codec } => {
                &&& codec == conversion
                &&& session.request == request
                &&& session.shell_config == config.remote_shell
                &&& adapted_by(
                    conversion,
                    if own is Some {
                        own->0
                    } else {
                        config.export
                    },
                    request.stream_url@,
                    session.stream_config,
                )
                &&& after.remote_shell.active_sessions == before.remote_shell.active_sessions + 1
            },
            _ => false,
        },
        after.remote_task == before.remote_task,
        after.remote_jobs == before.remote_jobs,
{
}

/// Tasks and probes are started with the limits of the configuration, and each command touches
/// only its own part of the state.
pub proof fn law_commands_reach_their_part<C: RemoteShellStreamCodec>(
    before: ControlDispatcher,
    command: InboundCommand<C>,
    config: AgentConfig,
    checked: Result<(), String>,
    at: u64,
    now: Moment,
    after: ControlDispatcher,
    action: DispatchAction<C>,
)
    requires
        dispatched(
            before,
            command,
            config,
            checked,
            at,
            now,
            after,
            Ok::<DispatchAction<C>, String>(action),
        ),
    ensures
        match action {
            DispatchAction::ApplyPatch(_) => command is ConfigPatch,
            DispatchAction::Collect(_) => command is CollectProcessesOnce || command
                is CollectSocketsOnce,
            DispatchAction::Report(_) => command is SnapshotRequest,
            DispatchAction::OpenShell { .. } => command is RemoteShellOpen,
            DispatchAction::StartTask(start) => command is RemoteTaskRun && task_started(
                before.remote_task,
                command->RemoteTaskRun_request,
                config.remote_task,
                at,
                after.remote_task,
                Ok(start),
            ),
            DispatchAction::StartProbe { request, start } => command is RemoteProbeRun
                && command->RemoteProbeRun_request == request && probe_started(
                before.remote_jobs.probe.rate_state@,
                request,
                config.remote_probe,
                now,
                after.remote_jobs.probe.rate_state@,
                Ok(start),
            ),
            DispatchAction::Jobs(_) => command is JobApply && apply_error(
                command->JobApply_request,
            ) is None,
        },
        !(command is RemoteShellOpen) ==> after.remote_shell == before.remote_shell,
        !(command is RemoteTaskRun) ==> after.remote_task == before.remote_task,
        !(command is JobApply) ==> after.remote_jobs.probe.scheduler_state
            == before.remote_jobs.probe.scheduler_state,
        !(command is RemoteProbeRun) ==> after.remote_jobs.probe.rate_state
            == before.remote_jobs.probe.rate_state,
{
}

} // verus!
