//! Messages of the server in the agent's own protocol.

use crate::service::config::{optional_view, MetricLevel};
use crate::service::inbound::{InboundCommand, InboundCommandEnvelope, ServerCommandMeta};
use crate::service::patch::AgentConfigPatch;
use crate::service::protocol::{Ack, ProtocolError, RemoteJobApplyRequest};
use crate::service::remote::probe::RemoteProbeExecutionRequest;
use crate::service::remote::shell::message::RemoteShellOpenRequest;
use crate::service::remote::shell::stream::SmaluxShellCodec;
use crate::service::remote::task::RemoteTaskRunRequest;
use vstd::prelude::*;

verus! {

/// Content of a message of the server.
#[derive(Debug)]
pub enum ServerPayload {
    /// Send all metrics as soon as possible.
    SnapshotRequest {
        /// Why they are wanted.
        reason: Option<String>,
    },
    /// Confirmation of a message of the agent.
    Ack {
        /// The confirmation.
        ack: Ack,
    },
    /// Complaint about a message of the agent.
    Error {
        /// The complaint.
        error: ProtocolError,
    },
    /// Change of the configuration, or why it cannot be read.
    ConfigPatch {
        /// The change.
        patch: Result<AgentConfigPatch, String>,
    },
    /// Sample the processes once.
    CollectProcessesOnce {
        /// Amount of detail.
        level: Option<MetricLevel>,
        /// Largest number of listed items.
        limit: Option<usize>,
    },
    /// Sample the sockets once.
    CollectSocketsOnce {
        /// Amount of detail.
        level: Option<MetricLevel>,
        /// Largest number of listed items.
        limit: Option<usize>,
    },
    /// Run a task.
    RemoteTaskRun {
        /// The request.
        request: RemoteTaskRunRequest,
    },
    /// Run a probe.
    RemoteProbeRun {
        /// The request.
        request: RemoteProbeExecutionRequest,
    },
    /// Change the recurring jobs, or run some once.
    JobApply {
        /// The request.
        request: RemoteJobApplyRequest,
    },
    /// Open an interactive session.
    RemoteShellOpen {
        /// The request.
        request: RemoteShellOpenRequest,
    },
}

/// Message of the server.
#[derive(Debug)]
pub struct ServerFrame {
    /// Agent that the message is for; any where absent.
    pub target_agent_id: Option<String>,
    /// Number of the message.
    pub sequence: u64,
    /// Content.
    pub payload: ServerPayload,
}

/// Whether a message is for an agent.
pub open spec fn addressed_to(target: Option<Seq<char>>, agent_id: Seq<char>) -> bool {
    target matches Some(target) ==> target == agent_id
}

/// Whether a message is for an agent.
pub fn target_matches(target_agent_id: &Option<String>, agent_id: &String) -> (matches: bool)
    ensures
        matches == addressed_to(optional_view(*target_agent_id), agent_id@),
{
    match target_agent_id {
        Some(target) => *target == *agent_id,
        None => true,
    }
}

/// Command in a message, where there is one.
pub open spec fn payload_command(payload: ServerPayload) -> Result<
    Option<InboundCommand<SmaluxShellCodec>>,
    String,
> {
    match payload {
        ServerPayload::SnapshotRequest { reason } => Ok(
            Some(InboundCommand::SnapshotRequest { reason }),
        ),
        ServerPayload::Ack { .. } => Ok(None),
        ServerPayload::Error { .. } => Ok(None),
        ServerPayload::ConfigPatch { patch } => match patch {
            Ok(patch) => Ok(Some(InboundCommand::ConfigPatch { patch })),
            Err(text) => Err(text),
        },
        ServerPayload::CollectProcessesOnce { level, limit } => Ok(
            Some(InboundCommand::CollectProcessesOnce { level, limit }),
        ),
        ServerPayload::CollectSocketsOnce { level, limit } => Ok(
            Some(InboundCommand::CollectSocketsOnce { level, limit }),
        ),
        ServerPayload::RemoteTaskRun { request } => Ok(
            Some(InboundCommand::RemoteTaskRun { request }),
        ),
        ServerPayload::RemoteProbeRun { request } => Ok(
            Some(InboundCommand::RemoteProbeRun { request }),
        ),
        ServerPayload::JobApply { request } => Ok(Some(InboundCommand::JobApply { request })),
        ServerPayload::RemoteShellOpen { request } => Ok(
            Some(
                InboundCommand::RemoteShellOpen {
                    request,
                    stream_export_config: None,
                    stream_codec: SmaluxShellCodec,
                },
            ),
        ),
    }
}

/// Command in a message. What is no message of the agent's own protocol, or is for another agent,
/// is passed over; so are confirmations and complaints. Every other message is a command that is
/// answered under the message's number.
pub fn decode_message(frame: Option<ServerFrame>, agent_id: &String) -> (decoded: Result<
    Option<InboundCommandEnvelope<SmaluxShellCodec>>,
    String,
>)
    ensures
        match frame {
            None => decoded == Ok::<Option<InboundCommandEnvelope<SmaluxShellCodec>>, String>(None),
            Some(frame) => if addressed_to(optional_view(frame.target_agent_id), agent_id@) {
                decoded == (match payload_command(frame.payload) {
                    Ok(Some(command)) => Ok::<
                        Option<InboundCommandEnvelope<SmaluxShellCodec>>,
                        String,
                    >(
                        Some(
                            InboundCommandEnvelope {
                                command,
                                meta: Some(ServerCommandMeta { sequence: frame.sequence }),
                            },
                        ),
                    ),
                    Ok(None) => Ok(None),
                    Err(text) => Err(text),
                })
            } else {
                decoded == Ok::<Option<InboundCommandEnvelope<SmaluxShellCodec>>, String>(None)
            },
        },
{
    let frame = match frame {
        Some(frame) => frame,
        None => {
            return Ok(None);
        },
    };
    if !target_matches(&frame.target_agent_id, agent_id) {
        return Ok(None);
    }
    let command = match frame.payload {
        ServerPayload::SnapshotRequest { reason } => InboundCommand::SnapshotRequest { reason },
        ServerPayload::Ack { .. } => {
            return Ok(None);
        },
        ServerPayload::Error { .. } => {
            return Ok(None);
        },
        ServerPayload::ConfigPatch { patch } => match patch {
            Ok(patch) => InboundCommand::ConfigPatch { patch },
            Err(text) => {
                return Err(text);
            },
        },
        ServerPayload::CollectProcessesOnce { level, limit } => {
            InboundCommand::CollectProcessesOnce { level, limit }
        },
        ServerPayload::CollectSocketsOnce { level, limit } => {
            InboundCommand::CollectSocketsOnce { level, limit }
        },
        ServerPayload::RemoteTaskRun { request } => InboundCommand::RemoteTaskRun { request },
        ServerPayload::RemoteProbeRun { request } => InboundCommand::RemoteProbeRun { request },
        ServerPayload::JobApply { request } => InboundCommand::JobApply { request },
        ServerPayload::RemoteShellOpen { request } => InboundCommand::RemoteShellOpen {
            request,
            stream_export_config: None,
            stream_codec: SmaluxShellCodec,
        },
    };
    Ok(Some(InboundCommandEnvelope::with_response(command, frame.sequence)))
}

/// Whether a message names no other agent.
pub open spec fn for_agent(frame: ServerFrame, agent_id: String) -> bool {
    match frame.target_agent_id {
        Some(target) => target@ == agent_id@,
        None => true,
    }
}

/// Only messages for this agent are taken, and of these every one but confirmations, complaints
/// and changes that cannot be read becomes a command. It is answered under the number of the
/// message.
pub proof fn law_messages_become_commands(
    frame: Option<ServerFrame>,
    agent_id: String,
    decoded: Result<Option<InboundCommandEnvelope<SmaluxShellCodec>>, String>,
)
    requires
        call_ensures(decode_message, (frame, &agent_id), decoded),
    ensures
        decoded matches Ok(Some(envelope)) ==> {
            &&& frame is Some && for_agent(frame->0, agent_id)
            &&& envelope.meta matches Some(meta) && meta.sequence == frame->0.sequence
        },
        frame is Some && for_agent(frame->0, agent_id) ==> match frame->0.payload {
            ServerPayload::Ack { .. } => decoded is Ok && decoded->Ok_0 is None,
            ServerPayload::Error { .. } => decoded is Ok && decoded->Ok_0 is None,
            ServerPayload::ConfigPatch { patch: Err(text) } => decoded is Err && decoded->Err_0
                == text,
            _ => decoded is Ok && decoded->Ok_0 is Some,
        },
        !(frame is Some && for_agent(frame->0, agent_id)) ==> decoded is Ok && decoded->Ok_0
            is None,
{
}

/// A command carries what the message carried.
pub proof fn law_commands_carry_the_message(
    frame: ServerFrame,
    agent_id: String,
    decoded: Result<Option<InboundCommandEnvelope<SmaluxShellCodec>>, String>,
)
    requires
        call_ensures(decode_message, (Some(frame), &agent_id), decoded),
        decoded is Ok && decoded->Ok_0 is Some,
    ensures
        match decoded->Ok_0->0.command {
            InboundCommand::SnapshotRequest { reason } => frame.payload == (
            ServerPayload::SnapshotRequest { reason }),
            InboundCommand::ConfigPatch { patch } => frame.payload == (
            ServerPayload::ConfigPatch { patch: Ok(patch) }),
            InboundCommand::CollectProcessesOnce { level, limit } => frame.payload == (
            ServerPayload::CollectProcessesOnce { level, limit }),
            InboundCommand::CollectSocketsOnce { level, limit } => frame.payload == (
            ServerPayload::CollectSocketsOnce { level, limit }),
            InboundCommand::RemoteTaskRun { request } => frame.payload == (
            ServerPayload::RemoteTaskRun { request }),
            InboundCommand::RemoteProbeRun { request } => frame.payload == (
            ServerPayload::RemoteProbeRun { request }),
            InboundCommand::JobApply { request } => frame.payload == (
            ServerPayload::JobApply { request }),
            InboundCommand::RemoteShellOpen { request, stream_export_config, .. } => {
                &&& frame.payload == (ServerPayload::RemoteShellOpen { request })
                &&& stream_export_config is None
            },
            _ => false,
        },
{
}

} // verus!
