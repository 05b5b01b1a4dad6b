//! Outbound events: what they carry, how they are numbered and in which order they leave.

use crate::service::protocol::{
    Ack, OutboundReport, ProtocolError, RemoteJobResult, RemoteTaskResult,
};
use std::sync::atomic::{AtomicU64, Ordering};
use std::sync::Arc;
use vstd::prelude::*;

verus! {

/// Events that wait for their turn on the normal lane.
pub const OUTBOUND_NORMAL_QUEUE_CAPACITY: usize = 256;

/// Events that wait for their turn on the priority lane.
pub const OUTBOUND_PRIORITY_QUEUE_CAPACITY: usize = 128;

/// Seconds that a sender waits for room on a lane.
pub const OUTBOUND_SEND_TIMEOUT_SECONDS: u64 = 5;

/// Report on its way to the server.
#[derive(Debug)]
pub struct ReportEnvelope {
    /// Sequence number of the report.
    pub sequence: u64,
    /// Creation time, in Unix seconds.
    pub created_at: u64,
    /// The report.
    pub outbound: OutboundReport,
}

impl Clone for ReportEnvelope {
    fn clone(&self) -> (copy: Self)
        ensures
            copy == *self,
    {
        ReportEnvelope {
            sequence: self.sequence,
            created_at: self.created_at,
            outbound: self.outbound.clone(),
        }
    }
}

impl ReportEnvelope {
    /// Envelope of a report, numbered and dated as the report is.
    pub fn from_outbound(outbound: OutboundReport) -> (envelope: ReportEnvelope)
        ensures
            envelope == (ReportEnvelope {
                sequence: outbound.sequence,
                created_at: outbound.created_at,
                outbound,
            }),
    {
        ReportEnvelope { sequence: outbound.sequence, created_at: outbound.created_at, outbound }
    }
}

/// Basic information on its way to the server. Its values stay with the runtime, which finds
/// them by number.
#[derive(Debug, Clone, Copy, PartialEq, Eq, Structural)]
pub struct BasicInfoEnvelope {
    /// Sequence number.
    pub sequence: u64,
    /// Creation time, in Unix seconds.
    pub created_at: u64,
    /// Number of the values.
    pub report: u64,
}

/// Result of a remote task on its way to the server.
#[derive(Debug)]
pub struct RemoteTaskResultEnvelope {
    /// Identity of the agent.
    pub agent_id: String,
    /// Sequence number.
    pub sequence: u64,
    /// Creation time, in Unix seconds.
    pub created_at: u64,
    /// The result.
    pub result: RemoteTaskResult,
}

impl Clone for RemoteTaskResultEnvelope {
    fn clone(&self) -> (copy: Self)
        ensures
            copy == *self,
    {
        RemoteTaskResultEnvelope {
            agent_id: self.agent_id.clone(),
            sequence: self.sequence,
            created_at: self.created_at,
            result: self.result.clone(),
        }
    }
}

/// Result of a remote job on its way to the server.
#[derive(Debug)]
pub struct RemoteJobResultEnvelope {
    /// Identity of the agent.
    pub agent_id: String,
    /// Sequence number.
    pub sequence: u64,
    /// Creation time, in Unix seconds.
    pub created_at: u64,
    /// The result.
    pub result: RemoteJobResult,
}

impl Clone for RemoteJobResultEnvelope {
    fn clone(&self) -> (copy: Self)
        ensures
            copy == *self,
    {
        RemoteJobResultEnvelope {
            agent_id: self.agent_id.clone(),
            sequence: self.sequence,
            created_at: self.created_at,
            result: self.result.clone(),
        }
    }
}

/// Confirmation of a command on its way to the server.
#[derive(Debug)]
pub struct ControlAckEnvelope {
    /// Identity of the agent.
    pub agent_id: String,
    /// Sequence number.
    pub sequence: u64,
    /// Creation time, in Unix seconds.
    pub created_at: u64,
    /// The confirmation.
    pub ack: Ack,
}

impl Clone for ControlAckEnvelope {
    fn clone(&self) -> (copy: Self)
        ensures
            copy == *self,
    {
        ControlAckEnvelope {
            agent_id: self.agent_id.clone(),
            sequence: self.sequence,
            created_at: self.created_at,
            ack: self.ack,
        }
    }
}

/// Failure of a command on its way to the server.
#[derive(Debug)]
pub struct ControlErrorEnvelope {
    /// Identity of the agent.
    pub agent_id: String,
    /// Sequence number.
    pub sequence: u64,
    /// Creation time, in Unix seconds.
    pub created_at: u64,
    /// The failure.
    pub error: ProtocolError,
}

impl Clone for ControlErrorEnvelope {
    fn clone(&self) -> (copy: Self)
        ensures
            copy == *self,
    {
        ControlErrorEnvelope {
            agent_id: self.agent_id.clone(),
            sequence: self.sequence,
            created_at: self.created_at,
            error: self.error.clone(),
        }
    }
}

/// Event to send to the server.
#[derive(Debug)]
pub enum OutboundEvent {
    /// Report.
    Report(ReportEnvelope),
    /// Basic information.
    BasicInfo(BasicInfoEnvelope),
    /// Confirmation of a command.
    ControlAck(ControlAckEnvelope),
    /// Failure of a command.
    ControlError(ControlErrorEnvelope),
    /// Result of a remote task.
    RemoteTaskResult(RemoteTaskResultEnvelope),
    /// Result of a remote job.
    RemoteJobResult(RemoteJobResultEnvelope),
}

impl Clone for OutboundEvent {
    fn clone(&self) -> (copy: Self)
        ensures
            copy == *self,
    {
        match self {
            OutboundEvent::Report(report) => OutboundEvent::Report(report.clone()),
            OutboundEvent::BasicInfo(info) => OutboundEvent::BasicInfo(*info),
            OutboundEvent::ControlAck(ack) => OutboundEvent::ControlAck(ack.clone()),
            OutboundEvent::ControlError(error) => OutboundEvent::ControlError(error.clone()),
            OutboundEvent::RemoteTaskResult(result) => OutboundEvent::RemoteTaskResult(
                result.clone(),
            ),
            OutboundEvent::RemoteJobResult(result) => OutboundEvent::RemoteJobResult(
                result.clone(),
            ),
        }
    }
}

impl OutboundEvent {
    /// Whether a server may be waiting for this event.
    pub open spec fn has_priority(self) -> bool {
        !(self is Report || self is BasicInfo)
    }

    /// Sequence number of this event.
    pub open spec fn number(self) -> u64 {
        match self {
            OutboundEvent::Report(report) => report.sequence,
            OutboundEvent::BasicInfo(info) => info.sequence,
            OutboundEvent::ControlAck(ack) => ack.sequence,
            OutboundEvent::ControlError(error) => error.sequence,
            OutboundEvent::RemoteTaskResult(result) => result.sequence,
            OutboundEvent::RemoteJobResult(result) => result.sequence,
        }
    }

    /// Whether this event travels on the priority lane.
    pub fn is_priority(&self) -> (priority: bool)
        ensures
            priority == self.has_priority(),
    {
        match self {
            OutboundEvent::Report(_) => false,
            OutboundEvent::BasicInfo(_) => false,
            _ => true,
        }
    }

    /// Sequence number of this event.
    pub fn sequence(&self) -> (sequence: u64)
        ensures
            sequence == self.number(),
    {
        match self {
            OutboundEvent::Report(report) => report.sequence,
            OutboundEvent::BasicInfo(info) => info.sequence,
            OutboundEvent::ControlAck(ack) => ack.sequence,
            OutboundEvent::ControlError(error) => error.sequence,
            OutboundEvent::RemoteTaskResult(result) => result.sequence,
            OutboundEvent::RemoteJobResult(result) => result.sequence,
        }
    }

    /// Creation time of this event, in Unix seconds.
    pub fn created_at(&self) -> (created_at: u64)
        ensures
            created_at == (match *self {
                OutboundEvent::Report(report) => report.created_at,
                OutboundEvent::BasicInfo(info) => info.created_at,
                OutboundEvent::ControlAck(ack) => ack.created_at,
                OutboundEvent::ControlError(error) => error.created_at,
                OutboundEvent::RemoteTaskResult(result) => result.created_at,
                OutboundEvent::RemoteJobResult(result) => result.created_at,
            }),
    {
        match self {
            OutboundEvent::Report(report) => report.created_at,
            OutboundEvent::BasicInfo(info) => info.created_at,
            OutboundEvent::ControlAck(ack) => ack.created_at,
            OutboundEvent::ControlError(error) => error.created_at,
            OutboundEvent::RemoteTaskResult(result) => result.created_at,
            OutboundEvent::RemoteJobResult(result) => result.created_at,
        }
    }

    /// Stable name of this sort of event.
    pub fn kind(&self) -> (kind: &'static str)
        ensures
            kind@ == (match *self {
                OutboundEvent::Report(_) => "report"@,
                OutboundEvent::BasicInfo(_) => "basic_info"@,
                OutboundEvent::ControlAck(_) => "control_ack"@,
                OutboundEvent::ControlError(_) => "control_error"@,
                OutboundEvent::RemoteTaskResult(_) => "remote_task_result"@,
                OutboundEvent::RemoteJobResult(_) => "job_result"@,
            }),
    {
        match self {
            OutboundEvent::Report(_) => "report",
            OutboundEvent::BasicInfo(_) => "basic_info",
            OutboundEvent::ControlAck(_) => "control_ack",
            OutboundEvent::ControlError(_) => "control_error",
            OutboundEvent::RemoteTaskResult(_) => "remote_task_result",
            OutboundEvent::RemoteJobResult(_) => "job_result",
        }
    }
}

/// Sequence number that follows the last one given out; the largest number is given out again.
pub open spec fn following_number(last: u64) -> u64 {
    if last == u64::MAX {
        u64::MAX
    } else {
        (last + 1) as u64
    }
}

/// Sequence number that follows the last one given out.
pub fn sequence_after(last: u64) -> (next: u64)
    ensures
        next == following_number(last),
{
    last.saturating_add(1)
}

/// Source of sequence numbers. Clones share it.
#[derive(Debug, Clone)]
pub struct OutboundSequence {
    current: Arc<AtomicU64>,
}

impl Default for OutboundSequence {
    fn default() -> Self {
        OutboundSequence { current: Arc::new(AtomicU64::new(0)) }
    }
}

impl OutboundSequence {
    /// Next sequence number. Which number was given out last depends on what the other holders
    /// of the source did; the number that comes back is the one after it. That the source moves
    /// on to the number given out is not stated.
    pub fn next(&self) -> (number: u64)
        ensures
            exists|last: u64| number == following_number(last),
    {
        let last: u64 = self.current.fetch_add(1, Ordering::Relaxed);
        sequence_after(last)
    }
}

/// The number after another one is larger by one, until the largest is reached.
pub proof fn law_sequence_numbers_grow(last: u64)
    ensures
        last < u64::MAX ==> following_number(last) == last + 1,
        following_number(last) >= last,
        following_number(last) >= 1,
{
}

/// Why an event could not be handed over.
#[derive(Debug, Clone, Copy, PartialEq, Eq, Structural)]
pub enum OutboundSendErrorKind {
    /// Nobody receives any more.
    Closed,
    /// The lane had no room for too long.
    Timeout,
}

/// Event that could not be handed over.
#[derive(Debug)]
pub struct OutboundSendError {
    /// Why it could not be handed over.
    pub kind: OutboundSendErrorKind,
    /// The event.
    pub event: OutboundEvent,
}

impl OutboundSendError {
    /// Why the event could not be handed over.
    pub fn kind(&self) -> (kind: OutboundSendErrorKind)
        ensures
            kind == self.kind,
    {
        self.kind
    }

    /// The event.
    pub fn event(&self) -> (event: &OutboundEvent)
        ensures
            *event == self.event,
    {
        &self.event
    }

    /// Text of the failure.
    pub fn message(&self) -> (text: String)
        ensures
            text@ == send_error_text(self.kind),
    {
        match self.kind {
            OutboundSendErrorKind::Closed => "outbound event queue is closed".to_owned(),
            OutboundSendErrorKind::Timeout => "outbound event queue send timed out".to_owned(),
        }
    }
}

/// Text of a failure to hand over an event.
pub open spec fn send_error_text(kind: OutboundSendErrorKind) -> Seq<char> {
    match kind {
        OutboundSendErrorKind::Closed => "outbound event queue is closed"@,
        OutboundSendErrorKind::Timeout => "outbound event queue send timed out"@,
    }
}

/// Outcome of waiting for room on a lane.
#[derive(Debug, Clone, Copy, PartialEq, Eq, Structural)]
pub enum RoomOutcome {
    /// There is room.
    Reserved,
    /// Nobody receives any more.
    Closed,
    /// The time limit passed.
    Elapsed,
}

/// What becomes of an event after waiting for room on its lane.
pub open spec fn reserved(event: OutboundEvent, outcome: RoomOutcome) -> Result<
    OutboundEvent,
    OutboundSendError,
> {
    match outcome {
        RoomOutcome::Reserved => Ok::<OutboundEvent, OutboundSendError>(event),
        RoomOutcome::Closed => Err(
            OutboundSendError { kind: OutboundSendErrorKind::Closed, event },
        ),
        RoomOutcome::Elapsed => Err(
            OutboundSendError { kind: OutboundSendErrorKind::Timeout, event },
        ),
    }
}

/// What becomes of an event after waiting for room on its lane: it is handed over, or it comes
/// back with the reason.
pub fn after_reserve(event: OutboundEvent, outcome: RoomOutcome) -> (sent: Result<
    OutboundEvent,
    OutboundSendError,
>)
    ensures
        sent == reserved(event, outcome),
{
    match outcome {
        RoomOutcome::Reserved => Ok(event),
        RoomOutcome::Closed => Err(
            OutboundSendError { kind: OutboundSendErrorKind::Closed, event },
        ),
        RoomOutcome::Elapsed => Err(
            OutboundSendError { kind: OutboundSendErrorKind::Timeout, event },
        ),
    }
}

/// Lane that an event travels on.
#[derive(Debug, Clone, Copy, PartialEq, Eq, Structural)]
pub enum Lane {
    /// Answers that a server may be waiting for.
    Priority,
    /// Reports and basic information.
    Normal,
}

/// What a lane holds at the moment.
#[derive(Debug)]
pub enum Polled {
    /// The oldest event, taken off the lane.
    Event(OutboundEvent),
    /// Nothing yet.
    Empty,
    /// Nothing, and nothing will come.
    Disconnected,
}

/// What the receiver does next.
#[derive(Debug)]
pub enum ReceiveStep {
    /// Hand this event on.
    Deliver(OutboundEvent),
    /// Look at a lane without waiting.
    Poll(Lane),
    /// Wait for the lanes that are still open, the priority lane first.
    Wait {
        /// Whether the priority lane is open.
        priority: bool,
        /// Whether the normal lane is open.
        normal: bool,
    },
    /// Both lanes are closed.
    Finished,
}

/// Receiving end of the two lanes.
#[derive(Debug, PartialEq, Eq, Structural)]
pub struct OutboundReceiver {
    /// Whether the priority lane is known to be closed.
    pub priority_closed: bool,
    /// Whether the normal lane is known to be closed.
    pub normal_closed: bool,
}

impl OutboundReceiver {
    /// What follows a look at the priority lane.
    pub open spec fn priority_polled(self, polled: Polled) -> (OutboundReceiver, ReceiveStep) {
        (
            OutboundReceiver {
                priority_closed: self.priority_closed || polled is Disconnected,
                ..self
            },
            match polled {
                Polled::Event(event) => ReceiveStep::Deliver(event),
                _ => ReceiveStep::Poll(Lane::Normal),
            },
        )
    }

    /// What follows a look at the normal lane.
    pub open spec fn normal_polled(self, polled: Polled) -> (OutboundReceiver, ReceiveStep) {
        let next = OutboundReceiver {
            normal_closed: self.normal_closed || polled is Disconnected,
            ..self
        };
        (
            next,
            match polled {
                Polled::Event(event) => ReceiveStep::Deliver(event),
                _ => if next.priority_closed && next.normal_closed {
                    ReceiveStep::Finished
                } else {
                    ReceiveStep::Wait {
                        priority: !next.priority_closed,
                        normal: !next.normal_closed,
                    }
                },
            },
        )
    }

    /// What follows the end of a wait.
    pub open spec fn waited(self, lane: Lane, received: Option<OutboundEvent>) -> (
        OutboundReceiver,
        ReceiveStep,
    ) {
        (
            OutboundReceiver {
                priority_closed: self.priority_closed || (received is None && lane
                    == Lane::Priority),
                normal_closed: self.normal_closed || (received is None && lane == Lane::Normal),
            },
            match received {
                Some(event) => ReceiveStep::Deliver(event),
                None => ReceiveStep::Poll(Lane::Priority),
            },
        )
    }

    /// Receiver of two open lanes.
    pub fn new() -> (receiver: OutboundReceiver)
        ensures
            !receiver.priority_closed && !receiver.normal_closed,
    {
        OutboundReceiver { priority_closed: false, normal_closed: false }
    }

    /// First step of every reception: a look at the priority lane.
    pub fn begin(&self) -> (step: ReceiveStep)
        ensures
            step == ReceiveStep::Poll(Lane::Priority),
    {
        ReceiveStep::Poll(Lane::Priority)
    }

    /// Step after a look at the priority lane. The normal lane is looked at only where the
    /// priority lane held nothing.
    pub fn after_priority_poll(&mut self, polled: Polled) -> (step: ReceiveStep)
        ensures
            (*final(self), step) == old(self).priority_polled(polled),
    {
        match polled {
            Polled::Event(event) => ReceiveStep::Deliver(event),
            Polled::Disconnected => {
                self.priority_closed = true;
                ReceiveStep::Poll(Lane::Normal)
            },
            Polled::Empty => ReceiveStep::Poll(Lane::Normal),
        }
    }

    /// Step after a look at the normal lane.
    pub fn after_normal_poll(&mut self, polled: Polled) -> (step: ReceiveStep)
        ensures
            (*final(self), step) == old(self).normal_polled(polled),
    {
        match polled {
            Polled::Event(event) => {
                return ReceiveStep::Deliver(event);
            },
            Polled::Disconnected => {
                self.normal_closed = true;
            },
            Polled::Empty => {},
        }
        if self.priority_closed && self.normal_closed {
            ReceiveStep::Finished
        } else {
            ReceiveStep::Wait { priority: !self.priority_closed, normal: !self.normal_closed }
        }
    }

    /// Step after a lane ended the wait, with an event or because it was closed.
    pub fn after_wait(&mut self, lane: Lane, received: Option<OutboundEvent>) -> (step: ReceiveStep)
        ensures
            (*final(self), step) == old(self).waited(lane, received),
    {
        match received {
            Some(event) => ReceiveStep::Deliver(event),
            None => {
                match lane {
                    Lane::Priority => {
                        self.priority_closed = true;
                    },
                    Lane::Normal => {
                        self.normal_closed = true;
                    },
                }
                ReceiveStep::Poll(Lane::Priority)
            },
        }
    }
}

/// Answers and results that a server may be waiting for have priority; reports and basic
/// information have not.
pub proof fn law_awaited_events_have_priority(event: OutboundEvent)
    ensures
        event.has_priority() <==> event is ControlAck || event is ControlError || event
            is RemoteTaskResult || event is RemoteJobResult,
{
}

/// The priority lane goes first: an event on it is handed on at once, and the normal lane is looked
/// at only where it holds none. Whatever was taken off a lane is handed on.
pub proof fn law_priority_lane_goes_first(
    receiver: OutboundReceiver,
    polled: Polled,
    lane: Lane,
    event: OutboundEvent,
)
    ensures
        polled matches Polled::Event(taken) ==> receiver.priority_polled(polled).1
            == ReceiveStep::Deliver(taken) && receiver.normal_polled(polled).1
            == ReceiveStep::Deliver(taken),
        !(polled is Event) ==> receiver.priority_polled(polled).1 == ReceiveStep::Poll(
            Lane::Normal,
        ),
        receiver.waited(lane, Some(event)).1 == ReceiveStep::Deliver(event),
        receiver.waited(lane, None).1 == ReceiveStep::Poll(Lane::Priority),
{
}

/// The receiver is done exactly where both lanes are closed, and waits for those that are open
/// where neither holds an event. A lane counts as closed from the first time that it said so.
pub proof fn law_receiver_ends_with_both_lanes(
    receiver: OutboundReceiver,
    polled: Polled,
    lane: Lane,
)
    requires
        !(polled is Event),
    ensures
        ({
            let closed = receiver.normal_closed || polled is Disconnected;
            let (next, step) = receiver.normal_polled(polled);
            &&& next.normal_closed == closed
            &&& next.priority_closed == receiver.priority_closed
            &&& step is Finished <==> closed && receiver.priority_closed
            &&& !(step is Finished) ==> step == (ReceiveStep::Wait {
                priority: !receiver.priority_closed,
                normal: !closed,
            })
        }),
        receiver.priority_polled(polled).0.priority_closed == (receiver.priority_closed || polled
            is Disconnected),
        receiver.priority_polled(polled).0.normal_closed == receiver.normal_closed,
        lane == Lane::Priority ==> receiver.waited(lane, None).0 == (OutboundReceiver {
            priority_closed: true,
            ..receiver
        }),
        lane == Lane::Normal ==> receiver.waited(lane, None).0 == (OutboundReceiver {
            normal_closed: true,
            ..receiver
        }),
{
}

/// An event that finds no room comes back whole, with the reason.
pub proof fn law_unsent_event_comes_back(event: OutboundEvent, outcome: RoomOutcome)
    ensures
        match reserved(event, outcome) {
            Ok(sent) => outcome == RoomOutcome::Reserved && sent == event,
            Err(failure) => {
                &&& failure.event == event
                &&& failure.kind == OutboundSendErrorKind::Closed <==> outcome
                    == RoomOutcome::Closed
                &&& failure.kind == OutboundSendErrorKind::Timeout <==> outcome
                    == RoomOutcome::Elapsed
            },
        },
{
}

/// Every event is found by the number and the time that its content was given.
pub proof fn law_events_keep_their_number_and_time(
    event: OutboundEvent,
    sequence: u64,
    created_at: u64,
)
    requires
        call_ensures(OutboundEvent::sequence, (&event,), sequence),
        call_ensures(OutboundEvent::created_at, (&event,), created_at),
    ensures
        match event {
            OutboundEvent::Report(content) => sequence == content.sequence && created_at
                == content.created_at,
            OutboundEvent::BasicInfo(content) => sequence == content.sequence && created_at
                == content.created_at,
            OutboundEvent::ControlAck(content) => sequence == content.sequence && created_at
                == content.created_at,
            OutboundEvent::ControlError(content) => sequence == content.sequence && created_at
                == content.created_at,
            OutboundEvent::RemoteTaskResult(content) => sequence == content.sequence && created_at
                == content.created_at,
            OutboundEvent::RemoteJobResult(content) => sequence == content.sequence && created_at
                == content.created_at,
        },
{
}

/// Numbers grow by one and stay at the largest.
pub proof fn law_numbers_grow(last: u64, next: u64)
    requires
        call_ensures(sequence_after, (last,), next),
    ensures
        last < u64::MAX ==> next == last + 1,
        last == u64::MAX ==> next == last,
{
}

/// A report travels under the number and the time that it was made with.
pub proof fn law_reports_keep_their_number(outbound: OutboundReport, envelope: ReportEnvelope)
    requires
        call_ensures(ReportEnvelope::from_outbound, (outbound,), envelope),
    ensures
        envelope.sequence == outbound.sequence,
        envelope.created_at == outbound.created_at,
        envelope.outbound == outbound,
{
}

} // verus!
