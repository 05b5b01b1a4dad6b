//! Events that wait for the confirmation that they were sent.

use crate::service::export::delivery::{
    delivery_name, DeliveryState, ExportDeliveryFailurePolicy, ExportDeliveryId,
};
use crate::service::outbound::{
    ControlAckEnvelope, ControlErrorEnvelope, OutboundEvent, RemoteJobResultEnvelope,
    RemoteTaskResultEnvelope,
};
use crate::text::{decimal, decimal_text};
use std::collections::BTreeMap;
use vstd::prelude::*;
use vstd::std_specs::iter::IteratorSpec;

verus! {

broadcast use vstd::std_specs::btree::group_btree_axioms;

/// Connection that a message travels on.
#[derive(Debug, Clone, Copy, PartialEq, Eq, Structural)]
pub enum TransportId {
    /// The main connection.
    RealtimeReport,
    /// Separate web requests.
    AuxiliaryHttp,
}

/// Stable name of a connection.
pub open spec fn transport_name(id: TransportId) -> Seq<char> {
    match id {
        TransportId::RealtimeReport => "realtime_report"@,
        TransportId::AuxiliaryHttp => "auxiliary_http"@,
    }
}

impl TransportId {
    /// Stable name of this connection.
    pub fn as_str(self) -> (name: &'static str)
        ensures
            name@ == transport_name(self),
    {
        match self {
            TransportId::RealtimeReport => "realtime_report",
            TransportId::AuxiliaryHttp => "auxiliary_http",
        }
    }
}

/// What became of a message.
#[derive(Debug)]
pub enum TransportEvent {
    /// The message was sent.
    Sent {
        /// Connection.
        transport: TransportId,
        /// Sort of message.
        delivery: ExportDeliveryId,
        /// Sequence number.
        sequence: u64,
    },
    /// The message could not be sent.
    Failed {
        /// Connection.
        transport: TransportId,
        /// Sort of message.
        delivery: ExportDeliveryId,
        /// Sequence number.
        sequence: u64,
        /// Why.
        error: String,
    },
}

/// Whether a server may be waiting for a message of this sort.
pub open spec fn awaited(id: ExportDeliveryId) -> bool {
    id != ExportDeliveryId::RealtimeReport && id != ExportDeliveryId::BasicInfo
}

/// Place of the first delivery with the given sort; the place after the last where there is
/// none.
pub open spec fn delivery_place(deliveries: Seq<DeliveryState>, id: ExportDeliveryId) -> int
    decreases deliveries.len(),
{
    if deliveries.len() == 0 {
        0
    } else if deliveries[0].spec.id == id {
        0
    } else {
        1 + delivery_place(deliveries.drop_first(), id)
    }
}

proof fn lemma_delivery_place(deliveries: Seq<DeliveryState>, id: ExportDeliveryId, place: int)
    requires
        0 <= place <= deliveries.len(),
        forall|i: int| 0 <= i < place ==> deliveries[i].spec.id != id,
        place < deliveries.len() ==> deliveries[place].spec.id == id,
    ensures
        delivery_place(deliveries, id) == place,
    decreases deliveries.len(),
{
    if place > 0 {
        let rest = deliveries.drop_first();
        assert forall|i: int| 0 <= i < place - 1 implies rest[i].spec.id != id by {
            assert(rest[i] == deliveries[i + 1]);
        }
        lemma_delivery_place(rest, id, place - 1);
    }
}

/// Finds the first delivery with the given sort.
fn find_delivery(deliveries: &Vec<DeliveryState>, id: ExportDeliveryId) -> (place: usize)
    ensures
        place == delivery_place(deliveries@, id),
        place <= deliveries@.len(),
{
    let mut i: usize = 0;
    while i < deliveries.len() && deliveries[i].spec.id != id
        invariant
            i <= deliveries@.len(),
            forall|j: int| 0 <= j < i ==> deliveries@[j].spec.id != id,
        decreases deliveries@.len() - i,
    {
        i += 1;
    }
    proof {
        lemma_delivery_place(deliveries@, id, i as int);
    }
    i
}

/// Deliveries once a message is known to have been sent.
pub open spec fn confirmed(
    deliveries: Seq<DeliveryState>,
    id: ExportDeliveryId,
    sequence: u64,
) -> Seq<DeliveryState> {
    let place = delivery_place(deliveries, id);
    if place < deliveries.len() {
        deliveries.update(
            place,
            DeliveryState {
                last_sent_sequence: Some(
                    match deliveries[place].last_sent_sequence {
                        Some(last) if last > sequence => last,
                        _ => sequence,
                    },
                ),
                ..deliveries[place]
            },
        )
    } else {
        deliveries
    }
}

/// What follows the failure of a message.
pub open spec fn failure_policy(
    deliveries: Seq<DeliveryState>,
    id: ExportDeliveryId,
) -> ExportDeliveryFailurePolicy {
    if awaited(id) {
        ExportDeliveryFailurePolicy::ReconnectPipeline
    } else if id == ExportDeliveryId::BasicInfo {
        ExportDeliveryFailurePolicy::LogAndContinue
    } else {
        let place = delivery_place(deliveries, id);
        if place < deliveries.len() {
            deliveries[place].spec.failure_policy
        } else {
            ExportDeliveryFailurePolicy::ReconnectPipeline
        }
    }
}

/// Text of the error for a message that could not be sent.
pub open spec fn send_failure_text(
    transport: TransportId,
    delivery: ExportDeliveryId,
    sequence: u64,
    error: Seq<char>,
) -> Seq<char> {
    "export transport send failed: transport="@ + transport_name(transport) + ", delivery="@
        + delivery_name(delivery) + ", sequence="@ + decimal(sequence as nat) + ", error="@ + error
}

/// Text of the error for a message that could not be sent.
fn send_failure_message(
    transport: TransportId,
    delivery: ExportDeliveryId,
    sequence: u64,
    error: &str,
) -> (text: String)
    ensures
        text@ == send_failure_text(transport, delivery, sequence, error@),
{
    let number = decimal_text(sequence);
    "export transport send failed: transport=".to_owned().concat(transport.as_str()).concat(
        ", delivery=",
    ).concat(delivery.as_str()).concat(", sequence=").concat(number.as_str()).concat(
        ", error=",
    ).concat(error)
}

/// Takes note of what became of a message. A message that was sent no longer waits for its
/// confirmation, and the delivery remembers the largest sequence number that was sent. A failure
/// comes back as an error where it calls for a new connection; messages then keep waiting.
pub fn handle_transport_event(
    event: TransportEvent,
    deliveries: &mut Vec<DeliveryState>,
    pending_remote_task_results: &mut BTreeMap<u64, RemoteTaskResultEnvelope>,
    pending_remote_job_results: &mut BTreeMap<u64, RemoteJobResultEnvelope>,
    pending_control_acks: &mut BTreeMap<u64, ControlAckEnvelope>,
    pending_control_errors: &mut BTreeMap<u64, ControlErrorEnvelope>,
) -> (handled: Result<(), String>)
    ensures
        match event {
            TransportEvent::Sent { transport, delivery, sequence } => {
                &&& handled is Ok
                &&& final(deliveries)@ == confirmed(old(deliveries)@, delivery, sequence)
                &&& final(pending_remote_task_results)@ == (if delivery
                    == ExportDeliveryId::RemoteTaskResult {
                    old(pending_remote_task_results)@.remove(sequence)
                } else {
                    old(pending_remote_task_results)@
                })
                &&& final(pending_remote_job_results)@ == (if delivery
                    == ExportDeliveryId::JobResult {
                    old(pending_remote_job_results)@.remove(sequence)
                } else {
                    old(pending_remote_job_results)@
                })
                &&& final(pending_control_acks)@ == (if delivery == ExportDeliveryId::ControlAck {
                    old(pending_control_acks)@.remove(sequence)
                } else {
                    old(pending_control_acks)@
                })
                &&& final(pending_control_errors)@ == (if delivery
                    == ExportDeliveryId::ControlError {
                    old(pending_control_errors)@.remove(sequence)
                } else {
                    old(pending_control_errors)@
                })
            },
            TransportEvent::Failed { transport, delivery, sequence, error } => {
                &&& final(deliveries)@ == old(deliveries)@
                &&& final(pending_remote_task_results)@ == old(pending_remote_task_results)@
                &&& final(pending_remote_job_results)@ == old(pending_remote_job_results)@
                &&& final(pending_control_acks)@ == old(pending_control_acks)@
                &&& final(pending_control_errors)@ == old(pending_control_errors)@
                &&& match handled {
                    Ok(_) => failure_policy(old(deliveries)@, delivery)
                        == ExportDeliveryFailurePolicy::LogAndContinue,
                    Err(text) => {
                        &&& failure_policy(old(deliveries)@, delivery)
                            == ExportDeliveryFailurePolicy::ReconnectPipeline
                        &&& text@ == send_failure_text(transport, delivery, sequence, error@)
                    },
                }
            },
        },
{
    match event {
        TransportEvent::Sent { transport: _, delivery, sequence } => {
            if delivery == ExportDeliveryId::RemoteTaskResult {
                pending_remote_task_results.remove(&sequence);
            }
            if delivery == ExportDeliveryId::JobResult {
                pending_remote_job_results.remove(&sequence);
            }
            if delivery == ExportDeliveryId::ControlAck {
                pending_control_acks.remove(&sequence);
            }
            if delivery == ExportDeliveryId::ControlError {
                pending_control_errors.remove(&sequence);
            }
            let place = find_delivery(deliveries, delivery);
            if place < deliveries.len() {
                let ghost before = deliveries@;
                let mut state = deliveries[place];
                let last: u64 = match state.last_sent_sequence {
                    Some(last) => {
                        if last > sequence {
                            last
                        } else {
                            sequence
                        }
                    },
                    None => sequence,
                };
                state.last_sent_sequence = Some(last);
                deliveries[place] = state;
                assert(deliveries@ =~= confirmed(before, delivery, sequence));
            }
            Ok(())
        },
        TransportEvent::Failed { transport, delivery, sequence, error } => {
            let policy = match delivery {
                ExportDeliveryId::RemoteTaskResult
                | ExportDeliveryId::JobResult
                | ExportDeliveryId::ControlAck
                | ExportDeliveryId::ControlError => ExportDeliveryFailurePolicy::ReconnectPipeline,
                ExportDeliveryId::BasicInfo => ExportDeliveryFailurePolicy::LogAndContinue,
                ExportDeliveryId::RealtimeReport => {
                    let place = find_delivery(deliveries, delivery);
                    if place < deliveries.len() {
                        deliveries[place].spec.failure_policy
                    } else {
                        ExportDeliveryFailurePolicy::ReconnectPipeline
                    }
                },
            };
            match policy {
                ExportDeliveryFailurePolicy::ReconnectPipeline => Err(
                    send_failure_message(transport, delivery, sequence, error.as_str()),
                ),
                ExportDeliveryFailurePolicy::LogAndContinue => Ok(()),
            }
        },
    }
}

/// Events that wait for the confirmation that they were sent, by sequence number.
#[derive(Debug)]
pub struct PendingExportEvents {
    /// Results of remote tasks.
    pub remote_task_results: BTreeMap<u64, RemoteTaskResultEnvelope>,
    /// Results of remote jobs.
    pub remote_job_results: BTreeMap<u64, RemoteJobResultEnvelope>,
    /// Confirmations of commands.
    pub control_acks: BTreeMap<u64, ControlAckEnvelope>,
    /// Failures of commands.
    pub control_errors: BTreeMap<u64, ControlErrorEnvelope>,
}

/// Waiting events as mathematical maps.
#[verifier::ext_equal]
pub struct PendingView {
    /// Results of remote tasks.
    pub remote_task_results: Map<u64, RemoteTaskResultEnvelope>,
    /// Results of remote jobs.
    pub remote_job_results: Map<u64, RemoteJobResultEnvelope>,
    /// Confirmations of commands.
    pub control_acks: Map<u64, ControlAckEnvelope>,
    /// Failures of commands.
    pub control_errors: Map<u64, ControlErrorEnvelope>,
}

impl View for PendingExportEvents {
    type V = PendingView;

    open spec fn view(&self) -> PendingView {
        PendingView {
            remote_task_results: self.remote_task_results@,
            remote_job_results: self.remote_job_results@,
            control_acks: self.control_acks@,
            control_errors: self.control_errors@,
        }
    }
}

/// Sort of waiting event, in the order in which they are sent again.
#[derive(Debug, Clone, Copy, PartialEq, Eq, Structural)]
pub enum ResumeStage {
    /// Results of remote tasks.
    TaskResults,
    /// Results of remote jobs.
    JobResults,
    /// Confirmations of commands.
    Acks,
    /// Failures of commands.
    Errors,
}

impl ResumeStage {
    /// Stage after this one.
    pub open spec fn following(self) -> Option<ResumeStage> {
        match self {
            ResumeStage::TaskResults => Some(ResumeStage::JobResults),
            ResumeStage::JobResults => Some(ResumeStage::Acks),
            ResumeStage::Acks => Some(ResumeStage::Errors),
            ResumeStage::Errors => None,
        }
    }

    /// Stages from this one on.
    pub open spec fn remaining(self) -> nat {
        match self {
            ResumeStage::TaskResults => 4,
            ResumeStage::JobResults => 3,
            ResumeStage::Acks => 2,
            ResumeStage::Errors => 1,
        }
    }

    /// Stage after this one.
    pub fn next(self) -> (stage: Option<ResumeStage>)
        ensures
            stage == self.following(),
    {
        match self {
            ResumeStage::TaskResults => Some(ResumeStage::JobResults),
            ResumeStage::JobResults => Some(ResumeStage::Acks),
            ResumeStage::Acks => Some(ResumeStage::Errors),
            ResumeStage::Errors => None,
        }
    }
}

impl PendingView {
    /// No waiting events.
    pub open spec fn empty() -> PendingView {
        PendingView {
            remote_task_results: Map::empty(),
            remote_job_results: Map::empty(),
            control_acks: Map::empty(),
            control_errors: Map::empty(),
        }
    }

    /// Sequence numbers of the waiting events of a stage.
    pub open spec fn numbers(self, stage: ResumeStage) -> Set<u64> {
        match stage {
            ResumeStage::TaskResults => self.remote_task_results.dom(),
            ResumeStage::JobResults => self.remote_job_results.dom(),
            ResumeStage::Acks => self.control_acks.dom(),
            ResumeStage::Errors => self.control_errors.dom(),
        }
    }

    /// Waiting event of a stage.
    pub open spec fn event(self, stage: ResumeStage, sequence: u64) -> OutboundEvent {
        match stage {
            ResumeStage::TaskResults => OutboundEvent::RemoteTaskResult(
                self.remote_task_results[sequence],
            ),
            ResumeStage::JobResults => OutboundEvent::RemoteJobResult(
                self.remote_job_results[sequence],
            ),
            ResumeStage::Acks => OutboundEvent::ControlAck(self.control_acks[sequence]),
            ResumeStage::Errors => OutboundEvent::ControlError(self.control_errors[sequence]),
        }
    }

    /// Waiting events without the given one.
    pub open spec fn without(self, stage: ResumeStage, sequence: u64) -> PendingView {
        match stage {
            ResumeStage::TaskResults => PendingView {
                remote_task_results: self.remote_task_results.remove(sequence),
                ..self
            },
            ResumeStage::JobResults => PendingView {
                remote_job_results: self.remote_job_results.remove(sequence),
                ..self
            },
            ResumeStage::Acks => PendingView {
                control_acks: self.control_acks.remove(sequence),
                ..self
            },
            ResumeStage::Errors => PendingView {
                control_errors: self.control_errors.remove(sequence),
                ..self
            },
        }
    }

    /// Waiting events after one was handed over as `requests` messages: it waits for its
    /// confirmation, unless the message format has no use for it.
    pub open spec fn queued(self, event: OutboundEvent, requests: usize) -> PendingView {
        match event {
            OutboundEvent::RemoteTaskResult(result) => if requests == 0 {
                self.without(ResumeStage::TaskResults, result.sequence)
            } else {
                PendingView {
                    remote_task_results: self.remote_task_results.insert(result.sequence, result),
                    ..self
                }
            },
            OutboundEvent::RemoteJobResult(result) => if requests == 0 {
                self.without(ResumeStage::JobResults, result.sequence)
            } else {
                PendingView {
                    remote_job_results: self.remote_job_results.insert(result.sequence, result),
                    ..self
                }
            },
            OutboundEvent::ControlAck(ack) => if requests == 0 {
                self.without(ResumeStage::Acks, ack.sequence)
            } else {
                PendingView { control_acks: self.control_acks.insert(ack.sequence, ack), ..self }
            },
            OutboundEvent::ControlError(error) => if requests == 0 {
                self.without(ResumeStage::Errors, error.sequence)
            } else {
                PendingView {
                    control_errors: self.control_errors.insert(error.sequence, error),
                    ..self
                }
            },
            _ => self,
        }
    }
}

/// Whether a number lies beyond the last one dealt with.
pub open spec fn beyond(number: u64, last: Option<u64>) -> bool {
    match last {
        Some(last) => number > last,
        None => true,
    }
}

/// Whether `number` is the smallest of the numbers beyond `last`.
pub open spec fn smallest_beyond(numbers: Set<u64>, last: Option<u64>, number: u64) -> bool {
    &&& numbers.contains(number)
    &&& beyond(number, last)
    &&& forall|other: u64| #[trigger]
        numbers.contains(other) && beyond(other, last) ==> number <= other
}

/// Smallest number beyond `last`.
pub open spec fn next_number(numbers: Set<u64>, last: Option<u64>) -> Option<u64> {
    if exists|number: u64| smallest_beyond(numbers, last, number) {
        Some(choose|number: u64| smallest_beyond(numbers, last, number))
    } else {
        None
    }
}

/// Smallest key of a map beyond `last`.
fn next_key<V>(map: &BTreeMap<u64, V>, last: Option<u64>) -> (key: Option<u64>)
    ensures
        key == next_number(map@.dom(), last),
        key is Some ==> map@.contains_key(key->0),
        key is None ==> forall|number: u64|
            #[trigger] map@.contains_key(number) ==> !beyond(number, last),
{
    let mut best: Option<u64> = None;
    for key in keys: map.keys()
        invariant
            keys.seq().unref().to_set() == map@.dom(),
            forall|i: int|
                0 <= i < keys.index() && beyond(*#[trigger] keys.seq()[i], last) ==> best is Some
                    && best->0 <= *keys.seq()[i],
            best is Some ==> map@.contains_key(best->0) && beyond(best->0, last),
    {
        let after = match last {
            Some(last) => *key > last,
            None => true,
        };
        proof {
            assert(keys.seq().unref()[keys.index()] == *key);
            assert(keys.seq().unref().to_set().contains(*key));
        }
        if after {
            best = match best {
                Some(found) => {
                    if found <= *key {
                        Some(found)
                    } else {
                        Some(*key)
                    }
                },
                None => Some(*key),
            };
        }
    }
    proof {
        let numbers = map@.dom();
        assert forall|other: u64| #[trigger]
            numbers.contains(other) && beyond(other, last) implies best is Some && best->0
            <= other by {
            let keys = vstd::std_specs::btree::spec_keys_iter(map).remaining();
            assert(keys.unref().to_set().contains(other));
            let j = choose|j: int| 0 <= j < keys.unref().len() && keys.unref()[j] == other;
            assert(*keys[j] == other);
        }
        if best is Some {
            assert(smallest_beyond(numbers, last, best->0));
            let chosen = choose|number: u64| smallest_beyond(numbers, last, number);
            assert(smallest_beyond(numbers, last, chosen));
        }
    }
    best
}

impl PendingExportEvents {
    /// No waiting events.
    pub fn new() -> (pending: PendingExportEvents)
        ensures
            pending@ == PendingView::empty(),
    {
        PendingExportEvents {
            remote_task_results: BTreeMap::new(),
            remote_job_results: BTreeMap::new(),
            control_acks: BTreeMap::new(),
            control_errors: BTreeMap::new(),
        }
    }

    /// Notes that an event was handed over as `requests` messages. It waits for its
    /// confirmation, unless the message format has no use for it.
    pub fn note_queued(&mut self, event: OutboundEvent, requests: usize)
        ensures
            final(self)@ == old(self)@.queued(event, requests),
    {
        match event {
            OutboundEvent::RemoteTaskResult(result) => {
                if requests == 0 {
                    self.remote_task_results.remove(&result.sequence);
                } else {
                    self.remote_task_results.insert(result.sequence, result);
                }
            },
            OutboundEvent::RemoteJobResult(result) => {
                if requests == 0 {
                    self.remote_job_results.remove(&result.sequence);
                } else {
                    self.remote_job_results.insert(result.sequence, result);
                }
            },
            OutboundEvent::ControlAck(ack) => {
                if requests == 0 {
                    self.control_acks.remove(&ack.sequence);
                } else {
                    self.control_acks.insert(ack.sequence, ack);
                }
            },
            OutboundEvent::ControlError(error) => {
                if requests == 0 {
                    self.control_errors.remove(&error.sequence);
                } else {
                    self.control_errors.insert(error.sequence, error);
                }
            },
            OutboundEvent::Report(_) | OutboundEvent::BasicInfo(_) => {},
        }
    }

    /// Smallest sequence number of a stage beyond `last`.
    pub fn next_sequence(&self, stage: ResumeStage, last: Option<u64>) -> (next: Option<u64>)
        ensures
            next == next_number(self@.numbers(stage), last),
            next is Some ==> self@.numbers(stage).contains(next->0),
            next is None ==> forall|number: u64| #[trigger]
                self@.numbers(stage).contains(number) ==> !beyond(number, last),
    {
        match stage {
            ResumeStage::TaskResults => next_key(&self.remote_task_results, last),
            ResumeStage::JobResults => next_key(&self.remote_job_results, last),
            ResumeStage::Acks => next_key(&self.control_acks, last),
            ResumeStage::Errors => next_key(&self.control_errors, last),
        }
    }

    /// Copy of a waiting event.
    pub fn copy_event(&self, stage: ResumeStage, sequence: u64) -> (event: Option<OutboundEvent>)
        ensures
            event == (if self@.numbers(stage).contains(sequence) {
                Some(self@.event(stage, sequence))
            } else {
                None
            }),
    {
        match stage {
            ResumeStage::TaskResults => match self.remote_task_results.get(&sequence) {
                Some(result) => Some(OutboundEvent::RemoteTaskResult(result.clone())),
                None => None,
            },
            ResumeStage::JobResults => match self.remote_job_results.get(&sequence) {
                Some(result) => Some(OutboundEvent::RemoteJobResult(result.clone())),
                None => None,
            },
            ResumeStage::Acks => match self.control_acks.get(&sequence) {
                Some(ack) => Some(OutboundEvent::ControlAck(ack.clone())),
                None => None,
            },
            ResumeStage::Errors => match self.control_errors.get(&sequence) {
                Some(error) => Some(OutboundEvent::ControlError(error.clone())),
                None => None,
            },
        }
    }

    /// Drops a waiting event.
    pub fn remove(&mut self, stage: ResumeStage, sequence: u64)
        ensures
            final(self)@ == old(self)@.without(stage, sequence),
    {
        match stage {
            ResumeStage::TaskResults => {
                self.remote_task_results.remove(&sequence);
            },
            ResumeStage::JobResults => {
                self.remote_job_results.remove(&sequence);
            },
            ResumeStage::Acks => {
                self.control_acks.remove(&sequence);
            },
            ResumeStage::Errors => {
                self.control_errors.remove(&sequence);
            },
        }
    }

    /// Takes note of what became of a message.
    pub fn note_transport_event(
        &mut self,
        event: TransportEvent,
        deliveries: &mut Vec<DeliveryState>,
    ) -> (handled: Result<(), String>)
        ensures
            final(self)@ == noted(old(self)@, event),
            match event {
                TransportEvent::Sent { transport, delivery, sequence } => {
                    &&& handled is Ok
                    &&& final(deliveries)@ == confirmed(old(deliveries)@, delivery, sequence)
                },
                TransportEvent::Failed { transport, delivery, sequence, error } => {
                    &&& final(deliveries)@ == old(deliveries)@
                    &&& handled is Err <==> failure_policy(old(deliveries)@, delivery)
                        == ExportDeliveryFailurePolicy::ReconnectPipeline
                    &&& handled matches Err(text) ==> text@ == send_failure_text(
                        transport,
                        delivery,
                        sequence,
                        error@,
                    )
                },
            },
    {
        handle_transport_event(
            event,
            deliveries,
            &mut self.remote_task_results,
            &mut self.remote_job_results,
            &mut self.control_acks,
            &mut self.control_errors,
        )
    }
}

/// Stage of the waiting messages of a sort.
pub open spec fn stage_of(id: ExportDeliveryId) -> Option<ResumeStage> {
    match id {
        ExportDeliveryId::RemoteTaskResult => Some(ResumeStage::TaskResults),
        ExportDeliveryId::JobResult => Some(ResumeStage::JobResults),
        ExportDeliveryId::ControlAck => Some(ResumeStage::Acks),
        ExportDeliveryId::ControlError => Some(ResumeStage::Errors),
        _ => None,
    }
}

/// Waiting events after a message was sent or failed.
pub open spec fn noted(pending: PendingView, event: TransportEvent) -> PendingView {
    match event {
        TransportEvent::Sent { transport, delivery, sequence } => match stage_of(delivery) {
            Some(stage) => pending.without(stage, sequence),
            None => pending,
        },
        TransportEvent::Failed { .. } => pending,
    }
}

} // verus!
