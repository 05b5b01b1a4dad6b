//! Deliveries: which reports go out on which occasion.

use crate::scheduler::time::Span;
use crate::service::clock::{later, reachable, Moment};
use crate::service::outbound::ReportEnvelope;
use vstd::prelude::*;

verus! {

/// Seconds between two looks at the deliveries that follow an interval.
pub const EXPORT_DELIVERY_SCHEDULER_TICK_SECONDS: u64 = 1;

/// Sort of message that a delivery carries.
#[derive(Debug, Clone, Copy, PartialEq, Eq, Structural)]
pub enum ExportDeliveryId {
    /// Reports.
    RealtimeReport,
    /// Basic information.
    BasicInfo,
    /// Results of remote tasks.
    RemoteTaskResult,
    /// Results of remote jobs.
    JobResult,
    /// Confirmations of commands.
    ControlAck,
    /// Failures of commands.
    ControlError,
}

/// Stable name of a delivery.
pub open spec fn delivery_name(id: ExportDeliveryId) -> Seq<char> {
    match id {
        ExportDeliveryId::RealtimeReport => "realtime_report"@,
        ExportDeliveryId::BasicInfo => "basic_info"@,
        ExportDeliveryId::RemoteTaskResult => "remote_task_result"@,
        ExportDeliveryId::JobResult => "job_result"@,
        ExportDeliveryId::ControlAck => "control_ack"@,
        ExportDeliveryId::ControlError => "control_error"@,
    }
}

impl ExportDeliveryId {
    /// Stable name of this delivery.
    pub fn as_str(self) -> (name: &'static str)
        ensures
            name@ == delivery_name(self),
    {
        match self {
            ExportDeliveryId::RealtimeReport => "realtime_report",
            ExportDeliveryId::BasicInfo => "basic_info",
            ExportDeliveryId::RemoteTaskResult => "remote_task_result",
            ExportDeliveryId::JobResult => "job_result",
            ExportDeliveryId::ControlAck => "control_ack",
            ExportDeliveryId::ControlError => "control_error",
        }
    }
}

/// Occasion of a delivery.
#[derive(Debug, Clone, Copy, PartialEq, Eq, Structural)]
pub enum ExportDeliveryTrigger {
    /// Every new report.
    OnLatestReport,
    /// An event of its own.
    EventDriven,
    /// Regular intervals.
    Interval(Span),
}

/// What follows a failed delivery.
#[derive(Debug, Clone, Copy, PartialEq, Eq, Structural)]
pub enum ExportDeliveryFailurePolicy {
    /// The connection is replaced.
    ReconnectPipeline,
    /// Nothing but a note in the log.
    LogAndContinue,
}

/// Delivery as the message format asks for it.
#[derive(Debug, Clone, Copy, PartialEq, Eq, Structural)]
pub struct ExportDeliverySpec {
    /// Sort of message.
    pub id: ExportDeliveryId,
    /// Occasion.
    pub trigger: ExportDeliveryTrigger,
    /// Whether the first delivery is due at once.
    pub send_on_start: bool,
    /// What follows a failure.
    pub failure_policy: ExportDeliveryFailurePolicy,
}

impl ExportDeliverySpec {
    /// Delivery of every new report, due at once, that replaces the connection when it fails.
    pub fn on_latest_report(id: ExportDeliveryId) -> (spec: ExportDeliverySpec)
        ensures
            spec == (ExportDeliverySpec {
                id,
                trigger: ExportDeliveryTrigger::OnLatestReport,
                send_on_start: true,
                failure_policy: ExportDeliveryFailurePolicy::ReconnectPipeline,
            }),
    {
        ExportDeliverySpec {
            id,
            trigger: ExportDeliveryTrigger::OnLatestReport,
            send_on_start: true,
            failure_policy: ExportDeliveryFailurePolicy::ReconnectPipeline,
        }
    }

    /// Delivery of separate events.
    pub fn event_driven(
        id: ExportDeliveryId,
        failure_policy: ExportDeliveryFailurePolicy,
    ) -> (spec: ExportDeliverySpec)
        ensures
            spec == (ExportDeliverySpec {
                id,
                trigger: ExportDeliveryTrigger::EventDriven,
                send_on_start: true,
                failure_policy,
            }),
    {
        ExportDeliverySpec {
            id,
            trigger: ExportDeliveryTrigger::EventDriven,
            send_on_start: true,
            failure_policy,
        }
    }
}

/// Delivery and how far it has come.
#[derive(Debug, Clone, Copy, PartialEq, Eq, Structural)]
pub struct DeliveryState {
    /// The delivery.
    pub spec: ExportDeliverySpec,
    /// When an interval next passes.
    pub next_due: Option<Moment>,
    /// Largest report known to have arrived.
    pub last_sent_sequence: Option<u64>,
    /// Report that was handed over or passed by last.
    pub last_queued_sequence: Option<u64>,
}

/// Whether the clock can show the end of every interval that starts at `now`.
pub open spec fn intervals_reachable(deliveries: Seq<DeliveryState>, now: Moment) -> bool {
    forall|i: int|
        0 <= i < deliveries.len() ==> interval_reachable(#[trigger] deliveries[i].spec, now)
}

/// Whether the clock can show the end of the interval that starts at `now`.
pub open spec fn interval_reachable(spec: ExportDeliverySpec, now: Moment) -> bool {
    match spec.trigger {
        ExportDeliveryTrigger::Interval(interval) => reachable(now, interval),
        _ => true,
    }
}

/// Whether the clock can show the end of the interval that starts at `now`.
pub fn can_time(spec: &ExportDeliverySpec, now: Moment) -> (yes: bool)
    ensures
        yes == interval_reachable(*spec, now),
{
    match spec.trigger {
        ExportDeliveryTrigger::Interval(interval) => now.reaches(interval),
        _ => true,
    }
}

/// Whether the clock can show the end of every interval that starts at `now`.
pub fn can_time_all(deliveries: &Vec<DeliveryState>, now: Moment) -> (yes: bool)
    ensures
        yes == intervals_reachable(deliveries@, now),
{
    for i in 0..deliveries.len()
        invariant
            forall|j: int| 0 <= j < i ==> interval_reachable(#[trigger] deliveries@[j].spec, now),
    {
        if !can_time(&deliveries[i].spec, now) {
            assert(!interval_reachable(deliveries@[i as int].spec, now));
            return false;
        }
    }
    true
}

/// Delivery before its first occasion.
pub open spec fn fresh_delivery(spec: ExportDeliverySpec, now: Moment) -> DeliveryState {
    DeliveryState {
        spec,
        next_due: match spec.trigger {
            ExportDeliveryTrigger::Interval(interval) => Some(
                if spec.send_on_start {
                    now
                } else {
                    later(now, interval)
                },
            ),
            _ => None,
        },
        last_sent_sequence: None,
        last_queued_sequence: None,
    }
}

/// Whether a delivery passes by the report at hand and waits for the next.
pub open spec fn skips_initial(delivery: DeliveryState) -> bool {
    &&& delivery.spec.trigger == ExportDeliveryTrigger::OnLatestReport
    &&& !delivery.spec.send_on_start
    &&& delivery.last_queued_sequence is None
}

/// Whether a delivery of every new report has dealt with this one.
pub open spec fn already_queued(delivery: DeliveryState, sequence: u64) -> bool {
    &&& delivery.spec.trigger == ExportDeliveryTrigger::OnLatestReport
    &&& delivery.last_queued_sequence == Some(sequence)
}

/// Whether a report has to be handed over.
pub open spec fn must_send(delivery: DeliveryState, sequence: u64) -> bool {
    !skips_initial(delivery) && !already_queued(delivery, sequence)
}

/// Number of reports that a delivery of every new report never saw.
pub open spec fn missed_reports(delivery: DeliveryState, sequence: u64) -> int {
    match delivery.last_queued_sequence {
        Some(last) if delivery.spec.trigger == ExportDeliveryTrigger::OnLatestReport && sequence
            > last => sequence - last - 1,
        _ => 0,
    }
}

/// Delivery once it has looked at a report that it does not hand over.
pub open spec fn passed_by(delivery: DeliveryState, sequence: u64) -> DeliveryState {
    if skips_initial(delivery) {
        DeliveryState { last_queued_sequence: Some(sequence), ..delivery }
    } else {
        delivery
    }
}

/// Delivery after a report was handed over as `requests` messages; none means that the message
/// format has no use for the report.
pub open spec fn handed_over(
    delivery: DeliveryState,
    sequence: u64,
    requests: usize,
) -> DeliveryState {
    DeliveryState {
        last_queued_sequence: Some(sequence),
        last_sent_sequence: if requests == 0 {
            Some(sequence)
        } else {
            delivery.last_sent_sequence
        },
        ..delivery
    }
}

/// Delivery whose interval starts again at `now`.
pub open spec fn rescheduled(delivery: DeliveryState, now: Moment) -> DeliveryState {
    match delivery.spec.trigger {
        ExportDeliveryTrigger::Interval(interval) => DeliveryState {
            next_due: Some(later(now, interval)),
            ..delivery
        },
        _ => delivery,
    }
}

/// Whether the interval of a delivery has passed.
pub open spec fn delivery_due(delivery: DeliveryState, now: Moment) -> bool {
    match delivery.next_due {
        Some(due) => due.nanos <= now.nanos,
        None => false,
    }
}

impl DeliveryState {
    /// Delivery before its first occasion.
    pub fn from_spec(spec: ExportDeliverySpec, now: Moment) -> (delivery: DeliveryState)
        requires
            interval_reachable(spec, now),
        ensures
            delivery == fresh_delivery(spec, now),
    {
        let next_due = match spec.trigger {
            ExportDeliveryTrigger::OnLatestReport | ExportDeliveryTrigger::EventDriven => None,
            ExportDeliveryTrigger::Interval(interval) => Some(
                if spec.send_on_start {
                    now
                } else {
                    now.after(interval)
                },
            ),
        };
        DeliveryState { spec, next_due, last_sent_sequence: None, last_queued_sequence: None }
    }

    /// Whether the interval of this delivery has passed.
    pub fn is_due(&self, now: Moment) -> (due: bool)
        ensures
            due == delivery_due(*self, now),
    {
        match self.next_due {
            Some(due) => due.nanos <= now.nanos,
            None => false,
        }
    }

    /// Starts the interval of this delivery again.
    pub fn mark_interval_scheduled(&mut self, now: Moment)
        requires
            interval_reachable(old(self).spec, now),
        ensures
            *final(self) == rescheduled(*old(self), now),
    {
        if let ExportDeliveryTrigger::Interval(interval) = self.spec.trigger {
            self.next_due = Some(now.after(interval));
        }
    }

    /// Passes by the first report where the delivery is not due at once. Says whether it did.
    pub fn skip_initial_latest_report_if_needed(&mut self, report: &ReportEnvelope) -> (skipped:
        bool)
        ensures
            skipped == skips_initial(*old(self)),
            *final(self) == (if skipped {
                passed_by(*old(self), report.sequence)
            } else {
                *old(self)
            }),
    {
        if self.spec.trigger != ExportDeliveryTrigger::OnLatestReport {
            return false;
        }
        if self.spec.send_on_start || self.last_queued_sequence.is_some() {
            return false;
        }
        self.last_queued_sequence = Some(report.sequence);
        true
    }

    /// Decides about a report. `None` where there is nothing to hand over; otherwise the number
    /// of reports that this delivery never saw.
    pub fn prepare(&mut self, report: &ReportEnvelope) -> (missed: Option<u64>)
        ensures
            missed == (if must_send(*old(self), report.sequence) {
                Some(missed_reports(*old(self), report.sequence) as u64)
            } else {
                None
            }),
            *final(self) == (if missed is Some {
                *old(self)
            } else {
                passed_by(*old(self), report.sequence)
            }),
    {
        if self.skip_initial_latest_report_if_needed(report) {
            return None;
        }
        if self.spec.trigger != ExportDeliveryTrigger::OnLatestReport {
            return Some(0);
        }
        match self.last_queued_sequence {
            Some(last) => {
                if last == report.sequence {
                    None
                } else {
                    Some(report.sequence.saturating_sub(last.saturating_add(1)))
                }
            },
            None => Some(0),
        }
    }

    /// Notes that a report was handed over as `requests` messages.
    pub fn note_handed_over(&mut self, sequence: u64, requests: usize)
        ensures
            *final(self) == handed_over(*old(self), sequence, requests),
    {
        if requests == 0 {
            self.last_sent_sequence = Some(sequence);
        }
        self.last_queued_sequence = Some(sequence);
    }
}

/// Deliveries before their first occasion.
pub fn delivery_states_from_plan(
    deliveries: &Vec<ExportDeliverySpec>,
    now: Moment,
) -> (states: Vec<DeliveryState>)
    requires
        forall|i: int| 0 <= i < deliveries@.len() ==> interval_reachable(#[trigger] deliveries@[i], now),
    ensures
        states@ == deliveries@.map_values(|spec: ExportDeliverySpec| fresh_delivery(spec, now)),
{
    let mut states: Vec<DeliveryState> = Vec::new();
    let mut i: usize = 0;
    while i < deliveries.len()
        invariant
            i <= deliveries@.len(),
            forall|j: int|
                0 <= j < deliveries@.len() ==> interval_reachable(#[trigger] deliveries@[j], now),
            states@.len() == i,
            forall|j: int| 0 <= j < i ==> states@[j] == fresh_delivery(deliveries@[j], now),
        decreases deliveries@.len() - i,
    {
        states.push(DeliveryState::from_spec(deliveries[i], now));
        i += 1;
    }
    assert(states@ =~= deliveries@.map_values(
        |spec: ExportDeliverySpec| fresh_delivery(spec, now),
    ));
    states
}

/// Whether a delivery follows an interval.
pub open spec fn follows_interval(delivery: DeliveryState) -> bool {
    delivery.spec.trigger is Interval
}

/// Whether some delivery follows an interval.
pub fn has_interval_deliveries(deliveries: &Vec<DeliveryState>) -> (found: bool)
    ensures
        found == exists|i: int| 0 <= i < deliveries@.len() && #[trigger] follows_interval(deliveries@[i]),
{
    let mut i: usize = 0;
    while i < deliveries.len()
        invariant
            i <= deliveries@.len(),
            forall|j: int| 0 <= j < i ==> !#[trigger] follows_interval(deliveries@[j]),
        decreases deliveries@.len() - i,
    {
        if matches!(deliveries[i].spec.trigger, ExportDeliveryTrigger::Interval(_)) {
            assert(follows_interval(deliveries@[i as int]));
            return true;
        }
        i += 1;
    }
    false
}

/// Part of a round through the deliveries.
#[derive(Debug, Clone, Copy, PartialEq, Eq, Structural)]
pub enum Phase {
    /// Deliveries whose interval has passed.
    Intervals,
    /// Deliveries of every new report.
    LatestReport,
}

/// Whether a phase concerns a delivery.
pub open spec fn concerns(phase: Phase, delivery: DeliveryState, now: Moment) -> bool {
    match phase {
        Phase::Intervals => follows_interval(delivery) && delivery_due(delivery, now),
        Phase::LatestReport => delivery.spec.trigger == ExportDeliveryTrigger::OnLatestReport,
    }
}

/// Delivery once a phase is done with it.
pub open spec fn dealt_with(phase: Phase, delivery: DeliveryState, now: Moment) -> DeliveryState {
    match phase {
        Phase::Intervals => rescheduled(delivery, now),
        Phase::LatestReport => delivery,
    }
}

/// Deliveries, and the place of the first one from `from` on that has to hand over the report;
/// the place after the last where there is none. Those before it that the phase concerns have
/// passed the report by.
pub open spec fn next_delivery(
    deliveries: Seq<DeliveryState>,
    from: int,
    phase: Phase,
    sequence: u64,
    now: Moment,
) -> (Seq<DeliveryState>, int)
    decreases deliveries.len() - from,
{
    if from >= deliveries.len() || from < 0 {
        (deliveries, deliveries.len() as int)
    } else if !concerns(phase, deliveries[from], now) {
        next_delivery(deliveries, from + 1, phase, sequence, now)
    } else if must_send(deliveries[from], sequence) {
        (deliveries, from)
    } else {
        next_delivery(
            deliveries.update(
                from,
                dealt_with(phase, passed_by(deliveries[from], sequence), now),
            ),
            from + 1,
            phase,
            sequence,
            now,
        )
    }
}

/// Goes through the deliveries from `from` on until one has to hand over the report.
pub fn find_next_delivery(
    deliveries: &mut Vec<DeliveryState>,
    from: usize,
    phase: Phase,
    report: &ReportEnvelope,
    now: Moment,
) -> (place: usize)
    requires
        intervals_reachable(old(deliveries)@, now),
    ensures
        next_delivery(old(deliveries)@, from as int, phase, report.sequence, now) == (
            final(deliveries)@,
            place as int,
        ),
        final(deliveries)@.len() == old(deliveries)@.len(),
        intervals_reachable(final(deliveries)@, now),
        place <= final(deliveries)@.len(),
        place < final(deliveries)@.len() ==> must_send(
            final(deliveries)@[place as int],
            report.sequence,
        ),
{
    let mut i: usize = from;
    while i < deliveries.len()
        invariant
            deliveries@.len() == old(deliveries)@.len(),
            intervals_reachable(deliveries@, now),
            next_delivery(old(deliveries)@, from as int, phase, report.sequence, now)
                == next_delivery(deliveries@, i as int, phase, report.sequence, now),
        decreases deliveries@.len() - i,
    {
        let ghost before = deliveries@;
        let mut delivery = deliveries[i];
        assert(interval_reachable(before[i as int].spec, now));
        let concerned = match phase {
            Phase::Intervals => matches!(delivery.spec.trigger, ExportDeliveryTrigger::Interval(_))
                && delivery.is_due(now),
            Phase::LatestReport => delivery.spec.trigger == ExportDeliveryTrigger::OnLatestReport,
        };
        if concerned {
            if delivery.prepare(report).is_some() {
                return i;
            }
            if phase == Phase::Intervals {
                delivery.mark_interval_scheduled(now);
            }
            deliveries[i] = delivery;
            assert(deliveries@ =~= before.update(
                i as int,
                dealt_with(phase, passed_by(before[i as int], report.sequence), now),
            ));
            assert forall|j: int| 0 <= j < deliveries@.len() implies interval_reachable(
                #[trigger] deliveries@[j].spec,
                now,
            ) by {
                assert(interval_reachable(before[j].spec, now));
            }
        }
        i += 1;
    }
    deliveries.len()
}

/// Deliveries once the one at `place` handed over the report, or failed to and goes on.
pub open spec fn settled(
    deliveries: Seq<DeliveryState>,
    place: int,
    phase: Phase,
    sequence: u64,
    outcome: Result<usize, String>,
    now: Moment,
) -> Seq<DeliveryState> {
    let delivery = deliveries[place];
    deliveries.update(
        place,
        dealt_with(
            phase,
            match outcome {
                Ok(requests) => handed_over(delivery, sequence, requests),
                Err(_) => delivery,
            },
            now,
        ),
    )
}

/// Whether a failure of the delivery at `place` ends the round.
pub open spec fn breaks_round(
    deliveries: Seq<DeliveryState>,
    place: int,
    outcome: Result<usize, String>,
) -> bool {
    &&& outcome is Err
    &&& deliveries[place].spec.failure_policy == ExportDeliveryFailurePolicy::ReconnectPipeline
}

/// Notes the outcome of a delivery. The error comes back where it ends the round; the
/// deliveries then stay as they were.
pub fn settle_delivery(
    deliveries: &mut Vec<DeliveryState>,
    place: usize,
    phase: Phase,
    sequence: u64,
    outcome: Result<usize, String>,
    now: Moment,
) -> (settling: Result<(), String>)
    requires
        place < old(deliveries)@.len(),
        intervals_reachable(old(deliveries)@, now),
    ensures
        intervals_reachable(final(deliveries)@, now),
        match settling {
            Ok(_) => {
                &&& !breaks_round(old(deliveries)@, place as int, outcome)
                &&& final(deliveries)@ == settled(
                    old(deliveries)@,
                    place as int,
                    phase,
                    sequence,
                    outcome,
                    now,
                )
            },
            Err(error) => {
                &&& breaks_round(old(deliveries)@, place as int, outcome)
                &&& outcome == Err::<usize, String>(error)
                &&& final(deliveries)@ == old(deliveries)@
            },
        },
{
    let ghost before = deliveries@;
    assert(interval_reachable(before[place as int].spec, now));
    let mut delivery = deliveries[place];
    match outcome {
        Ok(requests) => {
            delivery.note_handed_over(sequence, requests);
        },
        Err(error) => {
            if delivery.spec.failure_policy == ExportDeliveryFailurePolicy::ReconnectPipeline {
                return Err(error);
            }
        },
    }
    if phase == Phase::Intervals {
        delivery.mark_interval_scheduled(now);
    }
    deliveries[place] = delivery;
    assert(deliveries@ =~= settled(before, place as int, phase, sequence, outcome, now));
    assert forall|j: int| 0 <= j < deliveries@.len() implies interval_reachable(
        #[trigger] deliveries@[j].spec,
        now,
    ) by {
        assert(interval_reachable(before[j].spec, now));
    }
    Ok(())
}

/// A delivery of every new report hands no report over twice in a row: once it has dealt with a
/// report it has nothing to send until another report comes.
pub proof fn law_latest_report_is_sent_once(
    delivery: DeliveryState,
    sequence: u64,
    requests: usize,
)
    requires
        delivery.spec.trigger == ExportDeliveryTrigger::OnLatestReport,
    ensures
        !must_send(handed_over(delivery, sequence, requests), sequence),
        skips_initial(delivery) || already_queued(delivery, sequence) ==> !must_send(
            passed_by(delivery, sequence),
            sequence,
        ),
        forall|other: u64|
            other != sequence ==> must_send(handed_over(delivery, sequence, requests), other),
{
}

/// A delivery that is not due at once passes exactly one report by: the next one is sent.
pub proof fn law_only_the_first_report_is_passed_by(
    delivery: DeliveryState,
    first: u64,
    second: u64,
)
    requires
        skips_initial(delivery),
        first != second,
    ensures
        !must_send(delivery, first),
        must_send(passed_by(delivery, first), second),
{
}

/// After an occasion an interval delivery is due again one interval later and not before.
pub proof fn law_interval_starts_again(delivery: DeliveryState, now: Moment, at: Moment)
    requires
        delivery.spec.trigger is Interval,
        interval_reachable(delivery.spec, now),
    ensures
        delivery_due(rescheduled(delivery, now), at) <==> at.nanos >= now.nanos
            + delivery.spec.trigger->Interval_0.nanos,
{
}

/// A delivery at intervals is due at once where it is sent on start, and one interval later
/// otherwise. Other deliveries are never due by the clock, and none has sent anything yet.
pub proof fn law_first_occasion(spec: ExportDeliverySpec, now: Moment, at: Moment)
    requires
        interval_reachable(spec, now),
    ensures
        ({
            let delivery = fresh_delivery(spec, now);
            &&& delivery.spec == spec
            &&& delivery.last_sent_sequence is None && delivery.last_queued_sequence is None
            &&& match spec.trigger {
                ExportDeliveryTrigger::Interval(interval) => delivery_due(delivery, at)
                    <==> at.nanos >= (if spec.send_on_start {
                    now.nanos as int
                } else {
                    now.nanos + interval.nanos
                }),
                _ => !delivery_due(delivery, at),
            }
        }),
{
}

/// A delivery at intervals sends whatever report there is. A delivery of every new report sends
/// each but the one that it dealt with last, and passes the very first by where it is not sent on
/// start.
pub proof fn law_what_has_to_be_sent(delivery: DeliveryState, sequence: u64)
    ensures
        must_send(delivery, sequence) <==> match delivery.spec.trigger {
            ExportDeliveryTrigger::OnLatestReport => match delivery.last_queued_sequence {
                Some(last) => last != sequence,
                None => delivery.spec.send_on_start,
            },
            _ => true,
        },
{
}

/// The reports that a delivery of every new report never saw are those between the last one that
/// it dealt with and the one at hand.
pub proof fn law_missed_reports_are_counted(delivery: DeliveryState, sequence: u64)
    ensures
        delivery.last_queued_sequence matches Some(last) ==> (if delivery.spec.trigger
            == ExportDeliveryTrigger::OnLatestReport && last < sequence {
            last + missed_reports(delivery, sequence) + 1 == sequence
        } else {
            missed_reports(delivery, sequence) == 0
        }),
        delivery.last_queued_sequence is None ==> missed_reports(delivery, sequence) == 0,
{
}

/// A report that was handed over is the last one that the delivery dealt with. It counts as
/// arrived at once exactly where the message format has no use for it.
pub proof fn law_handed_over_reports_are_noted(
    delivery: DeliveryState,
    sequence: u64,
    requests: usize,
)
    ensures
        ({
            let after = handed_over(delivery, sequence, requests);
            &&& after.last_queued_sequence == Some(sequence)
            &&& requests == 0 ==> after.last_sent_sequence == Some(sequence)
            &&& requests > 0 ==> after.last_sent_sequence == delivery.last_sent_sequence
            &&& after.spec == delivery.spec && after.next_due == delivery.next_due
        }),
{
}

/// What comes of handing a report over touches no other delivery. A failure changes nothing but
/// the next occasion of a delivery at intervals.
pub proof fn law_outcomes_concern_one_delivery(
    deliveries: Seq<DeliveryState>,
    place: int,
    phase: Phase,
    sequence: u64,
    outcome: Result<usize, String>,
    now: Moment,
    i: int,
)
    requires
        0 <= place < deliveries.len(),
        0 <= i < deliveries.len(),
    ensures
        ({
            let after = settled(deliveries, place, phase, sequence, outcome, now);
            &&& after.len() == deliveries.len()
            &&& i != place ==> after[i] == deliveries[i]
            &&& after[place].spec == deliveries[place].spec
            &&& outcome is Ok ==> after[place].last_queued_sequence == Some(sequence)
            &&& outcome is Err ==> after[place].last_queued_sequence
                == deliveries[place].last_queued_sequence && after[place].last_sent_sequence
                == deliveries[place].last_sent_sequence
            &&& phase == Phase::LatestReport ==> after[place].next_due
                == deliveries[place].next_due
            &&& phase == Phase::Intervals && deliveries[place].spec.trigger is Interval
                && interval_reachable(deliveries[place].spec, now) ==> after[place].next_due
                is Some && after[place].next_due->0.nanos == now.nanos
                + deliveries[place].spec.trigger->Interval_0.nanos
        }),
{
}

/// Only a failure of a delivery whose policy is to replace the connection ends the round.
pub proof fn law_only_the_policy_ends_a_round(
    deliveries: Seq<DeliveryState>,
    place: int,
    outcome: Result<usize, String>,
)
    ensures
        breaks_round(deliveries, place, outcome) <==> match (
            outcome,
            deliveries[place].spec.failure_policy,
        ) {
            (Err(_), ExportDeliveryFailurePolicy::ReconnectPipeline) => true,
            (Err(_), ExportDeliveryFailurePolicy::LogAndContinue) => false,
            (Ok(_), _) => false,
        },
{
}

/// Deliveries of every new report are sent on start and replace the connection when they fail;
/// deliveries of separate events do as they are told.
pub proof fn law_plans_of_deliveries(
    id: ExportDeliveryId,
    policy: ExportDeliveryFailurePolicy,
    latest: ExportDeliverySpec,
    separate: ExportDeliverySpec,
)
    requires
        call_ensures(ExportDeliverySpec::on_latest_report, (id,), latest),
        call_ensures(ExportDeliverySpec::event_driven, (id, policy), separate),
    ensures
        latest.id == id && separate.id == id,
        latest.trigger is OnLatestReport && separate.trigger is EventDriven,
        latest.failure_policy is ReconnectPipeline,
        separate.failure_policy == policy,
        forall|now: Moment, sequence: u64|
            #[trigger] must_send(fresh_delivery(latest, now), sequence),
        forall|now: Moment, at: Moment, phase: Phase|
            !#[trigger] concerns(phase, fresh_delivery(separate, now), at),
{
}

} // verus!
