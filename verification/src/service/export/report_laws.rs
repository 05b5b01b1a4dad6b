//! Laws of the reports on their way out: who gets them, what a failure costs, and what follows a
//! new connection.

use crate::service::clock::Moment;
use crate::service::config::{ExportConfig, OutboundConfig};
use crate::service::export::delivery::{
    next_delivery, DeliveryState, ExportDeliveryFailurePolicy, ExportDeliveryId,
    ExportDeliveryTrigger, Phase,
};
use crate::service::export::pending::{
    delivery_place, next_number, smallest_beyond, ResumeStage, TransportEvent,
};
use crate::service::export::supervisor::{
    continued, next_place, Activity, ExportAction, Round, SupervisorView,
};
use crate::service::outbound::{OutboundEvent, ReportEnvelope};
use vstd::prelude::*;

verus! {

/// Whether a delivery of every new report has still to hand over the report with this number: it
/// has not dealt with it, and it is no delivery that lets its first report go by.
pub open spec fn wants_report(delivery: DeliveryState, sequence: u64) -> bool {
    &&& delivery.spec.trigger == ExportDeliveryTrigger::OnLatestReport
    &&& delivery.last_queued_sequence != Some(sequence)
    &&& delivery.spec.send_on_start || delivery.last_queued_sequence is Some
}

/// Whether a delivery follows an interval that has passed.
pub open spec fn interval_passed(delivery: DeliveryState, now: Moment) -> bool {
    &&& delivery.spec.trigger is Interval
    &&& delivery.next_due matches Some(due) && due.nanos <= now.nanos
}

/// Whether a delivery has to hand over the report with this number at this time.
pub open spec fn has_to_send(delivery: DeliveryState, sequence: u64, now: Moment) -> bool {
    wants_report(delivery, sequence) || interval_passed(delivery, now)
}

/// Whether a phase makes a delivery hand over the report.
spec fn sends_in(phase: Phase, delivery: DeliveryState, sequence: u64, now: Moment) -> bool {
    match phase {
        Phase::Intervals => interval_passed(delivery, now),
        Phase::LatestReport => wants_report(delivery, sequence),
    }
}

proof fn lemma_next_delivery(
    deliveries: Seq<DeliveryState>,
    from: int,
    phase: Phase,
    sequence: u64,
    now: Moment,
)
    requires
        0 <= from,
    ensures
        ({
            let (after, place) = next_delivery(deliveries, from, phase, sequence, now);
            &&& after.len() == deliveries.len()
            &&& 0 <= place <= deliveries.len()
            &&& place < deliveries.len() ==> from <= place && after[place] == deliveries[place]
                && sends_in(phase, deliveries[place], sequence, now)
            &&& forall|j: int|
                from <= j < place ==> !sends_in(phase, #[trigger] deliveries[j], sequence, now)
            &&& phase == Phase::Intervals ==> after == deliveries
            &&& forall|j: int|
                0 <= j < deliveries.len() ==> (#[trigger] after[j]).spec == deliveries[j].spec
                    && after[j].next_due == deliveries[j].next_due && after[j].last_sent_sequence
                    == deliveries[j].last_sent_sequence && (after[j].last_queued_sequence
                    == deliveries[j].last_queued_sequence || after[j].last_queued_sequence == Some(
                    sequence,
                ))
        }),
    decreases deliveries.len() - from,
{
    if from < deliveries.len() {
        let delivery = deliveries[from];
        let concerned = match phase {
            Phase::Intervals => interval_passed(delivery, now),
            Phase::LatestReport => delivery.spec.trigger == ExportDeliveryTrigger::OnLatestReport,
        };
        if !concerned {
            lemma_next_delivery(deliveries, from + 1, phase, sequence, now);
        } else if !sends_in(phase, delivery, sequence, now) {
            let passed = if delivery.last_queued_sequence is None {
                DeliveryState { last_queued_sequence: Some(sequence), ..delivery }
            } else {
                delivery
            };
            let next = deliveries.update(from, passed);
            lemma_next_delivery(next, from + 1, phase, sequence, now);
            let (after, place) = next_delivery(next, from + 1, phase, sequence, now);
            assert forall|j: int| from <= j < place implies !sends_in(
                phase,
                #[trigger] deliveries[j],
                sequence,
                now,
            ) by {
                if j > from {
                    assert(!sends_in(phase, next[j], sequence, now));
                }
            }
        }
    }
}

/// How far a round goes: to the first delivery from its place on that has to hand the report over,
/// those whose interval has passed before those of every new report.
proof fn lemma_continued(deliveries: Seq<DeliveryState>, report: ReportEnvelope, round: Round)
    requires
        deliveries.len() <= usize::MAX,
    ensures
        ({
            let (after, next) = continued(deliveries, Some(report), round);
            let sequence = report.sequence;
            &&& after.len() == deliveries.len()
            &&& next matches Some(next) ==> {
                &&& next.place < deliveries.len()
                &&& next.now == round.now
                &&& next.everything == round.everything
                &&& next.phase == round.phase ==> next.place >= round.place
                &&& after[next.place as int] == deliveries[next.place as int]
                &&& sends_in(next.phase, deliveries[next.place as int], sequence, round.now)
                &&& next.phase == round.phase || (round.phase == Phase::Intervals
                    && round.everything && next.phase == Phase::LatestReport)
            }
            &&& next is None ==> forall|j: int|
                round.place <= j < deliveries.len() ==> !sends_in(
                    round.phase,
                    #[trigger] deliveries[j],
                    sequence,
                    round.now,
                )
            &&& next is None && round.phase == Phase::Intervals && round.everything
                ==> forall|j: int|
                0 <= j < deliveries.len() ==> !wants_report(#[trigger] deliveries[j], sequence)
        }),
{
    lemma_next_delivery(
        deliveries,
        round.place as int,
        round.phase,
        report.sequence,
        round.now,
    );
    let (first, place) = next_delivery(
        deliveries,
        round.place as int,
        round.phase,
        report.sequence,
        round.now,
    );
    if place >= first.len() && round.phase == Phase::Intervals && round.everything {
        assert(first == deliveries);
        lemma_next_delivery(deliveries, 0, Phase::LatestReport, report.sequence, round.now);
        assert forall|j: int| continued(deliveries, Some(report), round).1 is None && 0 <= j
            < deliveries.len() implies !wants_report(
            #[trigger] deliveries[j],
            report.sequence,
        ) by {
            assert(!sends_in(Phase::LatestReport, deliveries[j], report.sequence, round.now));
        }
    }
}

/// Whether an action hands a report over to the delivery that a supervisor is at.
pub open spec fn hands_over(
    state: SupervisorView,
    place: int,
    action: ExportAction,
    report: ReportEnvelope,
) -> bool {
    action matches ExportAction::SendReport { delivery, report: sent } && sent == report && delivery
        == state.deliveries[place].spec.id
}

/// A new report goes to every delivery that has to send it: the round starts with one of them, and
/// nothing is sent only where none has to.
pub proof fn law_new_report_is_delivered(state: SupervisorView, report: ReportEnvelope, now: Moment)
    requires
        state.deliveries.len() <= usize::MAX,
    ensures
        ({
            let (next, action) = state.on_outbound(Some(OutboundEvent::Report(report)), now);
            if exists|i: int|
                0 <= i < state.deliveries.len() && #[trigger] has_to_send(
                    state.deliveries[i],
                    report.sequence,
                    now,
                ) {
                next.activity matches Activity::Delivering { round, lenient } && {
                    &&& !lenient
                    &&& round.now == now
                    &&& round.place < state.deliveries.len()
                    &&& has_to_send(
                        state.deliveries[round.place as int],
                        report.sequence,
                        now,
                    )
                    &&& hands_over(next, round.place as int, action, report)
                }
            } else {
                next.activity is Idle && action is Receive
            }
        }),
{
    let round = Round { phase: Phase::Intervals, place: 0, everything: true, now };
    lemma_continued(state.deliveries, report, round);
    let next = state.on_outbound(Some(OutboundEvent::Report(report)), now).0;
    if next.activity is Idle {
        assert forall|i: int| 0 <= i < state.deliveries.len() implies !#[trigger] has_to_send(
            state.deliveries[i],
            report.sequence,
            now,
        ) by {
            assert(!sends_in(Phase::Intervals, state.deliveries[i], report.sequence, now));
            assert(!wants_report(state.deliveries[i], report.sequence));
        }
    } else if let Activity::Delivering { round, .. } = next.activity {
        assert(has_to_send(state.deliveries[round.place as int], report.sequence, now));
    }
}

/// Where a report could not be handed over and the delivery replaces the connection, the
/// connection is made anew after the configured pause; the report is kept for it. Only the first
/// round over a connection passes the failure over.
pub proof fn law_failed_report_costs_the_connection(
    state: SupervisorView,
    round: Round,
    lenient: bool,
    error: String,
)
    requires
        state.activity == (Activity::Delivering { round, lenient }),
        state.deliveries[round.place as int].spec.failure_policy
            == ExportDeliveryFailurePolicy::ReconnectPipeline,
    ensures
        ({
            let (next, action) = state.on_sent(Err(error));
            &&& !lenient ==> action == (ExportAction::Reconnect {
                pause: state.export_config.reconnect_interval,
            })
            &&& !lenient ==> next.activity == (Activity::Reconnecting { after: None })
            &&& lenient ==> action is Receive && next.activity is Idle
            &&& next.latest_report == state.latest_report
            &&& next.deliveries == state.deliveries
        }),
{
}

/// A delivery that only notes its failures never costs the connection, and the report counts as
/// not handed over, so that it is tried again.
pub proof fn law_noted_failure_keeps_the_connection(
    state: SupervisorView,
    round: Round,
    lenient: bool,
    error: String,
)
    requires
        state.activity == (Activity::Delivering { round, lenient }),
        state.latest_report is Some,
        round.place < state.deliveries.len(),
        state.deliveries.len() <= usize::MAX,
        state.deliveries[round.place as int].spec.failure_policy
            == ExportDeliveryFailurePolicy::LogAndContinue,
    ensures
        ({
            let (next, action) = state.on_sent(Err(error));
            &&& action is SendReport || action is Receive
            &&& !(next.activity is Reconnecting)
            &&& next.latest_report == state.latest_report
            &&& state.deliveries[round.place as int].last_queued_sequence is Some ==> {
                let before = state.deliveries[round.place as int].last_queued_sequence;
                let after = next.deliveries[round.place as int].last_queued_sequence;
                after == before || after == Some((state.latest_report->0).sequence)
            }
            &&& round.phase == Phase::LatestReport ==> next.deliveries[round.place as int]
                == state.deliveries[round.place as int]
        }),
{
    let report = state.latest_report->0;
    let base = SupervisorView { activity: Activity::Idle, ..state };
    let noted = base.after_delivery(round, Err(error));
    lemma_continued(noted.deliveries, report, next_place(round));
    lemma_next_delivery(
        noted.deliveries,
        round.place + 1,
        round.phase,
        report.sequence,
        round.now,
    );
    if round.phase == Phase::LatestReport {
        assert(noted.deliveries[round.place as int] == state.deliveries[round.place as int]);
        lemma_untouched(noted.deliveries, round.place + 1, report.sequence, round.now);
    } else {
        lemma_next_delivery(noted.deliveries, 0, Phase::LatestReport, report.sequence, round.now);
    }
}

proof fn lemma_untouched(deliveries: Seq<DeliveryState>, from: int, sequence: u64, now: Moment)
    requires
        0 <= from,
    ensures
        forall|j: int|
            0 <= j < from && j < deliveries.len() ==> #[trigger] next_delivery(
                deliveries,
                from,
                Phase::LatestReport,
                sequence,
                now,
            ).0[j] == deliveries[j],
    decreases deliveries.len() - from,
{
    if from < deliveries.len() {
        let delivery = deliveries[from];
        lemma_untouched(deliveries, from + 1, sequence, now);
        let next = deliveries.update(
            from,
            DeliveryState { last_queued_sequence: Some(sequence), ..delivery },
        );
        lemma_untouched(next, from + 1, sequence, now);
        assert(deliveries.update(from, delivery) =~= deliveries);
        lemma_untouched(deliveries.update(from, delivery), from + 1, sequence, now);
        let all = next_delivery(deliveries, from, Phase::LatestReport, sequence, now).0;
        assert forall|j: int| 0 <= j < from && j < deliveries.len() implies #[trigger] all[j]
            == deliveries[j] by {
            assert(next_delivery(
                deliveries,
                from + 1,
                Phase::LatestReport,
                sequence,
                now,
            ).0[j] == deliveries[j]);
            assert(next_delivery(next, from + 1, Phase::LatestReport, sequence, now).0[j]
                == next[j]);
        }
    }
}

/// A report that was handed over counts as dealt with by its delivery, and the round goes on:
/// every later delivery of new reports that still wants it gets it.
pub proof fn law_round_goes_on(
    state: SupervisorView,
    round: Round,
    lenient: bool,
    requests: usize,
)
    requires
        state.activity == (Activity::Delivering { round, lenient }),
        state.latest_report is Some,
        round.place < state.deliveries.len(),
        state.deliveries.len() <= usize::MAX,
        round.phase == Phase::LatestReport,
    ensures
        ({
            let (next, action) = state.on_sent(Ok(requests));
            let report = state.latest_report->0;
            let place = round.place as int;
            &&& next.deliveries[place].last_queued_sequence == Some(report.sequence)
            &&& requests == 0 ==> next.deliveries[place].last_sent_sequence == Some(report.sequence)
            &&& requests > 0 ==> next.deliveries[place].last_sent_sequence
                == state.deliveries[place].last_sent_sequence
            &&& next.latest_report == state.latest_report
            &&& if exists|i: int|
                place < i < state.deliveries.len() && #[trigger] wants_report(
                    state.deliveries[i],
                    report.sequence,
                ) {
                next.activity matches Activity::Delivering { round: later, lenient: kept } && {
                    &&& kept == lenient
                    &&& place < later.place < state.deliveries.len()
                    &&& wants_report(state.deliveries[later.place as int], report.sequence)
                    &&& hands_over(next, later.place as int, action, report)
                    &&& forall|i: int|
                        place < i < later.place ==> !#[trigger] wants_report(
                            state.deliveries[i],
                            report.sequence,
                        )
                }
            } else {
                next.activity is Idle && action is Receive
            }
        }),
{
    let report = state.latest_report->0;
    let place = round.place as int;
    let base = SupervisorView { activity: Activity::Idle, ..state };
    let noted = base.after_delivery(round, Ok(requests));
    lemma_continued(noted.deliveries, report, next_place(round));
    lemma_next_delivery(noted.deliveries, place + 1, round.phase, report.sequence, round.now);
    lemma_untouched(noted.deliveries, place + 1, report.sequence, round.now);
    let next = state.on_sent(Ok(requests)).0;
    assert forall|i: int| place < i < state.deliveries.len() implies #[trigger] wants_report(
        state.deliveries[i],
        report.sequence,
    ) == sends_in(Phase::LatestReport, noted.deliveries[i], report.sequence, round.now) by {
        assert(noted.deliveries[i] == state.deliveries[i]);
    }
    assert(next.deliveries[place] == noted.deliveries[place]);
}

/// After an interval delivery handed a report over its interval starts again, and the round goes
/// on: something is sent as long as a later interval has passed or, in a round through all
/// deliveries, a delivery of new reports wants the report.
pub proof fn law_interval_round_goes_on(
    state: SupervisorView,
    round: Round,
    lenient: bool,
    requests: usize,
)
    requires
        state.activity == (Activity::Delivering { round, lenient }),
        state.latest_report is Some,
        round.place < state.deliveries.len(),
        state.deliveries.len() <= usize::MAX,
        round.phase == Phase::Intervals,
        state.deliveries[round.place as int].spec.trigger is Interval,
        round.now.nanos
            + state.deliveries[round.place as int].spec.trigger->Interval_0.nanos <= u128::MAX,
    ensures
        ({
            let (next, action) = state.on_sent(Ok(requests));
            let report = state.latest_report->0;
            let place = round.place as int;
            &&& next.deliveries[place].last_queued_sequence == Some(report.sequence)
            &&& next.deliveries[place].next_due matches Some(due) && due.nanos == round.now.nanos
                + state.deliveries[place].spec.trigger->Interval_0.nanos
            &&& action is SendReport <==> (exists|i: int|
                place < i < state.deliveries.len() && #[trigger] interval_passed(
                    state.deliveries[i],
                    round.now,
                )) || (round.everything && exists|i: int|
                0 <= i < state.deliveries.len() && #[trigger] wants_report(
                    state.deliveries[i],
                    report.sequence,
                ))
            &&& action is SendReport || action is Receive
        }),
{
    let report = state.latest_report->0;
    let place = round.place as int;
    let base = SupervisorView { activity: Activity::Idle, ..state };
    let noted = base.after_delivery(round, Ok(requests));
    lemma_continued(noted.deliveries, report, next_place(round));
    lemma_next_delivery(noted.deliveries, place + 1, round.phase, report.sequence, round.now);
    lemma_next_delivery(noted.deliveries, 0, Phase::LatestReport, report.sequence, round.now);
    let (next, action) = state.on_sent(Ok(requests));
    assert forall|i: int| place < i < state.deliveries.len() implies #[trigger] interval_passed(
        state.deliveries[i],
        round.now,
    ) == sends_in(Phase::Intervals, noted.deliveries[i], report.sequence, round.now) by {
        assert(noted.deliveries[i] == state.deliveries[i]);
    }
    assert forall|i: int| 0 <= i < state.deliveries.len() implies #[trigger] wants_report(
        state.deliveries[i],
        report.sequence,
    ) == wants_report(noted.deliveries[i], report.sequence) by {
        if i != place {
            assert(noted.deliveries[i] == state.deliveries[i]);
        }
    }
    if next.activity is Idle {
        assert forall|i: int| place < i < state.deliveries.len() implies !#[trigger] interval_passed(
            state.deliveries[i],
            round.now,
        ) by {
            assert(!sends_in(Phase::Intervals, noted.deliveries[i], report.sequence, round.now));
        }
    } else if let Activity::Delivering { round: later, .. } = next.activity {
        let at = later.place as int;
        assert(sends_in(later.phase, noted.deliveries[at], report.sequence, round.now));
        if later.phase == Phase::Intervals {
            assert(interval_passed(state.deliveries[at], round.now));
        } else {
            assert(wants_report(state.deliveries[at], report.sequence));
        }
    }
}

/// A regular look sends the latest report exactly where there is one and some interval has passed.
pub proof fn law_tick_serves_passed_intervals(state: SupervisorView, now: Moment)
    requires
        state.deliveries.len() <= usize::MAX,
    ensures
        ({
            let (next, action) = state.on_tick(now);
            if state.latest_report is Some && exists|i: int|
                0 <= i < state.deliveries.len() && #[trigger] interval_passed(
                    state.deliveries[i],
                    now,
                ) {
                next.activity matches Activity::Delivering { round, lenient } && {
                    &&& round.place < state.deliveries.len()
                    &&& interval_passed(state.deliveries[round.place as int], now)
                    &&& hands_over(
                        next,
                        round.place as int,
                        action,
                        state.latest_report->0,
                    )
                }
            } else {
                action is Receive
            }
        }),
{
    let round = Round { phase: Phase::Intervals, place: 0, everything: false, now };
    if let Some(report) = state.latest_report {
        lemma_continued(state.deliveries, report, round);
        lemma_next_delivery(state.deliveries, 0, Phase::Intervals, report.sequence, now);
        assert forall|i: int| 0 <= i < state.deliveries.len() implies #[trigger] interval_passed(
            state.deliveries[i],
            now,
        ) == sends_in(Phase::Intervals, state.deliveries[i], report.sequence, now) by {}
        if exists|i: int|
            0 <= i < state.deliveries.len() && #[trigger] interval_passed(
                state.deliveries[i],
                now,
            ) {
            let i = choose|i: int|
                0 <= i < state.deliveries.len() && #[trigger] interval_passed(
                    state.deliveries[i],
                    now,
                );
            assert(crate::service::export::delivery::follows_interval(state.deliveries[i]));
        }
    }
}

/// Over a new connection the latest report is sent first, wherever a delivery has to send it.
pub proof fn law_latest_report_goes_out_again(
    state: SupervisorView,
    deliveries: Seq<DeliveryState>,
    export_config: ExportConfig,
    outbound_config: OutboundConfig,
    now: Moment,
    report: ReportEnvelope,
    i: int,
)
    requires
        state.latest_report == Some(report),
        deliveries.len() <= usize::MAX,
        0 <= i < deliveries.len(),
        has_to_send(deliveries[i], report.sequence, now),
    ensures
        ({
            let (next, action) = state.on_reconnected(
                deliveries,
                export_config,
                outbound_config,
                now,
            );
            &&& next.activity matches Activity::ResumingReports { round, after } && {
                &&& round.place < deliveries.len()
                &&& has_to_send(deliveries[round.place as int], report.sequence, now)
                &&& hands_over(next, round.place as int, action, report)
                &&& after == (match state.activity {
                    Activity::Reconnecting { after } => after,
                    _ => None,
                })
            }
            &&& next.export_config == export_config
            &&& next.outbound_config == outbound_config
        }),
{
    let round = Round { phase: Phase::Intervals, place: 0, everything: true, now };
    lemma_continued(deliveries, report, round);
    let next = continued(deliveries, Some(report), round).1;
    if next is None {
        assert(!sends_in(Phase::Intervals, deliveries[i], report.sequence, now));
        assert(!wants_report(deliveries[i], report.sequence));
    }
}

/// A failure over a connection that was only just made ends the supervision with that error: that
/// of the report where its delivery replaces the connection, and that of any waiting event.
pub proof fn law_failure_while_resuming_ends(state: SupervisorView, error: String)
    ensures
        state.activity matches Activity::ResumingReports { round, after }
            ==> state.deliveries[round.place as int].spec.failure_policy
            == ExportDeliveryFailurePolicy::ReconnectPipeline ==> state.on_sent(Err(error)).1
            == ExportAction::Fail(error) && state.on_sent(Err(error)).0.activity is Stopped,
        state.activity is Resuming ==> state.on_sent(Err(error)).1 == ExportAction::Fail(error)
            && state.on_sent(Err(error)).0.activity is Stopped,
        state.fail(error).1 == ExportAction::Fail(error),
        state.fail(error).0.activity is Stopped,
{
}

/// Everything but a report is sent as it comes; the end of the events ends the supervision.
pub proof fn law_events_are_sent_as_they_come(
    state: SupervisorView,
    event: OutboundEvent,
    now: Moment,
)
    requires
        !(event is Report),
    ensures
        state.on_outbound(Some(event), now).1 == ExportAction::Send(event),
        state.on_outbound(Some(event), now).0.activity == (Activity::Sending { event }),
        state.on_outbound(None, now).1 is Stop,
        state.on_outbound(None, now).0.activity is Stopped,
{
}

/// News that a message failed asks for a new connection where a server may be waiting for the
/// message, and never for basic information. For a report the delivery decides. The loss of the
/// connection itself always asks for a new one.
pub proof fn law_failed_messages_reconnect(
    state: SupervisorView,
    event: TransportEvent,
    policy: ExportDeliveryFailurePolicy,
)
    requires
        event is Failed,
    ensures
        ({
            let (next, action) = state.on_transport(Some(event));
            let renewed = action == (ExportAction::Reconnect {
                pause: state.export_config.reconnect_interval,
            }) && next.activity == (Activity::Reconnecting { after: None });
            match event->Failed_delivery {
                ExportDeliveryId::BasicInfo => action is Receive,
                ExportDeliveryId::RealtimeReport => {
                    &&& (forall|i: int|
                        0 <= i < state.deliveries.len() && (#[trigger] state.deliveries[i]).spec.id
                            == ExportDeliveryId::RealtimeReport
                            ==> state.deliveries[i].spec.failure_policy == policy) && (exists|i: int|
                        0 <= i < state.deliveries.len() && (#[trigger] state.deliveries[i]).spec.id
                            == ExportDeliveryId::RealtimeReport) ==> {
                        &&& policy == ExportDeliveryFailurePolicy::ReconnectPipeline ==> renewed
                        &&& policy == ExportDeliveryFailurePolicy::LogAndContinue ==> action
                            is Receive
                    }
                },
                _ => renewed,
            }
        }),
        state.on_transport(None).1 == (ExportAction::Reconnect {
            pause: state.export_config.reconnect_interval,
        }),
        state.on_transport(None).0.activity == (Activity::Reconnecting { after: None }),
{
    lemma_first_of_sort(state.deliveries, ExportDeliveryId::RealtimeReport);
}

proof fn lemma_first_of_sort(deliveries: Seq<DeliveryState>, id: ExportDeliveryId)
    ensures
        0 <= delivery_place(deliveries, id) <= deliveries.len(),
        delivery_place(deliveries, id) < deliveries.len() ==> deliveries[delivery_place(
            deliveries,
            id,
        )].spec.id == id,
        delivery_place(deliveries, id) == deliveries.len() ==> forall|i: int|
            0 <= i < deliveries.len() ==> (#[trigger] deliveries[i]).spec.id != id,
    decreases deliveries.len(),
{
    if deliveries.len() > 0 && deliveries[0].spec.id != id {
        let rest = deliveries.drop_first();
        lemma_first_of_sort(rest, id);
        if delivery_place(deliveries, id) == deliveries.len() {
            assert forall|i: int| 0 <= i < deliveries.len() implies (
            #[trigger] deliveries[i]).spec.id != id by {
                if i > 0 {
                    assert(rest[i - 1].spec.id != id);
                }
            }
        }
    }
}

/// A confirmation removes exactly the event with its sort and number from those that wait, and
/// keeps the connection.
pub proof fn law_confirmation_removes_one_event(state: SupervisorView, event: TransportEvent)
    requires
        event is Sent,
    ensures
        ({
            let (next, action) = state.on_transport(Some(event));
            let sort = event->Sent_delivery;
            let number = event->Sent_sequence;
            &&& action is Receive
            &&& next.pending.remote_task_results == (if sort == ExportDeliveryId::RemoteTaskResult {
                state.pending.remote_task_results.remove(number)
            } else {
                state.pending.remote_task_results
            })
            &&& next.pending.remote_job_results == (if sort == ExportDeliveryId::JobResult {
                state.pending.remote_job_results.remove(number)
            } else {
                state.pending.remote_job_results
            })
            &&& next.pending.control_acks == (if sort == ExportDeliveryId::ControlAck {
                state.pending.control_acks.remove(number)
            } else {
                state.pending.control_acks
            })
            &&& next.pending.control_errors == (if sort == ExportDeliveryId::ControlError {
                state.pending.control_errors.remove(number)
            } else {
                state.pending.control_errors
            })
        }),
{
}

/// A delivery remembers the largest number that is known to have been sent.
pub proof fn law_largest_sent_number_is_kept(
    state: SupervisorView,
    event: TransportEvent,
    i: int,
)
    requires
        event is Sent,
        0 <= i < state.deliveries.len(),
        state.deliveries[i].spec.id == event->Sent_delivery,
        forall|j: int|
            0 <= j < i ==> (#[trigger] state.deliveries[j]).spec.id != event->Sent_delivery,
    ensures
        ({
            let next = state.on_transport(Some(event)).0;
            let number = event->Sent_sequence;
            &&& next.deliveries.len() == state.deliveries.len()
            &&& next.deliveries[i].last_sent_sequence == (match state.deliveries[i].last_sent_sequence {
                Some(last) if last > number => Some(last),
                _ => Some(number),
            })
            &&& next.deliveries[i].spec == state.deliveries[i].spec
            &&& next.deliveries[i].last_queued_sequence == state.deliveries[i].last_queued_sequence
            &&& next.deliveries[i].next_due == state.deliveries[i].next_due
            &&& forall|j: int|
                0 <= j < state.deliveries.len() && j != i ==> #[trigger] next.deliveries[j]
                    == state.deliveries[j]
        }),
{
    lemma_place_of_first(state.deliveries, event->Sent_delivery, i);
}

proof fn lemma_place_of_first(deliveries: Seq<DeliveryState>, id: ExportDeliveryId, i: int)
    requires
        0 <= i < deliveries.len(),
        deliveries[i].spec.id == id,
        forall|j: int| 0 <= j < i ==> (#[trigger] deliveries[j]).spec.id != id,
    ensures
        delivery_place(deliveries, id) == i,
    decreases deliveries.len(),
{
    if i > 0 {
        assert(deliveries[0].spec.id != id);
        let rest = deliveries.drop_first();
        assert forall|j: int| 0 <= j < i - 1 implies (#[trigger] rest[j]).spec.id != id by {
            assert(rest[j] == deliveries[j + 1]);
        }
        lemma_place_of_first(rest, id, i - 1);
    }
}

/// Events that were handed over wait under their own number, those that the message format has no
/// use for do not, and no other waiting event changes.
pub proof fn law_handed_over_events_are_noted(
    state: SupervisorView,
    event: OutboundEvent,
    requests: usize,
)
    requires
        state.activity == (Activity::Sending { event }),
    ensures
        ({
            let (next, action) = state.on_sent(Ok(requests));
            let before = state.pending;
            let after = next.pending;
            &&& action is Receive
            &&& after.remote_task_results == (match event {
                OutboundEvent::RemoteTaskResult(result) => if requests > 0 {
                    before.remote_task_results.insert(result.sequence, result)
                } else {
                    before.remote_task_results.remove(result.sequence)
                },
                _ => before.remote_task_results,
            })
            &&& after.remote_job_results == (match event {
                OutboundEvent::RemoteJobResult(result) => if requests > 0 {
                    before.remote_job_results.insert(result.sequence, result)
                } else {
                    before.remote_job_results.remove(result.sequence)
                },
                _ => before.remote_job_results,
            })
            &&& after.control_acks == (match event {
                OutboundEvent::ControlAck(ack) => if requests > 0 {
                    before.control_acks.insert(ack.sequence, ack)
                } else {
                    before.control_acks.remove(ack.sequence)
                },
                _ => before.control_acks,
            })
            &&& after.control_errors == (match event {
                OutboundEvent::ControlError(failure) => if requests > 0 {
                    before.control_errors.insert(failure.sequence, failure)
                } else {
                    before.control_errors.remove(failure.sequence)
                },
                _ => before.control_errors,
            })
        }),
{
}

/// Where a number waits beyond the last one, the smallest such number comes next.
pub proof fn lemma_smallest_exists(numbers: Set<u64>, last: Option<u64>, candidate: u64)
    requires
        numbers.contains(candidate),
        last matches Some(last) ==> candidate > last,
    ensures
        next_number(numbers, last) matches Some(first) && {
            &&& numbers.contains(first)
            &&& last matches Some(last) ==> first > last
            &&& forall|other: u64| #[trigger]
                numbers.contains(other) && (last matches Some(last) ==> other > last) ==> first
                    <= other
        },
    decreases candidate,
{
    if exists|other: u64| #[trigger]
        numbers.contains(other) && (last matches Some(last) ==> other > last) && other
            < candidate {
        let other = choose|other: u64| #[trigger]
            numbers.contains(other) && (last matches Some(last) ==> other > last) && other
                < candidate;
        lemma_smallest_exists(numbers, last, other);
    } else {
        assert(smallest_beyond(numbers, last, candidate));
        let first = choose|number: u64| smallest_beyond(numbers, last, number);
        assert(smallest_beyond(numbers, last, first));
    }
}

proof fn lemma_next_of_stage(numbers: Set<u64>, last: Option<u64>)
    ensures
        next_number(numbers, last) is Some <==> exists|number: u64| #[trigger]
            numbers.contains(number) && (last matches Some(last) ==> number > last),
        next_number(numbers, last) matches Some(first) ==> {
            &&& numbers.contains(first)
            &&& last matches Some(last) ==> first > last
            &&& forall|other: u64| #[trigger]
                numbers.contains(other) && (last matches Some(last) ==> other > last) ==> first
                    <= other
        },
{
    if next_number(numbers, last) is Some {
        let first = choose|number: u64| smallest_beyond(numbers, last, number);
        assert(smallest_beyond(numbers, last, first));
    }
    if exists|number: u64| #[trigger]
        numbers.contains(number) && (last matches Some(last) ==> number > last) {
        let number = choose|number: u64| #[trigger]
            numbers.contains(number) && (last matches Some(last) ==> number > last);
        lemma_smallest_exists(numbers, last, number);
    }
}

/// Whether nothing waits for its confirmation under a number beyond `last`.
pub open spec fn none_beyond(numbers: Set<u64>, last: Option<u64>) -> bool {
    forall|number: u64| #[trigger]
        numbers.contains(number) ==> last is Some && number <= last->0
}

/// Whether a number is the smallest of those beyond `last`.
pub open spec fn first_beyond(numbers: Set<u64>, last: Option<u64>, first: u64) -> bool {
    &&& numbers.contains(first)
    &&& last matches Some(last) ==> first > last
    &&& forall|other: u64| #[trigger]
        numbers.contains(other) && (last matches Some(last) ==> other > last) ==> first <= other
}

/// Over a new connection every waiting event is sent again: task results first, then job results,
/// then confirmations, then failures, each sort from its smallest number on, and last of all the
/// event whose sending failed.
pub proof fn law_waiting_events_are_sent_again(
    state: SupervisorView,
    after: Option<OutboundEvent>,
)
    ensures
        ({
            let pending = state.pending;
            let (next, action) = state.resume(ResumeStage::TaskResults, None, after);
            let tasks = pending.remote_task_results.dom();
            let jobs = pending.remote_job_results.dom();
            let acks = pending.control_acks.dom();
            let failures = pending.control_errors.dom();
            match action {
                ExportAction::Send(event) => after == Some(event) && none_beyond(tasks, None)
                    && none_beyond(jobs, None) && none_beyond(acks, None) && none_beyond(
                    failures,
                    None,
                ) || match event {
                    OutboundEvent::RemoteTaskResult(result) => exists|number: u64| #[trigger]
                        first_beyond(tasks, None, number) && pending.remote_task_results[number]
                            == result,
                    OutboundEvent::RemoteJobResult(result) => none_beyond(tasks, None) && exists|
                        number: u64,
                    | #[trigger]
                        first_beyond(jobs, None, number) && pending.remote_job_results[number]
                            == result,
                    OutboundEvent::ControlAck(ack) => none_beyond(tasks, None) && none_beyond(
                        jobs,
                        None,
                    ) && exists|number: u64| #[trigger]
                        first_beyond(acks, None, number) && pending.control_acks[number] == ack,
                    OutboundEvent::ControlError(failure) => none_beyond(tasks, None) && none_beyond(
                        jobs,
                        None,
                    ) && none_beyond(acks, None) && exists|number: u64| #[trigger]
                        first_beyond(failures, None, number) && pending.control_errors[number]
                            == failure,
                    _ => false,
                },
                ExportAction::Receive => none_beyond(tasks, None) && none_beyond(jobs, None)
                    && none_beyond(acks, None) && none_beyond(failures, None) && after is None
                    && next.activity is Idle,
                _ => false,
            }
        }),
{
    let pending = state.pending;
    lemma_next_of_stage(pending.remote_task_results.dom(), None);
    lemma_next_of_stage(pending.remote_job_results.dom(), None);
    lemma_next_of_stage(pending.control_acks.dom(), None);
    lemma_next_of_stage(pending.control_errors.dom(), None);
    reveal_with_fuel(SupervisorView::resume, 5);
    if let Some(number) = next_number(pending.remote_task_results.dom(), None) {
        assert(first_beyond(pending.remote_task_results.dom(), None, number));
    } else if let Some(number) = next_number(pending.remote_job_results.dom(), None) {
        assert(first_beyond(pending.remote_job_results.dom(), None, number));
    } else if let Some(number) = next_number(pending.control_acks.dom(), None) {
        assert(first_beyond(pending.control_acks.dom(), None, number));
    } else if let Some(number) = next_number(pending.control_errors.dom(), None) {
        assert(first_beyond(pending.control_errors.dom(), None, number));
    }
}

/// Once a waiting task result was sent again, the next larger one follows; it keeps waiting for its
/// confirmation, unless the message format has no use for it.
pub proof fn law_resumed_task_results_follow_each_other(
    state: SupervisorView,
    current: u64,
    after: Option<OutboundEvent>,
    requests: usize,
    larger: u64,
)
    requires
        state.activity == (Activity::Resuming { stage: ResumeStage::TaskResults, current, after }),
        state.pending.remote_task_results.contains_key(larger),
        larger > current,
    ensures
        ({
            let (next, action) = state.on_sent(Ok(requests));
            let tasks = state.pending.remote_task_results;
            &&& next.pending.remote_task_results == (if requests == 0 {
                tasks.remove(current)
            } else {
                tasks
            })
            &&& action matches ExportAction::Send(OutboundEvent::RemoteTaskResult(result))
                && exists|number: u64| #[trigger]
                first_beyond(tasks.dom(), Some(current), number) && tasks[number] == result
        }),
{
    let tasks = state.pending.remote_task_results;
    let left = if requests == 0 {
        tasks.remove(current)
    } else {
        tasks
    };
    assert(left.dom().contains(larger));
    lemma_next_of_stage(left.dom(), Some(current));
    let number = next_number(left.dom(), Some(current))->0;
    assert forall|other: u64| #[trigger] tasks.dom().contains(other) && other > current implies number
        <= other by {
        assert(left.dom().contains(other));
    }
    assert(first_beyond(tasks.dom(), Some(current), number));
}

/// The connection is replaced exactly where its own configuration changed, after the new pause;
/// other deliveries alone are worked out anew, and the end of the configurations ends everything.
pub proof fn law_configuration_changes(
    state: SupervisorView,
    export: ExportConfig,
    outbound: OutboundConfig,
)
    ensures
        ({
            let current = state.export_config;
            let (next, action) = state.on_config(Some((export, outbound)));
            let alike = export.format == current.format && export.base_url@ == current.base_url@
                && (match (export.token, current.token) {
                (Some(a), Some(b)) => a@ == b@,
                (None, None) => true,
                _ => false,
            }) && export.unsafe_cert == current.unsafe_cert && export.heartbeat
                == current.heartbeat && export.reconnect_interval == current.reconnect_interval;
            &&& !alike ==> action == (ExportAction::Reconnect { pause: export.reconnect_interval })
                && next.activity == (Activity::Reconnecting { after: None })
            &&& alike && outbound == state.outbound_config ==> action is Receive
            &&& alike && outbound != state.outbound_config ==> action is RebuildDeliveries
                && next.activity == (Activity::Rebuilding { outbound })
        }),
        state.on_config(None).1 is Stop,
        state.on_config(None).0.activity is Stopped,
{
}

/// Deliveries that were worked out anew take the place of the old ones, with the configuration
/// that they follow, and the latest report goes to those that have to send it. Where they could
/// not be worked out, the supervision ends with the error.
pub proof fn law_rebuilt_deliveries_take_over(
    state: SupervisorView,
    outbound: OutboundConfig,
    deliveries: Seq<DeliveryState>,
    report: ReportEnvelope,
    error: String,
    now: Moment,
)
    requires
        state.activity == (Activity::Rebuilding { outbound }),
        state.latest_report == Some(report),
        deliveries.len() <= usize::MAX,
    ensures
        ({
            let (next, action) = state.on_rebuilt(Ok(deliveries), now);
            &&& next.outbound_config == outbound
            &&& next.deliveries.len() == deliveries.len()
            &&& action is SendReport <==> exists|i: int|
                0 <= i < deliveries.len() && #[trigger] has_to_send(
                    deliveries[i],
                    report.sequence,
                    now,
                )
            &&& action matches ExportAction::SendReport { delivery, report: sent } ==> sent
                == report
        }),
        state.on_rebuilt(Err(error), now).1 == ExportAction::Fail(error),
{
    let round = Round { phase: Phase::Intervals, place: 0, everything: true, now };
    lemma_continued(deliveries, report, round);
    if let Some(round) = continued(deliveries, Some(report), round).1 {
        assert(has_to_send(deliveries[round.place as int], report.sequence, now));
    } else {
        assert forall|i: int| 0 <= i < deliveries.len() implies !#[trigger] has_to_send(
            deliveries[i],
            report.sequence,
            now,
        ) by {
            assert(!sends_in(Phase::Intervals, deliveries[i], report.sequence, now));
            assert(!wants_report(deliveries[i], report.sequence));
        }
    }
}

} // verus!
