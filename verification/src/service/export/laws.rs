//! Laws of the export.

use crate::service::clock::Moment;
use crate::service::config::{same_export, ExportConfig, OutboundConfig};
use crate::service::export::delivery::DeliveryState;
use crate::service::export::pending::{
    next_number, smallest_beyond, stage_of, PendingView, ResumeStage, TransportEvent,
};
use crate::service::export::supervisor::{
    continued, full_round, next_place, Activity, ExportAction, Round, SupervisorView,
};
use crate::service::outbound::{OutboundEvent, ReportEnvelope};
use vstd::prelude::*;

verus! {

/// Whether an event waits for its confirmation.
pub open spec fn waits(pending: PendingView, stage: ResumeStage, event: OutboundEvent) -> bool {
    &&& pending.numbers(stage).contains(event.number())
    &&& pending.event(stage, event.number()) == event
}

/// Stage of an event that a server may be waiting for.
pub open spec fn event_stage(event: OutboundEvent) -> ResumeStage {
    match event {
        OutboundEvent::RemoteTaskResult(_) => ResumeStage::TaskResults,
        OutboundEvent::RemoteJobResult(_) => ResumeStage::JobResults,
        OutboundEvent::ControlAck(_) => ResumeStage::Acks,
        _ => ResumeStage::Errors,
    }
}

proof fn lemma_resume_keeps_pending(
    state: SupervisorView,
    stage: ResumeStage,
    last: Option<u64>,
    after: Option<OutboundEvent>,
)
    ensures
        state.resume(stage, last, after).0.pending == state.pending,
        state.resume(stage, last, after).0.latest_report == state.latest_report,
    decreases stage.remaining(),
{
    if next_number(state.pending.numbers(stage), last) is None && stage.following() is Some {
        lemma_resume_keeps_pending(state, stage.following()->0, None, after);
    }
}

/// An event that a server may be waiting for is kept, once it was handed over, until it is known
/// to have been sent.
pub proof fn law_handed_over_event_waits(
    state: SupervisorView,
    event: OutboundEvent,
    requests: usize,
)
    requires
        event.has_priority(),
        requests > 0,
        state.activity == (Activity::Sending { event }) || state.activity
            == (Activity::Resending { event }),
    ensures
        waits(state.on_sent(Ok(requests)).0.pending, event_stage(event), event),
{
}

/// A waiting event stops waiting only when it is known to have been sent: news of any other
/// message leaves it where it is.
pub proof fn law_only_a_confirmation_ends_the_wait(
    state: SupervisorView,
    event: TransportEvent,
    stage: ResumeStage,
    waiting: OutboundEvent,
)
    requires
        waits(state.pending, stage, waiting),
    ensures
        waits(state.on_transport(Some(event)).0.pending, stage, waiting) || (event matches
            TransportEvent::Sent { transport, delivery, sequence } && stage_of(delivery) == Some(
            stage,
        ) && sequence == waiting.number()),
{
}

/// A confirmation ends the wait of the event with its sort and number.
pub proof fn law_confirmation_ends_the_wait(
    state: SupervisorView,
    event: TransportEvent,
    stage: ResumeStage,
)
    requires
        event matches TransportEvent::Sent { transport, delivery, sequence } && stage_of(delivery)
            == Some(stage),
    ensures
        !state.on_transport(Some(event)).0.pending.numbers(stage).contains(
            event->Sent_sequence,
        ),
{
}

/// Nothing that fails ever drops a waiting event.
pub proof fn law_failures_keep_waiting_events(state: SupervisorView, error: String)
    ensures
        state.on_sent(Err(error)).0.pending == state.pending,
        state.on_transport(None).0.pending == state.pending,
        state.fail(error).0.pending == state.pending,
{
    let base = SupervisorView { activity: Activity::Idle, ..state };
    match state.activity {
        Activity::ResumingReports { round, after } => {
            let next = base.after_delivery(round, Err(error));
            lemma_resume_reports_keep_pending(next, next_place(round), after);
        },
        _ => {},
    }
}

proof fn lemma_resume_reports_keep_pending(
    state: SupervisorView,
    round: Round,
    after: Option<OutboundEvent>,
)
    ensures
        state.resume_reports(round, after).0.pending == state.pending,
        state.resume_reports(round, after).0.latest_report == state.latest_report,
{
    let (deliveries, next) = continued(
        state.deliveries,
        state.latest_report,
        round,
    );
    if next is None {
        lemma_resume_keeps_pending(
            SupervisorView { deliveries, ..state },
            ResumeStage::TaskResults,
            None,
            after,
        );
    }
}

/// Reports, ticks, configurations and new connections leave the waiting events alone.
pub proof fn law_other_occasions_keep_waiting_events(
    state: SupervisorView,
    report: ReportEnvelope,
    config: Option<(ExportConfig, OutboundConfig)>,
    deliveries: Seq<DeliveryState>,
    export_config: ExportConfig,
    outbound_config: OutboundConfig,
    now: Moment,
)
    ensures
        state.on_outbound(Some(OutboundEvent::Report(report)), now).0.pending == state.pending,
        state.on_tick(now).0.pending == state.pending,
        state.on_config(config).0.pending == state.pending,
        state.on_rebuilt(Ok(deliveries), now).0.pending == state.pending,
        state.on_reconnected(deliveries, export_config, outbound_config, now).0.pending
            == state.pending,
{
    let next = SupervisorView {
        deliveries,
        export_config,
        outbound_config,
        activity: Activity::Idle,
        ..state
    };
    lemma_resume_reports_keep_pending(
        next,
        full_round(now),
        match state.activity {
            Activity::Reconnecting { after } => after,
            _ => None,
        },
    );
}

/// Only the latest report is kept: a new one takes the place of whatever was there.
pub proof fn law_only_the_latest_report_is_kept(
    state: SupervisorView,
    report: ReportEnvelope,
    now: Moment,
)
    ensures
        state.on_outbound(Some(OutboundEvent::Report(report)), now).0.latest_report == Some(report),
{
}

/// A failure to send basic information never costs the connection.
pub proof fn law_basic_info_never_reconnects(state: SupervisorView, error: String)
    requires
        state.activity matches Activity::Sending { event } && event is BasicInfo,
    ensures
        state.on_sent(Err(error)).1 == ExportAction::Receive,
{
}

/// A failure to send an event that a server may be waiting for asks for a new connection, and
/// the event is kept for it.
pub proof fn law_awaited_event_survives_a_failure(
    state: SupervisorView,
    event: OutboundEvent,
    error: String,
)
    requires
        event.has_priority(),
        state.activity == (Activity::Sending { event }),
    ensures
        state.on_sent(Err(error)).0.activity == (Activity::Reconnecting { after: Some(event) }),
        state.on_sent(Err(error)).1 == (ExportAction::Reconnect {
            pause: state.export_config.reconnect_interval,
        }),
{
}

/// Whether nothing of a sort is left to send; of the sort `stage` only what lies beyond `last`
/// counts.
pub open spec fn exhausted(
    pending: PendingView,
    sort: ResumeStage,
    stage: ResumeStage,
    last: Option<u64>,
) -> bool {
    next_number(
        pending.numbers(sort),
        if sort == stage {
            last
        } else {
            None
        },
    ) is None
}

/// Over a new connection the latest report goes out before any waiting event: an event is sent
/// only where no delivery has to hand the report over.
pub proof fn law_reports_go_out_first(
    state: SupervisorView,
    deliveries: Seq<DeliveryState>,
    export_config: ExportConfig,
    outbound_config: OutboundConfig,
    now: Moment,
)
    ensures
        state.on_reconnected(deliveries, export_config, outbound_config, now).1 is Send ==>
            continued(deliveries, state.latest_report, full_round(now)).1 is None,
        continued(deliveries, state.latest_report, full_round(now)).1 is Some
            ==> state.on_reconnected(deliveries, export_config, outbound_config, now).1
            is SendReport,
{
}

/// Over a new connection the waiting events go out sort by sort, those with smaller numbers
/// first: what is sent next is the smallest waiting event of the first sort that has any left.
pub proof fn law_waiting_events_go_out_in_order(
    state: SupervisorView,
    stage: ResumeStage,
    last: Option<u64>,
    after: Option<OutboundEvent>,
)
    ensures
        match state.resume(stage, last, after).0.activity {
            Activity::Resuming { stage: sent, current, after: kept } => {
                &&& kept == after
                &&& state.resume(stage, last, after).1 == ExportAction::Send(
                    state.pending.event(sent, current),
                )
                &&& sent.remaining() <= stage.remaining()
                &&& smallest_beyond(
                    state.pending.numbers(sent),
                    if sent == stage {
                        last
                    } else {
                        None
                    },
                    current,
                )
                &&& forall|earlier: ResumeStage|
                    sent.remaining() < earlier.remaining() <= stage.remaining()
                        ==> #[trigger] exhausted(state.pending, earlier, stage, last)
            },
            Activity::Resending { event } => {
                &&& after == Some(event)
                &&& state.resume(stage, last, after).1 == ExportAction::Send(event)
            },
            _ => after is None && state.resume(stage, last, after).1 == ExportAction::Receive,
        },
    decreases stage.remaining(),
{
    match next_number(state.pending.numbers(stage), last) {
        Some(current) => {
            let chosen = choose|number: u64|
                smallest_beyond(state.pending.numbers(stage), last, number);
            assert(smallest_beyond(state.pending.numbers(stage), last, chosen));
        },
        None => {
            if stage.following() is Some {
                let next = stage.following()->0;
                law_waiting_events_go_out_in_order(state, next, None, after);
                if let Activity::Resuming { stage: sent, .. } = state.resume(
                    stage,
                    last,
                    after,
                ).0.activity {
                    assert forall|earlier: ResumeStage|
                        sent.remaining() < earlier.remaining()
                            <= stage.remaining() implies #[trigger] exhausted(
                        state.pending,
                        earlier,
                        stage,
                        last,
                    ) by {
                        if earlier != stage {
                            assert(exhausted(state.pending, earlier, next, None));
                        }
                    }
                }
            }
        },
    }
}

/// A change of the deliveries alone never costs the connection.
pub proof fn law_outbound_change_keeps_the_connection(
    state: SupervisorView,
    export: ExportConfig,
    outbound: OutboundConfig,
)
    requires
        same_export(export, state.export_config),
    ensures
        !(state.on_config(Some((export, outbound))).1 is Reconnect),
        state.on_config(Some((export, outbound))).1 is RebuildDeliveries <==> outbound
            != state.outbound_config,
{
}

} // verus!
