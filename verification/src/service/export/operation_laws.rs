//! What the supervisor of the export does on each occasion, whatever state it is in.

use crate::service::clock::Moment;
use crate::service::config::{ExportConfig, OutboundConfig};
use crate::service::export::delivery::{
    interval_reachable, DeliveryState, ExportDeliveryFailurePolicy, ExportDeliveryId,
    ExportDeliveryTrigger,
};
use crate::service::export::laws::law_other_occasions_keep_waiting_events;
use crate::service::export::pending::{PendingExportEvents, ResumeStage, TransportEvent};
use crate::service::export::report_laws::{
    has_to_send, interval_passed, law_configuration_changes, law_confirmation_removes_one_event,
    law_events_are_sent_as_they_come, law_failed_messages_reconnect,
    law_failed_report_costs_the_connection, law_failure_while_resuming_ends,
    law_handed_over_events_are_noted, law_latest_report_goes_out_again, law_new_report_is_delivered,
    law_noted_failure_keeps_the_connection, law_tick_serves_passed_intervals, lemma_smallest_exists,
};
use crate::service::export::supervisor::{Activity, ExportAction, ExportSupervisor, Round};
use crate::service::outbound::{OutboundEvent, ReportEnvelope};
use vstd::prelude::*;

verus! {

/// A report that could not be handed over costs the connection where its delivery says so: a new
/// one is made after the configured pause. A delivery that only notes its failures goes on, and so
/// does the first round over a connection.
pub proof fn law_failed_delivery_reconnects(
    supervisor: &mut ExportSupervisor,
    round: Round,
    lenient: bool,
    error: String,
    action: ExportAction,
)
    requires
        old(supervisor).activity == (Activity::Delivering { round, lenient }),
        old(supervisor).latest_report is Some,
        round.place < old(supervisor).deliveries@.len(),
        call_ensures(
            ExportSupervisor::on_sent,
            (supervisor, Err::<usize, String>(error)),
            action,
        ),
    ensures
        ({
            let policy = old(supervisor).deliveries@[round.place as int].spec.failure_policy;
            &&& policy == ExportDeliveryFailurePolicy::ReconnectPipeline && !lenient ==> action
                == (ExportAction::Reconnect {
                pause: old(supervisor).export_config.reconnect_interval,
            }) && final(supervisor).activity == (Activity::Reconnecting { after: None })
            &&& policy == ExportDeliveryFailurePolicy::ReconnectPipeline && lenient ==> action
                is Receive && final(supervisor).activity is Idle
            &&& policy == ExportDeliveryFailurePolicy::LogAndContinue ==> action is SendReport
                || action is Receive
        }),
        final(supervisor).latest_report == old(supervisor).latest_report,
{
    if old(supervisor).deliveries@[round.place as int].spec.failure_policy
        == ExportDeliveryFailurePolicy::ReconnectPipeline {
        law_failed_report_costs_the_connection(old(supervisor)@, round, lenient, error);
    } else {
        assert(old(supervisor).deliveries@.len() == old(supervisor).deliveries.len());
        law_noted_failure_keeps_the_connection(old(supervisor)@, round, lenient, error);
    }
}

/// An event that could not be handed over is kept and sent again over the new connection; basic
/// information is let go.
pub proof fn law_failed_event_is_kept(
    supervisor: &mut ExportSupervisor,
    event: OutboundEvent,
    error: String,
    action: ExportAction,
)
    requires
        old(supervisor).activity == (Activity::Sending { event }),
        call_ensures(
            ExportSupervisor::on_sent,
            (supervisor, Err::<usize, String>(error)),
            action,
        ),
    ensures
        event is BasicInfo ==> action is Receive && final(supervisor).activity is Idle,
        !(event is BasicInfo) ==> action == (ExportAction::Reconnect {
            pause: old(supervisor).export_config.reconnect_interval,
        }) && final(supervisor).activity == (Activity::Reconnecting { after: Some(event) }),
        final(supervisor).pending@ == old(supervisor).pending@,
{
}

/// An event that was handed over as messages waits for its confirmation; nothing else changes
/// among what waits.
pub proof fn law_handed_over_event_is_awaited(
    supervisor: &mut ExportSupervisor,
    event: OutboundEvent,
    requests: usize,
    action: ExportAction,
)
    requires
        old(supervisor).activity == (Activity::Sending { event }),
        requests > 0,
        call_ensures(
            ExportSupervisor::on_sent,
            (supervisor, Ok::<usize, String>(requests)),
            action,
        ),
    ensures
        action is Receive,
        final(supervisor).activity is Idle,
        ({
            let before = old(supervisor).pending@;
            let after = final(supervisor).pending@;
            match event {
                OutboundEvent::RemoteTaskResult(result) => after.remote_task_results
                    == before.remote_task_results.insert(result.sequence, result),
                OutboundEvent::RemoteJobResult(result) => after.remote_job_results
                    == before.remote_job_results.insert(result.sequence, result),
                OutboundEvent::ControlAck(ack) => after.control_acks == before.control_acks.insert(
                    ack.sequence,
                    ack,
                ),
                OutboundEvent::ControlError(failure) => after.control_errors
                    == before.control_errors.insert(failure.sequence, failure),
                _ => after == before,
            }
        }),
{
    law_handed_over_events_are_noted(old(supervisor)@, event, requests);
}

/// A new report is kept as the latest one and handed to a delivery that has to send it, where
/// there is one. Every other event is sent as it is, and the end of the events ends the export.
pub proof fn law_outbound_events_go_out(
    supervisor: &mut ExportSupervisor,
    event: Option<OutboundEvent>,
    now: Moment,
    action: ExportAction,
)
    requires
        call_ensures(ExportSupervisor::on_outbound, (supervisor, event, now), action),
    ensures
        match event {
            None => action is Stop && final(supervisor).activity is Stopped,
            Some(OutboundEvent::Report(report)) => {
                &&& final(supervisor).latest_report == Some(report)
                &&& action is SendReport <==> exists|i: int|
                    0 <= i < old(supervisor).deliveries@.len() && #[trigger] has_to_send(
                        old(supervisor).deliveries@[i],
                        report.sequence,
                        now,
                    )
                &&& action is SendReport || action is Receive
                &&& action matches ExportAction::SendReport { delivery, report: sent } ==> sent
                    == report
            },
            Some(event) => action == ExportAction::Send(event) && final(supervisor).activity == (
            Activity::Sending { event }),
        },
        final(supervisor).pending@ == old(supervisor).pending@,
{
    let state = old(supervisor)@;
    assert(old(supervisor).deliveries@.len() == old(supervisor).deliveries.len());
    if let Some(event) = event {
        if let OutboundEvent::Report(report) = event {
            law_new_report_is_delivered(state, report, now);
        } else {
            law_events_are_sent_as_they_come(state, event, now);
        }
    }
}

/// A look at the clock hands the latest report to a delivery whose interval has passed, where
/// there is one, and does nothing otherwise.
pub proof fn law_looks_at_the_clock_serve_intervals(
    supervisor: &mut ExportSupervisor,
    now: Moment,
    action: ExportAction,
)
    requires
        call_ensures(ExportSupervisor::on_tick, (supervisor, now), action),
    ensures
        action is SendReport <==> old(supervisor).latest_report is Some && exists|i: int|
            0 <= i < old(supervisor).deliveries@.len() && #[trigger] interval_passed(
                old(supervisor).deliveries@[i],
                now,
            ),
        action is SendReport || action is Receive,
        action matches ExportAction::SendReport { delivery, report } ==> Some(report) == old(
            supervisor,
        ).latest_report,
{
    assert(old(supervisor).deliveries@.len() == old(supervisor).deliveries.len());
    law_tick_serves_passed_intervals(old(supervisor)@, now);
}

/// A confirmation ends the wait of exactly its own event, and the loss of a message, or of the
/// connection, leads to a new connection. Lost basic information does not.
pub proof fn law_news_of_the_connection(
    supervisor: &mut ExportSupervisor,
    event: Option<TransportEvent>,
    action: ExportAction,
)
    requires
        call_ensures(ExportSupervisor::on_transport, (supervisor, event), action),
    ensures
        ({
            let renewed = action == (ExportAction::Reconnect {
                pause: old(supervisor).export_config.reconnect_interval,
            }) && final(supervisor).activity == (Activity::Reconnecting { after: None });
            let before = old(supervisor).pending@;
            let after = final(supervisor).pending@;
            match event {
                None => renewed,
                Some(TransportEvent::Sent { transport, delivery, sequence }) => {
                    &&& action is Receive
                    &&& match delivery {
                        ExportDeliveryId::RemoteTaskResult => after.remote_task_results
                            == before.remote_task_results.remove(sequence),
                        ExportDeliveryId::JobResult => after.remote_job_results
                            == before.remote_job_results.remove(sequence),
                        ExportDeliveryId::ControlAck => after.control_acks
                            == before.control_acks.remove(sequence),
                        ExportDeliveryId::ControlError => after.control_errors
                            == before.control_errors.remove(sequence),
                        _ => after == before,
                    }
                },
                Some(TransportEvent::Failed { transport, delivery, sequence, error }) => {
                    &&& delivery == ExportDeliveryId::BasicInfo ==> action is Receive
                    &&& delivery != ExportDeliveryId::BasicInfo && delivery
                        != ExportDeliveryId::RealtimeReport ==> renewed
                    &&& after == before
                },
            }
        }),
{
    let state = old(supervisor)@;
    match event {
        None => {},
        Some(event) => {
            if event is Sent {
                law_confirmation_removes_one_event(state, event);
            } else {
                law_failed_messages_reconnect(
                    state,
                    event,
                    ExportDeliveryFailurePolicy::ReconnectPipeline,
                );
            }
        },
    }
}

/// Other settings of the connection lead to a new one, other settings of the deliveries to new
/// deliveries, and unchanged ones to nothing.
pub proof fn law_settings_are_followed(
    supervisor: &mut ExportSupervisor,
    export: ExportConfig,
    outbound: OutboundConfig,
    action: ExportAction,
)
    requires
        call_ensures(ExportSupervisor::on_config, (supervisor, Some((export, outbound))), action),
    ensures
        ({
            let current = old(supervisor).export_config;
            let alike = export.format == current.format && export.base_url@ == current.base_url@
                && (match (export.token, current.token) {
                (Some(a), Some(b)) => a@ == b@,
                (None, None) => true,
                _ => false,
            }) && export.unsafe_cert == current.unsafe_cert && export.heartbeat
                == current.heartbeat && export.reconnect_interval == current.reconnect_interval;
            &&& !alike ==> action == (ExportAction::Reconnect { pause: export.reconnect_interval })
            &&& alike && outbound == old(supervisor).outbound_config ==> action is Receive
            &&& alike && outbound != old(supervisor).outbound_config ==> action
                is RebuildDeliveries
        }),
{
    law_configuration_changes(old(supervisor)@, export, outbound);
}

/// Over a new connection the latest report goes out first where a delivery has to send it, and the
/// event that failed is not forgotten meanwhile.
pub proof fn law_new_connection_begins_with_the_report(
    supervisor: &mut ExportSupervisor,
    deliveries: Vec<DeliveryState>,
    export: ExportConfig,
    outbound: OutboundConfig,
    now: Moment,
    action: ExportAction,
    report: ReportEnvelope,
    i: int,
)
    requires
        old(supervisor).latest_report == Some(report),
        0 <= i < deliveries@.len(),
        has_to_send(deliveries@[i], report.sequence, now),
        call_ensures(
            ExportSupervisor::on_reconnected,
            (supervisor, deliveries, export, outbound, now),
            action,
        ),
    ensures
        action matches ExportAction::SendReport { delivery, report: sent } && sent == report,
        final(supervisor).export_config == export,
        final(supervisor).outbound_config == outbound,
        final(supervisor).pending@ == old(supervisor).pending@,
        final(supervisor).activity matches Activity::ResumingReports { round, after } && after == (
        match old(supervisor).activity {
            Activity::Reconnecting { after } => after,
            _ => None,
        }),
{
    assert(deliveries@.len() == deliveries.len());
    law_other_occasions_keep_waiting_events(
        old(supervisor)@,
        report,
        None,
        deliveries@,
        export,
        outbound,
        now,
    );
    law_latest_report_goes_out_again(
        old(supervisor)@,
        deliveries@,
        export,
        outbound,
        now,
        report,
        i,
    );
}

/// A failure that no new connection can mend ends the export with its reason.
pub proof fn law_final_failures_end_the_export(
    supervisor: &mut ExportSupervisor,
    error: String,
    action: ExportAction,
)
    requires
        call_ensures(ExportSupervisor::on_reconnect_failed, (supervisor, error), action),
    ensures
        action == ExportAction::Fail(error),
        final(supervisor).activity is Stopped,
{
    law_failure_while_resuming_ends(old(supervisor)@, error);
}

/// A delivery sends a report exactly where it has to, counts the reports that it never saw, and
/// remembers the very first where it lets that one go by.
pub proof fn law_deliveries_decide_about_reports(
    delivery: &mut DeliveryState,
    report: ReportEnvelope,
    missed: Option<u64>,
)
    requires
        call_ensures(DeliveryState::prepare, (delivery, &report), missed),
    ensures
        ({
            let latest = old(delivery).spec.trigger == ExportDeliveryTrigger::OnLatestReport;
            let last = old(delivery).last_queued_sequence;
            &&& missed is Some <==> !latest || (match last {
                Some(last) => last != report.sequence,
                None => old(delivery).spec.send_on_start,
            })
            &&& missed matches Some(count) ==> *final(delivery) == *old(delivery) && (if latest
                && last is Some && last->0 < report.sequence {
                last->0 + count + 1 == report.sequence
            } else {
                count == 0
            })
            &&& missed is None ==> final(delivery).last_queued_sequence == Some(report.sequence)
        }),
        final(delivery).spec == old(delivery).spec,
        final(delivery).last_sent_sequence == old(delivery).last_sent_sequence,
{
}

/// A delivery at intervals is due from its instant on and then one interval later; what it handed
/// over is remembered.
pub proof fn law_deliveries_keep_their_interval(
    delivery: DeliveryState,
    now: Moment,
    due: bool,
    moved: &mut DeliveryState,
    noted: &mut DeliveryState,
    sequence: u64,
    requests: usize,
)
    requires
        call_ensures(DeliveryState::is_due, (&delivery, now), due),
        interval_reachable(old(moved).spec, now),
        call_ensures(DeliveryState::mark_interval_scheduled, (moved, now), ()),
        call_ensures(DeliveryState::note_handed_over, (noted, sequence, requests), ()),
    ensures
        due <==> delivery.next_due is Some && delivery.next_due->0.nanos <= now.nanos,
        old(moved).spec.trigger matches ExportDeliveryTrigger::Interval(interval) ==> ({
            let next = final(moved).next_due;
            next is Some && next->0.nanos == now.nanos + interval.nanos
        }),
        final(moved).last_queued_sequence == old(moved).last_queued_sequence,
        final(noted).last_queued_sequence == Some(sequence),
        requests == 0 ==> final(noted).last_sent_sequence == Some(sequence),
        requests > 0 ==> final(noted).last_sent_sequence == old(noted).last_sent_sequence,
        final(noted).next_due == old(noted).next_due,
{
}

/// Events that wait are found again in the order of their numbers, and a confirmation takes out
/// the one that it names.
pub proof fn law_waiting_events_are_found_in_order(
    pending: PendingExportEvents,
    stage: ResumeStage,
    last: Option<u64>,
    next: Option<u64>,
    other: u64,
    removed: &mut PendingExportEvents,
    sequence: u64,
)
    requires
        call_ensures(PendingExportEvents::next_sequence, (&pending, stage, last), next),
        pending@.numbers(stage).contains(other),
        last matches Some(last) ==> other > last,
        call_ensures(PendingExportEvents::remove, (removed, stage, sequence), ()),
    ensures
        next is Some,
        next->0 <= other,
        last matches Some(last) ==> next->0 > last,
        pending@.numbers(stage).contains(next->0),
        !final(removed)@.numbers(stage).contains(sequence),
        ({
            let before = old(removed)@.numbers(stage);
            let after = final(removed)@.numbers(stage);
            other != sequence && before.contains(other) ==> after.contains(other)
        }),
{
    let numbers = pending@.numbers(stage);
    lemma_smallest_exists(numbers, last, other);
}

/// New deliveries take over where they were asked for, under the settings that asked for them; a
/// failure to work them out ends the export.
pub proof fn law_rebuilt_deliveries_are_used(
    supervisor: &mut ExportSupervisor,
    deliveries: Vec<DeliveryState>,
    outbound: OutboundConfig,
    now: Moment,
    action: ExportAction,
    failing: &mut ExportSupervisor,
    error: String,
    failed: ExportAction,
)
    requires
        old(supervisor).activity == (Activity::Rebuilding { outbound }),
        call_ensures(
            ExportSupervisor::on_rebuilt,
            (supervisor, Ok::<Vec<DeliveryState>, String>(deliveries), now),
            action,
        ),
        call_ensures(
            ExportSupervisor::on_rebuilt,
            (failing, Err::<Vec<DeliveryState>, String>(error), now),
            failed,
        ),
    ensures
        final(supervisor).outbound_config == outbound,
        final(supervisor).latest_report == old(supervisor).latest_report,
        final(supervisor).pending@ == old(supervisor).pending@,
        old(supervisor).latest_report is None ==> action is Receive,
        failed == ExportAction::Fail(error),
{
}

} // verus!
