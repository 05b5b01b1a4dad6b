//! Delivery of outbound events over a connection that may break.

use smalux_agent::scheduler::time::Span;
use smalux_agent::service::clock::Moment;
use smalux_agent::service::config::{AgentConfig, ExportConfig, ExportFormat, OutboundConfig};
use smalux_agent::service::export::delivery::{
    can_time, can_time_all, delivery_states_from_plan, has_interval_deliveries, DeliveryState,
    ExportDeliveryFailurePolicy, ExportDeliveryId, ExportDeliverySpec, ExportDeliveryTrigger,
};
use smalux_agent::service::export::pending::{
    handle_transport_event, PendingExportEvents, ResumeStage, TransportEvent, TransportId,
};
use smalux_agent::service::export::pipeline::{
    after_connect_attempt, inbound_handler, ConnectStep, InboundHandler,
};
use smalux_agent::service::export::supervisor::{ExportAction, ExportSupervisor};
use smalux_agent::service::outbound::{
    BasicInfoEnvelope, ControlAckEnvelope, OutboundEvent, RemoteJobResultEnvelope,
    RemoteTaskResultEnvelope, ReportEnvelope,
};
use smalux_agent::service::protocol::{
    Ack, OutboundReport, OutboundReportKind, RemoteJobResult, RemoteProbeId, RemoteProbeResult,
    RemoteProbeResultSource, RemoteProbeResultStatus, RemoteProbeType, RemoteTaskResult,
    RemoteTaskStatus,
};
use std::collections::BTreeMap;

fn at(millis: u64) -> Moment {
    Moment { nanos: 1_000_000_000_000 }.after(Span::from_millis(millis))
}

fn report(sequence: u64) -> ReportEnvelope {
    ReportEnvelope {
        sequence,
        created_at: 100,
        outbound: OutboundReport {
            agent_id: "agent-test".to_string(),
            sequence,
            created_at: 100,
            kind: OutboundReportKind::Heartbeat {
                last_report_at: None,
                last_report_sequence: None,
            },
        },
    }
}

fn ack(sequence: u64, server: u64) -> ControlAckEnvelope {
    ControlAckEnvelope {
        agent_id: "agent-1".to_string(),
        sequence,
        created_at: 100,
        ack: Ack { sequence: server },
    }
}

fn task_result(sequence: u64) -> RemoteTaskResultEnvelope {
    RemoteTaskResultEnvelope {
        agent_id: "agent-1".to_string(),
        sequence,
        created_at: 100,
        result: RemoteTaskResult {
            task_id: "task-1".to_string(),
            status: RemoteTaskStatus::Success,
            exit_code: Some(0),
            stdout: String::new(),
            stderr: String::new(),
            started_at: 99,
            finished_at: 100,
            duration_ms: 1000,
            timed_out: false,
            stdout_truncated: false,
            stderr_truncated: false,
            error: None,
        },
    }
}

fn realtime() -> DeliveryState {
    DeliveryState::from_spec(
        ExportDeliverySpec::on_latest_report(ExportDeliveryId::RealtimeReport),
        at(0),
    )
}

fn outbound_config() -> OutboundConfig {
    AgentConfig::default().outbound
}

fn supervisor() -> ExportSupervisor {
    ExportSupervisor::new(vec![realtime()], ExportConfig::default(), outbound_config())
}

fn sent(delivery: ExportDeliveryId, sequence: u64) -> TransportEvent {
    TransportEvent::Sent { transport: TransportId::RealtimeReport, delivery, sequence }
}

fn failed(delivery: ExportDeliveryId, sequence: u64) -> TransportEvent {
    TransportEvent::Failed {
        transport: TransportId::RealtimeReport,
        delivery,
        sequence,
        error: "send failed".to_string(),
    }
}

#[test]
fn transport_sent_event_updates_last_sent_sequence() {
    let mut deliveries = vec![realtime()];

    handle_transport_event(
        sent(ExportDeliveryId::RealtimeReport, 7),
        &mut deliveries,
        &mut BTreeMap::new(),
        &mut BTreeMap::new(),
        &mut BTreeMap::new(),
        &mut BTreeMap::new(),
    )
    .unwrap();

    assert_eq!(deliveries[0].last_sent_sequence, Some(7));
}

#[test]
fn realtime_transport_failed_event_requests_reconnect() {
    let mut deliveries = vec![realtime()];

    let error = handle_transport_event(
        failed(ExportDeliveryId::RealtimeReport, 7),
        &mut deliveries,
        &mut BTreeMap::new(),
        &mut BTreeMap::new(),
        &mut BTreeMap::new(),
        &mut BTreeMap::new(),
    )
    .unwrap_err();

    assert!(error.contains("export transport send failed"));
}

#[test]
fn basic_info_transport_failed_event_continues() {
    let mut deliveries = vec![DeliveryState::from_spec(
        ExportDeliverySpec::event_driven(
            ExportDeliveryId::BasicInfo,
            ExportDeliveryFailurePolicy::LogAndContinue,
        ),
        at(0),
    )];

    handle_transport_event(
        TransportEvent::Failed {
            transport: TransportId::AuxiliaryHttp,
            delivery: ExportDeliveryId::BasicInfo,
            sequence: 7,
            error: "send failed".to_string(),
        },
        &mut deliveries,
        &mut BTreeMap::new(),
        &mut BTreeMap::new(),
        &mut BTreeMap::new(),
        &mut BTreeMap::new(),
    )
    .unwrap();
}

#[test]
fn remote_task_sent_event_removes_pending_result() {
    let mut pending = BTreeMap::from([(9, task_result(9))]);

    handle_transport_event(
        sent(ExportDeliveryId::RemoteTaskResult, 9),
        &mut Vec::new(),
        &mut pending,
        &mut BTreeMap::new(),
        &mut BTreeMap::new(),
        &mut BTreeMap::new(),
    )
    .unwrap();

    assert!(pending.is_empty());
}

#[test]
fn remote_job_sent_event_removes_pending_result() {
    let mut pending = BTreeMap::from([(
        11,
        RemoteJobResultEnvelope {
            agent_id: "agent-1".to_string(),
            sequence: 11,
            created_at: 100,
            result: RemoteJobResult::probe(RemoteProbeResult {
                run_id: "probe-run-1".to_string(),
                source: RemoteProbeResultSource::Once,
                point_id: Some(RemoteProbeId::Text("point-7".to_string())),
                request_id: Some(RemoteProbeId::Number(7)),
                job_id: None,
                probe_type: RemoteProbeType::Tcp,
                target: "example.com:443".to_string(),
                status: RemoteProbeResultStatus::Success,
                latency_ms: Some(12),
                started_at: 99,
                finished_at: 100,
                duration_ms: 12,
                error: None,
            }),
        },
    )]);

    handle_transport_event(
        sent(ExportDeliveryId::JobResult, 11),
        &mut Vec::new(),
        &mut BTreeMap::new(),
        &mut pending,
        &mut BTreeMap::new(),
        &mut BTreeMap::new(),
    )
    .unwrap();

    assert!(pending.is_empty());
}

#[test]
fn control_ack_sent_event_removes_pending_ack() {
    let mut pending = BTreeMap::from([(10, ack(10, 7))]);

    handle_transport_event(
        sent(ExportDeliveryId::ControlAck, 10),
        &mut Vec::new(),
        &mut BTreeMap::new(),
        &mut BTreeMap::new(),
        &mut pending,
        &mut BTreeMap::new(),
    )
    .unwrap();

    assert!(pending.is_empty());
}

#[test]
fn on_latest_report_respects_send_on_start_false() {
    let mut spec = ExportDeliverySpec::on_latest_report(ExportDeliveryId::RealtimeReport);
    spec.send_on_start = false;
    let mut delivery = DeliveryState::from_spec(spec, at(0));

    assert!(delivery.skip_initial_latest_report_if_needed(&report(7)));
    assert_eq!(delivery.last_queued_sequence, Some(7));
    assert!(!delivery.skip_initial_latest_report_if_needed(&report(8)));
}

#[test]
fn on_latest_report_send_on_start_true_does_not_skip_initial_report() {
    let spec = ExportDeliverySpec::on_latest_report(ExportDeliveryId::RealtimeReport);
    let mut delivery = DeliveryState::from_spec(spec, at(0));

    assert!(!delivery.skip_initial_latest_report_if_needed(&report(7)));
    assert_eq!(delivery.last_queued_sequence, None);
}

#[test]
fn interval_deliveries_are_timed() {
    let spec = ExportDeliverySpec {
        id: ExportDeliveryId::BasicInfo,
        trigger: ExportDeliveryTrigger::Interval(Span::from_secs(1)),
        send_on_start: false,
        failure_policy: ExportDeliveryFailurePolicy::LogAndContinue,
    };
    assert!(can_time(&spec, at(0)));
    assert!(!can_time(&spec, Moment { nanos: u128::MAX }));
    let mut states = delivery_states_from_plan(&vec![spec], at(0));
    assert!(has_interval_deliveries(&states));
    assert!(can_time_all(&states, at(0)));
    assert!(!states[0].is_due(at(999)));
    assert!(states[0].is_due(at(1_000)));
    states[0].mark_interval_scheduled(at(1_500));
    assert!(!states[0].is_due(at(2_400)));
    assert!(states[0].is_due(at(2_500)));
    assert!(!has_interval_deliveries(&vec![realtime()]));
}

#[test]
fn reports_are_sent_once() {
    let mut supervisor = supervisor();
    assert!(matches!(supervisor.start(at(0)), ExportAction::Receive));
    let action = supervisor.on_outbound(Some(OutboundEvent::Report(report(1))), at(1));
    let ExportAction::SendReport { delivery, report: sending } = action else {
        panic!("expected a report");
    };
    assert_eq!(delivery, ExportDeliveryId::RealtimeReport);
    assert_eq!(sending.sequence, 1);
    assert!(matches!(supervisor.on_sent(Ok(1)), ExportAction::Receive));
    assert!(matches!(supervisor.on_tick(at(2)), ExportAction::Receive));
    let action = supervisor.on_outbound(Some(OutboundEvent::Report(report(2))), at(3));
    assert!(matches!(action, ExportAction::SendReport { report, .. } if report.sequence == 2));
}

#[test]
fn broken_connection_is_made_again_and_goes_on_with_the_latest_report() {
    let mut supervisor = supervisor();
    supervisor.start(at(0));
    supervisor.on_outbound(Some(OutboundEvent::Report(report(1))), at(1));
    supervisor.on_sent(Ok(1));
    let action = supervisor.on_transport(Some(failed(ExportDeliveryId::RealtimeReport, 1)));
    let ExportAction::Reconnect { pause } = action else {
        panic!("expected a new connection");
    };
    assert_eq!(pause, Span::from_secs(5));
    let action = supervisor.on_reconnected(
        vec![realtime()],
        ExportConfig::default(),
        outbound_config(),
        at(10),
    );
    assert!(matches!(action, ExportAction::SendReport { report, .. } if report.sequence == 1));
    assert!(matches!(supervisor.on_sent(Ok(1)), ExportAction::Receive));
}

#[test]
fn unconfirmed_results_are_sent_again() {
    let mut supervisor = supervisor();
    supervisor.start(at(0));
    let action =
        supervisor.on_outbound(Some(OutboundEvent::RemoteTaskResult(task_result(3))), at(1));
    assert!(matches!(action, ExportAction::Send(OutboundEvent::RemoteTaskResult(_))));
    assert!(matches!(supervisor.on_sent(Ok(1)), ExportAction::Receive));
    supervisor.on_outbound(Some(OutboundEvent::ControlAck(ack(4, 7))), at(2));
    supervisor.on_sent(Ok(1));
    supervisor.on_transport(Some(sent(ExportDeliveryId::ControlAck, 4)));
    let action = supervisor.on_transport(Some(failed(ExportDeliveryId::RemoteTaskResult, 3)));
    assert!(matches!(action, ExportAction::Reconnect { .. }));
    let action = supervisor.on_reconnected(
        vec![realtime()],
        ExportConfig::default(),
        outbound_config(),
        at(10),
    );
    assert!(matches!(
        action,
        ExportAction::Send(OutboundEvent::RemoteTaskResult(result)) if result.sequence == 3
    ));
    assert!(matches!(supervisor.on_sent(Ok(1)), ExportAction::Receive));
    assert!(matches!(
        supervisor.on_transport(Some(sent(ExportDeliveryId::RemoteTaskResult, 3))),
        ExportAction::Receive
    ));
    assert!(supervisor.pending.remote_task_results.is_empty());
    assert!(supervisor.pending.control_acks.is_empty());
}

#[test]
fn basic_info_never_breaks_the_connection() {
    let mut supervisor = supervisor();
    supervisor.start(at(0));
    let info = OutboundEvent::BasicInfo(BasicInfoEnvelope {
        sequence: 1,
        created_at: 100,
        report: 5,
    });
    assert!(matches!(
        supervisor.on_outbound(Some(info), at(1)),
        ExportAction::Send(OutboundEvent::BasicInfo(_))
    ));
    assert!(matches!(
        supervisor.on_sent(Err("unavailable".to_string())),
        ExportAction::Receive
    ));
}

#[test]
fn changed_settings_make_a_new_connection_or_new_deliveries() {
    let mut supervisor = supervisor();
    supervisor.start(at(0));
    let same = supervisor.on_config(Some((ExportConfig::default(), outbound_config())));
    assert!(matches!(same, ExportAction::Receive));

    let mut outbound = outbound_config();
    outbound.realtime_report.send_on_start = false;
    let action = supervisor.on_config(Some((ExportConfig::default(), outbound)));
    assert!(matches!(action, ExportAction::RebuildDeliveries));
    assert!(matches!(
        supervisor.on_rebuilt(Ok(vec![realtime()]), at(1)),
        ExportAction::Receive
    ));

    let export = ExportConfig {
        base_url: "http://127.0.0.1:9".to_string(),
        ..ExportConfig::default()
    };
    let action = supervisor.on_config(Some((export, outbound)));
    assert!(matches!(action, ExportAction::Reconnect { .. }));
}

#[test]
fn closed_queues_end_the_delivery() {
    let mut supervisor = supervisor();
    supervisor.start(at(0));
    assert!(matches!(supervisor.on_outbound(None, at(1)), ExportAction::Stop));
}

#[test]
fn waiting_events_come_in_the_order_of_their_numbers() {
    let mut pending = PendingExportEvents::new();
    pending.note_queued(OutboundEvent::ControlAck(ack(9, 1)), 1);
    pending.note_queued(OutboundEvent::ControlAck(ack(4, 2)), 1);
    pending.note_queued(OutboundEvent::ControlAck(ack(7, 3)), 0);
    assert_eq!(pending.next_sequence(ResumeStage::Acks, None), Some(4));
    assert_eq!(pending.next_sequence(ResumeStage::Acks, Some(4)), Some(9));
    assert_eq!(pending.next_sequence(ResumeStage::Acks, Some(9)), None);
    assert!(pending.copy_event(ResumeStage::Acks, 9).is_some());
    pending.remove(ResumeStage::Acks, 9);
    assert!(pending.copy_event(ResumeStage::Acks, 9).is_none());
    assert_eq!(ResumeStage::TaskResults.next(), Some(ResumeStage::JobResults));
    assert_eq!(ResumeStage::Errors.next(), None);
}

#[test]
fn connections_are_tried_until_they_hold() {
    assert!(matches!(after_connect_attempt(true, Span::from_secs(5)), ConnectStep::Ready));
    assert!(matches!(
        after_connect_attempt(false, Span::from_secs(5)),
        ConnectStep::RetryAfter { pause } if pause == Span::from_secs(5)
    ));
    assert!(matches!(inbound_handler(ExportFormat::SmaluxJson), InboundHandler::Smalux));
    assert!(matches!(inbound_handler(ExportFormat::Komari), InboundHandler::Komari));
}
