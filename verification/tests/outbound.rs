//! Outbound events: numbers, order and queues.

use smalux_agent::scheduler::time::Span;
use smalux_agent::service::clock::Moment;
use smalux_agent::service::config::{AgentConfig, ExportFormat};
use smalux_agent::service::outbound::{
    after_reserve, sequence_after, BasicInfoEnvelope, ControlAckEnvelope, Lane, OutboundEvent,
    OutboundReceiver, OutboundSendErrorKind, OutboundSequence, Polled, ReceiveStep,
    ReportEnvelope, RoomOutcome, OUTBOUND_NORMAL_QUEUE_CAPACITY, OUTBOUND_PRIORITY_QUEUE_CAPACITY,
};
use smalux_agent::service::protocol::{Ack, OutboundReport, OutboundReportKind};
use smalux_agent::service::reporter::{
    basic_info_enabled, basic_info_event, basic_info_should_send_on_start, force_snapshot_due,
    next_report_event, report_event, NextReport, ReporterAction, ReporterCommand, ReporterState,
};

fn at(millis: u64) -> Moment {
    Moment { nanos: 1_000_000_000_000 }.after(Span::from_millis(millis))
}

fn outbound_report(sequence: u64) -> OutboundReport {
    OutboundReport {
        agent_id: "agent-test".to_string(),
        sequence,
        created_at: 100,
        kind: OutboundReportKind::Snapshot { report: 5 },
    }
}

fn report(sequence: u64) -> OutboundEvent {
    OutboundEvent::Report(ReportEnvelope::from_outbound(outbound_report(sequence)))
}

fn ack(sequence: u64) -> OutboundEvent {
    OutboundEvent::ControlAck(ControlAckEnvelope {
        agent_id: "agent-test".to_string(),
        sequence,
        created_at: 100,
        ack: Ack { sequence: 7 },
    })
}

#[test]
fn outbound_outbound_channel_is_bounded() {
    let rx = OutboundReceiver::new();

    assert!(!rx.priority_closed);
    assert!(!rx.normal_closed);
    assert_eq!(OUTBOUND_NORMAL_QUEUE_CAPACITY, 256);
    assert_eq!(OUTBOUND_PRIORITY_QUEUE_CAPACITY, 128);
}

#[test]
fn outbound_outbound_sequence_is_shared_between_clones() {
    let sequence = OutboundSequence::default();
    let cloned = sequence.clone();

    assert_eq!(sequence.next(), 1);
    assert_eq!(cloned.next(), 2);
}

#[test]
fn numbers_do_not_start_again() {
    assert_eq!(sequence_after(0), 1);
    assert_eq!(sequence_after(41), 42);
    assert_eq!(sequence_after(u64::MAX), u64::MAX);
}

#[test]
fn outbound_receiver_prioritizes_control_and_result_events() {
    let mut rx = OutboundReceiver::new();
    assert!(matches!(rx.begin(), ReceiveStep::Poll(Lane::Priority)));
    let first = rx.after_priority_poll(Polled::Event(ack(2)));
    assert!(matches!(first, ReceiveStep::Deliver(OutboundEvent::ControlAck(_))));

    assert!(matches!(rx.begin(), ReceiveStep::Poll(Lane::Priority)));
    assert!(matches!(rx.after_priority_poll(Polled::Empty), ReceiveStep::Poll(Lane::Normal)));
    let second = rx.after_normal_poll(Polled::Event(report(1)));
    assert!(matches!(second, ReceiveStep::Deliver(OutboundEvent::Report(_))));
}

#[test]
fn outbound_receiver_ends_when_both_lanes_are_closed() {
    let mut rx = OutboundReceiver::new();
    rx.after_priority_poll(Polled::Empty);
    assert!(matches!(
        rx.after_normal_poll(Polled::Empty),
        ReceiveStep::Wait { priority: true, normal: true }
    ));
    assert!(matches!(rx.after_wait(Lane::Normal, None), ReceiveStep::Poll(Lane::Priority)));
    rx.after_priority_poll(Polled::Empty);
    assert!(matches!(
        rx.after_normal_poll(Polled::Disconnected),
        ReceiveStep::Wait { priority: true, normal: false }
    ));
    assert!(matches!(
        rx.after_wait(Lane::Priority, Some(ack(3))),
        ReceiveStep::Deliver(OutboundEvent::ControlAck(_))
    ));
    rx.after_priority_poll(Polled::Disconnected);
    assert!(matches!(rx.after_normal_poll(Polled::Disconnected), ReceiveStep::Finished));
}

#[test]
fn outbound_sender_returns_closed_when_receiver_dropped() {
    let error = after_reserve(ack(1), RoomOutcome::Closed).unwrap_err();

    assert_eq!(error.kind(), OutboundSendErrorKind::Closed);
    assert_eq!(error.event().kind(), "control_ack");
    assert!(error.message().contains("closed"));
}

#[test]
fn outbound_sender_times_out_when_priority_queue_is_full() {
    let error = after_reserve(ack(999), RoomOutcome::Elapsed).unwrap_err();

    assert_eq!(error.kind(), OutboundSendErrorKind::Timeout);
    assert_eq!(error.event().kind(), "control_ack");
    assert!(error.message().contains("timed out"));
}

#[test]
fn outbound_sender_hands_over_where_there_is_room() {
    let event = after_reserve(report(5), RoomOutcome::Reserved).unwrap();
    assert_eq!(event.sequence(), 5);
    assert_eq!(event.created_at(), 100);
    assert_eq!(event.kind(), "report");
    assert!(!event.is_priority());
    assert!(ack(1).is_priority());
    let info = OutboundEvent::BasicInfo(BasicInfoEnvelope {
        sequence: 3,
        created_at: 4,
        report: 9,
    });
    assert_eq!(info.kind(), "basic_info");
    assert!(!info.is_priority());
    assert_eq!(info.created_at(), 4);
}

#[test]
fn reporter_loop_updates_latest_report() {
    let mut config = AgentConfig::default();
    config.report.interval = Span::from_millis(100);
    let (mut state, action) = ReporterState::start(config);
    assert!(matches!(action, ReporterAction::Wait));
    assert!(state.guards().report_tick);
    assert!(matches!(state.on_report_tick(at(0)), ReporterAction::QueueReport));
    let event = next_report_event(NextReport::Ready(outbound_report(1))).unwrap();
    assert_eq!(event.sequence(), 1);
    assert!(matches!(event, OutboundEvent::Report(_)));
    assert!(matches!(state.on_report_queued(true), ReporterAction::Wait));
    assert!(matches!(state.on_shutdown(false, true), ReporterAction::Stop));
}

#[test]
fn reporter_loop_queues_komari_basic_info_on_start() {
    let mut config = AgentConfig::default();
    config.export.format = ExportFormat::Komari;
    config.report.interval = Span::from_secs(60);
    assert!(basic_info_enabled(&config));
    assert!(basic_info_should_send_on_start(&config));
    let (mut state, action) = ReporterState::start(config);
    assert!(matches!(action, ReporterAction::QueueBasicInfo));
    let OutboundEvent::BasicInfo(info) = basic_info_event(1, 100, 5) else {
        panic!("expected basic info event");
    };
    assert_eq!(info.sequence, 1);
    assert_eq!(info.report, 5);
    assert!(matches!(state.on_basic_info_queued(Some(true)), ReporterAction::Wait));
}

#[test]
fn reporter_loop_queues_komari_basic_info_on_interval() {
    let mut config = AgentConfig::default();
    config.export.format = ExportFormat::Komari;
    config.report.enabled = false;
    config.outbound.basic_info.send_on_start = false;
    config.outbound.basic_info.refresh_interval = Span::from_millis(50);
    let (mut state, action) = ReporterState::start(config);
    assert!(matches!(action, ReporterAction::Wait));
    assert!(!state.guards().report_tick);
    assert!(state.guards().basic_info_tick);
    assert!(matches!(state.on_basic_info_tick(), ReporterAction::QueueBasicInfo));
}

#[test]
fn reporter_loop_skips_disabled_basic_info() {
    let mut config = AgentConfig::default();
    config.export.format = ExportFormat::Komari;
    config.report.interval = Span::from_secs(60);
    config.outbound.basic_info.enabled = false;
    let (mut state, action) = ReporterState::start(config);
    assert!(matches!(action, ReporterAction::Wait));
    assert!(!state.guards().basic_info_tick);
    assert!(matches!(state.on_report_tick(at(0)), ReporterAction::QueueReport));
}

#[test]
fn reporter_loop_queues_report_when_metric_update_arrives() {
    let mut config = AgentConfig::default();
    config.report.interval = Span::from_secs(60);
    let (mut state, _) = ReporterState::start(config);
    state.on_report_tick(at(0));
    state.on_report_queued(true);
    assert!(matches!(state.on_update(true), ReporterAction::QueueReport));
    assert!(matches!(state.on_report_queued(true), ReporterAction::Wait));
    assert!(matches!(state.on_update(false), ReporterAction::Wait));
    assert!(!state.guards().updates);
}

#[test]
fn reporter_loop_queues_forced_snapshot() {
    let mut config = AgentConfig::default();
    config.report.interval = Span::from_secs(60);
    config.report.force_snapshot_min_interval = Span::from_millis(100);
    let (mut state, _) = ReporterState::start(config);
    let command = ReporterCommand::ForceSnapshot { reason: Some("manual".to_string()) };
    let action = state.on_command(Some(command), at(0));
    assert!(matches!(
        action,
        ReporterAction::QueueSnapshot { reason: Some(reason) } if reason == "manual"
    ));
    assert!(matches!(state.on_snapshot_queued(true, at(0)), ReporterAction::Wait));
    assert!(matches!(report_event(outbound_report(2)), OutboundEvent::Report(_)));

    let again = ReporterCommand::ForceSnapshot { reason: None };
    assert!(matches!(state.on_command(Some(again), at(50)), ReporterAction::Wait));
    assert!(state.guards().force_snapshot_tick);
    assert!(matches!(state.on_force_snapshot_tick(at(99)), ReporterAction::Wait));
    assert!(matches!(
        state.on_force_snapshot_tick(at(100)),
        ReporterAction::QueueSnapshot { reason: None }
    ));
}

#[test]
fn snapshots_keep_their_distance() {
    assert!(force_snapshot_due(None, at(0), Span::from_secs(5)));
    assert!(!force_snapshot_due(Some(at(0)), at(4_999), Span::from_secs(5)));
    assert!(force_snapshot_due(Some(at(0)), at(5_000), Span::from_secs(5)));
}

#[test]
fn reporter_stops_when_the_queue_is_closed() {
    let (mut state, _) = ReporterState::start(AgentConfig::default());
    state.on_report_tick(at(0));
    assert!(matches!(state.on_report_queued(false), ReporterAction::Stop));
    assert!(next_report_event(NextReport::Unchanged).is_none());
    assert!(next_report_event(NextReport::NotReady).is_none());
}
