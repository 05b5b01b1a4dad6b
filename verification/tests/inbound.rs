//! Commands of the server.

use smalux_agent::scheduler::time::Span;
use smalux_agent::service::clock::Moment;
use smalux_agent::service::collector::CollectorCommand;
use smalux_agent::service::config::{AgentConfig, MetricLevel};
use smalux_agent::service::inbound::{
    collector_queue_result, control_response_queue_result, reporter_queue_result,
    ControlDispatcher, DispatchAction, InboundCommand, InboundCommandEnvelope, PendingResponse,
    QueueOutcome,
};
use smalux_agent::service::listener::{decode_message, target_matches, ServerFrame, ServerPayload};
use smalux_agent::service::options::{
    DiagnosticOptions, RemoteMetricPermission, ServiceOptions, AGENT_VERSION,
};
use smalux_agent::service::outbound::OutboundEvent;
use smalux_agent::service::patch::{
    AgentConfigPatch, BasicInfoConfigPatch, DetailConfigPatch, DiskConfigPatch, ExportConfigPatch,
    GroupConfigPatch, NetworkConfigPatch, PublicIpConfigPatch, RealtimeReportConfigPatch,
    RemoteProbeConfigPatch, RemoteShellConfigPatch, RemoteTaskConfigPatch, ReportConfigPatch,
};
use smalux_agent::service::protocol::{
    Ack, ProtocolError, RemoteJobApplyRequest, RemoteJobOperation, RemoteProbeId,
    RemoteProbeResultSource, RemoteProbeType, RemoteTaskStatus,
};
use smalux_agent::service::remote::probe::{
    new_run_id, rejected_result, ProbeStart, RemoteProbeExecutionRequest,
};
use smalux_agent::service::remote::schedule::{JobWork, RemoteJobManager, RemoteProbeManager};
use smalux_agent::service::remote::shell::manager::RemoteShellManager;
use smalux_agent::service::remote::shell::message::RemoteShellOpenRequest;
use smalux_agent::service::remote::shell::options::RemoteShellOptions;
use smalux_agent::service::remote::shell::stream::{RemoteShellStreamCodec, SmaluxShellCodec};
use smalux_agent::service::remote::task::{
    RemoteTaskManager, RemoteTaskOptions, RemoteTaskRunRequest, TaskStart,
};
use smalux_agent::service::reporter::ReporterCommand;

type Command = InboundCommand<SmaluxShellCodec>;
type Dispatch = (PendingResponse, Result<DispatchAction<SmaluxShellCodec>, String>);

fn now() -> Moment {
    Moment { nanos: 1_000_000_000_000 }
}

fn dispatcher(diagnostics: DiagnosticOptions) -> ControlDispatcher {
    ControlDispatcher::new(
        RemoteShellManager::new(RemoteShellOptions::default()),
        RemoteTaskManager::new(RemoteTaskOptions::default()),
        RemoteJobManager::new(RemoteProbeManager::new()),
        diagnostics,
    )
}

fn dispatch(dispatcher: &mut ControlDispatcher, config: &AgentConfig, command: Command) -> Dispatch {
    let envelope = InboundCommandEnvelope::without_response(command);
    dispatcher.dispatch(envelope, config, Ok(()), 100, now())
}

fn respond(
    pending: &PendingResponse,
    outcome: &Result<(), String>,
) -> Option<OutboundEvent> {
    pending.queue_control_response(outcome, &"agent".to_string(), 1, 100)
}

fn no_patch() -> AgentConfigPatch {
    AgentConfigPatch::default()
}

fn detail_patch(level: MetricLevel) -> Option<DetailConfigPatch> {
    Some(DetailConfigPatch { enabled: None, interval: None, level: Some(level), limit: None })
}

fn frame(payload: ServerPayload) -> ServerFrame {
    ServerFrame { target_agent_id: None, sequence: 42, payload }
}

fn shell_open() -> ServerPayload {
    ServerPayload::RemoteShellOpen {
        request: RemoteShellOpenRequest {
            session_id: "shell-1".to_string(),
            stream_url: "wss://example.com/shell/shell-1".to_string(),
            cols: Some(120),
            rows: Some(30),
        },
    }
}

#[test]
fn decode_message_accepts_server_frame_remote_shell_open() {
    let envelope =
        decode_message(Some(frame(shell_open())), &"agent-1".to_string()).unwrap().unwrap();

    assert_eq!(envelope.meta.unwrap().sequence, 42);
    let InboundCommand::RemoteShellOpen { request, stream_export_config, stream_codec } =
        envelope.command
    else {
        panic!("expected remote shell open command");
    };

    assert_eq!(request.session_id, "shell-1");
    assert_eq!(request.cols, Some(120));
    assert!(stream_export_config.is_none());
    assert_eq!(stream_codec.name(), "smalux_shell");
}

#[test]
fn decode_message_drops_what_is_no_frame() {
    let decoded = decode_message(None, &"agent-1".to_string()).unwrap();

    assert!(decoded.is_none());
}

#[test]
fn decode_message_drops_mismatched_target_agent_id() {
    let message = ServerFrame {
        target_agent_id: Some("agent-other".to_string()),
        ..frame(shell_open())
    };
    let decoded = decode_message(Some(message), &"agent-1".to_string()).unwrap();

    assert!(decoded.is_none());
    assert!(target_matches(&Some("a".to_string()), &"a".to_string()));
    assert!(!target_matches(&Some("b".to_string()), &"a".to_string()));
    assert!(target_matches(&None, &"a".to_string()));
}

#[test]
fn decode_message_passes_answers_over() {
    let ack = frame(ServerPayload::Ack { ack: Ack { sequence: 1 } });
    assert!(decode_message(Some(ack), &"a".to_string()).unwrap().is_none());
    let error = frame(ServerPayload::Error {
        error: ProtocolError {
            sequence: None,
            code: "x".to_string(),
            message: "y".to_string(),
        },
    });
    assert!(decode_message(Some(error), &"a".to_string()).unwrap().is_none());
    let broken = frame(ServerPayload::ConfigPatch { patch: Err("unknown field".to_string()) });
    assert_eq!(
        decode_message(Some(broken), &"a".to_string()).unwrap_err(),
        "unknown field"
    );
}

#[test]
fn decode_message_reads_every_command() {
    let name = |payload: ServerPayload| {
        decode_message(Some(frame(payload)), &"a".to_string())
            .unwrap()
            .unwrap()
            .command
            .name()
    };
    assert_eq!(name(ServerPayload::SnapshotRequest { reason: None }), "snapshot_request");
    assert_eq!(name(ServerPayload::ConfigPatch { patch: Ok(no_patch()) }), "config_patch");
    assert_eq!(
        name(ServerPayload::CollectProcessesOnce { level: None, limit: None }),
        "collect_processes_once"
    );
    assert_eq!(
        name(ServerPayload::CollectSocketsOnce { level: None, limit: None }),
        "collect_sockets_once"
    );
    assert_eq!(name(ServerPayload::RemoteTaskRun { request: task() }), "remote_task_run");
    assert_eq!(name(ServerPayload::RemoteProbeRun { request: probe() }), "remote_probe_run");
    assert_eq!(name(ServerPayload::JobApply { request: jobs(Some(1)) }), "job_apply");
    assert_eq!(name(shell_open()), "remote_shell_open");
}

fn task() -> RemoteTaskRunRequest {
    RemoteTaskRunRequest {
        task_id: "task-disabled".to_string(),
        program: "noop".to_string(),
        args: Vec::new(),
        timeout: Some(Span::from_secs(1)),
    }
}

fn probe() -> RemoteProbeExecutionRequest {
    RemoteProbeExecutionRequest {
        source: RemoteProbeResultSource::Once,
        point_id: None,
        request_id: Some(RemoteProbeId::Number(123)),
        job_id: None,
        probe_type: RemoteProbeType::Tcp,
        target: "127.0.0.1:1".to_string(),
        timeout: None,
    }
}

fn jobs(generation: Option<u64>) -> RemoteJobApplyRequest {
    RemoteJobApplyRequest {
        operation: RemoteJobOperation::Replace,
        generation,
        runs: Vec::new(),
        jobs: Vec::new(),
        upsert_jobs: Vec::new(),
        remove_job_ids: Vec::new(),
    }
}

#[test]
fn service_control_listener_applies_config_patch() {
    let mut config = AgentConfig::default();
    let mut dispatcher = dispatcher(DiagnosticOptions::default());
    let patch = AgentConfigPatch {
        core: Some(GroupConfigPatch { enabled: None, interval: Some(Span::from_secs(2)) }),
        ..no_patch()
    };
    let (_, result) = dispatch(&mut dispatcher, &config, InboundCommand::ConfigPatch { patch });
    let Ok(DispatchAction::ApplyPatch(patch)) = result else {
        panic!("expected a change");
    };
    patch.apply_to(&mut config);

    assert_eq!(config.core.interval, Span::from_secs(2));
    assert!(config.core.enabled);
    let once = config.core;
    patch.apply_to(&mut config);
    assert_eq!(config.core, once);
}

#[test]
fn service_control_listener_accepts_snapshot_request() {
    let config = AgentConfig::default();
    let mut dispatcher = dispatcher(DiagnosticOptions::default());
    let message = ServerFrame {
        sequence: 77,
        ..frame(ServerPayload::SnapshotRequest {
            reason: Some("delta_base_missing".to_string()),
        })
    };
    let envelope = decode_message(Some(message), &config.agent_id).unwrap().unwrap();
    let (pending, result) = dispatcher.dispatch(envelope, &config, Ok(()), 100, now());
    assert!(matches!(
        result,
        Ok(DispatchAction::Report(ReporterCommand::ForceSnapshot { .. }))
    ));
    let outcome = reporter_queue_result(QueueOutcome::Queued);
    let Some(OutboundEvent::ControlAck(ack)) = respond(&pending, &outcome) else {
        panic!("expected control ack");
    };
    assert_eq!(ack.ack.sequence, 77);
}

#[test]
fn service_control_listener_errors_snapshot_request_when_report_disabled() {
    let mut config = AgentConfig::default();
    config.report.enabled = false;
    let mut dispatcher = dispatcher(DiagnosticOptions::default());
    let envelope = InboundCommandEnvelope::with_response(
        Command::SnapshotRequest { reason: Some("manual".to_string()) },
        78,
    );
    let (pending, result) = dispatcher.dispatch(envelope, &config, Ok(()), 100, now());
    let error = result.unwrap_err();
    assert!(error.contains("reporting is disabled"));
    let Some(OutboundEvent::ControlError(answer)) = respond(&pending, &Err(error)) else {
        panic!("expected control error");
    };
    assert_eq!(answer.error.sequence, Some(78));
    assert_eq!(answer.error.code, "snapshot_request_failed");
    assert_eq!(answer.error.message, "reporting is disabled");
}

#[test]
fn service_control_listener_sends_process_collection_command() {
    let mut dispatcher = dispatcher(DiagnosticOptions {
        process_permission: RemoteMetricPermission::Details,
        ..DiagnosticOptions::default()
    });
    let (_, result) = dispatch(
        &mut dispatcher,
        &AgentConfig::default(),
        InboundCommand::CollectProcessesOnce { level: Some(MetricLevel::Details), limit: Some(5) },
    );
    let Ok(DispatchAction::Collect(command)) = result else {
        panic!("expected a sample");
    };
    assert_eq!(
        command,
        CollectorCommand::SampleProcessesOnce { level: MetricLevel::Details, limit: 5 }
    );
}

#[test]
fn service_control_listener_sends_socket_collection_command() {
    let mut dispatcher = dispatcher(DiagnosticOptions {
        socket_permission: RemoteMetricPermission::Details,
        ..DiagnosticOptions::default()
    });
    let (_, result) = dispatch(
        &mut dispatcher,
        &AgentConfig::default(),
        InboundCommand::CollectSocketsOnce { level: Some(MetricLevel::Details), limit: Some(7) },
    );
    let Ok(DispatchAction::Collect(command)) = result else {
        panic!("expected a sample");
    };
    assert_eq!(
        command,
        CollectorCommand::SampleSocketsOnce { level: MetricLevel::Details, limit: 7 }
    );
}

#[test]
fn service_control_listener_rejects_count_when_permission_none() {
    let mut dispatcher = dispatcher(DiagnosticOptions {
        process_permission: RemoteMetricPermission::Denied,
        ..DiagnosticOptions::default()
    });
    let (_, result) = dispatch(
        &mut dispatcher,
        &AgentConfig::default(),
        InboundCommand::CollectProcessesOnce { level: Some(MetricLevel::Count), limit: Some(5) },
    );
    assert!(result.unwrap_err().contains("allowed level is none"));
}

#[test]
fn service_control_listener_allows_light_when_permission_light() {
    let mut dispatcher = dispatcher(DiagnosticOptions {
        socket_permission: RemoteMetricPermission::Light,
        ..DiagnosticOptions::default()
    });
    let (_, result) = dispatch(
        &mut dispatcher,
        &AgentConfig::default(),
        InboundCommand::CollectSocketsOnce { level: Some(MetricLevel::Light), limit: Some(7) },
    );
    assert!(matches!(
        result,
        Ok(DispatchAction::Collect(CollectorCommand::SampleSocketsOnce {
            level: MetricLevel::Light,
            limit: 7
        }))
    ));
}

#[test]
fn service_control_listener_rejects_remote_level_above_permission() {
    let config = AgentConfig::default();
    let mut dispatcher = dispatcher(ServiceOptions::default().diagnostics);
    let patch = AgentConfigPatch { processes: detail_patch(MetricLevel::Light), ..no_patch() };
    let (_, result) = dispatch(&mut dispatcher, &config, InboundCommand::ConfigPatch { patch });

    assert!(result.unwrap_err().contains("process light"));
    assert_eq!(config.processes.level, MetricLevel::Count);
}

#[test]
fn service_control_listener_rejects_one_shot_level_above_permission() {
    let mut dispatcher = dispatcher(ServiceOptions::default().diagnostics);
    let (_, result) = dispatch(
        &mut dispatcher,
        &AgentConfig::default(),
        InboundCommand::CollectSocketsOnce { level: Some(MetricLevel::Details), limit: Some(7) },
    );
    assert_eq!(
        result.unwrap_err(),
        "socket details collection is not allowed by startup options; allowed level is count"
    );
}

#[test]
fn patches_may_keep_what_runs_already() {
    let mut config = AgentConfig::default();
    config.sockets.level = MetricLevel::Details;
    let dispatcher = dispatcher(DiagnosticOptions::default());
    let keep = AgentConfigPatch { sockets: detail_patch(MetricLevel::Details), ..no_patch() };
    assert!(dispatcher.ensure_config_patch_allowed(&keep, &config).is_ok());
    let lower = AgentConfigPatch { sockets: detail_patch(MetricLevel::Light), ..no_patch() };
    assert!(dispatcher.ensure_config_patch_allowed(&lower, &config).is_err());
    let off = AgentConfigPatch {
        sockets: Some(DetailConfigPatch {
            enabled: Some(false),
            interval: None,
            level: Some(MetricLevel::Light),
            limit: None,
        }),
        ..no_patch()
    };
    assert!(dispatcher.ensure_config_patch_allowed(&off, &config).is_ok());
    config.sockets.enabled = false;
    let on = AgentConfigPatch {
        sockets: Some(DetailConfigPatch {
            enabled: Some(true),
            interval: None,
            level: None,
            limit: None,
        }),
        ..no_patch()
    };
    assert!(dispatcher.ensure_config_patch_allowed(&on, &config).is_err());
}

#[test]
fn patches_change_only_what_they_name() {
    let mut config = AgentConfig::default();
    let patch = AgentConfigPatch {
        disk: Some(DiskConfigPatch { enabled: Some(false), ..DiskConfigPatch::default() }),
        network: Some(NetworkConfigPatch {
            interval: Some(Span::from_secs(9)),
            include_interfaces: Some(vec!["eth0".to_string()]),
            ..NetworkConfigPatch::default()
        }),
        sockets: Some(DetailConfigPatch {
            enabled: None,
            interval: Some(Span::from_secs(8)),
            level: None,
            limit: Some(3),
        }),
        ..no_patch()
    };
    patch.apply_to(&mut config);
    assert!(!config.disk.enabled);
    assert_eq!(config.disk.interval, Span::from_secs(10));
    assert!(config.network.enabled);
    assert_eq!(config.network.interval, Span::from_secs(9));
    assert_eq!(config.sockets.interval, Span::from_secs(8));
    assert_eq!(config.sockets.limit, 3);
    assert_eq!(config.sockets.level, MetricLevel::Count);
    assert_eq!(config.processes.limit, 20);
}

#[test]
fn service_control_listener_rejects_remote_shell_when_disabled() {
    let mut dispatcher = dispatcher(DiagnosticOptions::default());
    let (_, result) = dispatch(
        &mut dispatcher,
        &AgentConfig::default(),
        InboundCommand::RemoteShellOpen {
            request: RemoteShellOpenRequest {
                session_id: "shell-1".to_string(),
                stream_url: "ws://127.0.0.1:1/shell".to_string(),
                cols: None,
                rows: None,
            },
            stream_export_config: None,
            stream_codec: SmaluxShellCodec,
        },
    );
    assert!(result.unwrap_err().contains("remote shell is disabled"));
}

#[test]
fn service_control_listener_rejects_remote_task_when_disabled() {
    let mut dispatcher = dispatcher(DiagnosticOptions::default());
    let (_, result) = dispatch(
        &mut dispatcher,
        &AgentConfig::default(),
        InboundCommand::RemoteTaskRun { request: task() },
    );
    let Ok(DispatchAction::StartTask(TaskStart::Refuse(result))) = result else {
        panic!("expected remote task result");
    };
    assert_eq!(result.status, RemoteTaskStatus::Rejected);
}

#[test]
fn service_control_listener_rejects_remote_probe_when_disabled() {
    let mut dispatcher = dispatcher(DiagnosticOptions::default());
    let (_, result) = dispatch(
        &mut dispatcher,
        &AgentConfig::default(),
        InboundCommand::RemoteProbeRun { request: probe() },
    );
    let Ok(DispatchAction::StartProbe { request, start: ProbeStart::Refuse(reason) }) = result
    else {
        panic!("expected remote probe result");
    };
    let result = rejected_result(request, new_run_id(), 100, reason);
    assert_eq!(result.request_id, Some(RemoteProbeId::Number(123)));
    assert!(result.error.as_deref().unwrap().contains("disabled"));
}

#[test]
fn recurring_jobs_are_dispatched() {
    let mut dispatcher = dispatcher(DiagnosticOptions::default());
    let config = AgentConfig::default();
    let (_, result) =
        dispatch(&mut dispatcher, &config, InboundCommand::JobApply { request: jobs(Some(1)) });
    assert!(matches!(
        result,
        Ok(DispatchAction::Jobs(JobWork::Workers(effects))) if effects.is_empty()
    ));
    let (_, result) =
        dispatch(&mut dispatcher, &config, InboundCommand::JobApply { request: jobs(None) });
    assert!(result.is_err());
}

#[test]
fn commands_without_a_number_are_not_answered() {
    let mut dispatcher = dispatcher(DiagnosticOptions::default());
    let (pending, _) = dispatch(
        &mut dispatcher,
        &AgentConfig::default(),
        InboundCommand::SnapshotRequest { reason: None },
    );
    assert!(respond(&pending, &Ok(())).is_none());
    assert!(respond(&pending, &Err("x".to_string())).is_none());
}

#[test]
fn full_and_closed_queues_are_reported() {
    assert_eq!(
        collector_queue_result(QueueOutcome::Full).unwrap_err(),
        "collector command queue is full"
    );
    assert_eq!(
        collector_queue_result(QueueOutcome::Closed).unwrap_err(),
        "collector command channel is closed"
    );
    assert!(collector_queue_result(QueueOutcome::Queued).is_ok());
    assert_eq!(
        reporter_queue_result(QueueOutcome::Full).unwrap_err(),
        "reporter command queue is full"
    );
    assert_eq!(
        reporter_queue_result(QueueOutcome::Closed).unwrap_err(),
        "reporter command channel is closed"
    );
    assert_eq!(
        control_response_queue_result(QueueOutcome::Full).unwrap_err(),
        "outbound event queue is full"
    );
    assert_eq!(
        control_response_queue_result(QueueOutcome::Closed).unwrap_err(),
        "outbound event queue is closed"
    );
}

#[test]
fn permissions_are_nested() {
    let permissions = [
        (RemoteMetricPermission::Denied, "none", [false, false, false]),
        (RemoteMetricPermission::Count, "count", [true, false, false]),
        (RemoteMetricPermission::Light, "light", [true, true, false]),
        (RemoteMetricPermission::Details, "details", [true, true, true]),
    ];
    for (permission, name, allowed) in permissions {
        assert_eq!(permission.as_str(), name);
        assert_eq!(permission.allows(MetricLevel::Count), allowed[0]);
        assert_eq!(permission.allows(MetricLevel::Light), allowed[1]);
        assert_eq!(permission.allows(MetricLevel::Details), allowed[2]);
    }
    assert_eq!(RemoteMetricPermission::default(), RemoteMetricPermission::Count);
    let options = ServiceOptions::default();
    assert_eq!(options.agent_version, AGENT_VERSION);
    assert!(options.validate().is_ok());
}

#[test]
fn patches_reach_every_group() {
    let mut config = AgentConfig::default();
    let patch = AgentConfigPatch {
        public_ip: Some(PublicIpConfigPatch {
            refresh_interval: Some(Span::from_secs(1)),
            ..PublicIpConfigPatch::default()
        }),
        report: Some(ReportConfigPatch {
            interval: Some(Span::from_secs(2)),
            ..ReportConfigPatch::default()
        }),
        basic_info: Some(BasicInfoConfigPatch {
            enabled: Some(false),
            ..BasicInfoConfigPatch::default()
        }),
        realtime_report: Some(RealtimeReportConfigPatch {
            send_on_start: Some(false),
            ..RealtimeReportConfigPatch::default()
        }),
        export: Some(ExportConfigPatch {
            token: Some("t".to_string()),
            reconnect_interval: Some(Span::from_secs(3)),
            ..ExportConfigPatch::default()
        }),
        remote_shell: Some(RemoteShellConfigPatch {
            max_sessions: Some(4),
            program: Some("/bin/bash".to_string()),
            ..RemoteShellConfigPatch::default()
        }),
        remote_task: Some(RemoteTaskConfigPatch {
            max_concurrent: Some(5),
            ..RemoteTaskConfigPatch::default()
        }),
        remote_probe: Some(RemoteProbeConfigPatch {
            enabled: Some(true),
            ..RemoteProbeConfigPatch::default()
        }),
        ..no_patch()
    };
    for _ in 0..2 {
        patch.apply_to(&mut config);
        assert_eq!(config.public_ip.refresh_interval, Span::from_secs(1));
        assert_eq!(config.report.interval, Span::from_secs(2));
        assert!(config.report.enabled);
        assert!(!config.outbound.basic_info.enabled);
        assert!(!config.outbound.realtime_report.send_on_start);
        assert_eq!(config.export.token, Some("t".to_string()));
        assert_eq!(config.export.base_url, "http://127.0.0.1:8080");
        assert_eq!(config.export.reconnect_interval, Span::from_secs(3));
        assert_eq!(config.remote_shell.max_sessions, 4);
        assert_eq!(config.remote_shell.idle_timeout, Span::from_secs(600));
        assert_eq!(config.remote_shell.program, Some("/bin/bash".to_string()));
        assert_eq!(config.remote_task.max_concurrent, 5);
        assert!(config.remote_probe.enabled);
    }
    no_patch().apply_to(&mut config);
    assert_eq!(config.remote_task.max_concurrent, 5);
}

#[test]
fn sample_options_are_checked_first() {
    let config = AgentConfig::default();
    let mut dispatcher = dispatcher(DiagnosticOptions::default());
    let command = || Command::CollectProcessesOnce {
        level: Some(MetricLevel::Details),
        limit: None,
    };
    assert_eq!(
        command().asked_sample(&config),
        Some(CollectorCommand::SampleProcessesOnce { level: MetricLevel::Details, limit: 20 })
    );
    let none = Command::SnapshotRequest { reason: None };
    assert_eq!(none.asked_sample(&config), None);
    let (_, result) = dispatcher.dispatch(
        InboundCommandEnvelope::without_response(command()),
        &config,
        Err("limit is out of range".to_string()),
        100,
        now(),
    );
    assert!(matches!(result, Err(text) if text == "limit is out of range"));
    let refused = dispatcher.resolve_socket_command(
        None,
        Some(7),
        &config,
        Err("limit is out of range".to_string()),
    );
    assert_eq!(refused, Err("limit is out of range".to_string()));
    let allowed = dispatcher.resolve_socket_command(None, Some(7), &config, Ok(()));
    assert_eq!(
        allowed,
        Ok(CollectorCommand::SampleSocketsOnce { level: MetricLevel::Count, limit: 7 })
    );
}
