//! Sampling: schedules, updates and the identity that is sampled rarely.

use smalux_agent::scheduler::time::Span;
use smalux_agent::service::bootstrap::{
    bootstrap_steps, public_ip_required_for_first_report, BootstrapStep, IdentityRetry, RetryAction,
};
use smalux_agent::service::clock::Moment;
use smalux_agent::service::collector::identity::{
    identity_refresh_config_change, identity_sample_inputs_changed, IdentityRefresh,
    IdentityRefreshConfigChange, IdentitySampleInputs, RefreshAction,
};
use smalux_agent::service::collector::{
    can_move, can_schedule, command_update, compact_updates, enabled_groups, sample_due_groups,
    sample_requests, shutdown_ends_loop, CollectorAction, CollectorCommand, CollectorState,
    DueMetricGroups, MetricSchedule, Sample, SampleRequest, TelemetryUpdate,
};
use smalux_agent::service::config::{AgentConfig, MetricLevel};
use smalux_agent::service::lifecycle::{
    service_end, waits_for_public_ip, ServiceTask, TaskEnd,
};
use smalux_agent::service::public_ip::public_ip_identity_inputs_changed;

fn at(millis: u64) -> Moment {
    Moment { nanos: 1_000_000_000_000 }.after(Span::from_millis(millis))
}

fn sample(value: u64) -> Sample {
    Sample { sampled_at: 1, value }
}

#[test]
fn metric_schedule_coalesces_common_due_time() {
    let mut config = AgentConfig::default();
    config.core.enabled = false;
    config.disk.enabled = true;
    config.disk.interval = Span::from_secs(2);
    config.network.enabled = true;
    config.network.interval = Span::from_secs(3);
    config.processes.enabled = false;
    config.sockets.enabled = false;
    let start = at(0);
    let mut schedule = MetricSchedule::new_at(&config, start);

    let due = schedule.due_groups(start.after(Span::from_secs(2)), &config);
    assert_eq!(due, DueMetricGroups { disk: true, ..DueMetricGroups::default() });
    schedule.reschedule(due, &config, start.after(Span::from_secs(2)));

    let due = schedule.due_groups(start.after(Span::from_secs(3)), &config);
    assert_eq!(due, DueMetricGroups { network: true, ..DueMetricGroups::default() });
    schedule.reschedule(due, &config, start.after(Span::from_secs(3)));

    let due = schedule.due_groups(start.after(Span::from_secs(4)), &config);
    assert_eq!(due, DueMetricGroups { disk: true, ..DueMetricGroups::default() });
    schedule.reschedule(due, &config, start.after(Span::from_secs(4)));

    let due = schedule.due_groups(start.after(Span::from_secs(6)), &config);
    assert_eq!(
        due,
        DueMetricGroups { disk: true, network: true, ..DueMetricGroups::default() }
    );
}

#[test]
fn sample_due_groups_batches_multiple_updates() {
    let due = DueMetricGroups { core: true, disk: true, ..DueMetricGroups::default() };
    let update = sample_due_groups(due, &vec![sample(10), sample(20)]).unwrap();

    match update {
        TelemetryUpdate::Batch(updates) => {
            assert_eq!(updates.len(), 2);
            assert!(matches!(&updates[0], TelemetryUpdate::Core(_)));
            assert!(matches!(&updates[1], TelemetryUpdate::Disk(_)));
        }
        _ => panic!("expected batch telemetry update"),
    }
}

#[test]
fn sample_due_groups_keeps_single_update_flat() {
    let due = DueMetricGroups { network: true, ..DueMetricGroups::default() };
    let update = sample_due_groups(due, &vec![sample(30)]).unwrap();

    assert!(matches!(update, TelemetryUpdate::Network(_)));
}

#[test]
fn sample_due_groups_skips_empty_due_groups() {
    let update = sample_due_groups(DueMetricGroups::default(), &Vec::new());

    assert!(update.is_none());
}

#[test]
fn samples_reach_the_groups_they_were_taken_for() {
    let due = DueMetricGroups {
        core: true,
        disk: true,
        network: true,
        processes: true,
        sockets: true,
    };
    let samples = vec![sample(1), sample(2), sample(3), sample(4), sample(5)];
    let Some(TelemetryUpdate::Batch(updates)) = sample_due_groups(due, &samples) else {
        panic!("expected batch telemetry update");
    };
    assert_eq!(updates.len(), 5);
    assert!(matches!(&updates[0], TelemetryUpdate::Core(sample) if sample.value == 1));
    assert!(matches!(&updates[1], TelemetryUpdate::Disk(sample) if sample.value == 2));
    assert!(matches!(&updates[2], TelemetryUpdate::Network(sample) if sample.value == 3));
    assert!(matches!(&updates[3], TelemetryUpdate::Processes(sample) if sample.value == 4));
    assert!(matches!(&updates[4], TelemetryUpdate::Sockets(sample) if sample.value == 5));
}

#[test]
fn updates_are_compacted() {
    assert!(compact_updates(Vec::new()).is_none());
    let single = compact_updates(vec![TelemetryUpdate::Core(sample(1))]);
    assert!(matches!(single, Some(TelemetryUpdate::Core(_))));
    let pair = compact_updates(vec![
        TelemetryUpdate::Core(sample(1)),
        TelemetryUpdate::Disk(sample(2)),
    ]);
    assert!(matches!(pair, Some(TelemetryUpdate::Batch(updates)) if updates.len() == 2));
}

#[test]
fn sample_requests_follow_the_configuration() {
    let mut config = AgentConfig::default();
    config.disk.include_per_device = true;
    config.processes.level = MetricLevel::Light;
    config.processes.limit = 7;
    config.network.include_interfaces = vec!["eth0".to_string()];
    let due = DueMetricGroups {
        core: false,
        disk: true,
        network: true,
        processes: true,
        sockets: false,
    };
    let requests = sample_requests(&config, due);
    assert_eq!(requests.len(), 3);
    assert!(matches!(requests[0], SampleRequest::Disk { include_per_device: true }));
    match &requests[1] {
        SampleRequest::Network { include_per_interface, include_interfaces, exclude_interfaces } => {
            assert!(!include_per_interface);
            assert_eq!(include_interfaces[0], "eth0");
            assert!(exclude_interfaces.is_empty());
        }
        _ => panic!("expected network request"),
    }
    assert!(matches!(
        requests[2],
        SampleRequest::Processes { level: MetricLevel::Light, limit: 7 }
    ));
}

#[test]
fn groups_are_counted() {
    let config = AgentConfig::default();
    let groups = enabled_groups(&config);
    assert_eq!(groups.count(), 5);
    assert!(groups.any());
    assert_eq!(DueMetricGroups::default().count(), 0);
    assert!(!DueMetricGroups::default().any());
}

#[test]
fn sampling_keeps_its_phase_after_a_late_wake_up() {
    let mut config = AgentConfig::default();
    config.core.interval = Span::from_secs(2);
    let mut schedule = MetricSchedule::new_at(&config, at(0));
    let due = DueMetricGroups { core: true, ..DueMetricGroups::default() };
    schedule.reschedule(due, &config, at(7_300));
    assert_eq!(schedule.core_next, at(8_000));
    assert!(!schedule.due_groups(at(7_300), &config).core);
    assert!(schedule.due_groups(at(8_000), &config).core);
}

#[test]
fn collector_command_samples_processes_once() {
    let command = CollectorCommand::SampleProcessesOnce { level: MetricLevel::Count, limit: 10 };
    let mut state = CollectorState::start(AgentConfig::default(), at(0));
    let action = state.on_command(Some(command));
    assert!(matches!(action, CollectorAction::SampleOnce(_)));
    let update = command_update(command, sample(42));
    assert!(matches!(update, TelemetryUpdate::Processes(sample) if sample.value == 42));
    assert!(matches!(state.on_published(true, at(1)), CollectorAction::Wait));
}

#[test]
fn collector_command_samples_sockets_once() {
    let command = CollectorCommand::SampleSocketsOnce { level: MetricLevel::Count, limit: 10 };
    let mut state = CollectorState::start(AgentConfig::default(), at(0));
    let action = state.on_command(Some(command));
    assert!(matches!(action, CollectorAction::SampleOnce(_)));
    let update = command_update(command, sample(42));
    assert!(matches!(update, TelemetryUpdate::Sockets(_)));
}

#[test]
fn collector_samples_what_is_due_and_stops_with_the_reporter() {
    let config = AgentConfig::default();
    assert!(can_schedule(&config, at(0)));
    let mut state = CollectorState::start(config, at(0));
    assert_eq!(state.wake_at(at(0)), Some(at(1_000)));
    let CollectorAction::Sample(due) = state.on_wake(at(1_000)) else {
        panic!("expected a sample");
    };
    assert_eq!(
        due,
        DueMetricGroups { core: true, network: true, ..DueMetricGroups::default() }
    );
    assert!(matches!(state.on_published(true, at(1_001)), CollectorAction::Wait));
    assert_eq!(state.wake_at(at(1_001)), Some(at(2_000)));
    state.on_wake(at(2_000));
    assert!(matches!(state.on_published(false, at(2_001)), CollectorAction::Stop));
}

#[test]
fn collector_takes_a_new_configuration() {
    let mut state = CollectorState::start(AgentConfig::default(), at(0));
    let mut config = AgentConfig::default();
    config.core.interval = Span::from_millis(300);
    state.on_config(Some(config), at(500));
    assert_eq!(state.wake_at(at(500)), Some(at(800)));
    state.on_config(None, at(600));
    assert!(!state.config_open);
}

#[test]
fn loops_end_when_they_are_told_to() {
    assert!(shutdown_ends_loop(true, false));
    assert!(shutdown_ends_loop(false, true));
    assert!(!shutdown_ends_loop(false, false));
}

#[test]
fn identity_sample_inputs_changed_detects_public_ip_lookup_input_changes() {
    let previous = AgentConfig::default();

    let cases: &[fn(&mut AgentConfig)] = &[
        |config| config.public_ip.enabled = !config.public_ip.enabled,
        |config| {
            config.public_ip.prefer_interface_candidate =
                !config.public_ip.prefer_interface_candidate;
        },
        |config| {
            config.public_ip.verify_interface_candidate =
                !config.public_ip.verify_interface_candidate;
        },
        |config| {
            config.public_ip.lookup_timeout =
                Span { nanos: config.public_ip.lookup_timeout.nanos + 1_000_000_000 };
        },
        |config| config.public_ip.max_concurrency += 1,
    ];

    for mutate in cases {
        let mut next = previous.clone();
        mutate(&mut next);

        assert!(identity_sample_inputs_changed(&previous, &next));
    }
}

#[test]
fn identity_sample_inputs_changed_ignores_identical_config() {
    let previous = AgentConfig::default();
    let next = previous.clone();

    assert!(!identity_sample_inputs_changed(&previous, &next));
}

#[test]
fn identity_sample_inputs_ignore_startup_gate_fields() {
    let previous = AgentConfig::default();
    let mut next = previous.clone();

    next.public_ip.required_for_first_report = !previous.public_ip.required_for_first_report;
    next.public_ip.retry_interval =
        Span { nanos: previous.public_ip.retry_interval.nanos + 1_000_000_000 };

    assert_eq!(
        IdentitySampleInputs::from_config(&previous),
        IdentitySampleInputs::from_config(&next)
    );
}

#[test]
fn identity_sample_inputs_changed_detects_public_ip_enabled_again() {
    let mut previous = AgentConfig::default();
    previous.public_ip.enabled = false;
    let mut next = previous.clone();

    next.public_ip.enabled = true;

    assert!(identity_sample_inputs_changed(&previous, &next));
}

#[test]
fn identity_sample_inputs_changed_detects_agent_id_change() {
    let previous = AgentConfig::default();
    let mut next = previous.clone();

    next.agent_id = "agent-next".to_string();

    assert!(identity_sample_inputs_changed(&previous, &next));
}

#[test]
fn identity_refresh_config_change_detects_interval_only_change() {
    let previous = AgentConfig::default();
    let mut next = previous.clone();

    next.public_ip.refresh_interval =
        Span { nanos: previous.public_ip.refresh_interval.nanos * 2 };

    assert_eq!(
        identity_refresh_config_change(&previous, &next),
        IdentityRefreshConfigChange {
            refresh_interval_changed: true,
            sample_inputs_changed: false,
        }
    );
}

#[test]
fn identity_refresh_config_change_detects_interval_and_sample_input_change() {
    let previous = AgentConfig::default();
    let mut next = previous.clone();

    next.public_ip.refresh_interval =
        Span { nanos: previous.public_ip.refresh_interval.nanos * 2 };
    next.public_ip.lookup_timeout =
        Span { nanos: previous.public_ip.lookup_timeout.nanos + 1_000_000_000 };

    assert_eq!(
        identity_refresh_config_change(&previous, &next),
        IdentityRefreshConfigChange {
            refresh_interval_changed: true,
            sample_inputs_changed: true,
        }
    );
}

#[test]
fn identity_refresh_config_change_ignores_unrelated_metric_change() {
    let previous = AgentConfig::default();
    let mut next = previous.clone();

    next.disk.enabled = !previous.disk.enabled;

    assert_eq!(
        identity_refresh_config_change(&previous, &next),
        IdentityRefreshConfigChange::default()
    );
}

#[test]
fn identity_refresh_config_change_ignores_startup_gate_fields() {
    let previous = AgentConfig::default();
    let mut next = previous.clone();

    next.public_ip.required_for_first_report = !previous.public_ip.required_for_first_report;
    next.public_ip.retry_interval =
        Span { nanos: previous.public_ip.retry_interval.nanos + 1_000_000_000 };

    assert_eq!(
        identity_refresh_config_change(&previous, &next),
        IdentityRefreshConfigChange::default()
    );
}

#[test]
fn identity_is_sampled_again_when_its_inputs_change() {
    let mut refresh = IdentityRefresh::start(AgentConfig::default());
    assert!(refresh.waits_for_tick());
    let mut next = AgentConfig::default();
    next.public_ip.refresh_interval = Span::from_secs(7);
    let (restart, action) = refresh.on_config(Some(next.clone()));
    assert!(restart);
    assert!(matches!(action, RefreshAction::Wait));
    next.agent_id = "agent-next".to_string();
    let (restart, action) = refresh.on_config(Some(next));
    assert!(!restart);
    assert!(matches!(action, RefreshAction::Sample));
    assert!(matches!(refresh.on_published(true), RefreshAction::Wait));
    assert!(matches!(refresh.on_published(false), RefreshAction::Stop));
}

#[test]
fn public_ip_identity_inputs_changed_detects_lookup_input_changes() {
    let previous = AgentConfig::default();
    let mut next = previous.clone();
    assert!(!public_ip_identity_inputs_changed(&previous, &next));

    next.public_ip.enabled = !previous.public_ip.enabled;
    assert!(public_ip_identity_inputs_changed(&previous, &next));
}

#[test]
fn public_ip_required_for_first_report_respects_enabled_and_required_flags() {
    let mut config = AgentConfig::default();

    assert!(!public_ip_required_for_first_report(&config));

    config.public_ip.required_for_first_report = true;
    assert!(public_ip_required_for_first_report(&config));
    config.public_ip.enabled = false;
    assert!(!public_ip_required_for_first_report(&config));
}

#[test]
fn retry_identity_stops_when_first_report_no_longer_requires_public_ip() {
    let mut config = AgentConfig::default();
    config.public_ip.required_for_first_report = true;
    config.public_ip.retry_interval = Span::from_millis(200);
    let (mut retry, action) = IdentityRetry::start(config.clone(), false);
    assert!(matches!(action, RetryAction::RestartTimer));
    assert!(matches!(retry.on_tick(), RetryAction::Sample));
    assert!(matches!(retry.on_sampled(false), RetryAction::Wait));

    config.public_ip.required_for_first_report = false;
    assert!(matches!(retry.on_config(Some(config)), RetryAction::Finish));
}

#[test]
fn retry_identity_stops_when_the_address_is_known() {
    let mut config = AgentConfig::default();
    config.public_ip.required_for_first_report = true;
    let (retry, _) = IdentityRetry::start(config.clone(), false);
    assert!(matches!(retry.on_sampled(true), RetryAction::Finish));
    let (_, action) = IdentityRetry::start(config.clone(), true);
    assert!(matches!(action, RetryAction::Finish));
    assert!(waits_for_public_ip(&config, false));
    assert!(!waits_for_public_ip(&config, true));
    assert!(!waits_for_public_ip(&AgentConfig::default(), false));
}

#[test]
fn start_samples_the_enabled_groups() {
    let mut config = AgentConfig::default();
    config.sockets.enabled = false;
    let steps = bootstrap_steps(&config);
    assert!(matches!(steps[0], BootstrapStep::Configure(groups) if !groups.sockets));
    assert!(steps.iter().any(|step| matches!(step, BootstrapStep::System)));
    assert!(steps
        .iter()
        .any(|step| matches!(step, BootstrapStep::Sample(groups) if groups.core)));
    assert!(steps.iter().any(|step| matches!(step, BootstrapStep::Identity)));
}

#[test]
fn service_ends_with_the_first_task() {
    let ended = service_end(
        ServiceTask::Export,
        TaskEnd::Finished(Err("connection lost".to_string())),
    );
    assert!(ended.signal_shutdown);
    assert_eq!(ended.result, Err("connection lost".to_string()));

    let ended = service_end(ServiceTask::Collector, TaskEnd::Finished(Ok(())));
    assert!(ended.signal_shutdown);
    assert_eq!(ended.result, Ok(()));

    let cases = [
        (ServiceTask::Export, "export supervisor task failed: gone"),
        (ServiceTask::Collector, "collector task failed: gone"),
        (ServiceTask::PublicIp, "public IP refresh task failed: gone"),
        (ServiceTask::Reporter, "reporter task failed: gone"),
        (ServiceTask::InboundCommands, "inbound command task failed: gone"),
    ];
    for (task, text) in cases {
        let ended = service_end(task, TaskEnd::Aborted("gone".to_string()));
        assert!(!ended.signal_shutdown);
        assert_eq!(ended.result, Err(text.to_string()));
    }
}

#[test]
fn only_sampled_groups_have_to_move_on() {
    let mut config = AgentConfig::default();
    config.disk.interval = Span::from_millis(0);
    let core = DueMetricGroups { core: true, ..DueMetricGroups::default() };
    let disk = DueMetricGroups { disk: true, ..DueMetricGroups::default() };
    assert!(can_schedule(&config, at(0)));
    assert!(can_move(core, &config, at(0)));
    assert!(!can_move(disk, &config, at(0)));
    let mut schedule = MetricSchedule::new_at(&config, at(0));
    schedule.reschedule(core, &config, at(1_500));
    assert_eq!(schedule.core_next, at(2_000));
}

#[test]
fn configurations_are_copied_exactly() {
    let mut config = AgentConfig::default();
    config.agent_id = "agent-1".to_string();
    config.network.include_interfaces = vec!["eth0".to_string()];
    let copy = config.clone();
    assert_eq!(copy.agent_id, "agent-1");
    assert_eq!(copy.network.include_interfaces, vec!["eth0".to_string()]);
    assert_eq!(copy.network.exclude_interfaces, Vec::<String>::new());
    assert_eq!(copy.public_ip, config.public_ip);
    assert_eq!(copy.remote_shell.idle_timeout, Span::from_secs(600));
    assert_eq!(copy.export.reconnect_interval, Span::from_secs(5));
}
