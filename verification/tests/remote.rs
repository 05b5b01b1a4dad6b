//! Remote capabilities: jobs, probes and tasks.

use smalux_agent::scheduler::time::Span;
use smalux_agent::service::clock::Moment;
use smalux_agent::service::config::{AgentConfig, RemoteProbeConfig};
use smalux_agent::service::outbound::{
    after_reserve, BasicInfoEnvelope, OutboundEvent, RoomOutcome,
};
use smalux_agent::service::protocol::{
    RemoteJobApplyRequest, RemoteJobKind, RemoteJobOperation, RemoteJobResult,
    RemoteJobRunRequest, RemoteJobSpec, RemoteProbeId, RemoteProbeResultSource,
    RemoteProbeResultStatus, RemoteProbeType, RemoteTaskStatus,
};
use smalux_agent::service::remote::job::{normalize_job_ids, probe_job_specs, RemoteJobApply};
use smalux_agent::service::remote::probe::{
    executed_result, http_address, http_target_url, limited_timeout, new_run_id, probe_plan,
    refused_result_sent, rejected_result, result_event, tcp_address, tcp_target_address, ProbePlan, ProbeRateState,
    ProbeStart, RemoteProbeExecutionRequest, RemoteProbeJobSpec, WebAddress,
};
use smalux_agent::service::remote::schedule::{
    JobWork, ProbeSchedulerState, ProbeWorker, RemoteJobManager, RemoteProbeManager, WorkerEffect,
    WorkerStep,
};
use smalux_agent::service::remote::task::{
    task_result, task_result_event, LimitedOutput, OutputText, RemoteTaskManager,
    RemoteTaskOptions, RemoteTaskRunRequest, TaskExit, TaskStart,
};
use smalux_agent::service::remote::RemoteCommandOptions;

fn at(millis: u64) -> Moment {
    Moment { nanos: 1_000_000_000_000 }.after(Span::from_millis(millis))
}

fn text_id(text: &str) -> RemoteProbeId {
    RemoteProbeId::Text(text.to_string())
}

fn empty_request(operation: RemoteJobOperation, generation: Option<u64>) -> RemoteJobApplyRequest {
    RemoteJobApplyRequest {
        operation,
        generation,
        runs: Vec::new(),
        jobs: Vec::new(),
        upsert_jobs: Vec::new(),
        remove_job_ids: Vec::new(),
    }
}

fn tcp_request(request_id: &str, target: &str) -> RemoteProbeExecutionRequest {
    RemoteProbeExecutionRequest {
        source: RemoteProbeResultSource::Once,
        point_id: Some(text_id(request_id)),
        request_id: Some(text_id(request_id)),
        job_id: None,
        probe_type: RemoteProbeType::Tcp,
        target: target.to_string(),
        timeout: None,
    }
}

fn job(job_id: &str, target: &str, interval: Span) -> RemoteProbeJobSpec {
    RemoteProbeJobSpec {
        job_id: job_id.to_string(),
        point_id: Some(text_id("point")),
        enabled: true,
        probe_type: RemoteProbeType::Tcp,
        target: target.to_string(),
        interval,
        timeout: None,
    }
}

fn job_spec(job_id: &str, enabled: bool) -> RemoteJobSpec {
    RemoteJobSpec::Probe {
        job_id: job_id.to_string(),
        point_id: None,
        enabled,
        probe_type: RemoteProbeType::Tcp,
        target: "127.0.0.1:80".to_string(),
        interval: Span::from_secs(30),
        timeout: None,
    }
}

fn probe_config(enabled: bool) -> RemoteProbeConfig {
    RemoteProbeConfig { enabled, ..AgentConfig::default().remote_probe }
}

#[test]
fn job_once_probe_converts_to_probe_run() {
    let apply = RemoteJobApply::try_from(RemoteJobApplyRequest {
        runs: vec![RemoteJobRunRequest::Probe {
            request_id: text_id("run-1"),
            point_id: Some(text_id("point-1")),
            probe_type: RemoteProbeType::Tcp,
            target: "example.com:443".to_string(),
            timeout: None,
        }],
        ..empty_request(RemoteJobOperation::Once, None)
    })
    .unwrap();

    let RemoteJobApply::Once { runs } = apply else {
        panic!("expected once job");
    };
    assert_eq!(runs.len(), 1);
    assert_eq!(runs[0].request_id, Some(text_id("run-1")));
    assert_eq!(
        RemoteJobRunRequest::Probe {
            request_id: text_id("x"),
            point_id: None,
            probe_type: RemoteProbeType::Tcp,
            target: "localhost:80".to_string(),
            timeout: None,
        }
        .kind(),
        RemoteJobKind::Probe
    );
}

#[test]
fn job_replace_requires_generation() {
    let error =
        RemoteJobApply::try_from(empty_request(RemoteJobOperation::Replace, None)).unwrap_err();

    assert!(error.contains("requires generation"));
}

#[test]
fn job_patch_normalizes_remove_ids() {
    let apply = RemoteJobApply::try_from(RemoteJobApplyRequest {
        remove_job_ids: vec![" a ".to_string(), "a".to_string(), "b".to_string()],
        ..empty_request(RemoteJobOperation::Patch, Some(7))
    })
    .unwrap();

    let RemoteJobApply::Patch { remove_job_ids, .. } = apply else {
        panic!("expected patch job");
    };
    assert_eq!(remove_job_ids, vec!["a".to_string(), "b".to_string()]);
}

#[test]
fn job_replace_probe_keeps_interval() {
    let apply = RemoteJobApply::try_from(RemoteJobApplyRequest {
        jobs: vec![RemoteJobSpec::Probe {
            job_id: "probe-1".to_string(),
            point_id: None,
            enabled: true,
            probe_type: RemoteProbeType::Http,
            target: "https://example.com".to_string(),
            interval: Span::from_secs(30),
            timeout: None,
        }],
        ..empty_request(RemoteJobOperation::Replace, Some(3))
    })
    .unwrap();

    let RemoteJobApply::Replace { generation, jobs } = apply else {
        panic!("expected replace job");
    };
    assert_eq!(generation, 3);
    assert_eq!(jobs[0].job_id, "probe-1");
    assert_eq!(jobs[0].interval, Span::from_secs(30));
}

#[test]
fn jobs_are_checked() {
    assert!(probe_job_specs(&vec![job_spec("a", true), job_spec("a", false)]).is_err());
    assert_eq!(probe_job_specs(&vec![job_spec("a", true), job_spec("b", true)]).unwrap().len(), 2);
    assert!(probe_job_specs(&vec![job_spec(" ", true)]).is_err());
    assert!(normalize_job_ids(&vec!["  ".to_string()]).is_err());
    assert!(RemoteJobApply::try_from(empty_request(RemoteJobOperation::Once, None)).is_err());
}

#[test]
fn probe_requests_are_checked() {
    assert!(tcp_request("a", "127.0.0.1:1").validate().is_ok());
    assert!(tcp_request("a", " ").validate().is_err());
    assert!(tcp_request(" ", "127.0.0.1:1").validate().is_err());
    let mut request = tcp_request("a", "127.0.0.1:1");
    request.request_id = None;
    assert_eq!(
        request.validate().unwrap_err(),
        "remote_probe.once requires request_id"
    );
    let mut request = tcp_request("a", "127.0.0.1:1");
    request.job_id = Some("job".to_string());
    assert_eq!(
        request.validate().unwrap_err(),
        "remote_probe.once cannot contain job_id"
    );
    let mut spec = job("job", "127.0.0.1:1", Span::from_secs(1));
    assert!(spec.validate().is_ok());
    spec.interval = Span { nanos: 0 };
    assert_eq!(
        spec.validate().unwrap_err(),
        "remote_probe.interval must be greater than zero"
    );
}

#[test]
fn probe_requests_have_display_names_and_keys() {
    let request = tcp_request("run", "  EXAMPLE.com:80 ");
    assert_eq!(request.target_key(), "tcp:example.com:80");
    assert_eq!(request.display_id(), "run");
    assert_eq!(request.point_display_id(), "run");
    assert_eq!(request.execution_display_id(), "run");
    let mut request = job("job-1", "h:1", Span::from_secs(1)).to_execution_request();
    assert_eq!(request.execution_display_id(), "job-1");
    request.point_id = Some(RemoteProbeId::Number(42));
    assert_eq!(request.display_id(), "42");
    request.point_id = None;
    assert_eq!(request.display_id(), "job-1");
    assert_eq!(request.point_display_id(), "");
}

#[test]
fn disabled_remote_probe_returns_rejected_result() {
    let mut state = ProbeRateState::new();
    let request = tcp_request("probe-disabled", "127.0.0.1:1");
    let start = state.start_once(&request, &probe_config(false), at(0)).unwrap();
    let ProbeStart::Refuse(reason) = start else {
        panic!("expected a refusal");
    };
    let result = rejected_result(request, new_run_id(), 100, reason);
    assert_eq!(result.source, RemoteProbeResultSource::Once);
    assert_eq!(result.point_id, Some(text_id("probe-disabled")));
    assert_eq!(result.request_id, Some(text_id("probe-disabled")));
    assert_eq!(result.status, RemoteProbeResultStatus::Rejected);
    assert_eq!(result.latency_ms, None);
    assert!(result.error.as_deref().unwrap().contains("disabled"));
    let event = result_event("agent-probe".to_string(), 1, 100, result);
    assert_eq!(event.sequence(), 1);
    assert_eq!(event.kind(), "job_result");
}

#[test]
fn remote_probe_global_rate_limit_returns_rejected_result() {
    let mut state = ProbeRateState::new();
    state.last_global_started_at = Some(at(0));
    let request = tcp_request("probe-rate", "127.0.0.1:1");
    let start = state.start_once(&request, &probe_config(true), at(0)).unwrap();
    let ProbeStart::Refuse(reason) = start else {
        panic!("expected a refusal");
    };
    let result = rejected_result(request, new_run_id(), 100, reason);
    assert_eq!(result.status, RemoteProbeResultStatus::Rejected);
    assert_eq!(result.latency_ms, None);
    assert!(result.error.as_deref().unwrap().contains("global rate limit"));
}

#[test]
fn probes_of_one_target_keep_their_distance() {
    let mut state = ProbeRateState::new();
    let config = probe_config(true);
    let first = tcp_request("a", "Example.com:80");
    assert!(matches!(
        state.start_once(&first, &config, at(0)),
        Ok(ProbeStart::Run { timeout }) if timeout == config.timeout
    ));
    let second = tcp_request("b", " example.com:80 ");
    assert!(matches!(
        state.start_once(&second, &config, at(500)),
        Ok(ProbeStart::Refuse(reason)) if reason.contains("target")
    ));
    let other = tcp_request("c", "example.org:80");
    assert!(matches!(state.start_once(&other, &config, at(600)), Ok(ProbeStart::Run { .. })));
    assert!(matches!(state.start_once(&second, &config, at(1_000)), Ok(ProbeStart::Run { .. })));
}

#[test]
fn rate_memory_is_bounded() {
    let mut state = ProbeRateState::new();
    for i in 0..1_500u64 {
        state.insert_target(format!("tcp:host-{i}:1"), at(i));
        state.prune(at(i), Span::from_secs(3_600));
    }
    assert_eq!(state.last_target_started_at.len(), 1_024);
    assert!(!state.last_target_started_at.iter().any(|target| target.started_at == at(0)));
    state.prune(at(5_000), Span::from_secs(1));
    assert!(state.last_target_started_at.is_empty());
}

#[test]
fn remote_probe_tcp_success_returns_latency() {
    let request = tcp_request("probe-ok", "127.0.0.1:8080");
    assert!(matches!(
        probe_plan(&request),
        ProbePlan::Connect(address) if address == "127.0.0.1:8080"
    ));
    let result =
        executed_result(request, "run".to_string(), 99, 100, Span::from_millis(12), Ok(()));
    assert_eq!(result.source, RemoteProbeResultSource::Once);
    assert_eq!(result.request_id, Some(text_id("probe-ok")));
    assert_eq!(result.status, RemoteProbeResultStatus::Success);
    assert_eq!(result.latency_ms, Some(12));
    assert_eq!(result.error, None);
}

#[test]
fn remote_probe_http_success_returns_latency() {
    let request = RemoteProbeExecutionRequest {
        source: RemoteProbeResultSource::Once,
        point_id: Some(text_id("point-7")),
        request_id: Some(RemoteProbeId::Number(7)),
        job_id: None,
        probe_type: RemoteProbeType::Http,
        target: "http://127.0.0.1:8080".to_string(),
        timeout: None,
    };
    assert!(matches!(
        probe_plan(&request),
        ProbePlan::Request(address) if address == "http://127.0.0.1:8080/"
    ));
    let result =
        executed_result(request, "run".to_string(), 99, 100, Span::from_millis(3), Ok(()));
    assert_eq!(result.point_id, Some(text_id("point-7")));
    assert_eq!(result.request_id, Some(RemoteProbeId::Number(7)));
    assert_eq!(result.status, RemoteProbeResultStatus::Success);
    assert_eq!(result.latency_ms, Some(3));
}

#[test]
fn failed_probe_has_no_latency() {
    let request = tcp_request("probe", "127.0.0.1:1");
    let result = executed_result(
        request,
        "run".to_string(),
        99,
        100,
        Span::from_millis(3),
        Err("connection refused".to_string()),
    );
    assert_eq!(result.status, RemoteProbeResultStatus::Failed);
    assert_eq!(result.latency_ms, None);
    assert_eq!(result.duration_ms, 3);
    assert_eq!(result.error.as_deref(), Some("connection refused"));
}

#[test]
fn probe_targets_become_addresses() {
    assert_eq!(tcp_target_address(" example.com:443 ").unwrap(), "example.com:443");
    assert_eq!(tcp_target_address("tcp://example.com:443").unwrap(), "example.com:443");
    assert_eq!(tcp_target_address("tcp://[::1]:22").unwrap(), "[::1]:22");
    assert_eq!(
        tcp_target_address("tcp://example.com").unwrap_err(),
        "tcp probe target port is missing"
    );
    assert_eq!(
        tcp_target_address("http://example.com:80").unwrap_err(),
        "tcp probe target must use tcp:// or host:port"
    );
    assert_eq!(
        tcp_target_address("tcp:example.com:80").unwrap_err(),
        "tcp probe target host is missing"
    );
    assert_eq!(
        tcp_target_address("a:b:80").unwrap_err(),
        "tcp probe target must use tcp:// or host:port"
    );
    assert_eq!(
        tcp_target_address("example.com:65536").unwrap_err(),
        "tcp probe target must use tcp:// or host:port"
    );
    assert_eq!(tcp_target_address("10.0.0.1:22").unwrap(), "10.0.0.1:22");
    assert_eq!(http_target_url("example.com").unwrap(), "http://example.com/");
    assert_eq!(http_target_url("HTTPS://Example.com/a").unwrap(), "https://example.com/a");
    assert_eq!(
        http_target_url("ftp://example.com").unwrap_err(),
        "http probe target must use http or https"
    );
    assert!(http_target_url("http://").is_err());
    let mut request = tcp_request("a", "h");
    request.probe_type = RemoteProbeType::Icmp;
    assert!(matches!(
        probe_plan(&request),
        ProbePlan::Fail(text) if text == "icmp probe is not implemented"
    ));
}

#[test]
fn parsed_targets_become_addresses() {
    let url = |scheme: &str, host: Option<&str>, port: Option<u16>| WebAddress {
        scheme: scheme.to_string(),
        host: host.map(str::to_string),
        port,
        text: "text".to_string(),
    };
    assert_eq!(
        tcp_address("tcp://h:5".to_string(), Ok(url("tcp", Some("h"), Some(5)))).unwrap(),
        "h:5"
    );
    assert_eq!(
        tcp_address("tcp:".to_string(), Ok(url("tcp", None, Some(5)))).unwrap_err(),
        "tcp probe target host is missing"
    );
    assert_eq!(tcp_address("h".to_string(), Err("no".to_string())).unwrap(), "h");
    assert_eq!(http_address(Ok(url("https", Some("h"), None))).unwrap(), "text");
    assert_eq!(http_address(Err("no".to_string())).unwrap_err(), "no");
}

#[test]
fn timeouts_are_limited() {
    assert_eq!(limited_timeout(None, Span::from_secs(3)), Span::from_secs(3));
    assert_eq!(
        limited_timeout(Some(Span::from_secs(1)), Span::from_secs(3)),
        Span::from_secs(1)
    );
    assert_eq!(
        limited_timeout(Some(Span::from_secs(9)), Span::from_secs(3)),
        Span::from_secs(3)
    );
}

#[test]
fn run_names_have_the_usual_form() {
    let name = new_run_id();
    assert_eq!(name.len(), 36);
    for (place, c) in name.chars().enumerate() {
        if [8, 13, 18, 23].contains(&place) {
            assert_eq!(c, '-');
        } else {
            assert!(c.is_ascii_hexdigit() && !c.is_ascii_uppercase());
        }
    }
    assert_ne!(name, new_run_id());
}

#[test]
fn remote_probe_replace_jobs_starts_worker() {
    let mut state = ProbeSchedulerState::new();
    let effects =
        state.apply_replace(1, vec![job("job-main", "127.0.0.1:1", Span::from_millis(50))]);
    assert_eq!(effects.len(), 1);
    assert!(matches!(&effects[0], WorkerEffect::Start(spec) if spec.job_id == "job-main"));
    let mut worker = ProbeWorker::new();
    assert_eq!(worker.look(false), WorkerStep::Run);
    assert_eq!(worker.look(false), WorkerStep::Sleep);
    assert_eq!(worker.slept(false), WorkerStep::Run);
    assert_eq!(worker.look(true), WorkerStep::Stop);
    assert_eq!(worker.interrupted(false, false), WorkerStep::Again);
    assert_eq!(worker.interrupted(true, false), WorkerStep::Stop);

    let mut rate = ProbeRateState::new();
    let spec = job("job-main", "127.0.0.1:1", Span::from_millis(50));
    let (request, _) = rate.start_job(&spec, &probe_config(true), at(0)).unwrap();
    let result =
        executed_result(request, "run".to_string(), 1, 1, Span::from_millis(1), Ok(()));
    assert_eq!(result.source, RemoteProbeResultSource::Job);
    assert_eq!(result.point_id, Some(text_id("point")));
    assert_eq!(result.job_id.as_deref(), Some("job-main"));
    assert_eq!(result.status, RemoteProbeResultStatus::Success);
    assert!(rate.start_job(&spec, &probe_config(true), at(1)).is_none());
}

#[test]
fn remote_probe_patch_replaces_running_job() {
    let mut state = ProbeSchedulerState::new();
    state.apply_replace(1, vec![job("job-old", "127.0.0.1:1", Span::from_secs(30))]);
    let effects = state.apply_patch(
        2,
        vec![job("job-new", "127.0.0.1:2", Span::from_millis(50))],
        vec!["job-old".to_string()],
    );
    assert_eq!(effects.len(), 2);
    assert!(matches!(&effects[0], WorkerEffect::Stop(id) if id == "job-old"));
    assert!(matches!(&effects[1], WorkerEffect::Start(spec) if spec.job_id == "job-new"));
    assert_eq!(state.jobs.len(), 1);
}

#[test]
fn unchanged_probe_keeps_its_worker_and_late_changes_are_passed_over() {
    let mut state = ProbeSchedulerState::new();
    state.apply_replace(5, vec![job("a", "127.0.0.1:1", Span::from_secs(30))]);
    let effects = state.apply_replace(
        5,
        vec![
            job("a", "127.0.0.1:1", Span::from_secs(30)),
            job("b", "127.0.0.1:1", Span::from_secs(30)),
        ],
    );
    assert_eq!(effects.len(), 1);
    assert!(matches!(&effects[0], WorkerEffect::Start(spec) if spec.job_id == "b"));
    assert!(state.apply_replace(4, Vec::new()).is_empty());
    assert_eq!(state.jobs.len(), 2);
    assert_eq!(state.generation, Some(5));
    let mut paused = job("a", "127.0.0.1:1", Span::from_secs(30));
    paused.enabled = false;
    let effects = state.apply_patch(6, vec![paused], Vec::new());
    assert_eq!(effects.len(), 1);
    assert!(matches!(&effects[0], WorkerEffect::Stop(id) if id == "a"));
}

#[test]
fn submitted_jobs_are_carried_out() {
    let mut manager = RemoteJobManager::new(RemoteProbeManager::new());
    let work = manager
        .submit(RemoteJobApplyRequest {
            jobs: vec![job_spec("a", true), job_spec("b", false)],
            ..empty_request(RemoteJobOperation::Replace, Some(1))
        })
        .unwrap();
    assert!(matches!(work, JobWork::Workers(effects) if effects.len() == 1));
    let work = manager
        .submit(RemoteJobApplyRequest {
            runs: vec![RemoteJobRunRequest::Probe {
                request_id: RemoteProbeId::Number(3),
                point_id: None,
                probe_type: RemoteProbeType::Tcp,
                target: "127.0.0.1:1".to_string(),
                timeout: None,
            }],
            ..empty_request(RemoteJobOperation::Once, None)
        })
        .unwrap();
    assert!(matches!(work, JobWork::Runs(runs) if runs.len() == 1));
    assert!(manager.submit(empty_request(RemoteJobOperation::Patch, None)).is_err());
    assert_eq!(manager.probe.scheduler_state.jobs.len(), 2);
}

#[test]
fn remote_task_is_disabled_by_default() {
    let options = RemoteTaskOptions::default();

    assert!(!options.enabled);
    options.validate().unwrap();
    assert!(!RemoteCommandOptions::default().enabled);
    RemoteCommandOptions::default().validate().unwrap();
}

fn task_request(task_id: &str, timeout: Option<Span>) -> RemoteTaskRunRequest {
    RemoteTaskRunRequest {
        task_id: task_id.to_string(),
        program: "/bin/sh".to_string(),
        args: vec!["-c".to_string(), "printf ok".to_string()],
        timeout,
    }
}

#[test]
fn disabled_remote_task_returns_rejected_result() {
    let mut manager = RemoteTaskManager::new(RemoteTaskOptions { enabled: false });
    let config = AgentConfig::default().remote_task;
    let start = manager.start(task_request("task-disabled", None), &config, 100).unwrap();
    let TaskStart::Refuse(result) = start else {
        panic!("expected a refusal");
    };
    assert_eq!(result.status, RemoteTaskStatus::Rejected);
    assert_eq!(result.error.as_deref(), Some("remote task is disabled"));
    let event = task_result_event("agent".to_string(), 1, 100, result);
    assert_eq!(event.sequence(), 1);
    assert!(matches!(event, OutboundEvent::RemoteTaskResult(_)));
}

#[test]
fn enabled_remote_task_executes_command() {
    let mut manager = RemoteTaskManager::new(RemoteTaskOptions { enabled: true });
    let config = AgentConfig::default().remote_task;
    let start =
        manager.start(task_request("task-ok", Some(Span::from_secs(5))), &config, 100).unwrap();
    let TaskStart::Run { request, timeout, max_stdout_bytes, .. } = start else {
        panic!("expected a run");
    };
    assert_eq!(timeout, Span::from_secs(5));
    let refused = manager.start(task_request("second", None), &config, 100).unwrap();
    assert!(matches!(
        refused,
        TaskStart::Refuse(result)
            if result.error.as_deref() == Some("remote task concurrency limit reached")
    ));

    let mut stdout = LimitedOutput::new(max_stdout_bytes);
    stdout.push(b"smalux-");
    stdout.push(b"task-ok");
    let result = task_result(
        request.task_id,
        TaskExit::Exited { success: true, code: Some(0) },
        stdout.finish(),
        OutputText::empty(),
        99,
        100,
        Span::from_millis(250),
    );
    assert_eq!(result.task_id, "task-ok");
    assert_eq!(result.status, RemoteTaskStatus::Success);
    assert_eq!(result.stdout, "smalux-task-ok");
    assert_eq!(result.duration_ms, 250);
    manager.release_slot();
    assert_eq!(manager.running, 0);
}

#[test]
fn task_requests_are_checked() {
    let mut manager = RemoteTaskManager::new(RemoteTaskOptions { enabled: true });
    let config = AgentConfig::default().remote_task;
    assert_eq!(
        manager.start(task_request(" ", None), &config, 1).unwrap_err(),
        "remote_task.task_id cannot be empty"
    );
    let mut request = task_request("a", None);
    request.program = String::new();
    assert_eq!(
        manager.start(request, &config, 1).unwrap_err(),
        "remote_task.program cannot be empty"
    );
    assert_eq!(manager.running, 0);
}

#[test]
fn long_output_keeps_its_start() {
    let mut output = LimitedOutput::new(5);
    output.push(b"abc");
    output.push(b"defg");
    output.push(b"h");
    assert_eq!(output.finish(), OutputText { text: "abcde".to_string(), truncated: true });
    let mut exact = LimitedOutput::new(3);
    exact.push(b"abc");
    assert!(!exact.finish().truncated);
    let mut broken = LimitedOutput::new(3);
    broken.push(b"a\xff");
    broken.fail();
    assert_eq!(broken.finish(), OutputText { text: "a\u{fffd}".to_string(), truncated: true });
    assert!(OutputText::lost().truncated);
}

#[test]
fn task_ends_have_results() {
    let end = |exit: TaskExit| {
        task_result(
            "t".to_string(),
            exit,
            OutputText::empty(),
            OutputText::empty(),
            1,
            2,
            Span::from_secs(1),
        )
    };
    let result = end(TaskExit::Exited { success: false, code: Some(3) });
    assert_eq!(result.status, RemoteTaskStatus::Failed);
    assert_eq!(result.exit_code, Some(3));
    let result = end(TaskExit::TimedOut { kill_error: Some("gone".to_string()) });
    assert_eq!(result.status, RemoteTaskStatus::TimedOut);
    assert!(result.timed_out);
    assert_eq!(result.error.as_deref(), Some("gone"));
    let result = end(TaskExit::NotStarted("no such file".to_string()));
    assert_eq!(result.status, RemoteTaskStatus::Failed);
    assert_eq!(result.error.as_deref(), Some("no such file"));
    let result = end(TaskExit::WaitFailed("lost".to_string()));
    assert_eq!(result.error.as_deref(), Some("lost"));
}

#[test]
fn job_results_are_wrapped() {
    let request = tcp_request("a", "127.0.0.1:1");
    let result = rejected_result(request, "run".to_string(), 5, "no".to_string());
    let wrapped = RemoteJobResult::probe(result);
    assert!(matches!(wrapped, RemoteJobResult::Probe(result) if result.run_id == "run"));
}

#[test]
fn lost_refusals_are_reported() {
    let event = || {
        OutboundEvent::BasicInfo(BasicInfoEnvelope { sequence: 1, created_at: 2, report: 3 })
    };
    assert_eq!(refused_result_sent(Ok(())), Ok(()));
    let closed = after_reserve(event(), RoomOutcome::Closed).map(|_| ());
    assert_eq!(
        refused_result_sent(closed),
        Err("outbound event send failed: outbound event queue is closed".to_string())
    );
    let late = after_reserve(event(), RoomOutcome::Elapsed).map(|_| ());
    assert_eq!(
        refused_result_sent(late),
        Err("outbound event send failed: outbound event queue send timed out".to_string())
    );
}
