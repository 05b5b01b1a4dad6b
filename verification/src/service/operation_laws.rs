//! What the loops and the managers of the service do on each occasion, whatever state they are in.

use crate::scheduler::time::Span;
use crate::service::bootstrap::{IdentityRetry, RetryAction};
use crate::service::clock::Moment;
use crate::service::collector::identity::{IdentityRefresh, RefreshAction};
use crate::service::collector::{
    law_wake_up_is_the_earliest_sample, law_wake_up_samples_and_moves_on, sample_due_groups,
    sampling_reachable, CollectorAction, CollectorCommand, CollectorState, DueMetricGroups, Sample,
    TelemetryUpdate,
};
use crate::service::config::{
    AgentConfig, ExportConfig, ExportFormat, RemoteProbeConfig, RemoteShellConfig, RemoteTaskConfig,
};
use crate::service::inbound::{
    command_name, ControlDispatcher, DispatchAction, InboundCommand, InboundCommandEnvelope,
    PendingResponse,
};
use crate::service::outbound::{Lane, OutboundEvent, OutboundReceiver, Polled, ReceiveStep};
use crate::service::patch::{config_after, AgentConfigPatch};
use crate::service::protocol::{RemoteJobApplyRequest, RemoteTaskStatus};
use crate::service::remote::job::apply_error;
use crate::service::remote::probe::{
    after_request, effective_timeout, refusal, request_error, ProbeRateState, ProbeStart,
    RemoteProbeExecutionRequest, RemoteProbeJobSpec,
};
use crate::service::remote::schedule::{
    JobWork, ProbeSchedulerState, ProbeWorker, RemoteJobManager, WorkerEffect, WorkerStep,
};
use crate::service::remote::schedule_laws::{
    defined_alike, last_of_its_identity, law_patch_removes_only_what_it_names,
    law_patch_stores_what_was_given, law_probes_are_compared_field_by_field,
    law_replacement_stores_what_was_given, removes, stored,
};
use crate::service::remote::shell::manager::RemoteShellManager;
use crate::service::remote::shell::message::{open_error, RemoteShellOpenRequest};
use crate::service::remote::shell::session::{RemoteShellSession, RemoteShellSessionPermit};
use crate::service::remote::shell::stream::{
    FrameNumbers, OutgoingFrame, RemoteShellFrame, SmaluxShellCodec,
};
use crate::service::remote::task::{task_error, RemoteTaskManager, RemoteTaskRunRequest, TaskStart};
use crate::service::reporter::{ReporterAction, ReporterCommand, ReporterState, ReporterTimers};
use vstd::prelude::*;

verus! {

/// Whether a snapshot may go out: none was requested before, or the configured distance to the
/// last one has passed.
pub open spec fn distance_kept(state: ReporterState, now: Moment) -> bool {
    match state.last_forced_snapshot_at {
        Some(last) => state.config.report.force_snapshot_min_interval.nanos == 0 || (last.nanos
            <= now.nanos && now.nanos - last.nanos
            >= state.config.report.force_snapshot_min_interval.nanos),
        None => true,
    }
}

/// A requested snapshot is queued at once where reports are switched on and the distance to the
/// last one is kept; else it stays requested. The latest reason counts.
pub proof fn law_requests_for_snapshots(
    state: &mut ReporterState,
    reason: Option<String>,
    now: Moment,
    action: ReporterAction,
)
    requires
        call_ensures(
            ReporterState::on_command,
            (state, Some(ReporterCommand::ForceSnapshot { reason }), now),
            action,
        ),
    ensures
        final(state).force_snapshot_pending,
        final(state).force_snapshot_reason == (if reason is Some {
            reason
        } else {
            old(state).force_snapshot_reason
        }),
        old(state).config.report.enabled && distance_kept(*old(state), now) ==> action == (
        ReporterAction::QueueSnapshot { reason: final(state).force_snapshot_reason }),
        !(old(state).config.report.enabled && distance_kept(*old(state), now)) ==> action
            == ReporterAction::Wait,
        final(state).config == old(state).config,
        final(state).last_forced_snapshot_at == old(state).last_forced_snapshot_at,
{
}

/// At its time the regular report is queued, unless a requested snapshot may take its place. A
/// look at the request queues the snapshot exactly where it may go out.
pub proof fn law_times_of_the_reporter(
    state: &mut ReporterState,
    looking: &mut ReporterState,
    now: Moment,
    reported: ReporterAction,
    looked: ReporterAction,
)
    requires
        call_ensures(ReporterState::on_report_tick, (state, now), reported),
        call_ensures(ReporterState::on_force_snapshot_tick, (looking, now), looked),
    ensures
        old(state).force_snapshot_pending && distance_kept(*old(state), now) ==> reported == (
        ReporterAction::QueueSnapshot { reason: old(state).force_snapshot_reason }),
        !(old(state).force_snapshot_pending && distance_kept(*old(state), now)) ==> reported
            == ReporterAction::QueueReport,
        old(looking).force_snapshot_pending && distance_kept(*old(looking), now) ==> looked == (
        ReporterAction::QueueSnapshot { reason: old(looking).force_snapshot_reason }),
        !(old(looking).force_snapshot_pending && distance_kept(*old(looking), now)) ==> looked
            == ReporterAction::Wait,
{
}

/// A snapshot that was queued is no longer requested and its moment is remembered; one that was
/// not stays requested. A sample is reported at once where reports are switched on.
pub proof fn law_results_of_the_reporter(
    state: &mut ReporterState,
    queued: bool,
    now: Moment,
    action: ReporterAction,
    sampled: &mut ReporterState,
    arrived: bool,
    follows: ReporterAction,
)
    requires
        call_ensures(ReporterState::on_snapshot_queued, (state, queued, now), action),
        call_ensures(ReporterState::on_update, (sampled, arrived), follows),
    ensures
        action == ReporterAction::Wait,
        queued ==> !final(state).force_snapshot_pending && final(state).last_forced_snapshot_at
            == Some(now) && final(state).force_snapshot_reason is None,
        !queued ==> final(state).force_snapshot_pending == old(state).force_snapshot_pending
            && final(state).last_forced_snapshot_at == old(state).last_forced_snapshot_at,
        arrived && old(sampled).config.report.enabled ==> follows == ReporterAction::QueueReport,
        !arrived || !old(sampled).config.report.enabled ==> follows == ReporterAction::Wait,
        final(sampled).updates_open == (old(sampled).updates_open && arrived),
{
}

/// The first basic information follows a sample where it is still wanted, is wanted again after a
/// change that concerns it, and was sent once it was queued. A closed queue ends the loop.
pub proof fn law_basic_information(
    state: &mut ReporterState,
    queued: Option<bool>,
    action: ReporterAction,
    changed: &mut ReporterState,
    config: AgentConfig,
    step: (ReporterTimers, ReporterAction),
    reported: &mut ReporterState,
    done: bool,
    next: ReporterAction,
)
    requires
        call_ensures(ReporterState::on_basic_info_queued, (state, queued), action),
        call_ensures(ReporterState::on_config, (changed, Some(config)), step),
        call_ensures(ReporterState::on_report_queued, (reported, done), next),
    ensures
        queued == Some(true) ==> final(state).basic_info_initial_sent,
        queued == Some(false) ==> final(state).basic_info_initial_sent == old(
            state,
        ).basic_info_initial_sent,
        queued is None <==> action == ReporterAction::Stop,
        final(changed).config == config,
        step.0.report <==> config.report.interval.nanos != old(
            changed,
        ).config.report.interval.nanos,
        step.0.basic_info <==> config.outbound.basic_info.refresh_interval.nanos != old(
            changed,
        ).config.outbound.basic_info.refresh_interval.nanos,
        config.export.format != old(changed).config.export.format && config.export.format
            == ExportFormat::Komari && config.outbound.basic_info.enabled
            && config.outbound.basic_info.send_on_start ==> step.1
            == ReporterAction::QueueBasicInfo,
        !done <==> next == ReporterAction::Stop,
{
}

/// Waking up samples the groups that are switched on and whose time has come, and nothing else.
/// Once the update was taken each of them moves past the present; the others stay.
pub proof fn law_wake_up_of_the_collector(
    state: &mut CollectorState,
    now: Moment,
    action: CollectorAction,
)
    requires
        call_ensures(CollectorState::on_wake, (state, now), action),
    ensures
        ({
            let config = old(state).config;
            let schedule = old(state).schedule;
            let core = config.core.enabled && schedule.core_next.nanos <= now.nanos;
            let disk = config.disk.enabled && schedule.disk_next.nanos <= now.nanos;
            let network = config.network.enabled && schedule.network_next.nanos <= now.nanos;
            let processes = config.processes.enabled && schedule.processes_next.nanos
                <= now.nanos;
            let sockets = config.sockets.enabled && schedule.sockets_next.nanos <= now.nanos;
            &&& action is Sample <==> core || disk || network || processes || sockets
            &&& action is Sample || action == CollectorAction::Wait
            &&& action matches CollectorAction::Sample(due) ==> due.core == core && due.disk
                == disk && due.network == network && due.processes == processes && due.sockets
                == sockets
            &&& action matches CollectorAction::Sample(due) ==> final(state).sampling == Some(due)
        }),
        final(state).schedule == old(state).schedule,
{
    law_wake_up_samples_and_moves_on(*old(state), now, now);
}

/// An update that nobody takes ends the collector. One that was taken moves only the groups that
/// were sampled.
pub proof fn law_published_updates(
    state: &mut CollectorState,
    taken: bool,
    now: Moment,
    action: CollectorAction,
)
    requires
        call_ensures(CollectorState::on_published, (state, taken, now), action),
    ensures
        action == CollectorAction::Stop <==> !taken,
        action == CollectorAction::Wait <==> taken,
        final(state).sampling is None,
        !taken || old(state).sampling is None ==> final(state).schedule == old(state).schedule,
        taken ==> (old(state).sampling matches Some(due) ==> {
            &&& !due.core ==> final(state).schedule.core_next == old(state).schedule.core_next
            &&& !due.disk ==> final(state).schedule.disk_next == old(state).schedule.disk_next
            &&& !due.network ==> final(state).schedule.network_next == old(
                state,
            ).schedule.network_next
            &&& !due.processes ==> final(state).schedule.processes_next == old(
                state,
            ).schedule.processes_next
            &&& !due.sockets ==> final(state).schedule.sockets_next == old(
                state,
            ).schedule.sockets_next
        }),
{
}

/// A command is carried out as it is; a new configuration is used from then on, every group one of
/// its intervals ahead.
pub proof fn law_orders_to_the_collector(
    state: &mut CollectorState,
    command: Option<CollectorCommand>,
    action: CollectorAction,
    changed: &mut CollectorState,
    config: AgentConfig,
    now: Moment,
)
    requires
        call_ensures(CollectorState::on_command, (state, command), action),
        sampling_reachable(config, now),
        call_ensures(CollectorState::on_config, (changed, Some(config), now), ()),
    ensures
        command matches Some(command) ==> action == CollectorAction::SampleOnce(command),
        command is None ==> action == CollectorAction::Wait && !final(state).commands_open,
        final(state).schedule == old(state).schedule,
        final(changed).config == config,
        final(changed).schedule.core_next.nanos == now.nanos + config.core.interval.nanos,
        final(changed).schedule.disk_next.nanos == now.nanos + config.disk.interval.nanos,
        final(changed).schedule.network_next.nanos == now.nanos + config.network.interval.nanos,
        final(changed).schedule.processes_next.nanos == now.nanos
            + config.processes.interval.nanos,
        final(changed).schedule.sockets_next.nanos == now.nanos + config.sockets.interval.nanos,
{
}

/// The wait for the public address follows the configuration, and so does its refresh.
pub proof fn law_configurations_of_the_identity(
    retry: &mut IdentityRetry,
    refresh: &mut IdentityRefresh,
    config: AgentConfig,
    waiting: RetryAction,
    refreshing: (bool, RefreshAction),
)
    requires
        call_ensures(IdentityRetry::on_config, (retry, Some(config)), waiting),
        call_ensures(IdentityRefresh::on_config, (refresh, Some(config)), refreshing),
    ensures
        final(retry).config == config && final(refresh).config == config,
        waiting is Finish <==> !(config.public_ip.enabled
            && config.public_ip.required_for_first_report),
        waiting is RestartTimer <==> config.public_ip.enabled
            && config.public_ip.required_for_first_report,
        refreshing.0 <==> config.public_ip.refresh_interval.nanos != old(
            refresh,
        ).config.public_ip.refresh_interval.nanos,
        old(refresh).config.public_ip.enabled != config.public_ip.enabled ==> refreshing.1
            is Sample,
        old(refresh).config.agent_id@ != config.agent_id@ ==> refreshing.1 is Sample,
        old(refresh).config == config ==> refreshing.1 is Wait,
{
}

/// Events of the priority lane go first, nothing that was taken off a lane is lost, and the end is
/// told only where both lanes are closed.
pub proof fn law_lanes_are_served(
    first: &mut OutboundReceiver,
    second: &mut OutboundReceiver,
    third: &mut OutboundReceiver,
    polled: Polled,
    lane: Lane,
    received: Option<OutboundEvent>,
    priority: ReceiveStep,
    normal: ReceiveStep,
    waited: ReceiveStep,
)
    requires
        call_ensures(OutboundReceiver::after_priority_poll, (first, polled), priority),
        call_ensures(OutboundReceiver::after_normal_poll, (second, polled), normal),
        call_ensures(OutboundReceiver::after_wait, (third, lane, received), waited),
    ensures
        polled matches Polled::Event(event) ==> priority == ReceiveStep::Deliver(event) && normal
            == ReceiveStep::Deliver(event),
        !(polled is Event) ==> priority == ReceiveStep::Poll(Lane::Normal),
        final(first).priority_closed == (old(first).priority_closed || polled is Disconnected),
        final(first).normal_closed == old(first).normal_closed,
        normal is Finished <==> !(polled is Event) && old(second).priority_closed && (old(
            second,
        ).normal_closed || polled is Disconnected),
        received matches Some(event) ==> waited == ReceiveStep::Deliver(event),
        received is None ==> waited == ReceiveStep::Poll(Lane::Priority),
        received is None && lane == Lane::Normal ==> final(third).normal_closed,
        received is None && lane == Lane::Priority ==> final(third).priority_closed,
{
}

/// The worker of a recurring probe runs it at once and then only after a sleep.
pub proof fn law_looks_of_a_worker(worker: &mut ProbeWorker, stopping: bool, step: WorkerStep)
    requires
        call_ensures(ProbeWorker::look, (worker, stopping), step),
    ensures
        step is Stop <==> stopping,
        step is Run <==> !stopping && old(worker).first_run,
        step is Sleep <==> !stopping && !old(worker).first_run,
        step is Run ==> !final(worker).first_run,
        !(step is Run) ==> final(worker).first_run == old(worker).first_run,
{
}

/// Two recurring probes count as the same exactly where they agree in everything, the target among
/// it.
pub proof fn law_same_probes(a: RemoteProbeJobSpec, b: RemoteProbeJobSpec, same: bool)
    requires
        call_ensures(RemoteProbeJobSpec::same, (&a, &b), same),
    ensures
        same <==> defined_alike(a, b),
        same ==> a.target@ == b.target@ && a.job_id@ == b.job_id@ && a.probe_type == b.probe_type
            && a.enabled == b.enabled && a.interval.nanos == b.interval.nanos,
{
    law_probes_are_compared_field_by_field(a, b);
}

/// Payloads of the agent's own wire format get numbers that follow each other; other messages get
/// none.
pub proof fn law_numbers_of_a_session(
    numbers: &mut FrameNumbers,
    frame: RemoteShellFrame,
    outgoing: OutgoingFrame,
)
    requires
        call_ensures(FrameNumbers::prepare, (numbers, frame), outgoing),
    ensures
        match frame {
            RemoteShellFrame::SmaluxWire(payload) => {
                &&& outgoing matches OutgoingFrame::Wire { sequence, body } && sequence == old(
                    numbers,
                ).next_sequence && body == payload
                &&& old(numbers).next_sequence < u64::MAX ==> final(numbers).next_sequence == old(
                    numbers,
                ).next_sequence + 1
            },
            RemoteShellFrame::Text(text) => outgoing == OutgoingFrame::Text(text) && *final(numbers)
                == *old(numbers),
            RemoteShellFrame::RawBinary(bytes) => outgoing == OutgoingFrame::RawBinary(bytes)
                && *final(numbers) == *old(numbers),
        },
{
}

/// A session opens exactly where sessions are switched on, the request is in order and a place is
/// free; it takes one place, which comes back when it ends.
pub proof fn law_places_of_sessions(
    manager: &mut RemoteShellManager,
    request: RemoteShellOpenRequest,
    export: ExportConfig,
    limits: RemoteShellConfig,
    codec: SmaluxShellCodec,
    opened: Result<RemoteShellSession, String>,
    ending: &mut RemoteShellManager,
    permit: RemoteShellSessionPermit,
)
    requires
        call_ensures(
            RemoteShellManager::open::<SmaluxShellCodec>,
            (manager, request, &export, &limits, &codec),
            opened,
        ),
        old(ending).active_sessions > 0,
        call_ensures(RemoteShellManager::release, (ending, permit), ()),
    ensures
        opened is Ok <==> old(manager).options.enabled && open_error(request) is None && old(
            manager,
        ).active_sessions < limits.max_sessions,
        opened is Ok ==> final(manager).active_sessions == old(manager).active_sessions + 1,
        opened is Err ==> final(manager).active_sessions == old(manager).active_sessions,
        opened matches Ok(session) ==> session.request == request && session.shell_config
            == limits && session.stream_config.url@ == request.stream_url@,
        final(ending).active_sessions == old(ending).active_sessions - 1,
{
}

/// A task runs exactly where its request is in order, tasks are switched on and a place is free;
/// else it is refused without taking a place.
pub proof fn law_places_of_tasks(
    manager: &mut RemoteTaskManager,
    request: RemoteTaskRunRequest,
    config: RemoteTaskConfig,
    at: u64,
    start: Result<TaskStart, String>,
    ending: &mut RemoteTaskManager,
)
    requires
        call_ensures(RemoteTaskManager::start, (manager, request, &config, at), start),
        old(ending).running > 0,
        call_ensures(RemoteTaskManager::release_slot, (ending,), ()),
    ensures
        start is Err <==> task_error(request) is Some,
        ({
            let runs = task_error(request) is None && old(manager).options.enabled && old(
                manager,
            ).running < config.max_concurrent;
            &&& runs ==> start->Ok_0 is Run && final(manager).running == old(manager).running + 1
            &&& !runs ==> final(manager).running == old(manager).running
            &&& start is Ok && !runs ==> start->Ok_0 is Refuse
        }),
        start matches Ok(TaskStart::Run { request: accepted, timeout, .. }) ==> accepted == request
            && timeout.nanos <= config.timeout.nanos,
        start matches Ok(TaskStart::Refuse(result)) ==> result.task_id == request.task_id
            && result.status == RemoteTaskStatus::Rejected && result.error is Some,
        final(ending).running == old(ending).running - 1,
{
}

/// A probe whose request is in order runs exactly where it is not refused, and what is remembered
/// of it is the same whether it was asked for once or belongs to a recurring probe.
pub proof fn law_probes_are_started(
    rate: &mut ProbeRateState,
    request: RemoteProbeExecutionRequest,
    config: RemoteProbeConfig,
    now: Moment,
    start: Result<ProbeStart, String>,
    recurring: &mut ProbeRateState,
    spec: RemoteProbeJobSpec,
    run: Option<(RemoteProbeExecutionRequest, Span)>,
)
    requires
        call_ensures(ProbeRateState::start_once, (rate, &request, &config, now), start),
        call_ensures(ProbeRateState::start_job, (recurring, &spec, &config, now), run),
    ensures
        start is Err <==> request_error(request) is Some,
        start is Err ==> final(rate)@ == old(rate)@,
        start matches Ok(ProbeStart::Run { timeout }) ==> refusal(
            old(rate)@,
            request,
            config,
            now,
        ) is None && timeout == effective_timeout(request.timeout, config.timeout),
        start matches Ok(ProbeStart::Refuse(_)) ==> refusal(old(rate)@, request, config, now)
            is Some,
        start is Ok ==> final(rate)@ == after_request(old(rate)@, request, config, now),
        run matches Some((probe, limit)) ==> refusal(old(recurring)@, probe, config, now) is None
            && probe.target == spec.target && probe.probe_type == spec.probe_type && probe.job_id
            == Some(spec.job_id) && limit.nanos <= config.timeout.nanos,
{
}

/// A request for jobs is refused as a whole where something is wrong with it; then nothing
/// changes.
pub proof fn law_job_requests_are_all_or_nothing(
    manager: &mut RemoteJobManager,
    request: RemoteJobApplyRequest,
    work: Result<JobWork, String>,
)
    requires
        call_ensures(RemoteJobManager::submit, (manager, request), work),
    ensures
        work is Ok <==> apply_error(request) is None,
        work is Err ==> *final(manager) == *old(manager),
        final(manager).probe.rate_state == old(manager).probe.rate_state,
{
}

/// A change of the configuration takes what it names and leaves the identity of the agent.
pub proof fn law_changes_are_carried_out(config: &mut AgentConfig, patch: AgentConfigPatch)
    requires
        call_ensures(AgentConfigPatch::apply_to, (&patch, config), ()),
    ensures
        final(config).agent_id == old(config).agent_id,
        final(config).core == config_after(*old(config), patch).core,
        final(config).disk == config_after(*old(config), patch).disk,
        final(config).processes == config_after(*old(config), patch).processes,
        final(config).sockets == config_after(*old(config), patch).sockets,
        final(config).public_ip == config_after(*old(config), patch).public_ip,
        final(config).report == config_after(*old(config), patch).report,
        final(config).outbound == config_after(*old(config), patch).outbound,
        final(config).export == config_after(*old(config), patch).export,
        final(config).remote_shell == config_after(*old(config), patch).remote_shell,
        final(config).remote_task == config_after(*old(config), patch).remote_task,
        final(config).remote_probe == config_after(*old(config), patch).remote_probe,
        final(config).network.enabled == config_after(*old(config), patch).network.enabled,
        final(config).network.interval == config_after(*old(config), patch).network.interval,
        final(config).network.include_interfaces@.len() == config_after(
            *old(config),
            patch,
        ).network.include_interfaces@.len(),
{
}

/// Where nothing is configured the agent samples and reports everything in brief, waits for no
/// public address, and runs neither probes nor more than one task or session at a time.
pub proof fn law_default_configuration(config: AgentConfig)
    requires
        call_ensures(AgentConfig::default, (), config),
    ensures
        config.core.enabled && config.disk.enabled && config.network.enabled,
        config.processes.enabled && config.sockets.enabled,
        config.processes.level is Count && config.sockets.level is Count,
        config.processes.limit == 20 && config.sockets.limit == 20,
        config.core.interval.nanos == 1_000_000_000,
        config.disk.interval.nanos == 10_000_000_000,
        config.network.interval.nanos == 1_000_000_000,
        config.processes.interval.nanos == 10_000_000_000,
        config.sockets.interval.nanos == 10_000_000_000,
        config.report.enabled && config.report.interval.nanos == 1_000_000_000,
        config.report.force_snapshot_min_interval.nanos == 5_000_000_000,
        config.public_ip.enabled && !config.public_ip.required_for_first_report,
        config.public_ip.retry_interval.nanos == 10_000_000_000,
        config.public_ip.refresh_interval.nanos == 1_800_000_000_000,
        config.public_ip.lookup_timeout.nanos == 5_000_000_000,
        config.public_ip.max_concurrency == 3,
        config.outbound.basic_info.enabled && config.outbound.basic_info.send_on_start,
        config.outbound.basic_info.refresh_interval.nanos == 300_000_000_000,
        config.outbound.realtime_report.enabled && config.outbound.realtime_report.send_on_start,
        config.export.format is SmaluxJson && config.export.token is None,
        !config.export.unsafe_cert,
        config.export.heartbeat.nanos == 30_000_000_000,
        config.export.reconnect_interval.nanos == 5_000_000_000,
        config.remote_shell.max_sessions == 1 && config.remote_task.max_concurrent == 1,
        config.remote_shell.idle_timeout.nanos == 600_000_000_000,
        config.remote_shell.session_timeout.nanos == 3_600_000_000_000,
        config.remote_task.timeout.nanos == 60_000_000_000,
        config.remote_task.max_stdout_bytes == 65536 && config.remote_task.max_stderr_bytes
            == 65536,
        !config.remote_probe.enabled,
        config.remote_probe.timeout.nanos == 3_000_000_000,
        config.remote_probe.global_min_interval.nanos == 100_000_000,
        config.remote_probe.target_min_interval.nanos == 1_000_000_000,
{
}

/// A change that names nothing leaves every value.
pub proof fn law_empty_change(patch: AgentConfigPatch, config: &mut AgentConfig)
    requires
        call_ensures(AgentConfigPatch::default, (), patch),
        call_ensures(AgentConfigPatch::apply_to, (&patch, config), ()),
    ensures
        *final(config) == (AgentConfig { network: final(config).network, ..*old(config) }),
        final(config).network.enabled == old(config).network.enabled,
        final(config).network.interval == old(config).network.interval,
{
}

/// A replacement that is not out of date stores exactly the given probes, in order, and runs those
/// that are switched on. One that is out of date does nothing.
pub proof fn law_replacements_are_carried_out(
    scheduler: &mut ProbeSchedulerState,
    generation: u64,
    specs: Vec<RemoteProbeJobSpec>,
    effects: Vec<WorkerEffect>,
)
    requires
        call_ensures(ProbeSchedulerState::apply_replace, (scheduler, generation, specs), effects),
    ensures
        ({
            let late = old(scheduler).generation is Some && generation < old(
                scheduler,
            ).generation->0;
            &&& late ==> *final(scheduler) == *old(scheduler) && effects@.len() == 0
            &&& !late ==> {
                &&& final(scheduler).generation == Some(generation)
                &&& final(scheduler).jobs@.len() == specs@.len()
                &&& forall|k: int|
                    0 <= k < specs@.len() ==> (#[trigger] final(scheduler).jobs@[k]).spec
                        == specs@[k] && final(scheduler).jobs@[k].running == specs@[k].enabled
            }
        }),
{
    law_replacement_stores_what_was_given(old(scheduler).jobs@, specs@);
}

/// A patch that is not out of date stores the probes that it gives and removes those that it names;
/// the others stay. One that is out of date does nothing.
pub proof fn law_patches_are_carried_out(
    scheduler: &mut ProbeSchedulerState,
    generation: u64,
    specs: Vec<RemoteProbeJobSpec>,
    ids: Vec<String>,
    effects: Vec<WorkerEffect>,
    k: int,
    id: Seq<char>,
)
    requires
        old(scheduler).wf(),
        call_ensures(
            ProbeSchedulerState::apply_patch,
            (scheduler, generation, specs, ids),
            effects,
        ),
        0 <= k < specs@.len(),
        last_of_its_identity(specs@, k),
        forall|j: int| 0 <= j < specs@.len() ==> (#[trigger] specs@[j]).job_id@ != id,
    ensures
        ({
            let late = old(scheduler).generation is Some && generation < old(
                scheduler,
            ).generation->0;
            let kept = stored(final(scheduler).jobs@, specs@[k].job_id@);
            let other = stored(final(scheduler).jobs@, id);
            &&& late ==> *final(scheduler) == *old(scheduler) && effects@.len() == 0
            &&& !late ==> {
                &&& final(scheduler).generation == Some(generation)
                &&& kept is Some && defined_alike(kept->0.spec, specs@[k]) && kept->0.running
                    == specs@[k].enabled
                &&& removes(ids@, id) ==> other is None
                &&& !removes(ids@, id) ==> (other is Some <==> stored(old(scheduler).jobs@, id)
                    is Some)
                &&& !removes(ids@, id) && other is Some ==> other->0.spec == stored(
                    old(scheduler).jobs@,
                    id,
                )->0.spec
            }
        }),
{
    law_patch_stores_what_was_given(old(scheduler).jobs@, ids@, specs@, k);
    law_patch_removes_only_what_it_names(old(scheduler).jobs@, ids@, specs@, id);
}

/// A command leads to what it asks for or to the reason why not: a snapshot where reports are
/// switched on, a change of the configuration as it is, jobs where nothing is wrong with them. The
/// permissions of the server never change.
pub proof fn law_commands_are_dispatched(
    dispatcher: &mut ControlDispatcher,
    command: InboundCommand<SmaluxShellCodec>,
    config: AgentConfig,
    checked: Result<(), String>,
    at: u64,
    now: Moment,
    result: Result<DispatchAction<SmaluxShellCodec>, String>,
)
    requires
        call_ensures(
            ControlDispatcher::dispatch_command::<SmaluxShellCodec>,
            (dispatcher, command, &config, checked, at, now),
            result,
        ),
    ensures
        final(dispatcher).diagnostics == old(dispatcher).diagnostics,
        match command {
            InboundCommand::SnapshotRequest { reason } => {
                &&& result is Ok <==> config.report.enabled
                &&& result matches Ok(action) ==> action == DispatchAction::<
                    SmaluxShellCodec,
                >::Report(ReporterCommand::ForceSnapshot { reason })
            },
            InboundCommand::ConfigPatch { patch } => result matches Ok(action) ==> action
                == DispatchAction::<SmaluxShellCodec>::ApplyPatch(patch),
            InboundCommand::CollectProcessesOnce { level, limit } => {
                &&& result is Ok ==> checked is Ok
                &&& result matches Ok(action) ==> match action {
                    DispatchAction::Collect(
                        CollectorCommand::SampleProcessesOnce { level: asked, limit: most },
                    ) => (level is Some ==> asked == level->0) && (limit is Some ==> most
                        == limit->0),
                    _ => false,
                }
            },
            InboundCommand::CollectSocketsOnce { level, limit } => {
                &&& result is Ok ==> checked is Ok
                &&& result matches Ok(action) ==> match action {
                    DispatchAction::Collect(
                        CollectorCommand::SampleSocketsOnce { level: asked, limit: most },
                    ) => (level is Some ==> asked == level->0) && (limit is Some ==> most
                        == limit->0),
                    _ => false,
                }
            },
            InboundCommand::JobApply { request } => result is Ok <==> apply_error(request)
                is None,
            InboundCommand::RemoteTaskRun { request } => result is Ok <==> task_error(request)
                is None,
            InboundCommand::RemoteProbeRun { request } => result is Ok <==> request_error(request)
                is None,
            InboundCommand::RemoteShellOpen { request, .. } => result is Ok <==> old(
                dispatcher,
            ).remote_shell.options.enabled && open_error(request) is None && old(
                dispatcher,
            ).remote_shell.active_sessions < config.remote_shell.max_sessions,
        },
{
}

/// A command is answered under its own number, with a confirmation exactly where it succeeded; one
/// without a number is not answered.
pub proof fn law_commands_are_answered(
    pending: PendingResponse,
    outcome: Result<(), String>,
    agent_id: String,
    sequence: u64,
    created_at: u64,
    response: Option<OutboundEvent>,
)
    requires
        call_ensures(
            PendingResponse::queue_control_response,
            (&pending, &outcome, &agent_id, sequence, created_at),
            response,
        ),
    ensures
        response is Some <==> pending.meta is Some,
        match response {
            Some(OutboundEvent::ControlAck(answer)) => {
                &&& outcome is Ok
                &&& answer.ack.sequence == pending.meta->0.sequence
                &&& answer.sequence == sequence
                &&& answer.agent_id == agent_id && answer.created_at == created_at
            },
            Some(OutboundEvent::ControlError(answer)) => {
                &&& outcome is Err
                &&& answer.error.sequence == Some(pending.meta->0.sequence)
                &&& answer.error.message@ == outcome->Err_0@
                &&& answer.sequence == sequence
                &&& answer.agent_id == agent_id && answer.created_at == created_at
            },
            Some(_) => false,
            None => true,
        },
{
}

/// The reporter ends when it is told to, and when nobody is left to tell it. It begins with basic
/// information where that is wanted at once, and queues it whenever its time comes.
pub proof fn law_beginning_and_end_of_the_reporter(
    state: &mut ReporterState,
    gone: bool,
    requested: bool,
    action: ReporterAction,
    config: AgentConfig,
    started: (ReporterState, ReporterAction),
    due: &mut ReporterState,
    regular: ReporterAction,
)
    requires
        call_ensures(ReporterState::on_shutdown, (state, gone, requested), action),
        call_ensures(ReporterState::start, (config,), started),
        call_ensures(ReporterState::on_basic_info_tick, (due,), regular),
    ensures
        action == ReporterAction::Stop <==> gone || requested,
        action == ReporterAction::Wait <==> !gone && !requested,
        started.0.config == config && !started.0.force_snapshot_pending,
        started.0.config_open && started.0.updates_open && started.0.commands_open,
        started.1 == ReporterAction::QueueBasicInfo <==> config.outbound.basic_info.enabled
            && config.outbound.basic_info.send_on_start && config.export.format
            == ExportFormat::Komari,
        regular == ReporterAction::QueueBasicInfo,
{
}

/// Sample that an update of one group carries.
pub open spec fn carried(update: TelemetryUpdate) -> Option<Sample> {
    match update {
        TelemetryUpdate::Core(sample) => Some(sample),
        TelemetryUpdate::Disk(sample) => Some(sample),
        TelemetryUpdate::Network(sample) => Some(sample),
        TelemetryUpdate::Processes(sample) => Some(sample),
        TelemetryUpdate::Sockets(sample) => Some(sample),
        TelemetryUpdate::IdentityRefresh(sample) => Some(sample),
        TelemetryUpdate::Batch(_) => None,
    }
}

/// All samples of a wake-up go out together, in order and each under its own group; a single one
/// goes out alone, and without samples nothing does.
pub proof fn law_samples_go_out_together(
    due: DueMetricGroups,
    samples: Vec<Sample>,
    update: Option<TelemetryUpdate>,
)
    requires
        samples@.len() == due.size(),
        call_ensures(sample_due_groups, (due, &samples), update),
    ensures
        update is None <==> samples@.len() == 0,
        samples@.len() == 1 ==> carried(update->0) == Some(samples@[0]),
        samples@.len() == 1 && due.core ==> update->0 is Core,
        samples@.len() == 1 && due.disk ==> update->0 is Disk,
        samples@.len() == 1 && due.network ==> update->0 is Network,
        samples@.len() == 1 && due.processes ==> update->0 is Processes,
        samples@.len() == 1 && due.sockets ==> update->0 is Sockets,
        samples@.len() > 1 ==> match update {
            Some(TelemetryUpdate::Batch(batch)) => {
                &&& batch@.len() == samples@.len()
                &&& forall|i: int|
                    0 <= i < samples@.len() ==> carried(#[trigger] batch@[i]) == Some(samples@[i])
            },
            _ => false,
        },
{
}

/// The collector wakes up for the earliest sample of the groups that are switched on, and not at
/// all where none is.
pub proof fn law_collector_wakes_up_for_the_earliest_sample(
    state: CollectorState,
    now: Moment,
    wake: Option<Moment>,
)
    requires
        call_ensures(CollectorState::wake_at, (&state, now), wake),
    ensures
        wake is None <==> !(state.config.core.enabled || state.config.disk.enabled
            || state.config.network.enabled || state.config.processes.enabled
            || state.config.sockets.enabled),
        wake matches Some(wake) ==> {
            &&& state.config.core.enabled ==> wake.nanos <= state.schedule.core_next.nanos
            &&& state.config.disk.enabled ==> wake.nanos <= state.schedule.disk_next.nanos
            &&& state.config.network.enabled ==> wake.nanos <= state.schedule.network_next.nanos
            &&& state.config.processes.enabled ==> wake.nanos
                <= state.schedule.processes_next.nanos
            &&& state.config.sockets.enabled ==> wake.nanos <= state.schedule.sockets_next.nanos
            &&& {
                ||| state.config.core.enabled && wake == state.schedule.core_next
                ||| state.config.disk.enabled && wake == state.schedule.disk_next
                ||| state.config.network.enabled && wake == state.schedule.network_next
                ||| state.config.processes.enabled && wake == state.schedule.processes_next
                ||| state.config.sockets.enabled && wake == state.schedule.sockets_next
            }
        },
{
    law_wake_up_is_the_earliest_sample(state.schedule, state.config);
}

/// A command owes its answer to the number that it came with, under its own name.
pub proof fn law_answers_are_owed_to_the_command(
    dispatcher: &mut ControlDispatcher,
    envelope: InboundCommandEnvelope<SmaluxShellCodec>,
    config: AgentConfig,
    checked: Result<(), String>,
    at: u64,
    now: Moment,
    dispatch: (PendingResponse, Result<DispatchAction<SmaluxShellCodec>, String>),
)
    requires
        call_ensures(
            ControlDispatcher::dispatch::<SmaluxShellCodec>,
            (dispatcher, envelope, &config, checked, at, now),
            dispatch,
        ),
    ensures
        dispatch.0.meta == envelope.meta,
        dispatch.0.command_name@ == command_name(envelope.command),
        final(dispatcher).diagnostics == old(dispatcher).diagnostics,
        envelope.command is SnapshotRequest ==> (dispatch.1 is Ok <==> config.report.enabled),
{
}

/// The clock reaches what it can show, moves by exactly the given span, and measures what passed.
pub proof fn law_clock_measures_what_passed(
    moment: Moment,
    span: Span,
    reaches: bool,
    ahead: Moment,
    passed: Span,
)
    requires
        call_ensures(Moment::reaches, (moment, span), reaches),
        reaches,
        call_ensures(Moment::after, (moment, span), ahead),
        call_ensures(Moment::since, (ahead, moment), passed),
    ensures
        ahead.nanos == moment.nanos + span.nanos,
        passed.nanos == span.nanos,
{
}

} // verus!
