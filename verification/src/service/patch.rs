//! Changes of the configuration that the server asks for.

use crate::scheduler::time::Span;
use crate::service::config::{
    same_network, AgentConfig, BasicInfoConfig, CoreConfig, DetailConfig, DiskConfig, ExportConfig,
    ExportFormat, MetricLevel, NetworkConfig, OutboundConfig, PublicIpConfig, RealtimeReportConfig,
    RemoteProbeConfig, RemoteShellConfig, RemoteTaskConfig, ReportConfig,
};
use vstd::prelude::*;

verus! {

/// Change of a metric group. Absent values stay as they are.
#[derive(Debug, Clone, Copy, PartialEq, Eq, Structural)]
pub struct GroupConfigPatch {
    /// Whether the group is sampled.
    pub enabled: Option<bool>,
    /// Time between two samples.
    pub interval: Option<Span>,
}

impl Default for GroupConfigPatch {
    /// Nothing changes.
    fn default() -> (patch: Self)
        ensures
            patch == (GroupConfigPatch { enabled: None, interval: None }),
    {
        GroupConfigPatch { enabled: None, interval: None }
    }
}

/// Change of the disk metrics. Absent values stay as they are.
#[derive(Debug, Clone, Copy, PartialEq, Eq, Structural)]
pub struct DiskConfigPatch {
    /// Whether the group is sampled.
    pub enabled: Option<bool>,
    /// Time between two samples.
    pub interval: Option<Span>,
    /// Whether samples list every device.
    pub include_per_device: Option<bool>,
}

impl Default for DiskConfigPatch {
    /// Nothing changes.
    fn default() -> (patch: Self)
        ensures
            patch == (DiskConfigPatch {
                enabled: None,
                interval: None,
                include_per_device: None,
            }),
    {
        DiskConfigPatch {
            enabled: None,
            interval: None,
            include_per_device: None,
        }
    }
}

/// Change of the network metrics. Absent values stay as they are.
#[derive(Debug, Clone, PartialEq, Eq)]
pub struct NetworkConfigPatch {
    /// Whether the group is sampled.
    pub enabled: Option<bool>,
    /// Time between two samples.
    pub interval: Option<Span>,
    /// Whether samples list every interface.
    pub include_per_interface: Option<bool>,
    /// Interfaces to sample; all where empty.
    pub include_interfaces: Option<Vec<String>>,
    /// Interfaces to leave out.
    pub exclude_interfaces: Option<Vec<String>>,
}

impl Default for NetworkConfigPatch {
    /// Nothing changes.
    fn default() -> (patch: Self)
        ensures
            patch == (NetworkConfigPatch {
                enabled: None,
                interval: None,
                include_per_interface: None,
                include_interfaces: None,
                exclude_interfaces: None,
            }),
    {
        NetworkConfigPatch {
            enabled: None,
            interval: None,
            include_per_interface: None,
            include_interfaces: None,
            exclude_interfaces: None,
        }
    }
}

/// Change of the process or socket metrics. Absent values stay as they are.
#[derive(Debug, Clone, Copy, PartialEq, Eq, Structural)]
pub struct DetailConfigPatch {
    /// Whether the group is sampled.
    pub enabled: Option<bool>,
    /// Time between two samples.
    pub interval: Option<Span>,
    /// Amount of detail.
    pub level: Option<MetricLevel>,
    /// Largest number of listed items.
    pub limit: Option<usize>,
}

impl Default for DetailConfigPatch {
    /// Nothing changes.
    fn default() -> (patch: Self)
        ensures
            patch == (DetailConfigPatch {
                enabled: None,
                interval: None,
                level: None,
                limit: None,
            }),
    {
        DetailConfigPatch {
            enabled: None,
            interval: None,
            level: None,
            limit: None,
        }
    }
}

/// Change of the lookup of the public address. Absent values stay as they are.
#[derive(Debug, Clone, Copy, PartialEq, Eq, Structural)]
pub struct PublicIpConfigPatch {
    /// Whether the address is looked up.
    pub enabled: Option<bool>,
    /// Whether the first report waits for the address.
    pub required_for_first_report: Option<bool>,
    /// Time between two lookups while the first report waits.
    pub retry_interval: Option<Span>,
    /// Time between two lookups afterwards.
    pub refresh_interval: Option<Span>,
    /// Whether an address of a local interface is preferred.
    pub prefer_interface_candidate: Option<bool>,
    /// Whether such an address is verified by an outside service.
    pub verify_interface_candidate: Option<bool>,
    /// Time limit of one lookup.
    pub lookup_timeout: Option<Span>,
    /// Largest number of outside services asked at once.
    pub max_concurrency: Option<usize>,
}

impl Default for PublicIpConfigPatch {
    /// Nothing changes.
    fn default() -> (patch: Self)
        ensures
            patch == (PublicIpConfigPatch {
                enabled: None,
                required_for_first_report: None,
                retry_interval: None,
                refresh_interval: None,
                prefer_interface_candidate: None,
                verify_interface_candidate: None,
                lookup_timeout: None,
                max_concurrency: None,
            }),
    {
        PublicIpConfigPatch {
            enabled: None,
            required_for_first_report: None,
            retry_interval: None,
            refresh_interval: None,
            prefer_interface_candidate: None,
            verify_interface_candidate: None,
            lookup_timeout: None,
            max_concurrency: None,
        }
    }
}

/// Change of the assembly of reports. Absent values stay as they are.
#[derive(Debug, Clone, Copy, PartialEq, Eq, Structural)]
pub struct ReportConfigPatch {
    /// Whether reports are sent.
    pub enabled: Option<bool>,
    /// Time between two reports.
    pub interval: Option<Span>,
    /// Shortest time between two requested snapshots.
    pub force_snapshot_min_interval: Option<Span>,
}

impl Default for ReportConfigPatch {
    /// Nothing changes.
    fn default() -> (patch: Self)
        ensures
            patch == (ReportConfigPatch {
                enabled: None,
                interval: None,
                force_snapshot_min_interval: None,
            }),
    {
        ReportConfigPatch {
            enabled: None,
            interval: None,
            force_snapshot_min_interval: None,
        }
    }
}

/// Change of the low frequency basic information. Absent values stay as they are.
#[derive(Debug, Clone, Copy, PartialEq, Eq, Structural)]
pub struct BasicInfoConfigPatch {
    /// Whether basic information is sent.
    pub enabled: Option<bool>,
    /// Whether it is sent as soon as the agent is ready.
    pub send_on_start: Option<bool>,
    /// Time between two messages.
    pub refresh_interval: Option<Span>,
}

impl Default for BasicInfoConfigPatch {
    /// Nothing changes.
    fn default() -> (patch: Self)
        ensures
            patch == (BasicInfoConfigPatch {
                enabled: None,
                send_on_start: None,
                refresh_interval: None,
            }),
    {
        BasicInfoConfigPatch {
            enabled: None,
            send_on_start: None,
            refresh_interval: None,
        }
    }
}

/// Change of the reports on the main connection. Absent values stay as they are.
#[derive(Debug, Clone, Copy, PartialEq, Eq, Structural)]
pub struct RealtimeReportConfigPatch {
    /// Whether reports are delivered.
    pub enabled: Option<bool>,
    /// Whether the report at hand is delivered at once.
    pub send_on_start: Option<bool>,
}

impl Default for RealtimeReportConfigPatch {
    /// Nothing changes.
    fn default() -> (patch: Self)
        ensures
            patch == (RealtimeReportConfigPatch { enabled: None, send_on_start: None }),
    {
        RealtimeReportConfigPatch { enabled: None, send_on_start: None }
    }
}

/// Change of the connection to the server. Absent values stay as they are.
#[derive(Debug, Clone, PartialEq, Eq)]
pub struct ExportConfigPatch {
    /// Message format.
    pub format: Option<ExportFormat>,
    /// Address of the server.
    pub base_url: Option<String>,
    /// Access token.
    pub token: Option<String>,
    /// Whether certificates that cannot be verified are accepted.
    pub unsafe_cert: Option<bool>,
    /// Time between two keep-alive messages.
    pub heartbeat: Option<Span>,
    /// Pause before a new connection.
    pub reconnect_interval: Option<Span>,
}

impl Default for ExportConfigPatch {
    /// Nothing changes.
    fn default() -> (patch: Self)
        ensures
            patch == (ExportConfigPatch {
                format: None,
                base_url: None,
                token: None,
                unsafe_cert: None,
                heartbeat: None,
                reconnect_interval: None,
            }),
    {
        ExportConfigPatch {
            format: None,
            base_url: None,
            token: None,
            unsafe_cert: None,
            heartbeat: None,
            reconnect_interval: None,
        }
    }
}

/// Change of the limits of interactive sessions. Absent values stay as they are.
#[derive(Debug, Clone, PartialEq, Eq)]
pub struct RemoteShellConfigPatch {
    /// Largest number of sessions at a time.
    pub max_sessions: Option<usize>,
    /// Longest time without input or output.
    pub idle_timeout: Option<Span>,
    /// Longest duration of a session.
    pub session_timeout: Option<Span>,
    /// Program to run.
    pub program: Option<String>,
}

impl Default for RemoteShellConfigPatch {
    /// Nothing changes.
    fn default() -> (patch: Self)
        ensures
            patch == (RemoteShellConfigPatch {
                max_sessions: None,
                idle_timeout: None,
                session_timeout: None,
                program: None,
            }),
    {
        RemoteShellConfigPatch {
            max_sessions: None,
            idle_timeout: None,
            session_timeout: None,
            program: None,
        }
    }
}

/// Change of the limits of remote tasks. Absent values stay as they are.
#[derive(Debug, Clone, Copy, PartialEq, Eq, Structural)]
pub struct RemoteTaskConfigPatch {
    /// Largest number of tasks at a time.
    pub max_concurrent: Option<usize>,
    /// Time limit of one task.
    pub timeout: Option<Span>,
    /// Largest kept standard output, in bytes.
    pub max_stdout_bytes: Option<usize>,
    /// Largest kept error output, in bytes.
    pub max_stderr_bytes: Option<usize>,
}

impl Default for RemoteTaskConfigPatch {
    /// Nothing changes.
    fn default() -> (patch: Self)
        ensures
            patch == (RemoteTaskConfigPatch {
                max_concurrent: None,
                timeout: None,
                max_stdout_bytes: None,
                max_stderr_bytes: None,
            }),
    {
        RemoteTaskConfigPatch {
            max_concurrent: None,
            timeout: None,
            max_stdout_bytes: None,
            max_stderr_bytes: None,
        }
    }
}

/// Change of the limits of remote probes. Absent values stay as they are.
#[derive(Debug, Clone, Copy, PartialEq, Eq, Structural)]
pub struct RemoteProbeConfigPatch {
    /// Whether probes are run.
    pub enabled: Option<bool>,
    /// Time limit of one probe.
    pub timeout: Option<Span>,
    /// Shortest time between two probes.
    pub global_min_interval: Option<Span>,
    /// Shortest time between two probes of one target.
    pub target_min_interval: Option<Span>,
}

impl Default for RemoteProbeConfigPatch {
    /// Nothing changes.
    fn default() -> (patch: Self)
        ensures
            patch == (RemoteProbeConfigPatch {
                enabled: None,
                timeout: None,
                global_min_interval: None,
                target_min_interval: None,
            }),
    {
        RemoteProbeConfigPatch {
            enabled: None,
            timeout: None,
            global_min_interval: None,
            target_min_interval: None,
        }
    }
}

/// Change of the configuration. Absent values stay as they are.
#[derive(Debug, Clone, PartialEq, Eq)]
pub struct AgentConfigPatch {
    /// Core metrics.
    pub core: Option<GroupConfigPatch>,
    /// Disk metrics.
    pub disk: Option<DiskConfigPatch>,
    /// Network metrics.
    pub network: Option<NetworkConfigPatch>,
    /// Process metrics.
    pub processes: Option<DetailConfigPatch>,
    /// Socket metrics.
    pub sockets: Option<DetailConfigPatch>,
    /// Public address.
    pub public_ip: Option<PublicIpConfigPatch>,
    /// Reports.
    pub report: Option<ReportConfigPatch>,
    /// Basic information.
    pub basic_info: Option<BasicInfoConfigPatch>,
    /// Reports on the main connection.
    pub realtime_report: Option<RealtimeReportConfigPatch>,
    /// Connection to the server.
    pub export: Option<ExportConfigPatch>,
    /// Interactive sessions.
    pub remote_shell: Option<RemoteShellConfigPatch>,
    /// Remote tasks.
    pub remote_task: Option<RemoteTaskConfigPatch>,
    /// Remote probes.
    pub remote_probe: Option<RemoteProbeConfigPatch>,
}

impl Default for AgentConfigPatch {
    /// Nothing changes.
    fn default() -> (patch: Self)
        ensures
            patch == (AgentConfigPatch {
                core: None,
                disk: None,
                network: None,
                processes: None,
                sockets: None,
                public_ip: None,
                report: None,
                basic_info: None,
                realtime_report: None,
                export: None,
                remote_shell: None,
                remote_task: None,
                remote_probe: None,
            }),
    {
        AgentConfigPatch {
            core: None,
            disk: None,
            network: None,
            processes: None,
            sockets: None,
            public_ip: None,
            report: None,
            basic_info: None,
            realtime_report: None,
            export: None,
            remote_shell: None,
            remote_task: None,
            remote_probe: None,
        }
    }
}

/// Value after a change.
pub open spec fn changed<T>(current: T, change: Option<T>) -> T {
    match change {
        Some(value) => value,
        None => current,
    }
}

/// Value after a change.
pub fn changed_value<T: Copy>(current: T, change: Option<T>) -> (value: T)
    ensures
        value == changed(current, change),
{
    match change {
        Some(value) => value,
        None => current,
    }
}

/// Text after a change.
fn change_text(current: &mut String, change: &Option<String>)
    ensures
        *final(current) == changed(*old(current), *change),
{
    if let Some(text) = change {
        *current = text.clone();
    }
}

/// Optional text after a change.
pub open spec fn provided(current: Option<String>, change: Option<String>) -> Option<String> {
    match change {
        Some(text) => Some(text),
        None => current,
    }
}

/// Optional text after a change.
fn provide_text(current: &mut Option<String>, change: &Option<String>)
    ensures
        *final(current) == provided(*old(current), *change),
{
    if let Some(text) = change {
        *current = Some(text.clone());
    }
}

/// Names after a change.
fn change_names(current: &mut Vec<String>, change: &Option<Vec<String>>)
    ensures
        final(current)@ == changed(*old(current), *change)@,
{
    if let Some(names) = change {
        let copy = names.clone();
        assert(copy@ =~= names@);
        *current = copy;
    }
}

/// Core metrics after a change.
pub open spec fn core_after(current: CoreConfig, patch: Option<GroupConfigPatch>) -> CoreConfig {
    match patch {
        Some(patch) => CoreConfig {
            enabled: changed(current.enabled, patch.enabled),
            interval: changed(current.interval, patch.interval),
        },
        None => current,
    }
}

/// Core metrics after a change.
fn changed_core(current: CoreConfig, patch: Option<GroupConfigPatch>) -> (next: CoreConfig)
    ensures
        next == core_after(current, patch),
{
    match patch {
        Some(patch) => CoreConfig {
            enabled: changed_value(current.enabled, patch.enabled),
            interval: changed_value(current.interval, patch.interval),
        },
        None => current,
    }
}

/// Disk metrics after a change.
pub open spec fn disk_after(current: DiskConfig, patch: Option<DiskConfigPatch>) -> DiskConfig {
    match patch {
        Some(patch) => DiskConfig {
            enabled: changed(current.enabled, patch.enabled),
            interval: changed(current.interval, patch.interval),
            include_per_device: changed(current.include_per_device, patch.include_per_device),
        },
        None => current,
    }
}

/// Disk metrics after a change.
fn changed_disk(current: DiskConfig, patch: Option<DiskConfigPatch>) -> (next: DiskConfig)
    ensures
        next == disk_after(current, patch),
{
    match patch {
        Some(patch) => DiskConfig {
            enabled: changed_value(current.enabled, patch.enabled),
            interval: changed_value(current.interval, patch.interval),
            include_per_device: changed_value(current.include_per_device, patch.include_per_device),
        },
        None => current,
    }
}

/// Network metrics after a change.
pub open spec fn network_after(
    current: NetworkConfig,
    patch: Option<NetworkConfigPatch>,
) -> NetworkConfig {
    match patch {
        Some(patch) => NetworkConfig {
            enabled: changed(current.enabled, patch.enabled),
            interval: changed(current.interval, patch.interval),
            include_per_interface: changed(
                current.include_per_interface,
                patch.include_per_interface,
            ),
            include_interfaces: changed(current.include_interfaces, patch.include_interfaces),
            exclude_interfaces: changed(current.exclude_interfaces, patch.exclude_interfaces),
        },
        None => current,
    }
}

/// Network metrics after a change.
fn change_network(current: &mut NetworkConfig, patch: &Option<NetworkConfigPatch>)
    ensures
        same_network(*final(current), network_after(*old(current), *patch)),
{
    if let Some(patch) = patch {
        current.enabled = changed_value(current.enabled, patch.enabled);
        current.interval = changed_value(current.interval, patch.interval);
        current.include_per_interface = changed_value(
            current.include_per_interface,
            patch.include_per_interface,
        );
        change_names(&mut current.include_interfaces, &patch.include_interfaces);
        change_names(&mut current.exclude_interfaces, &patch.exclude_interfaces);
    }
}

/// Process or socket metrics after a change.
pub open spec fn detail_after(
    current: DetailConfig,
    patch: Option<DetailConfigPatch>,
) -> DetailConfig {
    match patch {
        Some(patch) => DetailConfig {
            enabled: changed(current.enabled, patch.enabled),
            interval: changed(current.interval, patch.interval),
            level: changed(current.level, patch.level),
            limit: changed(current.limit, patch.limit),
        },
        None => current,
    }
}

/// Process or socket metrics after a change.
pub fn changed_detail(
    current: DetailConfig,
    patch: Option<DetailConfigPatch>,
) -> (next: DetailConfig)
    ensures
        next == detail_after(current, patch),
{
    match patch {
        Some(patch) => DetailConfig {
            enabled: changed_value(current.enabled, patch.enabled),
            interval: changed_value(current.interval, patch.interval),
            level: changed_value(current.level, patch.level),
            limit: changed_value(current.limit, patch.limit),
        },
        None => current,
    }
}

/// Lookup of the public address after a change.
pub open spec fn public_ip_after(
    current: PublicIpConfig,
    patch: Option<PublicIpConfigPatch>,
) -> PublicIpConfig {
    match patch {
        Some(patch) => PublicIpConfig {
            enabled: changed(current.enabled, patch.enabled),
            required_for_first_report: changed(
                current.required_for_first_report,
                patch.required_for_first_report,
            ),
            retry_interval: changed(current.retry_interval, patch.retry_interval),
            refresh_interval: changed(current.refresh_interval, patch.refresh_interval),
            prefer_interface_candidate: changed(
                current.prefer_interface_candidate,
                patch.prefer_interface_candidate,
            ),
            verify_interface_candidate: changed(
                current.verify_interface_candidate,
                patch.verify_interface_candidate,
            ),
            lookup_timeout: changed(current.lookup_timeout, patch.lookup_timeout),
            max_concurrency: changed(current.max_concurrency, patch.max_concurrency),
        },
        None => current,
    }
}

/// Lookup of the public address after a change.
fn changed_public_ip(
    current: PublicIpConfig,
    patch: Option<PublicIpConfigPatch>,
) -> (next: PublicIpConfig)
    ensures
        next == public_ip_after(current, patch),
{
    match patch {
        Some(patch) => PublicIpConfig {
            enabled: changed_value(current.enabled, patch.enabled),
            required_for_first_report: changed_value(
                current.required_for_first_report,
                patch.required_for_first_report,
            ),
            retry_interval: changed_value(current.retry_interval, patch.retry_interval),
            refresh_interval: changed_value(current.refresh_interval, patch.refresh_interval),
            prefer_interface_candidate: changed_value(
                current.prefer_interface_candidate,
                patch.prefer_interface_candidate,
            ),
            verify_interface_candidate: changed_value(
                current.verify_interface_candidate,
                patch.verify_interface_candidate,
            ),
            lookup_timeout: changed_value(current.lookup_timeout, patch.lookup_timeout),
            max_concurrency: changed_value(current.max_concurrency, patch.max_concurrency),
        },
        None => current,
    }
}

/// Assembly of reports after a change.
pub open spec fn report_after(
    current: ReportConfig,
    patch: Option<ReportConfigPatch>,
) -> ReportConfig {
    match patch {
        Some(patch) => ReportConfig {
            enabled: changed(current.enabled, patch.enabled),
            interval: changed(current.interval, patch.interval),
            force_snapshot_min_interval: changed(
                current.force_snapshot_min_interval,
                patch.force_snapshot_min_interval,
            ),
        },
        None => current,
    }
}

/// Assembly of reports after a change.
fn changed_report(current: ReportConfig, patch: Option<ReportConfigPatch>) -> (next: ReportConfig)
    ensures
        next == report_after(current, patch),
{
    match patch {
        Some(patch) => ReportConfig {
            enabled: changed_value(current.enabled, patch.enabled),
            interval: changed_value(current.interval, patch.interval),
            force_snapshot_min_interval: changed_value(
                current.force_snapshot_min_interval,
                patch.force_snapshot_min_interval,
            ),
        },
        None => current,
    }
}

/// Basic information after a change.
pub open spec fn basic_info_after(
    current: BasicInfoConfig,
    patch: Option<BasicInfoConfigPatch>,
) -> BasicInfoConfig {
    match patch {
        Some(patch) => BasicInfoConfig {
            enabled: changed(current.enabled, patch.enabled),
            send_on_start: changed(current.send_on_start, patch.send_on_start),
            refresh_interval: changed(current.refresh_interval, patch.refresh_interval),
        },
        None => current,
    }
}

/// Basic information after a change.
fn changed_basic_info(
    current: BasicInfoConfig,
    patch: Option<BasicInfoConfigPatch>,
) -> (next: BasicInfoConfig)
    ensures
        next == basic_info_after(current, patch),
{
    match patch {
        Some(patch) => BasicInfoConfig {
            enabled: changed_value(current.enabled, patch.enabled),
            send_on_start: changed_value(current.send_on_start, patch.send_on_start),
            refresh_interval: changed_value(current.refresh_interval, patch.refresh_interval),
        },
        None => current,
    }
}

/// Reports on the main connection after a change.
pub open spec fn realtime_report_after(
    current: RealtimeReportConfig,
    patch: Option<RealtimeReportConfigPatch>,
) -> RealtimeReportConfig {
    match patch {
        Some(patch) => RealtimeReportConfig {
            enabled: changed(current.enabled, patch.enabled),
            send_on_start: changed(current.send_on_start, patch.send_on_start),
        },
        None => current,
    }
}

/// Reports on the main connection after a change.
fn changed_realtime_report(
    current: RealtimeReportConfig,
    patch: Option<RealtimeReportConfigPatch>,
) -> (next: RealtimeReportConfig)
    ensures
        next == realtime_report_after(current, patch),
{
    match patch {
        Some(patch) => RealtimeReportConfig {
            enabled: changed_value(current.enabled, patch.enabled),
            send_on_start: changed_value(current.send_on_start, patch.send_on_start),
        },
        None => current,
    }
}

/// Connection to the server after a change.
pub open spec fn export_after(
    current: ExportConfig,
    patch: Option<ExportConfigPatch>,
) -> ExportConfig {
    match patch {
        Some(patch) => ExportConfig {
            format: changed(current.format, patch.format),
            base_url: changed(current.base_url, patch.base_url),
            token: provided(current.token, patch.token),
            unsafe_cert: changed(current.unsafe_cert, patch.unsafe_cert),
            heartbeat: changed(current.heartbeat, patch.heartbeat),
            reconnect_interval: changed(current.reconnect_interval, patch.reconnect_interval),
        },
        None => current,
    }
}

/// Connection to the server after a change.
fn change_export(current: &mut ExportConfig, patch: &Option<ExportConfigPatch>)
    ensures
        *final(current) == export_after(*old(current), *patch),
{
    if let Some(patch) = patch {
        current.format = changed_value(current.format, patch.format);
        change_text(&mut current.base_url, &patch.base_url);
        provide_text(&mut current.token, &patch.token);
        current.unsafe_cert = changed_value(current.unsafe_cert, patch.unsafe_cert);
        current.heartbeat = changed_value(current.heartbeat, patch.heartbeat);
        current.reconnect_interval = changed_value(
            current.reconnect_interval,
            patch.reconnect_interval,
        );
    }
}

/// Limits of interactive sessions after a change.
pub open spec fn shell_after(
    current: RemoteShellConfig,
    patch: Option<RemoteShellConfigPatch>,
) -> RemoteShellConfig {
    match patch {
        Some(patch) => RemoteShellConfig {
            max_sessions: changed(current.max_sessions, patch.max_sessions),
            idle_timeout: changed(current.idle_timeout, patch.idle_timeout),
            session_timeout: changed(current.session_timeout, patch.session_timeout),
            program: provided(current.program, patch.program),
        },
        None => current,
    }
}

/// Limits of interactive sessions after a change.
fn change_shell(current: &mut RemoteShellConfig, patch: &Option<RemoteShellConfigPatch>)
    ensures
        *final(current) == shell_after(*old(current), *patch),
{
    if let Some(patch) = patch {
        current.max_sessions = changed_value(current.max_sessions, patch.max_sessions);
        current.idle_timeout = changed_value(current.idle_timeout, patch.idle_timeout);
        current.session_timeout = changed_value(current.session_timeout, patch.session_timeout);
        provide_text(&mut current.program, &patch.program);
    }
}

/// Limits of remote tasks after a change.
pub open spec fn task_after(
    current: RemoteTaskConfig,
    patch: Option<RemoteTaskConfigPatch>,
) -> RemoteTaskConfig {
    match patch {
        Some(patch) => RemoteTaskConfig {
            max_concurrent: changed(current.max_concurrent, patch.max_concurrent),
            timeout: changed(current.timeout, patch.timeout),
            max_stdout_bytes: changed(current.max_stdout_bytes, patch.max_stdout_bytes),
            max_stderr_bytes: changed(current.max_stderr_bytes, patch.max_stderr_bytes),
        },
        None => current,
    }
}

/// Limits of remote tasks after a change.
fn changed_task(
    current: RemoteTaskConfig,
    patch: Option<RemoteTaskConfigPatch>,
) -> (next: RemoteTaskConfig)
    ensures
        next == task_after(current, patch),
{
    match patch {
        Some(patch) => RemoteTaskConfig {
            max_concurrent: changed_value(current.max_concurrent, patch.max_concurrent),
            timeout: changed_value(current.timeout, patch.timeout),
            max_stdout_bytes: changed_value(current.max_stdout_bytes, patch.max_stdout_bytes),
            max_stderr_bytes: changed_value(current.max_stderr_bytes, patch.max_stderr_bytes),
        },
        None => current,
    }
}

/// Limits of remote probes after a change.
pub open spec fn probe_after(
    current: RemoteProbeConfig,
    patch: Option<RemoteProbeConfigPatch>,
) -> RemoteProbeConfig {
    match patch {
        Some(patch) => RemoteProbeConfig {
            enabled: changed(current.enabled, patch.enabled),
            timeout: changed(current.timeout, patch.timeout),
            global_min_interval: changed(current.global_min_interval, patch.global_min_interval),
            target_min_interval: changed(current.target_min_interval, patch.target_min_interval),
        },
        None => current,
    }
}

/// Limits of remote probes after a change.
fn changed_probe(
    current: RemoteProbeConfig,
    patch: Option<RemoteProbeConfigPatch>,
) -> (next: RemoteProbeConfig)
    ensures
        next == probe_after(current, patch),
{
    match patch {
        Some(patch) => RemoteProbeConfig {
            enabled: changed_value(current.enabled, patch.enabled),
            timeout: changed_value(current.timeout, patch.timeout),
            global_min_interval: changed_value(
                current.global_min_interval,
                patch.global_min_interval,
            ),
            target_min_interval: changed_value(
                current.target_min_interval,
                patch.target_min_interval,
            ),
        },
        None => current,
    }
}

/// Configuration after a change. The identity of the agent stays.
pub open spec fn config_after(config: AgentConfig, patch: AgentConfigPatch) -> AgentConfig {
    AgentConfig {
        agent_id: config.agent_id,
        core: core_after(config.core, patch.core),
        disk: disk_after(config.disk, patch.disk),
        network: network_after(config.network, patch.network),
        processes: detail_after(config.processes, patch.processes),
        sockets: detail_after(config.sockets, patch.sockets),
        public_ip: public_ip_after(config.public_ip, patch.public_ip),
        report: report_after(config.report, patch.report),
        outbound: OutboundConfig {
            basic_info: basic_info_after(config.outbound.basic_info, patch.basic_info),
            realtime_report: realtime_report_after(
                config.outbound.realtime_report,
                patch.realtime_report,
            ),
        },
        export: export_after(config.export, patch.export),
        remote_shell: shell_after(config.remote_shell, patch.remote_shell),
        remote_task: task_after(config.remote_task, patch.remote_task),
        remote_probe: probe_after(config.remote_probe, patch.remote_probe),
    }
}

impl AgentConfigPatch {
    /// Carries out the change.
    pub fn apply_to(&self, config: &mut AgentConfig)
        ensures
            same_network(final(config).network, config_after(*old(config), *self).network),
            *final(config) == (AgentConfig {
                network: final(config).network,
                ..config_after(*old(config), *self)
            }),
    {
        config.core = changed_core(config.core, self.core);
        config.disk = changed_disk(config.disk, self.disk);
        change_network(&mut config.network, &self.network);
        config.processes = changed_detail(config.processes, self.processes);
        config.sockets = changed_detail(config.sockets, self.sockets);
        config.public_ip = changed_public_ip(config.public_ip, self.public_ip);
        config.report = changed_report(config.report, self.report);
        config.outbound.basic_info = changed_basic_info(
            config.outbound.basic_info,
            self.basic_info,
        );
        config.outbound.realtime_report = changed_realtime_report(
            config.outbound.realtime_report,
            self.realtime_report,
        );
        change_export(&mut config.export, &self.export);
        change_shell(&mut config.remote_shell, &self.remote_shell);
        config.remote_task = changed_task(config.remote_task, self.remote_task);
        config.remote_probe = changed_probe(config.remote_probe, self.remote_probe);
    }
}

/// Whether a change names no group.
pub open spec fn names_nothing(patch: AgentConfigPatch) -> bool {
    &&& patch.core is None && patch.disk is None && patch.network is None
    &&& patch.processes is None && patch.sockets is None && patch.public_ip is None
    &&& patch.report is None && patch.basic_info is None && patch.realtime_report is None
    &&& patch.export is None && patch.remote_shell is None && patch.remote_task is None
    &&& patch.remote_probe is None
}

/// A change without values leaves the configuration as it is.
pub proof fn law_empty_patch_changes_nothing(config: AgentConfig, patch: AgentConfigPatch)
    requires
        names_nothing(patch),
    ensures
        config_after(config, patch) == config,
{
}

/// A change that is carried out twice has the effect of one.
pub proof fn law_patch_is_idempotent(config: AgentConfig, patch: AgentConfigPatch)
    ensures
        config_after(config_after(config, patch), patch) == config_after(config, patch),
{
}

/// Every value that a change names is in force afterwards, in every group.
pub proof fn law_named_values_are_taken(config: AgentConfig, patch: AgentConfigPatch)
    ensures
        patch.core matches Some(change) ==> {
            let next = config_after(config, patch).core;
            &&& change.enabled is Some ==> next.enabled == change.enabled->0
            &&& change.interval is Some ==> next.interval == change.interval->0
        },
        patch.disk matches Some(change) ==> {
            let next = config_after(config, patch).disk;
            &&& change.enabled is Some ==> next.enabled == change.enabled->0
            &&& change.interval is Some ==> next.interval == change.interval->0
            &&& change.include_per_device is Some ==> next.include_per_device == change.include_per_device->0
        },
        patch.network matches Some(change) ==> {
            let next = config_after(config, patch).network;
            &&& change.enabled is Some ==> next.enabled == change.enabled->0
            &&& change.interval is Some ==> next.interval == change.interval->0
            &&& change.include_per_interface is Some ==> next.include_per_interface == change.include_per_interface->0
            &&& change.include_interfaces is Some ==> next.include_interfaces == change.include_interfaces->0
            &&& change.exclude_interfaces is Some ==> next.exclude_interfaces == change.exclude_interfaces->0
        },
        patch.processes matches Some(change) ==> {
            let next = config_after(config, patch).processes;
            &&& change.enabled is Some ==> next.enabled == change.enabled->0
            &&& change.interval is Some ==> next.interval == change.interval->0
            &&& change.level is Some ==> next.level == change.level->0
            &&& change.limit is Some ==> next.limit == change.limit->0
        },
        patch.sockets matches Some(change) ==> {
            let next = config_after(config, patch).sockets;
            &&& change.enabled is Some ==> next.enabled == change.enabled->0
            &&& change.interval is Some ==> next.interval == change.interval->0
            &&& change.level is Some ==> next.level == change.level->0
            &&& change.limit is Some ==> next.limit == change.limit->0
        },
        patch.public_ip matches Some(change) ==> {
            let next = config_after(config, patch).public_ip;
            &&& change.enabled is Some ==> next.enabled == change.enabled->0
            &&& change.required_for_first_report is Some ==> next.required_for_first_report == change.required_for_first_report->0
            &&& change.retry_interval is Some ==> next.retry_interval == change.retry_interval->0
            &&& change.refresh_interval is Some ==> next.refresh_interval == change.refresh_interval->0
            &&& change.prefer_interface_candidate is Some ==> next.prefer_interface_candidate == change.prefer_interface_candidate->0
            &&& change.verify_interface_candidate is Some ==> next.verify_interface_candidate == change.verify_interface_candidate->0
            &&& change.lookup_timeout is Some ==> next.lookup_timeout == change.lookup_timeout->0
            &&& change.max_concurrency is Some ==> next.max_concurrency == change.max_concurrency->0
        },
        patch.report matches Some(change) ==> {
            let next = config_after(config, patch).report;
            &&& change.enabled is Some ==> next.enabled == change.enabled->0
            &&& change.interval is Some ==> next.interval == change.interval->0
            &&& change.force_snapshot_min_interval is Some ==> next.force_snapshot_min_interval == change.force_snapshot_min_interval->0
        },
        patch.basic_info matches Some(change) ==> {
            let next = config_after(config, patch).outbound.basic_info;
            &&& change.enabled is Some ==> next.enabled == change.enabled->0
            &&& change.send_on_start is Some ==> next.send_on_start == change.send_on_start->0
            &&& change.refresh_interval is Some ==> next.refresh_interval == change.refresh_interval->0
        },
        patch.realtime_report matches Some(change) ==> {
            let next = config_after(config, patch).outbound.realtime_report;
            &&& change.enabled is Some ==> next.enabled == change.enabled->0
            &&& change.send_on_start is Some ==> next.send_on_start == change.send_on_start->0
        },
        patch.export matches Some(change) ==> {
            let next = config_after(config, patch).export;
            &&& change.format is Some ==> next.format == change.format->0
            &&& change.base_url is Some ==> next.base_url == change.base_url->0
            &&& change.token is Some ==> next.token == change.token
            &&& change.unsafe_cert is Some ==> next.unsafe_cert == change.unsafe_cert->0
            &&& change.heartbeat is Some ==> next.heartbeat == change.heartbeat->0
            &&& change.reconnect_interval is Some ==> next.reconnect_interval == change.reconnect_interval->0
        },
        patch.remote_shell matches Some(change) ==> {
            let next = config_after(config, patch).remote_shell;
            &&& change.max_sessions is Some ==> next.max_sessions == change.max_sessions->0
            &&& change.idle_timeout is Some ==> next.idle_timeout == change.idle_timeout->0
            &&& change.session_timeout is Some ==> next.session_timeout == change.session_timeout->0
            &&& change.program is Some ==> next.program == change.program
        },
        patch.remote_task matches Some(change) ==> {
            let next = config_after(config, patch).remote_task;
            &&& change.max_concurrent is Some ==> next.max_concurrent == change.max_concurrent->0
            &&& change.timeout is Some ==> next.timeout == change.timeout->0
            &&& change.max_stdout_bytes is Some ==> next.max_stdout_bytes == change.max_stdout_bytes->0
            &&& change.max_stderr_bytes is Some ==> next.max_stderr_bytes == change.max_stderr_bytes->0
        },
        patch.remote_probe matches Some(change) ==> {
            let next = config_after(config, patch).remote_probe;
            &&& change.enabled is Some ==> next.enabled == change.enabled->0
            &&& change.timeout is Some ==> next.timeout == change.timeout->0
            &&& change.global_min_interval is Some ==> next.global_min_interval == change.global_min_interval->0
            &&& change.target_min_interval is Some ==> next.target_min_interval == change.target_min_interval->0
        },
{
}

/// Every value that a change does not name stays as it was, and so does the agent's identity.
pub proof fn law_unnamed_values_stay(config: AgentConfig, patch: AgentConfigPatch)
    ensures
        config_after(config, patch).agent_id == config.agent_id,
        patch.core is None ==> config_after(config, patch).core == config.core,
        patch.core matches Some(change) ==> {
            let next = config_after(config, patch).core;
            &&& change.enabled is None ==> next.enabled == config.core.enabled
            &&& change.interval is None ==> next.interval == config.core.interval
        },
        patch.disk is None ==> config_after(config, patch).disk == config.disk,
        patch.disk matches Some(change) ==> {
            let next = config_after(config, patch).disk;
            &&& change.enabled is None ==> next.enabled == config.disk.enabled
            &&& change.interval is None ==> next.interval == config.disk.interval
            &&& change.include_per_device is None ==> next.include_per_device == config.disk.include_per_device
        },
        patch.network is None ==> config_after(config, patch).network == config.network,
        patch.network matches Some(change) ==> {
            let next = config_after(config, patch).network;
            &&& change.enabled is None ==> next.enabled == config.network.enabled
            &&& change.interval is None ==> next.interval == config.network.interval
            &&& change.include_per_interface is None ==> next.include_per_interface == config.network.include_per_interface
            &&& change.include_interfaces is None ==> next.include_interfaces == config.network.include_interfaces
            &&& change.exclude_interfaces is None ==> next.exclude_interfaces == config.network.exclude_interfaces
        },
        patch.processes is None ==> config_after(config, patch).processes == config.processes,
        patch.processes matches Some(change) ==> {
            let next = config_after(config, patch).processes;
            &&& change.enabled is None ==> next.enabled == config.processes.enabled
            &&& change.interval is None ==> next.interval == config.processes.interval
            &&& change.level is None ==> next.level == config.processes.level
            &&& change.limit is None ==> next.limit == config.processes.limit
        },
        patch.sockets is None ==> config_after(config, patch).sockets == config.sockets,
        patch.sockets matches Some(change) ==> {
            let next = config_after(config, patch).sockets;
            &&& change.enabled is None ==> next.enabled == config.sockets.enabled
            &&& change.interval is None ==> next.interval == config.sockets.interval
            &&& change.level is None ==> next.level == config.sockets.level
            &&& change.limit is None ==> next.limit == config.sockets.limit
        },
        patch.public_ip is None ==> config_after(config, patch).public_ip == config.public_ip,
        patch.public_ip matches Some(change) ==> {
            let next = config_after(config, patch).public_ip;
            &&& change.enabled is None ==> next.enabled == config.public_ip.enabled
            &&& change.required_for_first_report is None ==> next.required_for_first_report == config.public_ip.required_for_first_report
            &&& change.retry_interval is None ==> next.retry_interval == config.public_ip.retry_interval
            &&& change.refresh_interval is None ==> next.refresh_interval == config.public_ip.refresh_interval
            &&& change.prefer_interface_candidate is None ==> next.prefer_interface_candidate == config.public_ip.prefer_interface_candidate
            &&& change.verify_interface_candidate is None ==> next.verify_interface_candidate == config.public_ip.verify_interface_candidate
            &&& change.lookup_timeout is None ==> next.lookup_timeout == config.public_ip.lookup_timeout
            &&& change.max_concurrency is None ==> next.max_concurrency == config.public_ip.max_concurrency
        },
        patch.report is None ==> config_after(config, patch).report == config.report,
        patch.report matches Some(change) ==> {
            let next = config_after(config, patch).report;
            &&& change.enabled is None ==> next.enabled == config.report.enabled
            &&& change.interval is None ==> next.interval == config.report.interval
            &&& change.force_snapshot_min_interval is None ==> next.force_snapshot_min_interval == config.report.force_snapshot_min_interval
        },
        patch.basic_info is None ==> config_after(config, patch).outbound.basic_info == config.outbound.basic_info,
        patch.basic_info matches Some(change) ==> {
            let next = config_after(config, patch).outbound.basic_info;
            &&& change.enabled is None ==> next.enabled == config.outbound.basic_info.enabled
            &&& change.send_on_start is None ==> next.send_on_start == config.outbound.basic_info.send_on_start
            &&& change.refresh_interval is None ==> next.refresh_interval == config.outbound.basic_info.refresh_interval
        },
        patch.realtime_report is None ==> config_after(config, patch).outbound.realtime_report == config.outbound.realtime_report,
        patch.realtime_report matches Some(change) ==> {
            let next = config_after(config, patch).outbound.realtime_report;
            &&& change.enabled is None ==> next.enabled == config.outbound.realtime_report.enabled
            &&& change.send_on_start is None ==> next.send_on_start == config.outbound.realtime_report.send_on_start
        },
        patch.export is None ==> config_after(config, patch).export == config.export,
        patch.export matches Some(change) ==> {
            let next = config_after(config, patch).export;
            &&& change.format is None ==> next.format == config.export.format
            &&& change.base_url is None ==> next.base_url == config.export.base_url
            &&& change.token is None ==> next.token == config.export.token
            &&& change.unsafe_cert is None ==> next.unsafe_cert == config.export.unsafe_cert
            &&& change.heartbeat is None ==> next.heartbeat == config.export.heartbeat
            &&& change.reconnect_interval is None ==> next.reconnect_interval == config.export.reconnect_interval
        },
        patch.remote_shell is None ==> config_after(config, patch).remote_shell == config.remote_shell,
        patch.remote_shell matches Some(change) ==> {
            let next = config_after(config, patch).remote_shell;
            &&& change.max_sessions is None ==> next.max_sessions == config.remote_shell.max_sessions
            &&& change.idle_timeout is None ==> next.idle_timeout == config.remote_shell.idle_timeout
            &&& change.session_timeout is None ==> next.session_timeout == config.remote_shell.session_timeout
            &&& change.program is None ==> next.program == config.remote_shell.program
        },
        patch.remote_task is None ==> config_after(config, patch).remote_task == config.remote_task,
        patch.remote_task matches Some(change) ==> {
            let next = config_after(config, patch).remote_task;
            &&& change.max_concurrent is None ==> next.max_concurrent == config.remote_task.max_concurrent
            &&& change.timeout is None ==> next.timeout == config.remote_task.timeout
            &&& change.max_stdout_bytes is None ==> next.max_stdout_bytes == config.remote_task.max_stdout_bytes
            &&& change.max_stderr_bytes is None ==> next.max_stderr_bytes == config.remote_task.max_stderr_bytes
        },
        patch.remote_probe is None ==> config_after(config, patch).remote_probe == config.remote_probe,
        patch.remote_probe matches Some(change) ==> {
            let next = config_after(config, patch).remote_probe;
            &&& change.enabled is None ==> next.enabled == config.remote_probe.enabled
            &&& change.timeout is None ==> next.timeout == config.remote_probe.timeout
            &&& change.global_min_interval is None ==> next.global_min_interval == config.remote_probe.global_min_interval
            &&& change.target_min_interval is None ==> next.target_min_interval == config.remote_probe.target_min_interval
        },
{
}

} // verus!
