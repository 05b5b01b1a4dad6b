//! Configuration that the service reads.

use crate::scheduler::time::Span;
use crate::service::protocol::copied_text;
use vstd::prelude::*;

verus! {

/// Amount of detail of a process or socket sample.
#[derive(Debug, Clone, Copy, PartialEq, Eq, Structural)]
pub enum MetricLevel {
    /// Totals only.
    Count,
    /// Short list of items.
    Light,
    /// Full list of items.
    Details,
}

/// Sampling of the core metrics.
#[derive(Debug, Clone, Copy, PartialEq, Eq, Structural)]
pub struct CoreConfig {
    /// Whether the group is sampled.
    pub enabled: bool,
    /// Time between two samples.
    pub interval: Span,
}

/// Sampling of the disk metrics.
#[derive(Debug, Clone, Copy, PartialEq, Eq, Structural)]
pub struct DiskConfig {
    /// Whether the group is sampled.
    pub enabled: bool,
    /// Time between two samples.
    pub interval: Span,
    /// Whether samples list every device.
    pub include_per_device: bool,
}

/// Sampling of the network metrics.
#[derive(Debug)]
pub struct NetworkConfig {
    /// Whether the group is sampled.
    pub enabled: bool,
    /// Time between two samples.
    pub interval: Span,
    /// Whether samples list every interface.
    pub include_per_interface: bool,
    /// Interfaces to sample; all where empty.
    pub include_interfaces: Vec<String>,
    /// Interfaces to leave out.
    pub exclude_interfaces: Vec<String>,
}

/// Whether two samplings of the network metrics are configured alike.
pub open spec fn same_network(a: NetworkConfig, b: NetworkConfig) -> bool {
    &&& a.enabled == b.enabled
    &&& a.interval == b.interval
    &&& a.include_per_interface == b.include_per_interface
    &&& a.include_interfaces@ == b.include_interfaces@
    &&& a.exclude_interfaces@ == b.exclude_interfaces@
}

impl Clone for NetworkConfig {
    fn clone(&self) -> (copy: Self)
        ensures
            same_network(copy, *self),
    {
        let include_interfaces = self.include_interfaces.clone();
        let exclude_interfaces = self.exclude_interfaces.clone();
        assert(include_interfaces@ =~= self.include_interfaces@);
        assert(exclude_interfaces@ =~= self.exclude_interfaces@);
        NetworkConfig {
            enabled: self.enabled,
            interval: self.interval,
            include_per_interface: self.include_per_interface,
            include_interfaces,
            exclude_interfaces,
        }
    }
}

/// Sampling of processes or sockets.
#[derive(Debug, Clone, Copy, PartialEq, Eq, Structural)]
pub struct DetailConfig {
    /// Whether the group is sampled.
    pub enabled: bool,
    /// Time between two samples.
    pub interval: Span,
    /// Amount of detail.
    pub level: MetricLevel,
    /// Largest number of listed items.
    pub limit: usize,
}

/// Lookup of the public address.
#[derive(Debug, Clone, Copy, PartialEq, Eq, Structural)]
pub struct PublicIpConfig {
    /// Whether the address is looked up.
    pub enabled: bool,
    /// Whether the first report waits for the address.
    pub required_for_first_report: bool,
    /// Time between two lookups while the first report waits.
    pub retry_interval: Span,
    /// Time between two lookups afterwards.
    pub refresh_interval: Span,
    /// Whether an address of a local interface is preferred.
    pub prefer_interface_candidate: bool,
    /// Whether such an address is verified by an outside service.
    pub verify_interface_candidate: bool,
    /// Time limit of one lookup.
    pub lookup_timeout: Span,
    /// Largest number of outside services asked at once.
    pub max_concurrency: usize,
}

/// Assembly of reports.
#[derive(Debug, Clone, Copy, PartialEq, Eq, Structural)]
pub struct ReportConfig {
    /// Whether reports are sent.
    pub enabled: bool,
    /// Time between two reports.
    pub interval: Span,
    /// Shortest time between two requested snapshots.
    pub force_snapshot_min_interval: Span,
}

/// Low frequency basic information.
#[derive(Debug, Clone, Copy, PartialEq, Eq, Structural)]
pub struct BasicInfoConfig {
    /// Whether basic information is sent.
    pub enabled: bool,
    /// Whether it is sent as soon as the agent is ready.
    pub send_on_start: bool,
    /// Time between two messages.
    pub refresh_interval: Span,
}

/// Reports on the main connection.
#[derive(Debug, Clone, Copy, PartialEq, Eq, Structural)]
pub struct RealtimeReportConfig {
    /// Whether reports are delivered.
    pub enabled: bool,
    /// Whether the report at hand is delivered at once.
    pub send_on_start: bool,
}

/// Switches of the outbound messages.
#[derive(Debug, Clone, Copy, PartialEq, Eq, Structural)]
pub struct OutboundConfig {
    /// Basic information.
    pub basic_info: BasicInfoConfig,
    /// Reports.
    pub realtime_report: RealtimeReportConfig,
}

/// Format that the server understands.
#[derive(Debug, Clone, Copy, PartialEq, Eq, Structural)]
pub enum ExportFormat {
    /// The agent's own protocol.
    SmaluxJson,
    /// The protocol of Komari servers.
    Komari,
}

impl ExportFormat {
    /// Whether servers of this format take basic information as a message of its own.
    pub open spec fn takes_basic_info(self) -> bool {
        self == ExportFormat::Komari
    }
}

/// Whether servers of this format take basic information as a message of its own.
pub fn export_format_needs_basic_info(format: ExportFormat) -> (needed: bool)
    ensures
        needed == format.takes_basic_info(),
{
    format == ExportFormat::Komari
}

/// Connection to the server.
#[derive(Debug)]
pub struct ExportConfig {
    /// Message format.
    pub format: ExportFormat,
    /// Address of the server.
    pub base_url: String,
    /// Access token.
    pub token: Option<String>,
    /// Whether certificates that cannot be verified are accepted.
    pub unsafe_cert: bool,
    /// Time between two keep-alive messages.
    pub heartbeat: Span,
    /// Pause before a new connection.
    pub reconnect_interval: Span,
}

impl Clone for ExportConfig {
    fn clone(&self) -> (copy: Self)
        ensures
            copy == *self,
    {
        ExportConfig {
            format: self.format,
            base_url: self.base_url.clone(),
            token: copied_text(&self.token),
            unsafe_cert: self.unsafe_cert,
            heartbeat: self.heartbeat,
            reconnect_interval: self.reconnect_interval,
        }
    }
}

/// Text of an optional string.
pub open spec fn optional_view(text: Option<String>) -> Option<Seq<char>> {
    match text {
        Some(text) => Some(text@),
        None => None,
    }
}

/// Whether two optional strings hold the same text.
pub fn same_optional_text(a: &Option<String>, b: &Option<String>) -> (same: bool)
    ensures
        same == (optional_view(*a) == optional_view(*b)),
{
    match (a, b) {
        (Some(a), Some(b)) => *a == *b,
        (None, None) => true,
        _ => false,
    }
}

/// Whether two connections are configured alike.
pub open spec fn same_export(a: ExportConfig, b: ExportConfig) -> bool {
    &&& a.format == b.format
    &&& a.base_url@ == b.base_url@
    &&& optional_view(a.token) == optional_view(b.token)
    &&& a.unsafe_cert == b.unsafe_cert
    &&& a.heartbeat == b.heartbeat
    &&& a.reconnect_interval == b.reconnect_interval
}

impl ExportConfig {
    /// Whether two connections are configured alike.
    pub fn same(&self, other: &ExportConfig) -> (same: bool)
        ensures
            same == same_export(*self, *other),
    {
        self.format == other.format && self.base_url == other.base_url && same_optional_text(
            &self.token,
            &other.token,
        ) && self.unsafe_cert == other.unsafe_cert && self.heartbeat == other.heartbeat
            && self.reconnect_interval == other.reconnect_interval
    }
}

/// Limits of interactive sessions.
#[derive(Debug)]
pub struct RemoteShellConfig {
    /// Largest number of sessions at a time.
    pub max_sessions: usize,
    /// Longest time without input or output.
    pub idle_timeout: Span,
    /// Longest duration of a session.
    pub session_timeout: Span,
    /// Program to run; the platform's shell where absent.
    pub program: Option<String>,
}

impl Clone for RemoteShellConfig {
    fn clone(&self) -> (copy: Self)
        ensures
            copy == *self,
    {
        RemoteShellConfig {
            max_sessions: self.max_sessions,
            idle_timeout: self.idle_timeout,
            session_timeout: self.session_timeout,
            program: copied_text(&self.program),
        }
    }
}

/// Limits of remote tasks.
#[derive(Debug, Clone, Copy, PartialEq, Eq, Structural)]
pub struct RemoteTaskConfig {
    /// Largest number of tasks at a time.
    pub max_concurrent: usize,
    /// Time limit of one task.
    pub timeout: Span,
    /// Largest kept standard output, in bytes.
    pub max_stdout_bytes: usize,
    /// Largest kept error output, in bytes.
    pub max_stderr_bytes: usize,
}

/// Limits of remote probes.
#[derive(Debug, Clone, Copy, PartialEq, Eq, Structural)]
pub struct RemoteProbeConfig {
    /// Whether probes are run.
    pub enabled: bool,
    /// Time limit of one probe.
    pub timeout: Span,
    /// Shortest time between two probes.
    pub global_min_interval: Span,
    /// Shortest time between two probes of one target.
    pub target_min_interval: Span,
}

/// Configuration of the agent.
#[derive(Debug)]
pub struct AgentConfig {
    /// Identity of the agent.
    pub agent_id: String,
    /// Core metrics.
    pub core: CoreConfig,
    /// Disk metrics.
    pub disk: DiskConfig,
    /// Network metrics.
    pub network: NetworkConfig,
    /// Process metrics.
    pub processes: DetailConfig,
    /// Socket metrics.
    pub sockets: DetailConfig,
    /// Public address.
    pub public_ip: PublicIpConfig,
    /// Reports.
    pub report: ReportConfig,
    /// Outbound messages.
    pub outbound: OutboundConfig,
    /// Connection to the server.
    pub export: ExportConfig,
    /// Interactive sessions.
    pub remote_shell: RemoteShellConfig,
    /// Remote tasks.
    pub remote_task: RemoteTaskConfig,
    /// Remote probes.
    pub remote_probe: RemoteProbeConfig,
}

impl Clone for AgentConfig {
    fn clone(&self) -> (copy: Self)
        ensures
            same_network(copy.network, self.network),
            copy == (AgentConfig { network: copy.network, ..*self }),
    {
        AgentConfig {
            agent_id: self.agent_id.clone(),
            core: self.core,
            disk: self.disk,
            network: self.network.clone(),
            processes: self.processes,
            sockets: self.sockets,
            public_ip: self.public_ip,
            report: self.report,
            outbound: self.outbound,
            export: self.export.clone(),
            remote_shell: self.remote_shell.clone(),
            remote_task: self.remote_task,
            remote_probe: self.remote_probe,
        }
    }
}

impl Default for ExportConfig {
    fn default() -> (config: Self)
        ensures
            config.format == ExportFormat::SmaluxJson,
            config.base_url@ == "http://127.0.0.1:8080"@,
            config.token is None,
            !config.unsafe_cert,
            config.heartbeat.nanos == 30_000_000_000,
            config.reconnect_interval.nanos == 5_000_000_000,
    {
        ExportConfig {
            format: ExportFormat::SmaluxJson,
            base_url: "http://127.0.0.1:8080".to_owned(),
            token: None,
            unsafe_cert: false,
            heartbeat: Span::from_secs(30),
            reconnect_interval: Span::from_secs(5),
        }
    }
}

impl Default for RemoteShellConfig {
    fn default() -> (config: Self)
        ensures
            config.max_sessions == 1,
            config.idle_timeout.nanos == 600_000_000_000,
            config.session_timeout.nanos == 3_600_000_000_000,
            config.program is None,
    {
        RemoteShellConfig {
            max_sessions: 1,
            idle_timeout: Span::from_secs(600),
            session_timeout: Span::from_secs(3600),
            program: None,
        }
    }
}

impl Default for PublicIpConfig {
    fn default() -> (config: Self)
        ensures
            config.enabled,
            !config.required_for_first_report,
            config.retry_interval.nanos == 10_000_000_000,
            config.refresh_interval.nanos == 1_800_000_000_000,
            config.prefer_interface_candidate,
            !config.verify_interface_candidate,
            config.lookup_timeout.nanos == 5_000_000_000,
            config.max_concurrency == 3,
    {
        PublicIpConfig {
            enabled: true,
            required_for_first_report: false,
            retry_interval: Span::from_secs(10),
            refresh_interval: Span::from_secs(1800),
            prefer_interface_candidate: true,
            verify_interface_candidate: false,
            lookup_timeout: Span::from_secs(5),
            max_concurrency: 3,
        }
    }
}

impl Default for AgentConfig {
    fn default() -> (config: Self)
        ensures
            config.agent_id@ == ""@,
            config.core.enabled && config.disk.enabled && config.network.enabled,
            config.processes.enabled && config.sockets.enabled,
            config.core.interval.nanos == 1_000_000_000,
            config.disk.interval.nanos == 10_000_000_000,
            config.network.interval.nanos == 1_000_000_000,
            config.processes.interval.nanos == 10_000_000_000,
            config.sockets.interval.nanos == 10_000_000_000,
            !config.disk.include_per_device,
            !config.network.include_per_interface,
            config.network.include_interfaces@.len() == 0,
            config.network.exclude_interfaces@.len() == 0,
            config.processes.level == MetricLevel::Count,
            config.sockets.level == MetricLevel::Count,
            config.processes.limit == 20,
            config.sockets.limit == 20,
            config.public_ip.enabled && !config.public_ip.required_for_first_report,
            config.public_ip.retry_interval.nanos == 10_000_000_000,
            config.public_ip.refresh_interval.nanos == 1_800_000_000_000,
            config.public_ip.prefer_interface_candidate,
            !config.public_ip.verify_interface_candidate,
            config.public_ip.lookup_timeout.nanos == 5_000_000_000,
            config.public_ip.max_concurrency == 3,
            config.report.enabled,
            config.report.interval.nanos == 1_000_000_000,
            config.report.force_snapshot_min_interval.nanos == 5_000_000_000,
            config.outbound.basic_info.enabled && config.outbound.basic_info.send_on_start,
            config.outbound.basic_info.refresh_interval.nanos == 300_000_000_000,
            config.outbound.realtime_report.enabled && config.outbound.realtime_report.send_on_start,
            config.export.format == ExportFormat::SmaluxJson,
            config.export.base_url@ == "http://127.0.0.1:8080"@,
            config.export.token is None && !config.export.unsafe_cert,
            config.export.heartbeat.nanos == 30_000_000_000,
            config.export.reconnect_interval.nanos == 5_000_000_000,
            config.remote_shell.max_sessions == 1,
            config.remote_shell.idle_timeout.nanos == 600_000_000_000,
            config.remote_shell.session_timeout.nanos == 3_600_000_000_000,
            config.remote_shell.program is None,
            config.remote_task.max_concurrent == 1,
            config.remote_task.timeout.nanos == 60_000_000_000,
            config.remote_task.max_stdout_bytes == 65536,
            config.remote_task.max_stderr_bytes == 65536,
            !config.remote_probe.enabled,
            config.remote_probe.timeout.nanos == 3_000_000_000,
            config.remote_probe.global_min_interval.nanos == 100_000_000,
            config.remote_probe.target_min_interval.nanos == 1_000_000_000,
    {
        AgentConfig {
            agent_id: "".to_owned(),
            core: CoreConfig { enabled: true, interval: Span::from_secs(1) },
            disk: DiskConfig {
                enabled: true,
                interval: Span::from_secs(10),
                include_per_device: false,
            },
            network: NetworkConfig {
                enabled: true,
                interval: Span::from_secs(1),
                include_per_interface: false,
                include_interfaces: Vec::new(),
                exclude_interfaces: Vec::new(),
            },
            processes: DetailConfig {
                enabled: true,
                interval: Span::from_secs(10),
                level: MetricLevel::Count,
                limit: 20,
            },
            sockets: DetailConfig {
                enabled: true,
                interval: Span::from_secs(10),
                level: MetricLevel::Count,
                limit: 20,
            },
            public_ip: PublicIpConfig::default(),
            report: ReportConfig {
                enabled: true,
                interval: Span::from_secs(1),
                force_snapshot_min_interval: Span::from_secs(5),
            },
            outbound: OutboundConfig {
                basic_info: BasicInfoConfig {
                    enabled: true,
                    send_on_start: true,
                    refresh_interval: Span::from_secs(300),
                },
                realtime_report: RealtimeReportConfig { enabled: true, send_on_start: true },
            },
            export: ExportConfig::default(),
            remote_shell: RemoteShellConfig::default(),
            remote_task: RemoteTaskConfig {
                max_concurrent: 1,
                timeout: Span::from_secs(60),
                max_stdout_bytes: 65536,
                max_stderr_bytes: 65536,
            },
            remote_probe: RemoteProbeConfig {
                enabled: false,
                timeout: Span::from_secs(3),
                global_min_interval: Span::from_millis(100),
                target_min_interval: Span::from_secs(1),
            },
        }
    }
}

/// Two connections are alike exactly where they agree in format, address, token, trust in
/// certificates, keep-alive time and pause.
pub proof fn law_connections_are_compared_field_by_field(
    a: ExportConfig,
    b: ExportConfig,
    same: bool,
)
    requires
        call_ensures(ExportConfig::same, (&a, &b), same),
    ensures
        same ==> a.format == b.format && a.base_url@ == b.base_url@ && a.unsafe_cert
            == b.unsafe_cert && a.heartbeat == b.heartbeat && a.reconnect_interval
            == b.reconnect_interval,
        same ==> (a.token is None && b.token is None) || (a.token is Some && b.token is Some
            && a.token->0@ == b.token->0@),
        a == b ==> same,
        !same ==> {
            ||| a.format != b.format
            ||| a.base_url@ != b.base_url@
            ||| a.token is Some != b.token is Some
            ||| a.token is Some && b.token is Some && a.token->0@ != b.token->0@
            ||| a.unsafe_cert != b.unsafe_cert
            ||| a.heartbeat.nanos != b.heartbeat.nanos
            ||| a.reconnect_interval.nanos != b.reconnect_interval.nanos
        },
{
}

} // verus!
