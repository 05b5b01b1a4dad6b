//! What the start arguments allow.

use crate::service::config::MetricLevel;
use crate::service::remote::shell::options::RemoteShellOptions;
use crate::service::remote::task::RemoteTaskOptions;
use vstd::prelude::*;

verus! {

/// Version of the agent.
pub const AGENT_VERSION: &'static str = "0.1.0";

/// Highest amount of detail that the server may ask for. What the agent samples by its own
/// configuration is not limited by it.
#[derive(Debug, Clone, Copy, PartialEq, Eq, Structural)]
pub enum RemoteMetricPermission {
    /// Nothing.
    Denied,
    /// Totals.
    Count,
    /// Totals and short lists.
    Light,
    /// Everything.
    Details,
}

impl Default for RemoteMetricPermission {
    fn default() -> (permission: Self)
        ensures
            permission == RemoteMetricPermission::Count,
    {
        RemoteMetricPermission::Count
    }
}

/// Name of a permission.
pub open spec fn permission_name(permission: RemoteMetricPermission) -> Seq<char> {
    match permission {
        RemoteMetricPermission::Denied => "none"@,
        RemoteMetricPermission::Count => "count"@,
        RemoteMetricPermission::Light => "light"@,
        RemoteMetricPermission::Details => "details"@,
    }
}

/// Name of an amount of detail.
pub open spec fn level_name(level: MetricLevel) -> Seq<char> {
    match level {
        MetricLevel::Count => "count"@,
        MetricLevel::Light => "light"@,
        MetricLevel::Details => "details"@,
    }
}

/// Name of an amount of detail.
pub fn metric_level_name(level: MetricLevel) -> (name: &'static str)
    ensures
        name@ == level_name(level),
{
    match level {
        MetricLevel::Count => "count",
        MetricLevel::Light => "light",
        MetricLevel::Details => "details",
    }
}

impl RemoteMetricPermission {
    /// Whether the permission covers an amount of detail.
    pub open spec fn covers(self, level: MetricLevel) -> bool {
        match level {
            MetricLevel::Count => !(self is Denied),
            MetricLevel::Light => self is Light || self is Details,
            MetricLevel::Details => self is Details,
        }
    }

    /// Whether the permission covers an amount of detail.
    pub fn allows(self, level: MetricLevel) -> (allowed: bool)
        ensures
            allowed == self.covers(level),
    {
        self.rank() >= RemoteMetricPermission::rank_for_metric_level(level)
    }

    /// Name of the permission.
    pub fn as_str(self) -> (name: &'static str)
        ensures
            name@ == permission_name(self),
    {
        match self {
            RemoteMetricPermission::Denied => "none",
            RemoteMetricPermission::Count => "count",
            RemoteMetricPermission::Light => "light",
            RemoteMetricPermission::Details => "details",
        }
    }

    /// Place of the permission in the order of permissions.
    fn rank(self) -> (rank: u8)
        ensures
            rank == (match self {
                RemoteMetricPermission::Denied => 0,
                RemoteMetricPermission::Count => 1,
                RemoteMetricPermission::Light => 2,
                RemoteMetricPermission::Details => 3int,
            }),
    {
        match self {
            RemoteMetricPermission::Denied => 0,
            RemoteMetricPermission::Count => 1,
            RemoteMetricPermission::Light => 2,
            RemoteMetricPermission::Details => 3,
        }
    }

    /// Place of the lowest permission that covers an amount of detail.
    fn rank_for_metric_level(level: MetricLevel) -> (rank: u8)
        ensures
            rank == (match level {
                MetricLevel::Count => 1,
                MetricLevel::Light => 2,
                MetricLevel::Details => 3int,
            }),
    {
        match level {
            MetricLevel::Count => 1,
            MetricLevel::Light => 2,
            MetricLevel::Details => 3,
        }
    }
}

/// What the server may ask for.
#[derive(Debug, Clone, Copy, PartialEq, Eq, Structural)]
pub struct DiagnosticOptions {
    /// Of processes.
    pub process_permission: RemoteMetricPermission,
    /// Of sockets.
    pub socket_permission: RemoteMetricPermission,
}

impl Default for DiagnosticOptions {
    fn default() -> (options: Self)
        ensures
            options.process_permission == RemoteMetricPermission::Count,
            options.socket_permission == RemoteMetricPermission::Count,
    {
        DiagnosticOptions {
            process_permission: RemoteMetricPermission::Count,
            socket_permission: RemoteMetricPermission::Count,
        }
    }
}

impl DiagnosticOptions {
    /// Checks the options. Every value is in order.
    pub fn validate(&self) -> (checked: Result<(), String>)
        ensures
            checked is Ok,
    {
        Ok(())
    }
}

/// What the start arguments allow.
#[derive(Debug, Clone, Copy)]
pub struct ServiceOptions {
    /// Version of the agent.
    pub agent_version: &'static str,
    /// What the server may ask for.
    pub diagnostics: DiagnosticOptions,
    /// Interactive sessions.
    pub remote_shell: RemoteShellOptions,
    /// Remote tasks.
    pub remote_task: RemoteTaskOptions,
}

impl Default for ServiceOptions {
    fn default() -> (options: Self)
        ensures
            options.agent_version@ == "0.1.0"@,
            options.diagnostics.process_permission == RemoteMetricPermission::Count,
            options.diagnostics.socket_permission == RemoteMetricPermission::Count,
            !options.remote_shell.enabled,
            !options.remote_task.enabled,
    {
        ServiceOptions {
            agent_version: AGENT_VERSION,
            diagnostics: DiagnosticOptions::default(),
            remote_shell: RemoteShellOptions::default(),
            remote_task: RemoteTaskOptions::default(),
        }
    }
}

impl ServiceOptions {
    /// Checks the options. Every value is in order.
    pub fn validate(&self) -> (checked: Result<(), String>)
        ensures
            checked is Ok,
    {
        if let Err(text) = self.diagnostics.validate() {
            return Err(text);
        }
        if let Err(text) = self.remote_shell.validate() {
            return Err(text);
        }
        self.remote_task.validate()
    }
}

/// A permission that covers an amount of detail covers every smaller amount.
pub proof fn law_permissions_are_nested(
    permission: RemoteMetricPermission,
    larger: MetricLevel,
    smaller: MetricLevel,
)
    requires
        permission.covers(larger),
        smaller == MetricLevel::Count || larger == MetricLevel::Details || smaller == larger,
    ensures
        permission.covers(smaller),
{
}

/// What a permission reaches up to.
pub open spec fn reach(permission: RemoteMetricPermission) -> int {
    match permission {
        RemoteMetricPermission::Denied => 0,
        RemoteMetricPermission::Count => 1,
        RemoteMetricPermission::Light => 2,
        RemoteMetricPermission::Details => 3,
    }
}

/// What an amount of detail takes: totals least, everything most.
pub open spec fn detail_amount(level: MetricLevel) -> int {
    match level {
        MetricLevel::Count => 1,
        MetricLevel::Light => 2,
        MetricLevel::Details => 3,
    }
}

/// A permission covers exactly the amounts of detail that it reaches up to: a denied one nothing,
/// the largest one everything.
pub proof fn law_permissions_cover_what_they_reach(
    permission: RemoteMetricPermission,
    level: MetricLevel,
)
    ensures
        permission.covers(level) <==> reach(permission) >= detail_amount(level),
{
}

} // verus!
