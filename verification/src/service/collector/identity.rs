//! Refresh of the machine's identity.

use crate::scheduler::time::Span;
use crate::service::config::AgentConfig;
use vstd::prelude::*;

verus! {

/// Parts of the configuration that decide about the sampled identity.
#[derive(Debug, Clone, Copy, PartialEq, Eq)]
pub struct IdentitySampleInputs<'a> {
    /// Identity of the agent.
    pub agent_id: &'a String,
    /// Whether the public address is looked up.
    pub public_ip_enabled: bool,
    /// Whether an address of a local interface is preferred.
    pub prefer_interface_candidate: bool,
    /// Whether such an address is verified by an outside service.
    pub verify_interface_candidate: bool,
    /// Time limit of one lookup.
    pub lookup_timeout: Span,
    /// Largest number of outside services asked at once.
    pub max_concurrency: usize,
}

impl<'a> IdentitySampleInputs<'a> {
    /// Parts of the configuration that decide about the sampled identity.
    pub fn from_config(config: &'a AgentConfig) -> (inputs: IdentitySampleInputs<'a>)
        ensures
            inputs == (IdentitySampleInputs {
                agent_id: &config.agent_id,
                public_ip_enabled: config.public_ip.enabled,
                prefer_interface_candidate: config.public_ip.prefer_interface_candidate,
                verify_interface_candidate: config.public_ip.verify_interface_candidate,
                lookup_timeout: config.public_ip.lookup_timeout,
                max_concurrency: config.public_ip.max_concurrency,
            }),
    {
        IdentitySampleInputs {
            agent_id: &config.agent_id,
            public_ip_enabled: config.public_ip.enabled,
            prefer_interface_candidate: config.public_ip.prefer_interface_candidate,
            verify_interface_candidate: config.public_ip.verify_interface_candidate,
            lookup_timeout: config.public_ip.lookup_timeout,
            max_concurrency: config.public_ip.max_concurrency,
        }
    }
}

/// Whether two configurations lead to the same identity.
pub open spec fn same_identity_inputs(a: AgentConfig, b: AgentConfig) -> bool {
    &&& a.agent_id@ == b.agent_id@
    &&& a.public_ip.enabled == b.public_ip.enabled
    &&& a.public_ip.prefer_interface_candidate == b.public_ip.prefer_interface_candidate
    &&& a.public_ip.verify_interface_candidate == b.public_ip.verify_interface_candidate
    &&& a.public_ip.lookup_timeout == b.public_ip.lookup_timeout
    &&& a.public_ip.max_concurrency == b.public_ip.max_concurrency
}

/// Whether a new configuration calls for a new sample of the identity.
pub fn identity_sample_inputs_changed(previous: &AgentConfig, next: &AgentConfig) -> (changed: bool)
    ensures
        changed == !same_identity_inputs(*previous, *next),
{
    let a = IdentitySampleInputs::from_config(previous);
    let b = IdentitySampleInputs::from_config(next);
    !(*a.agent_id == *b.agent_id && a.public_ip_enabled == b.public_ip_enabled
        && a.prefer_interface_candidate == b.prefer_interface_candidate
        && a.verify_interface_candidate == b.verify_interface_candidate && a.lookup_timeout
        == b.lookup_timeout && a.max_concurrency == b.max_concurrency)
}

/// What a new configuration changes for the refresh.
#[derive(Debug, Clone, Copy, PartialEq, Eq, Structural)]
pub struct IdentityRefreshConfigChange {
    /// The time between two refreshes.
    pub refresh_interval_changed: bool,
    /// Something that decides about the identity.
    pub sample_inputs_changed: bool,
}

impl Default for IdentityRefreshConfigChange {
    fn default() -> (change: Self)
        ensures
            change == (IdentityRefreshConfigChange {
                refresh_interval_changed: false,
                sample_inputs_changed: false,
            }),
    {
        IdentityRefreshConfigChange {
            refresh_interval_changed: false,
            sample_inputs_changed: false,
        }
    }
}

impl IdentityRefreshConfigChange {
    /// Whether anything changed for the refresh.
    pub fn any(self) -> (any: bool)
        ensures
            any == (self.refresh_interval_changed || self.sample_inputs_changed),
    {
        self.refresh_interval_changed || self.sample_inputs_changed
    }
}

/// What a new configuration changes for the refresh.
pub open spec fn refresh_change(
    previous: AgentConfig,
    next: AgentConfig,
) -> IdentityRefreshConfigChange {
    IdentityRefreshConfigChange {
        refresh_interval_changed: previous.public_ip.refresh_interval
            != next.public_ip.refresh_interval,
        sample_inputs_changed: !same_identity_inputs(previous, next),
    }
}

/// What a new configuration changes for the refresh.
pub fn identity_refresh_config_change(
    previous: &AgentConfig,
    next: &AgentConfig,
) -> (change: IdentityRefreshConfigChange)
    ensures
        change == refresh_change(*previous, *next),
{
    IdentityRefreshConfigChange {
        refresh_interval_changed: previous.public_ip.refresh_interval
            != next.public_ip.refresh_interval,
        sample_inputs_changed: identity_sample_inputs_changed(previous, next),
    }
}

/// What the runtime has to do.
#[derive(Debug, Clone, Copy, PartialEq, Eq, Structural)]
pub enum RefreshAction {
    /// Wait for the next thing to happen.
    Wait,
    /// Sample the identity, publish it and report whether somebody took it.
    Sample,
    /// End the loop.
    Stop,
}

/// Refresh loop.
#[derive(Debug)]
pub struct IdentityRefresh {
    /// Configuration.
    pub config: AgentConfig,
    /// Whether configurations can still arrive.
    pub config_open: bool,
}

impl IdentityRefresh {
    /// What follows a configuration, or the end of the configurations: the loop, whether the
    /// interval starts again, and what to do.
    pub open spec fn reconfigured(self, config: Option<AgentConfig>) -> (
        IdentityRefresh,
        (bool, RefreshAction),
    ) {
        match config {
            Some(config) => (
                IdentityRefresh { config, ..self },
                (
                    refresh_change(self.config, config).refresh_interval_changed,
                    if refresh_change(self.config, config).sample_inputs_changed {
                        RefreshAction::Sample
                    } else {
                        RefreshAction::Wait
                    },
                ),
            ),
            None => (
                IdentityRefresh { config_open: false, ..self },
                (false, RefreshAction::Wait),
            ),
        }
    }

    /// Loop with the given configuration.
    pub fn start(config: AgentConfig) -> (refresh: IdentityRefresh)
        ensures
            refresh == (IdentityRefresh { config, config_open: true }),
    {
        IdentityRefresh { config, config_open: true }
    }

    /// Whether the loop waits for the regular refresh.
    pub fn waits_for_tick(&self) -> (waits: bool)
        ensures
            waits == self.config.public_ip.enabled,
    {
        self.config.public_ip.enabled
    }

    /// A configuration arrived, or no more will come. Says whether the regular refresh starts
    /// its interval again; the identity is sampled at once where it may have changed.
    pub fn on_config(&mut self, config: Option<AgentConfig>) -> (step: (bool, RefreshAction))
        ensures
            (*final(self), step) == old(self).reconfigured(config),
    {
        match config {
            Some(config) => {
                let change = identity_refresh_config_change(&self.config, &config);
                self.config = config;
                let action = if change.sample_inputs_changed {
                    RefreshAction::Sample
                } else {
                    RefreshAction::Wait
                };
                (change.refresh_interval_changed, action)
            },
            None => {
                self.config_open = false;
                (false, RefreshAction::Wait)
            },
        }
    }

    /// The identity was published, or nobody takes it any more, which ends the loop.
    pub fn on_published(&self, taken: bool) -> (action: RefreshAction)
        ensures
            action == (if taken {
                RefreshAction::Wait
            } else {
                RefreshAction::Stop
            }),
    {
        if taken {
            RefreshAction::Wait
        } else {
            RefreshAction::Stop
        }
    }
}

/// Whether the first report waits for the public address, and how often that is tried, does not
/// touch the refresh.
pub proof fn law_startup_settings_do_not_refresh(
    config: AgentConfig,
    required_for_first_report: bool,
    retry_interval: Span,
)
    ensures
        ({
            let next = AgentConfig {
                public_ip: crate::service::config::PublicIpConfig {
                    required_for_first_report,
                    retry_interval,
                    ..config.public_ip
                },
                ..config
            };
            refresh_change(config, next) == (IdentityRefreshConfigChange {
                refresh_interval_changed: false,
                sample_inputs_changed: false,
            })
        }),
{
}

/// The identity is sampled anew exactly where something changed that decides about it: the agent's
/// identity or a setting of the lookup. The interval starts again exactly where it changed itself.
pub proof fn law_identity_is_sampled_where_it_may_change(
    refresh: IdentityRefresh,
    config: AgentConfig,
)
    ensures
        ({
            let before = refresh.config;
            let (next, (restarts, action)) = refresh.reconfigured(Some(config));
            &&& next.config == config
            &&& restarts <==> before.public_ip.refresh_interval.nanos
                != config.public_ip.refresh_interval.nanos
            &&& action == RefreshAction::Sample <==> {
                ||| before.agent_id@ != config.agent_id@
                ||| before.public_ip.enabled != config.public_ip.enabled
                ||| before.public_ip.prefer_interface_candidate
                    != config.public_ip.prefer_interface_candidate
                ||| before.public_ip.verify_interface_candidate
                    != config.public_ip.verify_interface_candidate
                ||| before.public_ip.lookup_timeout.nanos != config.public_ip.lookup_timeout.nanos
                ||| before.public_ip.max_concurrency != config.public_ip.max_concurrency
            }
            &&& action == RefreshAction::Sample || action == RefreshAction::Wait
            &&& refresh.reconfigured(None).0.config == before
            &&& !refresh.reconfigured(None).0.config_open
        }),
{
}

/// The identity is refreshed regularly exactly where the public address is looked up, until nobody
/// takes it any more.
pub proof fn law_refresh_goes_on_while_it_is_taken(
    refresh: IdentityRefresh,
    waits: bool,
    taken: bool,
    action: RefreshAction,
)
    requires
        call_ensures(IdentityRefresh::waits_for_tick, (&refresh,), waits),
        call_ensures(IdentityRefresh::on_published, (&refresh, taken), action),
    ensures
        waits <==> refresh.config.public_ip.enabled,
        action is Stop <==> !taken,
        action is Wait <==> taken,
{
}

} // verus!
