//! Start of the service: the first samples, and the wait for the public address.

use crate::service::collector::{enabled_groups, switched_on, DueMetricGroups};
use crate::service::config::AgentConfig;
use vstd::prelude::*;

verus! {

/// Whether the first report waits for the public address.
pub open spec fn waits_for_address(config: AgentConfig) -> bool {
    config.public_ip.enabled && config.public_ip.required_for_first_report
}

/// Whether the first report waits for the public address.
pub fn public_ip_required_for_first_report(config: &AgentConfig) -> (required: bool)
    ensures
        required == waits_for_address(*config),
{
    config.public_ip.enabled && config.public_ip.required_for_first_report
}

/// Step of the start.
#[derive(Debug, Clone, Copy, PartialEq, Eq, Structural)]
pub enum BootstrapStep {
    /// Tell the store which groups are reported.
    Configure(DueMetricGroups),
    /// Store the description of the system.
    System,
    /// Sample these groups in order and store the samples.
    Sample(DueMetricGroups),
    /// Sample the identity and store it.
    Identity,
}

/// Steps of the start, in order. Groups that are switched off are not sampled; the identity comes
/// last because its lookup may take long.
pub fn bootstrap_steps(config: &AgentConfig) -> (steps: Vec<BootstrapStep>)
    ensures
        steps@ == seq![
            BootstrapStep::Configure(switched_on(*config)),
            BootstrapStep::System,
            BootstrapStep::Sample(switched_on(*config)),
            BootstrapStep::Identity,
        ],
{
    let groups = enabled_groups(config);
    let steps = vec![
        BootstrapStep::Configure(groups),
        BootstrapStep::System,
        BootstrapStep::Sample(groups),
        BootstrapStep::Identity,
    ];
    assert(steps@ =~= seq![
        BootstrapStep::Configure(switched_on(*config)),
        BootstrapStep::System,
        BootstrapStep::Sample(switched_on(*config)),
        BootstrapStep::Identity,
    ]);
    steps
}

/// What the runtime has to do.
#[derive(Debug, Clone, Copy, PartialEq, Eq, Structural)]
pub enum RetryAction {
    /// Wait for the next thing to happen.
    Wait,
    /// Start the interval between two lookups again, and wait.
    RestartTimer,
    /// Sample the identity, store it and report whether the address is known.
    Sample,
    /// Go on without further lookups.
    Finish,
}

/// Wait for the public address.
#[derive(Debug)]
pub struct IdentityRetry {
    /// Configuration.
    pub config: AgentConfig,
    /// Whether configurations can still arrive.
    pub config_open: bool,
}

impl IdentityRetry {
    /// The wait after a configuration arrived, or after the last one, and what is to be done.
    pub open spec fn reconfigured(self, config: Option<AgentConfig>) -> (
        IdentityRetry,
        RetryAction,
    ) {
        match config {
            Some(config) => (
                IdentityRetry { config, ..self },
                if waits_for_address(config) {
                    RetryAction::RestartTimer
                } else {
                    RetryAction::Finish
                },
            ),
            None => (IdentityRetry { config_open: false, ..self }, RetryAction::Wait),
        }
    }

    /// Begins the wait. There is none where the address is not required or known already.
    pub fn start(config: AgentConfig, address_known: bool) -> (started: (
        IdentityRetry,
        RetryAction,
    ))
        ensures
            started.0 == (IdentityRetry { config, config_open: true }),
            started.1 == (if waits_for_address(config) && !address_known {
                RetryAction::RestartTimer
            } else {
                RetryAction::Finish
            }),
    {
        let action = if public_ip_required_for_first_report(&config) && !address_known {
            RetryAction::RestartTimer
        } else {
            RetryAction::Finish
        };
        (IdentityRetry { config, config_open: true }, action)
    }

    /// The interval between two lookups has passed.
    pub fn on_tick(&self) -> (action: RetryAction)
        ensures
            action == RetryAction::Sample,
    {
        RetryAction::Sample
    }

    /// The identity was sampled.
    pub fn on_sampled(&self, address_known: bool) -> (action: RetryAction)
        ensures
            action == (if address_known {
                RetryAction::Finish
            } else {
                RetryAction::Wait
            }),
    {
        if address_known {
            RetryAction::Finish
        } else {
            RetryAction::Wait
        }
    }

    /// A configuration arrived, or no more will come. The wait ends where the address is no
    /// longer required.
    pub fn on_config(&mut self, config: Option<AgentConfig>) -> (action: RetryAction)
        ensures
            *final(self) == old(self).reconfigured(config).0,
            action == old(self).reconfigured(config).1,
    {
        match config {
            Some(config) => {
                let required = public_ip_required_for_first_report(&config);
                self.config = config;
                if required {
                    RetryAction::RestartTimer
                } else {
                    RetryAction::Finish
                }
            },
            None => {
                self.config_open = false;
                RetryAction::Wait
            },
        }
    }
}

/// The groups that are reported are known before anything is stored, they are exactly those that
/// are sampled, and the identity, whose lookup may take long, comes last.
pub proof fn law_steps_of_the_start(config: AgentConfig, steps: Vec<BootstrapStep>)
    requires
        call_ensures(bootstrap_steps, (&config,), steps),
    ensures
        steps@.len() > 0,
        steps@[0] == BootstrapStep::Configure(switched_on(config)),
        steps@.last() == BootstrapStep::Identity,
        steps@.contains(BootstrapStep::System),
        forall|groups: DueMetricGroups| #[trigger]
            steps@.contains(BootstrapStep::Sample(groups)) <==> groups == switched_on(config),
        steps@.no_duplicates(),
{
    assert(steps@[1] == BootstrapStep::System);
    assert(steps@[2] == BootstrapStep::Sample(switched_on(config)));
}

/// The start waits for the public address only where the first report needs it and it is not
/// known. It looks again at every interval, and stops as soon as the address is known.
pub proof fn law_wait_ends_with_the_address(
    config: AgentConfig,
    known: bool,
    started: (IdentityRetry, RetryAction),
    retry: IdentityRetry,
    ticked: RetryAction,
    sampled: RetryAction,
)
    requires
        call_ensures(IdentityRetry::start, (config, known), started),
        call_ensures(IdentityRetry::on_tick, (&retry,), ticked),
        call_ensures(IdentityRetry::on_sampled, (&retry, known), sampled),
    ensures
        started.0.config == config && started.0.config_open,
        started.1 is Finish <==> known || !config.public_ip.enabled
            || !config.public_ip.required_for_first_report,
        started.1 is Finish || started.1 is RestartTimer,
        ticked is Sample,
        sampled is Finish <==> known,
        sampled is Wait <==> !known,
{
}

/// A new configuration is used from then on. The wait ends where it no longer asks for the
/// address, and begins a new interval otherwise. When no more configurations come, the wait goes
/// on with the last one.
pub proof fn law_wait_follows_the_configuration(
    retry: IdentityRetry,
    config: Option<AgentConfig>,
)
    ensures
        config matches Some(next) ==> {
            &&& retry.reconfigured(config).0.config == next
            &&& retry.reconfigured(config).0.config_open == retry.config_open
            &&& retry.reconfigured(config).1 is Finish <==> !next.public_ip.enabled
                || !next.public_ip.required_for_first_report
            &&& retry.reconfigured(config).1 is RestartTimer <==> next.public_ip.enabled
                && next.public_ip.required_for_first_report
        },
        config is None ==> {
            &&& retry.reconfigured(config).0.config == retry.config
            &&& !retry.reconfigured(config).0.config_open
            &&& retry.reconfigured(config).1 is Wait
        },
{
}

} // verus!
