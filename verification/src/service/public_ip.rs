//! Refresh of the public address.

use crate::service::collector::identity::same_identity_inputs;
use crate::service::config::AgentConfig;
use vstd::prelude::*;

verus! {

/// Whether a new configuration calls for a new lookup of the public address. The lookup depends
/// on what the identity depends on.
pub fn public_ip_identity_inputs_changed(previous: &AgentConfig, next: &AgentConfig) -> (changed:
    bool)
    ensures
        changed == !same_identity_inputs(*previous, *next),
{
    previous.agent_id != next.agent_id || previous.public_ip.enabled != next.public_ip.enabled
        || previous.public_ip.prefer_interface_candidate
        != next.public_ip.prefer_interface_candidate
        || previous.public_ip.verify_interface_candidate
        != next.public_ip.verify_interface_candidate || previous.public_ip.lookup_timeout
        != next.public_ip.lookup_timeout || previous.public_ip.max_concurrency
        != next.public_ip.max_concurrency
}

/// The address is looked up again exactly where the agent, the switch of the lookup, the use of
/// addresses of the own interfaces, the time limit or the number of concurrent lookups changed.
pub proof fn law_address_is_looked_up_again(
    previous: AgentConfig,
    next: AgentConfig,
    changed: bool,
)
    requires
        call_ensures(public_ip_identity_inputs_changed, (&previous, &next), changed),
    ensures
        changed <==> {
            ||| previous.agent_id@ != next.agent_id@
            ||| previous.public_ip.enabled != next.public_ip.enabled
            ||| previous.public_ip.prefer_interface_candidate
                != next.public_ip.prefer_interface_candidate
            ||| previous.public_ip.verify_interface_candidate
                != next.public_ip.verify_interface_candidate
            ||| previous.public_ip.lookup_timeout.nanos != next.public_ip.lookup_timeout.nanos
            ||| previous.public_ip.max_concurrency != next.public_ip.max_concurrency
        },
{
}

} // verus!
