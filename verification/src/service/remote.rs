//! Remote capabilities: tasks, probes, recurring jobs and interactive sessions.

pub mod job;
pub mod laws;
pub mod operation_laws;
pub mod probe;
pub mod schedule;
pub mod schedule_laws;
pub mod shell;
pub mod task;

use vstd::prelude::*;

verus! {

/// Switch of the capabilities that run commands on the machine.
#[derive(Debug, Clone, Copy, PartialEq, Eq, Structural)]
pub struct RemoteCommandOptions {
    /// Whether commands may be run; only a start argument can allow it.
    pub enabled: bool,
}

impl Default for RemoteCommandOptions {
    fn default() -> (options: Self)
        ensures
            !options.enabled,
    {
        RemoteCommandOptions { enabled: false }
    }
}

impl RemoteCommandOptions {
    /// Checks the options. Every value is in order.
    pub fn validate(&self) -> (checked: Result<(), String>)
        ensures
            checked is Ok,
    {
        Ok(())
    }
}

} // verus!
