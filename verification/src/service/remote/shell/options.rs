//! Switch of the interactive sessions.

use vstd::prelude::*;

verus! {

/// Switch of the interactive sessions.
#[derive(Debug, Clone, Copy, PartialEq, Eq, Structural)]
pub struct RemoteShellOptions {
    /// Whether sessions may be opened; only a start argument can allow it.
    pub enabled: bool,
}

impl Default for RemoteShellOptions {
    fn default() -> (options: Self)
        ensures
            !options.enabled,
    {
        RemoteShellOptions { enabled: false }
    }
}

impl RemoteShellOptions {
    /// Checks the options. Every value is in order.
    pub fn validate(&self) -> (checked: Result<(), String>)
        ensures
            checked is Ok,
    {
        Ok(())
    }
}

} // verus!
