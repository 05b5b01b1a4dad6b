//! Service of the agent: sampling, reporting, export and remote commands.

pub mod bootstrap;
pub mod clock;
pub mod collector;
pub mod config;
pub mod export;
pub mod inbound;
pub mod lifecycle;
pub mod listener;
pub mod operation_laws;
pub mod options;
pub mod outbound;
pub mod patch;
pub mod protocol;
pub mod public_ip;
pub mod remote;
pub mod reporter;
