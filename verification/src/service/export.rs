//! Export of outbound events over a connection that may fail.

pub mod delivery;
pub mod laws;
pub mod operation_laws;
pub mod pending;
pub mod pipeline;
pub mod report_laws;
pub mod supervisor;
