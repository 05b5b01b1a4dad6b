//! Interactive sessions.

pub mod laws;
pub mod manager;
pub mod message;
pub mod options;
pub mod session;
pub mod stream;
