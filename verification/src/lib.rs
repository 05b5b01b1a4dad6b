//! Verified core of the smalux monitoring agent.
//!
//! `scheduler` holds the job scheduler as a state machine over plain values: every entry point
//! takes the wall clock reading and returns the effects that the runtime has to perform.
//! `service` holds the decisions of the agent's loops in the same manner.

pub mod scheduler;
pub mod service;
pub mod tasks;
pub mod text;
