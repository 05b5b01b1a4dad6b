//! Job scheduler: triggers, queueing policies, retries and the engine that ties them together.

pub mod config;
pub mod cron;
pub mod deadline;
pub mod engine;
pub mod event;
pub mod model;
pub mod operation_laws;
pub mod queue;
pub mod queue_laws;
pub mod task;
pub mod time;
pub mod timing;
