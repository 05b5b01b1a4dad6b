//! Scheduler limits, their partial update, errors and status.

use super::model::JobId;
use super::time::Span;
use vstd::prelude::*;

verus! {

/// Limits of the scheduler.
#[derive(Debug, Clone, Copy)]
pub struct SchedulerConfig {
    /// Most executions at a time.
    pub global_concurrency: usize,
    /// Most executions of one job at a time, where the job sets no limit of its own.
    pub default_job_concurrency: usize,
    /// Most executions in the ready queue.
    pub global_max_pending: usize,
    /// Most executions of one job in the ready queue, where the job sets no limit of its own.
    pub default_job_max_pending: usize,
    /// Most timers handled in one batch.
    pub due_batch_size: usize,
    /// Most registered jobs.
    pub max_jobs: usize,
    /// How long a shutdown waits for running executions.
    pub shutdown_timeout: Span,
    /// Shortest allowed period of an interval trigger.
    pub minimum_interval: Span,
    /// Shortest allowed first retry delay.
    pub minimum_retry_delay: Span,
    /// Largest allowed number of made-up executions.
    pub maximum_catch_up: u32,
    /// Largest allowed number of attempts.
    pub maximum_retry_attempts: u32,
    /// Room of the event channel.
    pub event_channel_capacity: usize,
    /// Room of the command channel.
    pub command_channel_capacity: usize,
}

impl Default for SchedulerConfig {
    fn default() -> (config: Self)
        ensures
            config == (SchedulerConfig {
                global_concurrency: 8,
                default_job_concurrency: 1,
                global_max_pending: 1024,
                default_job_max_pending: 16,
                due_batch_size: 64,
                max_jobs: 1024,
                shutdown_timeout: Span { nanos: 30_000_000_000 },
                minimum_interval: Span { nanos: 100_000_000 },
                minimum_retry_delay: Span { nanos: 100_000_000 },
                maximum_catch_up: 100,
                maximum_retry_attempts: 10,
                event_channel_capacity: 1024,
                command_channel_capacity: 256,
            }),
    {
        SchedulerConfig {
            global_concurrency: 8,
            default_job_concurrency: 1,
            global_max_pending: 1024,
            default_job_max_pending: 16,
            due_batch_size: 64,
            max_jobs: 1024,
            shutdown_timeout: Span::from_secs(30),
            minimum_interval: Span::from_millis(100),
            minimum_retry_delay: Span::from_millis(100),
            maximum_catch_up: 100,
            maximum_retry_attempts: 10,
            event_channel_capacity: 1024,
            command_channel_capacity: 256,
        }
    }
}

/// Partial update of the limits; the channels keep their room.
#[derive(Debug, Clone, Copy)]
pub struct SchedulerConfigPatch {
    /// See `SchedulerConfig::global_concurrency`.
    pub global_concurrency: Option<usize>,
    /// See `SchedulerConfig::default_job_concurrency`.
    pub default_job_concurrency: Option<usize>,
    /// See `SchedulerConfig::global_max_pending`.
    pub global_max_pending: Option<usize>,
    /// See `SchedulerConfig::default_job_max_pending`.
    pub default_job_max_pending: Option<usize>,
    /// See `SchedulerConfig::due_batch_size`.
    pub due_batch_size: Option<usize>,
    /// See `SchedulerConfig::max_jobs`.
    pub max_jobs: Option<usize>,
    /// See `SchedulerConfig::shutdown_timeout`.
    pub shutdown_timeout: Option<Span>,
    /// See `SchedulerConfig::minimum_interval`.
    pub minimum_interval: Option<Span>,
    /// See `SchedulerConfig::minimum_retry_delay`.
    pub minimum_retry_delay: Option<Span>,
    /// See `SchedulerConfig::maximum_catch_up`.
    pub maximum_catch_up: Option<u32>,
    /// See `SchedulerConfig::maximum_retry_attempts`.
    pub maximum_retry_attempts: Option<u32>,
}

impl Default for SchedulerConfigPatch {
    fn default() -> (patch: Self)
        ensures
            patch == (SchedulerConfigPatch {
                global_concurrency: None,
                default_job_concurrency: None,
                global_max_pending: None,
                default_job_max_pending: None,
                due_batch_size: None,
                max_jobs: None,
                shutdown_timeout: None,
                minimum_interval: None,
                minimum_retry_delay: None,
                maximum_catch_up: None,
                maximum_retry_attempts: None,
            }),
    {
        SchedulerConfigPatch {
            global_concurrency: None,
            default_job_concurrency: None,
            global_max_pending: None,
            default_job_max_pending: None,
            due_batch_size: None,
            max_jobs: None,
            shutdown_timeout: None,
            minimum_interval: None,
            minimum_retry_delay: None,
            maximum_catch_up: None,
            maximum_retry_attempts: None,
        }
    }
}

/// The limits with the revision that a later update has to name.
#[derive(Debug, Clone, Copy)]
pub struct SchedulerConfigSnapshot {
    /// Revision of the limits.
    pub revision: u64,
    /// Limits in force.
    pub config: SchedulerConfig,
}

/// Where the scheduler is in its life.
#[derive(Debug, Clone, Copy, PartialEq, Eq, Structural)]
pub enum SchedulerStatus {
    /// Takes commands and runs jobs.
    Running,
    /// Waits for running executions to end.
    Stopping,
    /// Nothing runs any more.
    Stopped,
}

/// Why the scheduler refused a request.
#[derive(Debug, PartialEq, Eq)]
pub enum SchedulerError {
    /// The number is no priority.
    InvalidPriority(u8),
    /// There is no room for another job; holds the limit.
    MaximumJobsReached(usize),
    /// The trigger or its options break a rule.
    InvalidTrigger(String),
    /// The retry policy breaks a limit.
    InvalidRetry(String),
    /// The wanted identifier is taken.
    JobAlreadyExists(JobId),
    /// There is no such job.
    JobNotFound(JobId),
    /// The job has moved on to another version.
    VersionConflict {
        /// Job.
        job_id: JobId,
        /// Version that the caller expected.
        expected: u64,
        /// Version of the job.
        actual: u64,
    },
    /// The job's version cannot grow any more.
    VersionOverflow(JobId),
    /// The limits have moved on to another revision.
    ConfigRevisionConflict {
        /// Revision that the caller expected.
        expected: u64,
        /// Revision of the limits.
        actual: u64,
    },
    /// The revision of the limits cannot grow any more.
    ConfigRevisionOverflow,
    /// The scheduler cannot run as asked.
    Actor(String),
    /// The scheduler is gone.
    Closed,
    /// The scheduler's own task failed.
    Join(String),
}

/// What a `SchedulerError` holds.
pub enum SchedulerErrorView {
    /// See `SchedulerError::InvalidPriority`.
    InvalidPriority(u8),
    /// See `SchedulerError::MaximumJobsReached`.
    MaximumJobsReached(usize),
    /// See `SchedulerError::InvalidTrigger`.
    InvalidTrigger(Seq<char>),
    /// See `SchedulerError::InvalidRetry`.
    InvalidRetry(Seq<char>),
    /// See `SchedulerError::JobAlreadyExists`.
    JobAlreadyExists(JobId),
    /// See `SchedulerError::JobNotFound`.
    JobNotFound(JobId),
    /// See `SchedulerError::VersionConflict`.
    VersionConflict { job_id: JobId, expected: u64, actual: u64 },
    /// See `SchedulerError::VersionOverflow`.
    VersionOverflow(JobId),
    /// See `SchedulerError::ConfigRevisionConflict`.
    ConfigRevisionConflict { expected: u64, actual: u64 },
    /// See `SchedulerError::ConfigRevisionOverflow`.
    ConfigRevisionOverflow,
    /// See `SchedulerError::Actor`.
    Actor(Seq<char>),
    /// See `SchedulerError::Closed`.
    Closed,
    /// See `SchedulerError::Join`.
    Join(Seq<char>),
}

impl View for SchedulerError {
    type V = SchedulerErrorView;

    open spec fn view(&self) -> SchedulerErrorView {
        match *self {
            SchedulerError::InvalidPriority(value) => SchedulerErrorView::InvalidPriority(value),
            SchedulerError::MaximumJobsReached(limit) => SchedulerErrorView::MaximumJobsReached(
                limit,
            ),
            SchedulerError::InvalidTrigger(text) => SchedulerErrorView::InvalidTrigger(text@),
            SchedulerError::InvalidRetry(text) => SchedulerErrorView::InvalidRetry(text@),
            SchedulerError::JobAlreadyExists(id) => SchedulerErrorView::JobAlreadyExists(id),
            SchedulerError::JobNotFound(id) => SchedulerErrorView::JobNotFound(id),
            SchedulerError::VersionConflict { job_id, expected, actual } =>
                SchedulerErrorView::VersionConflict { job_id, expected, actual },
            SchedulerError::VersionOverflow(id) => SchedulerErrorView::VersionOverflow(id),
            SchedulerError::ConfigRevisionConflict { expected, actual } =>
                SchedulerErrorView::ConfigRevisionConflict { expected, actual },
            SchedulerError::ConfigRevisionOverflow => SchedulerErrorView::ConfigRevisionOverflow,
            SchedulerError::Actor(text) => SchedulerErrorView::Actor(text@),
            SchedulerError::Closed => SchedulerErrorView::Closed,
            SchedulerError::Join(text) => SchedulerErrorView::Join(text@),
        }
    }
}

/// Answer of a request with its error taken by its view.
pub open spec fn unit_view(answer: Result<(), SchedulerError>) -> Result<(), SchedulerErrorView> {
    match answer {
        Ok(_) => Ok(()),
        Err(error) => Err(error@),
    }
}

/// Whether every capacity and limit is greater than zero.
pub open spec fn limits_positive(config: SchedulerConfig) -> bool {
    &&& config.global_concurrency > 0
    &&& config.default_job_concurrency > 0
    &&& config.due_batch_size > 0
    &&& config.global_max_pending > 0
    &&& config.default_job_max_pending > 0
    &&& config.max_jobs > 0
    &&& config.event_channel_capacity > 0
    &&& config.command_channel_capacity > 0
    &&& config.minimum_interval.nanos > 0
    &&& config.minimum_retry_delay.nanos > 0
    &&& config.maximum_catch_up > 0
    &&& config.maximum_retry_attempts > 0
}

/// Error for a limit of zero.
pub open spec fn zero_limit_error() -> SchedulerErrorView {
    SchedulerErrorView::Actor("scheduler capacities and safety limits must be greater than zero"@)
}

/// Checks that every capacity and limit is greater than zero.
pub fn validate_config(config: &SchedulerConfig) -> (checked: Result<(), SchedulerError>)
    ensures
        unit_view(checked) == (if limits_positive(*config) {
            Ok::<(), SchedulerErrorView>(())
        } else {
            Err::<(), SchedulerErrorView>(zero_limit_error())
        }),
{
    if config.global_concurrency == 0 || config.default_job_concurrency == 0
        || config.due_batch_size == 0 || config.global_max_pending == 0
        || config.default_job_max_pending == 0 || config.max_jobs == 0
        || config.event_channel_capacity == 0 || config.command_channel_capacity == 0
        || config.minimum_interval.is_zero() || config.minimum_retry_delay.is_zero()
        || config.maximum_catch_up == 0 || config.maximum_retry_attempts == 0 {
        return Err(
            SchedulerError::Actor(
                "scheduler capacities and safety limits must be greater than zero".to_owned(),
            ),
        );
    }
    Ok(())
}

/// The value of a patch, or the current one where the patch has none.
pub open spec fn patched<T>(patch: Option<T>, current: T) -> T {
    match patch {
        Some(value) => value,
        None => current,
    }
}

/// Limits after a patch.
pub open spec fn patched_config(
    config: SchedulerConfig,
    patch: SchedulerConfigPatch,
) -> SchedulerConfig {
    SchedulerConfig {
        global_concurrency: patched(patch.global_concurrency, config.global_concurrency),
        default_job_concurrency: patched(
            patch.default_job_concurrency,
            config.default_job_concurrency,
        ),
        global_max_pending: patched(patch.global_max_pending, config.global_max_pending),
        default_job_max_pending: patched(
            patch.default_job_max_pending,
            config.default_job_max_pending,
        ),
        due_batch_size: patched(patch.due_batch_size, config.due_batch_size),
        max_jobs: patched(patch.max_jobs, config.max_jobs),
        shutdown_timeout: patched(patch.shutdown_timeout, config.shutdown_timeout),
        minimum_interval: patched(patch.minimum_interval, config.minimum_interval),
        minimum_retry_delay: patched(patch.minimum_retry_delay, config.minimum_retry_delay),
        maximum_catch_up: patched(patch.maximum_catch_up, config.maximum_catch_up),
        maximum_retry_attempts: patched(
            patch.maximum_retry_attempts,
            config.maximum_retry_attempts,
        ),
        event_channel_capacity: config.event_channel_capacity,
        command_channel_capacity: config.command_channel_capacity,
    }
}

/// Puts the values of a patch into the limits.
pub fn apply_config_patch(config: &mut SchedulerConfig, patch: SchedulerConfigPatch)
    ensures
        *final(config) == patched_config(*old(config), patch),
{
    if let Some(value) = patch.global_concurrency {
        config.global_concurrency = value;
    }
    if let Some(value) = patch.default_job_concurrency {
        config.default_job_concurrency = value;
    }
    if let Some(value) = patch.global_max_pending {
        config.global_max_pending = value;
    }
    if let Some(value) = patch.default_job_max_pending {
        config.default_job_max_pending = value;
    }
    if let Some(value) = patch.due_batch_size {
        config.due_batch_size = value;
    }
    if let Some(value) = patch.max_jobs {
        config.max_jobs = value;
    }
    if let Some(value) = patch.shutdown_timeout {
        config.shutdown_timeout = value;
    }
    if let Some(value) = patch.minimum_interval {
        config.minimum_interval = value;
    }
    if let Some(value) = patch.minimum_retry_delay {
        config.minimum_retry_delay = value;
    }
    if let Some(value) = patch.maximum_catch_up {
        config.maximum_catch_up = value;
    }
    if let Some(value) = patch.maximum_retry_attempts {
        config.maximum_retry_attempts = value;
    }
}

/// Text of an error as it is kept as the reason of a disabled job: the carried text.
pub open spec fn error_text(error: SchedulerErrorView) -> Seq<char> {
    match error {
        SchedulerErrorView::InvalidTrigger(text) => text,
        SchedulerErrorView::InvalidRetry(text) => text,
        SchedulerErrorView::Actor(text) => text,
        SchedulerErrorView::Join(text) => text,
        SchedulerErrorView::InvalidPriority(_) => "priority is out of range"@,
        SchedulerErrorView::MaximumJobsReached(_) => "maximum job count reached"@,
        SchedulerErrorView::JobAlreadyExists(_) => "job already exists"@,
        SchedulerErrorView::JobNotFound(_) => "job not found"@,
        SchedulerErrorView::VersionConflict { .. } => "job version conflict"@,
        SchedulerErrorView::VersionOverflow(_) => "job version overflowed"@,
        SchedulerErrorView::ConfigRevisionConflict { .. } => "configuration revision conflict"@,
        SchedulerErrorView::ConfigRevisionOverflow => "configuration revision overflowed"@,
        SchedulerErrorView::Closed => "scheduler is closed"@,
    }
}

impl SchedulerError {
    /// Text of this error.
    pub fn message(&self) -> (text: String)
        ensures
            text@ == error_text(self@),
    {
        match self {
            SchedulerError::InvalidTrigger(text) => text.clone(),
            SchedulerError::InvalidRetry(text) => text.clone(),
            SchedulerError::Actor(text) => text.clone(),
            SchedulerError::Join(text) => text.clone(),
            SchedulerError::InvalidPriority(_) => "priority is out of range".to_owned(),
            SchedulerError::MaximumJobsReached(_) => "maximum job count reached".to_owned(),
            SchedulerError::JobAlreadyExists(_) => "job already exists".to_owned(),
            SchedulerError::JobNotFound(_) => "job not found".to_owned(),
            SchedulerError::VersionConflict { .. } => "job version conflict".to_owned(),
            SchedulerError::VersionOverflow(_) => "job version overflowed".to_owned(),
            SchedulerError::ConfigRevisionConflict { .. } =>
                "configuration revision conflict".to_owned(),
            SchedulerError::ConfigRevisionOverflow =>
                "configuration revision overflowed".to_owned(),
            SchedulerError::Closed => "scheduler is closed".to_owned(),
        }
    }
}

/// Limits are in order exactly where none of them is zero. The time that a shutdown waits may be
/// zero.
pub proof fn law_no_limit_is_zero(config: SchedulerConfig, checked: Result<(), SchedulerError>)
    requires
        call_ensures(validate_config, (&config,), checked),
    ensures
        checked is Err <==> {
            ||| config.global_concurrency == 0
            ||| config.default_job_concurrency == 0
            ||| config.global_max_pending == 0
            ||| config.default_job_max_pending == 0
            ||| config.due_batch_size == 0
            ||| config.max_jobs == 0
            ||| config.minimum_interval.nanos == 0
            ||| config.minimum_retry_delay.nanos == 0
            ||| config.maximum_catch_up == 0
            ||| config.maximum_retry_attempts == 0
            ||| config.event_channel_capacity == 0
            ||| config.command_channel_capacity == 0
        },
        checked matches Err(error) ==> error is Actor,
{
}

} // verus!
