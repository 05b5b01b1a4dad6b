//! Triggers, execution policies, job states and partial updates.

use super::config::SchedulerError;
use super::task::TaskBinding;
use super::time::{Span, Timestamp, NANOS_PER_SECOND};
use std::cmp::Ordering;
use vstd::prelude::*;
use vstd::std_specs::cmp::{PartialOrdSpec, PartialOrdSpecImpl};
use vstd::std_specs::convert::{FromSpecImpl, TryFromSpecImpl};

verus! {

/// Identifier of a job: the 128 bits of a UUID.
pub type JobId = u128;

/// Identifier of one logical execution; it stays the same over retries.
pub type RunId = u128;

/// When a trigger fires.
#[derive(Debug, PartialEq, Eq)]
pub enum Schedule {
    /// Once at a UTC instant; an instant in the past fires as soon as possible.
    Once {
        /// Wanted instant.
        at: Timestamp,
    },
    /// Again and again after a fixed time, in phase with the first instant.
    Interval {
        /// Time between two planned instants.
        every: Span,
        /// First planned instant; `None` starts when the job is registered.
        start_at: Option<Timestamp>,
    },
    /// At the occurrences of a cron expression in a time zone.
    Cron {
        /// Cron expression, such as `0 */5 * * * *`.
        expression: String,
        /// IANA name of the time zone, such as `Asia/Shanghai`.
        timezone: String,
    },
}

/// What a `Schedule` holds.
pub enum ScheduleView {
    /// See `Schedule::Once`.
    Once { at: Timestamp },
    /// See `Schedule::Interval`.
    Interval { every: Span, start_at: Option<Timestamp> },
    /// See `Schedule::Cron`.
    Cron { expression: Seq<char>, timezone: Seq<char> },
}

impl View for Schedule {
    type V = ScheduleView;

    open spec fn view(&self) -> ScheduleView {
        match *self {
            Schedule::Once { at } => ScheduleView::Once { at },
            Schedule::Interval { every, start_at } => ScheduleView::Interval { every, start_at },
            Schedule::Cron { expression, timezone } => ScheduleView::Cron {
                expression: expression@,
                timezone: timezone@,
            },
        }
    }
}

impl Clone for Schedule {
    fn clone(&self) -> (copy: Self)
        ensures
            copy@ == self@,
    {
        match self {
            Schedule::Once { at } => Schedule::Once { at: *at },
            Schedule::Interval { every, start_at } => Schedule::Interval {
                every: *every,
                start_at: *start_at,
            },
            Schedule::Cron { expression, timezone } => Schedule::Cron {
                expression: expression.clone(),
                timezone: timezone.clone(),
            },
        }
    }
}

impl Schedule {
    /// Whether this schedule fires only once.
    pub fn is_once(&self) -> (once: bool)
        ensures
            once == (self@ is Once),
    {
        matches!(self, Schedule::Once { .. })
    }

    /// Whether this schedule is a cron expression.
    pub fn is_cron(&self) -> (cron: bool)
        ensures
            cron == (self@ is Cron),
    {
        matches!(self, Schedule::Cron { .. })
    }
}

/// What happens when one or more whole periods were missed.
#[derive(Debug, Clone, Copy, PartialEq, Eq, Structural)]
pub enum MisfirePolicy {
    /// Drop what was missed and wait for the next future occurrence.
    Skip,
    /// Fire once for everything that was missed.
    FireOnce,
    /// Make up for a bounded number of missed occurrences, one by one.
    CatchUp {
        /// Most executions made for one recovery; the scheduler's own limit applies too.
        max_runs: u32,
    },
}

/// Trigger of a job.
#[derive(Debug, PartialEq, Eq)]
pub struct Trigger {
    /// When it fires.
    pub schedule: Schedule,
    /// What happens when the scheduler wakes up late.
    pub misfire: MisfirePolicy,
    /// Longest duration of one execution; `None` sets no limit.
    pub timeout: Option<Span>,
}

/// What a `Trigger` holds.
pub struct TriggerView {
    /// See `Trigger::schedule`.
    pub schedule: ScheduleView,
    /// See `Trigger::misfire`.
    pub misfire: MisfirePolicy,
    /// See `Trigger::timeout`.
    pub timeout: Option<Span>,
}

impl View for Trigger {
    type V = TriggerView;

    open spec fn view(&self) -> TriggerView {
        TriggerView { schedule: self.schedule@, misfire: self.misfire, timeout: self.timeout }
    }
}

impl Clone for Trigger {
    fn clone(&self) -> (copy: Self)
        ensures
            copy@ == self@,
    {
        Trigger { schedule: self.schedule.clone(), misfire: self.misfire, timeout: self.timeout }
    }
}

/// Timeout that a new trigger starts with: thirty seconds.
pub open spec fn default_timeout() -> Option<Span> {
    Some(Span { nanos: (30 * NANOS_PER_SECOND) as u128 })
}

impl Trigger {
    /// Trigger that fires once, with a timeout of thirty seconds.
    pub fn once(at: Timestamp) -> (trigger: Self)
        ensures
            trigger@ == (TriggerView {
                schedule: ScheduleView::Once { at },
                misfire: MisfirePolicy::FireOnce,
                timeout: default_timeout(),
            }),
    {
        Trigger {
            schedule: Schedule::Once { at },
            misfire: MisfirePolicy::FireOnce,
            timeout: Some(Span::from_secs(30)),
        }
    }

    /// Trigger with a fixed period that skips missed occurrences, with a timeout of thirty
    /// seconds. The period is checked against the scheduler's minimum when a job is registered.
    pub fn interval(every: Span) -> (trigger: Self)
        ensures
            trigger@ == (TriggerView {
                schedule: ScheduleView::Interval { every, start_at: None },
                misfire: MisfirePolicy::Skip,
                timeout: default_timeout(),
            }),
    {
        Trigger {
            schedule: Schedule::Interval { every, start_at: None },
            misfire: MisfirePolicy::Skip,
            timeout: Some(Span::from_secs(30)),
        }
    }

    /// Cron trigger in UTC that skips missed occurrences, with a timeout of thirty seconds.
    pub fn cron(expression: String) -> (trigger: Self)
        ensures
            trigger@ == (TriggerView {
                schedule: ScheduleView::Cron { expression: expression@, timezone: "UTC"@ },
                misfire: MisfirePolicy::Skip,
                timeout: default_timeout(),
            }),
    {
        Trigger {
            schedule: Schedule::Cron { expression, timezone: "UTC".to_owned() },
            misfire: MisfirePolicy::Skip,
            timeout: Some(Span::from_secs(30)),
        }
    }

    /// Same trigger with another timeout; `None` sets no limit.
    pub fn with_timeout(self, timeout: Option<Span>) -> (trigger: Self)
        ensures
            trigger@ == (TriggerView { timeout, ..self@ }),
    {
        Trigger { schedule: self.schedule, misfire: self.misfire, timeout }
    }

    /// Same trigger in another time zone; triggers without a cron expression stay as they are.
    pub fn with_timezone(self, timezone: String) -> (trigger: Self)
        ensures
            match self@.schedule {
                ScheduleView::Cron { expression, .. } => trigger@ == (TriggerView {
                    schedule: ScheduleView::Cron { expression, timezone: timezone@ },
                    ..self@
                }),
                _ => trigger@ == self@,
            },
    {
        let schedule = match self.schedule {
            Schedule::Cron { expression, .. } => Schedule::Cron { expression, timezone },
            other => other,
        };
        Trigger { schedule, misfire: self.misfire, timeout: self.timeout }
    }
}

/// Priority of a job; the larger number goes first.
#[derive(Debug, Clone, Copy, PartialEq, Eq, Ord, Structural)]
pub struct JobPriority(u8);

/// Largest priority number.
pub const MAX_PRIORITY: u8 = 10;

impl JobPriority {
    /// The number behind a priority.
    pub closed spec fn value(self) -> u8 {
        self.0
    }

    /// Priority of a number in `0..=10`; any other number is an error.
    pub fn new(value: u8) -> (priority: Result<Self, SchedulerError>)
        ensures
            match priority {
                Ok(priority) => value <= MAX_PRIORITY && priority.value() == value,
                Err(error) => value > MAX_PRIORITY && error == SchedulerError::InvalidPriority(
                    value,
                ),
            },
    {
        if value <= MAX_PRIORITY {
            Ok(JobPriority(value))
        } else {
            Err(SchedulerError::InvalidPriority(value))
        }
    }

    #[verifier::type_invariant]
    spec fn in_range(self) -> bool {
        self.0 <= MAX_PRIORITY
    }

    /// The number used for ordering and storage.
    pub fn get(self) -> (value: u8)
        ensures
            value == self.value(),
            value <= MAX_PRIORITY,
    {
        proof {
            use_type_invariant(self);
        }
        self.0
    }

    /// Lowest priority.
    pub fn lowest() -> (priority: Self)
        ensures
            priority.value() == 0,
    {
        JobPriority(0)
    }

    /// Low priority.
    pub fn low() -> (priority: Self)
        ensures
            priority.value() == 3,
    {
        JobPriority(3)
    }

    /// Priority of an ordinary job.
    pub fn normal() -> (priority: Self)
        ensures
            priority.value() == 5,
    {
        JobPriority(5)
    }

    /// High priority.
    pub fn high() -> (priority: Self)
        ensures
            priority.value() == 7,
    {
        JobPriority(7)
    }

    /// Highest priority.
    pub fn critical() -> (priority: Self)
        ensures
            priority.value() == 10,
    {
        JobPriority(10)
    }
}

impl Default for JobPriority {
    /// Ordinary priority.
    fn default() -> (priority: Self)
        ensures
            priority.value() == 5,
    {
        JobPriority::normal()
    }
}

impl PartialOrd for JobPriority {
    fn partial_cmp(&self, other: &Self) -> (order: Option<Ordering>) {
        if self.0 < other.0 {
            Some(Ordering::Less)
        } else if self.0 > other.0 {
            Some(Ordering::Greater)
        } else {
            Some(Ordering::Equal)
        }
    }
}

impl PartialOrdSpecImpl for JobPriority {
    open spec fn obeys_partial_cmp_spec() -> bool {
        true
    }

    open spec fn partial_cmp_spec(&self, other: &Self) -> Option<Ordering> {
        if self.value() < other.value() {
            Some(Ordering::Less)
        } else if self.value() > other.value() {
            Some(Ordering::Greater)
        } else {
            Some(Ordering::Equal)
        }
    }
}

/// Priority with a number.
pub closed spec fn priority_of(value: u8) -> JobPriority {
    JobPriority(value)
}

impl TryFrom<u8> for JobPriority {
    type Error = SchedulerError;

    fn try_from(value: u8) -> (priority: Result<Self, SchedulerError>) {
        JobPriority::new(value)
    }
}

impl TryFromSpecImpl<u8> for JobPriority {
    open spec fn obeys_try_from_spec() -> bool {
        true
    }

    open spec fn try_from_spec(value: u8) -> Result<Self, SchedulerError> {
        if value <= MAX_PRIORITY {
            Ok(priority_of(value))
        } else {
            Err(SchedulerError::InvalidPriority(value))
        }
    }
}

impl From<JobPriority> for u8 {
    fn from(priority: JobPriority) -> (value: u8) {
        priority.get()
    }
}

impl FromSpecImpl<JobPriority> for u8 {
    open spec fn obeys_from_spec() -> bool {
        true
    }

    open spec fn from_spec(priority: JobPriority) -> u8 {
        priority.value()
    }
}

/// A number makes a priority that stands for this number, and a priority is made by no other
/// number.
pub proof fn law_priority_keeps_its_number(value: u8, priority: JobPriority)
    ensures
        priority_of(value).value() == value,
        priority_of(priority.value()) == priority,
{
}

/// Priorities are ordered as their numbers are: the larger number is the higher priority, and
/// priorities of one number are the same.
pub proof fn law_larger_number_is_higher_priority(a: JobPriority, b: JobPriority)
    ensures
        PartialOrdSpec::partial_cmp_spec(&a, &b) == Some(Ordering::Less) <==> a.value() < b.value(),
        PartialOrdSpec::partial_cmp_spec(&a, &b) == Some(Ordering::Greater) <==> a.value() > b.value(),
        PartialOrdSpec::partial_cmp_spec(&a, &b) == Some(Ordering::Equal) <==> a == b,
{
}

/// How waiting normal triggers of one job are merged.
#[derive(Debug, Clone, Copy, PartialEq, Eq, Structural)]
pub enum TriggerCoalescing {
    /// Keep every normal trigger.
    KeepAll,
    /// Keep only the latest normal trigger that has not started.
    KeepLatest,
}

/// What happens when there is no room for another pending execution.
#[derive(Debug, Clone, Copy, PartialEq, Eq, Structural)]
pub enum CapacityPolicy {
    /// Hold further periods until there is room.
    Backpressure,
    /// Drop the new trigger.
    SkipNewest,
    /// Put the new trigger in the place of the job's oldest normal trigger.
    ReplaceOldestTrigger,
}

/// Which failures are retried.
#[derive(Debug, Clone, Copy, PartialEq, Eq, Structural)]
pub struct RetryCondition {
    /// Retry errors that the task calls transient.
    pub transient_error: bool,
    /// Retry executions that ran out of time.
    pub timeout: bool,
    /// Retry executions that panicked.
    pub panic: bool,
}

impl Default for RetryCondition {
    /// Retries transient errors and timeouts, not panics.
    fn default() -> (condition: Self)
        ensures
            condition == (RetryCondition { transient_error: true, timeout: true, panic: false }),
    {
        RetryCondition { transient_error: true, timeout: true, panic: false }
    }
}

/// Retries within one logical execution.
#[derive(Debug, Clone, Copy, PartialEq, Eq, Structural)]
pub enum ExecutionRetryPolicy {
    /// No retry.
    NoRetry,
    /// Retries after a doubling delay with an upper limit.
    Exponential {
        /// Most attempts, the first one among them.
        max_attempts: u32,
        /// Delay before the first retry.
        initial_delay: Span,
        /// Longest delay.
        max_delay: Span,
        /// Which failures are retried.
        retry_on: RetryCondition,
    },
}

impl Default for ExecutionRetryPolicy {
    /// No retry.
    fn default() -> (policy: Self)
        ensures
            policy == ExecutionRetryPolicy::NoRetry,
    {
        ExecutionRetryPolicy::NoRetry
    }
}

/// Guard against a job that keeps failing.
#[derive(Debug, Clone, Copy, PartialEq, Eq)]
pub struct FailurePolicy {
    /// Final failures in a row after which the job is disabled; `None` never disables it.
    pub disable_after_consecutive_failures: Option<u32>,
    /// Whether a timeout without further retries counts as a failure.
    pub count_timeout: bool,
    /// Whether a panic without further retries counts as a failure.
    pub count_panic: bool,
}

impl Default for FailurePolicy {
    /// Disables after five failures in a row, timeouts and panics among them.
    fn default() -> (policy: Self)
        ensures
            policy == (FailurePolicy {
                disable_after_consecutive_failures: Some(5),
                count_timeout: true,
                count_panic: true,
            }),
    {
        FailurePolicy {
            disable_after_consecutive_failures: Some(5),
            count_timeout: true,
            count_panic: true,
        }
    }
}

/// Execution parameters of a new job.
#[derive(Debug, Clone, Copy)]
pub struct JobOptions {
    /// Most executions of the job at a time; `None` takes the scheduler's default.
    pub concurrency: Option<usize>,
    /// Most pending executions of the job; `None` takes the scheduler's default.
    pub max_pending: Option<usize>,
    /// Priority within one batch of due timers.
    pub priority: JobPriority,
    /// Merging of normal triggers; `None` picks the safe choice for the trigger.
    pub coalescing: Option<TriggerCoalescing>,
    /// What happens without room; `None` picks the safe choice for the trigger.
    pub capacity: Option<CapacityPolicy>,
    /// Retries after a failure.
    pub retry: ExecutionRetryPolicy,
    /// Guard against repeated failure.
    pub failure: FailurePolicy,
}

impl Default for JobOptions {
    /// Takes the scheduler's limits, ordinary priority, no retry.
    fn default() -> (options: Self)
        ensures
            options.concurrency is None,
            options.max_pending is None,
            options.priority.value() == 5,
            options.coalescing is None,
            options.capacity is None,
            options.retry == ExecutionRetryPolicy::NoRetry,
            options.failure == (FailurePolicy {
                disable_after_consecutive_failures: Some(5),
                count_timeout: true,
                count_panic: true,
            }),
    {
        JobOptions {
            concurrency: None,
            max_pending: None,
            priority: JobPriority::normal(),
            coalescing: None,
            capacity: None,
            retry: ExecutionRetryPolicy::NoRetry,
            failure: FailurePolicy::default(),
        }
    }
}

/// Change of a field that can take a default from the scheduler.
#[derive(Debug, PartialEq, Eq)]
pub enum PatchValue<T> {
    /// Keep the current value.
    Keep,
    /// Set a value of the job's own.
    Assign(T),
    /// Drop the job's own value and take the scheduler's default.
    Inherit,
}

impl<T> Default for PatchValue<T> {
    /// Keeps the current value.
    fn default() -> (patch: Self)
        ensures
            patch == PatchValue::<T>::Keep,
    {
        PatchValue::Keep
    }
}

/// What an update does to the next normal trigger.
#[derive(Debug, Clone, Copy, PartialEq, Eq, Structural)]
pub enum RescheduleMode {
    /// Keep the planned instant where the trigger stays the same.
    Preserve,
    /// Plan anew from now and the trigger.
    Recalculate,
    /// Fire at once and plan further periods afterwards.
    RunNow,
}

impl Default for RescheduleMode {
    /// Keeps the planned instant.
    fn default() -> (mode: Self)
        ensures
            mode == RescheduleMode::Preserve,
    {
        RescheduleMode::Preserve
    }
}

/// Partial update of a job.
#[derive(Debug)]
pub struct JobPatch {
    /// New task; `None` keeps the current one.
    pub task: Option<TaskBinding>,
    /// New trigger; `None` keeps the current one.
    pub trigger: Option<Trigger>,
    /// Change of the job's concurrency limit.
    pub concurrency: PatchValue<usize>,
    /// Change of the job's pending limit.
    pub max_pending: PatchValue<usize>,
    /// New priority; `None` keeps the current one.
    pub priority: Option<JobPriority>,
    /// New merging of triggers; `None` keeps the current one.
    pub coalescing: Option<TriggerCoalescing>,
    /// New capacity policy; `None` keeps the current one.
    pub capacity: Option<CapacityPolicy>,
    /// New retry policy; `None` keeps the current one.
    pub retry: Option<ExecutionRetryPolicy>,
    /// New failure policy; `None` keeps the current one.
    pub failure: Option<FailurePolicy>,
    /// What happens to the next normal trigger.
    pub reschedule: RescheduleMode,
}

impl JobPatch {
    /// Patch that keeps everything.
    pub fn new() -> (patch: Self)
        ensures
            patch == (JobPatch {
                task: None,
                trigger: None,
                concurrency: PatchValue::Keep,
                max_pending: PatchValue::Keep,
                priority: None,
                coalescing: None,
                capacity: None,
                retry: None,
                failure: None,
                reschedule: RescheduleMode::Preserve,
            }),
    {
        JobPatch {
            task: None,
            trigger: None,
            concurrency: PatchValue::Keep,
            max_pending: PatchValue::Keep,
            priority: None,
            coalescing: None,
            capacity: None,
            retry: None,
            failure: None,
            reschedule: RescheduleMode::Preserve,
        }
    }
}

impl Default for JobPatch {
    /// Keeps everything.
    fn default() -> (patch: Self)
        ensures
            patch == (JobPatch {
                task: None,
                trigger: None,
                concurrency: PatchValue::Keep,
                max_pending: PatchValue::Keep,
                priority: None,
                coalescing: None,
                capacity: None,
                retry: None,
                failure: None,
                reschedule: RescheduleMode::Preserve,
            }),
    {
        JobPatch::new()
    }
}

/// Where a job is in its life.
#[derive(Debug, PartialEq, Eq)]
pub enum JobState {
    /// Takes triggers and runs.
    Enabled,
    /// A one-shot job that is done; it can be enabled again.
    Completed,
    /// Switched off by a user or by the failure guard.
    Disabled {
        /// Why.
        reason: String,
    },
}

/// What a `JobState` holds.
pub enum JobStateView {
    /// See `JobState::Enabled`.
    Enabled,
    /// See `JobState::Completed`.
    Completed,
    /// See `JobState::Disabled`.
    Disabled { reason: Seq<char> },
}

impl View for JobState {
    type V = JobStateView;

    open spec fn view(&self) -> JobStateView {
        match *self {
            JobState::Enabled => JobStateView::Enabled,
            JobState::Completed => JobStateView::Completed,
            JobState::Disabled { reason } => JobStateView::Disabled { reason: reason@ },
        }
    }
}

impl Clone for JobState {
    fn clone(&self) -> (copy: Self)
        ensures
            copy@ == self@,
    {
        match self {
            JobState::Enabled => JobState::Enabled,
            JobState::Completed => JobState::Completed,
            JobState::Disabled { reason } => JobState::Disabled { reason: reason.clone() },
        }
    }
}

impl JobState {
    /// Whether the job takes triggers.
    pub fn is_enabled(&self) -> (enabled: bool)
        ensures
            enabled == (self@ is Enabled),
    {
        matches!(self, JobState::Enabled)
    }
}

/// Text that may be missing, by its characters.
pub open spec fn optional_text(text: Option<String>) -> Option<Seq<char>> {
    match text {
        Some(text) => Some(text@),
        None => None,
    }
}

/// Consistent picture of a job for the outside.
#[derive(Debug, PartialEq, Eq)]
pub struct JobSnapshot {
    /// Job.
    pub id: JobId,
    /// Version that later changes have to name.
    pub version: u64,
    /// Stable name of the task's kind.
    pub task_kind: String,
    /// Where the job is in its life.
    pub state: JobState,
    /// Current trigger.
    pub trigger: Trigger,
    /// Current priority.
    pub priority: JobPriority,
    /// Concurrency limit in force.
    pub concurrency: usize,
    /// Pending limit in force.
    pub max_pending: usize,
    /// Executions that run now, those of older versions among them.
    pub running_count: usize,
    /// Executions that wait, in the ready queue or held back.
    pub pending_count: usize,
    /// Final failures in a row.
    pub consecutive_failures: u32,
    /// Next normal trigger, where one is planned.
    pub next_run_at: Option<Timestamp>,
    /// Last start of an execution.
    pub last_started_at: Option<Timestamp>,
    /// Last end of an execution.
    pub last_finished_at: Option<Timestamp>,
    /// Last final result: `success` or the text of the error.
    pub last_outcome: Option<String>,
    /// When the job was registered.
    pub created_at: Timestamp,
    /// When the job last changed.
    pub updated_at: Timestamp,
}

/// What a `JobSnapshot` holds.
pub struct JobSnapshotView {
    /// See `JobSnapshot::id`.
    pub id: JobId,
    /// See `JobSnapshot::version`.
    pub version: u64,
    /// See `JobSnapshot::task_kind`.
    pub task_kind: Seq<char>,
    /// See `JobSnapshot::state`.
    pub state: JobStateView,
    /// See `JobSnapshot::trigger`.
    pub trigger: TriggerView,
    /// See `JobSnapshot::priority`.
    pub priority: JobPriority,
    /// See `JobSnapshot::concurrency`.
    pub concurrency: usize,
    /// See `JobSnapshot::max_pending`.
    pub max_pending: usize,
    /// See `JobSnapshot::running_count`.
    pub running_count: usize,
    /// See `JobSnapshot::pending_count`.
    pub pending_count: int,
    /// See `JobSnapshot::consecutive_failures`.
    pub consecutive_failures: u32,
    /// See `JobSnapshot::next_run_at`.
    pub next_run_at: Option<Timestamp>,
    /// See `JobSnapshot::last_started_at`.
    pub last_started_at: Option<Timestamp>,
    /// See `JobSnapshot::last_finished_at`.
    pub last_finished_at: Option<Timestamp>,
    /// See `JobSnapshot::last_outcome`.
    pub last_outcome: Option<Seq<char>>,
    /// See `JobSnapshot::created_at`.
    pub created_at: Timestamp,
    /// See `JobSnapshot::updated_at`.
    pub updated_at: Timestamp,
}

impl View for JobSnapshot {
    type V = JobSnapshotView;

    open spec fn view(&self) -> JobSnapshotView {
        JobSnapshotView {
            id: self.id,
            version: self.version,
            task_kind: self.task_kind@,
            state: self.state@,
            trigger: self.trigger@,
            priority: self.priority,
            concurrency: self.concurrency,
            max_pending: self.max_pending,
            running_count: self.running_count,
            pending_count: self.pending_count as int,
            consecutive_failures: self.consecutive_failures,
            next_run_at: self.next_run_at,
            last_started_at: self.last_started_at,
            last_finished_at: self.last_finished_at,
            last_outcome: optional_text(self.last_outcome),
            created_at: self.created_at,
            updated_at: self.updated_at,
        }
    }
}

} // verus!
