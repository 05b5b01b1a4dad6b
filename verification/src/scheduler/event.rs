//! What the scheduler tells its observers.

use super::model::{JobId, RunId};
use super::time::Timestamp;
use vstd::prelude::*;

verus! {

/// One thing that happened.
#[derive(Debug, PartialEq, Eq)]
pub struct SchedulerEvent {
    /// Number of the event; it grows by one and wraps around.
    pub sequence: u64,
    /// When it happened.
    pub emitted_at: Timestamp,
    /// What happened.
    pub kind: SchedulerEventKind,
}

/// What a `SchedulerEvent` holds.
pub struct SchedulerEventView {
    /// See `SchedulerEvent::sequence`.
    pub sequence: u64,
    /// See `SchedulerEvent::emitted_at`.
    pub emitted_at: Timestamp,
    /// See `SchedulerEvent::kind`.
    pub kind: SchedulerEventKindView,
}

impl View for SchedulerEvent {
    type V = SchedulerEventView;

    open spec fn view(&self) -> SchedulerEventView {
        SchedulerEventView {
            sequence: self.sequence,
            emitted_at: self.emitted_at,
            kind: self.kind@,
        }
    }
}

/// What can happen. Events carry no output of a task.
#[derive(Debug, PartialEq, Eq)]
pub enum SchedulerEventKind {
    /// The scheduler runs.
    SchedulerStarted,
    /// The limits changed.
    SchedulerConfigUpdated {
        /// New revision.
        revision: u64,
    },
    /// The scheduler shuts down.
    SchedulerStopping,
    /// The scheduler has stopped and nothing runs any more.
    SchedulerStopped,
    /// The scheduler gave up.
    SchedulerFailed {
        /// Why.
        message: String,
    },
    /// A job was registered.
    JobAdded {
        /// Job.
        job_id: JobId,
        /// First version.
        version: u64,
    },
    /// A job was changed.
    JobUpdated {
        /// Job.
        job_id: JobId,
        /// New version.
        version: u64,
    },
    /// A job takes triggers again.
    JobEnabled {
        /// Job.
        job_id: JobId,
        /// New version.
        version: u64,
    },
    /// A job was switched off.
    JobDisabled {
        /// Job.
        job_id: JobId,
        /// New version.
        version: u64,
        /// Why.
        reason: String,
    },
    /// A job was removed.
    JobDeleted {
        /// Job.
        job_id: JobId,
        /// Version that was removed.
        version: u64,
    },
    /// A normal trigger was planned.
    TriggerScheduled {
        /// Job.
        job_id: JobId,
        /// Version of the job.
        version: u64,
        /// Planned instant.
        run_at: Timestamp,
    },
    /// A trigger was dropped.
    TriggerSkipped {
        /// Job.
        job_id: JobId,
        /// Version of the job.
        version: u64,
        /// Planned instant.
        scheduled_at: Timestamp,
        /// Why.
        reason: String,
    },
    /// An execution entered the ready queue.
    ExecutionQueued {
        /// Job.
        job_id: JobId,
        /// Version of the job.
        version: u64,
        /// Execution.
        run_id: RunId,
        /// Executions of the job in the ready queue.
        pending_count: usize,
    },
    /// An execution started.
    ExecutionStarted {
        /// Job.
        job_id: JobId,
        /// Version of the job.
        version: u64,
        /// Execution.
        run_id: RunId,
        /// Attempt.
        attempt: u32,
        /// Planned instant.
        scheduled_at: Timestamp,
    },
    /// An execution succeeded.
    ExecutionSucceeded {
        /// Job.
        job_id: JobId,
        /// Version of the job.
        version: u64,
        /// Execution.
        run_id: RunId,
        /// Attempt.
        attempt: u32,
        /// Duration in milliseconds.
        duration_ms: u64,
    },
    /// An execution failed.
    ExecutionFailed {
        /// Job.
        job_id: JobId,
        /// Version of the job.
        version: u64,
        /// Execution.
        run_id: RunId,
        /// Attempt.
        attempt: u32,
        /// Text of the error.
        error: String,
        /// Whether a retry is planned.
        will_retry: bool,
    },
    /// An execution ran out of time.
    ExecutionTimedOut {
        /// Job.
        job_id: JobId,
        /// Version of the job.
        version: u64,
        /// Execution.
        run_id: RunId,
        /// Attempt.
        attempt: u32,
    },
    /// An execution panicked.
    ExecutionPanicked {
        /// Job.
        job_id: JobId,
        /// Version of the job.
        version: u64,
        /// Execution.
        run_id: RunId,
        /// Attempt.
        attempt: u32,
        /// Text of the panic.
        message: String,
    },
    /// An execution was cancelled.
    ExecutionCancelled {
        /// Job.
        job_id: JobId,
        /// Version of the job.
        version: u64,
        /// Execution.
        run_id: RunId,
    },
    /// A retry was planned.
    RetryScheduled {
        /// Job.
        job_id: JobId,
        /// Version of the job.
        version: u64,
        /// Execution.
        run_id: RunId,
        /// Attempt to come.
        attempt: u32,
        /// Planned instant.
        run_at: Timestamp,
    },
    /// An output was handed on.
    OutputDelivered {
        /// Job.
        job_id: JobId,
        /// Version of the job.
        version: u64,
        /// Execution.
        run_id: RunId,
    },
    /// An output was not handed on.
    CallbackFailed {
        /// Job.
        job_id: JobId,
        /// Version of the job.
        version: u64,
        /// Execution.
        run_id: RunId,
        /// Text of the error.
        error: String,
    },
    /// Nobody receives the output any more; the job is removed.
    OutputChannelClosed {
        /// Job.
        job_id: JobId,
        /// Version of the job.
        version: u64,
        /// Execution.
        run_id: RunId,
    },
    /// A waiting execution gave way to a newer one.
    PendingReplaced {
        /// Job.
        job_id: JobId,
        /// Execution that left.
        removed_run_id: RunId,
        /// Execution that took its place.
        replacement_run_id: RunId,
    },
    /// A trigger is held back until there is room.
    BackpressureApplied {
        /// Job.
        job_id: JobId,
        /// Version of the job.
        version: u64,
    },
}

/// What a `SchedulerEventKind` holds.
pub enum SchedulerEventKindView {
    /// See `SchedulerEventKind::SchedulerStarted`.
    SchedulerStarted,
    /// See `SchedulerEventKind::SchedulerConfigUpdated`.
    SchedulerConfigUpdated { revision: u64 },
    /// See `SchedulerEventKind::SchedulerStopping`.
    SchedulerStopping,
    /// See `SchedulerEventKind::SchedulerStopped`.
    SchedulerStopped,
    /// See `SchedulerEventKind::SchedulerFailed`.
    SchedulerFailed { message: Seq<char> },
    /// See `SchedulerEventKind::JobAdded`.
    JobAdded { job_id: JobId, version: u64 },
    /// See `SchedulerEventKind::JobUpdated`.
    JobUpdated { job_id: JobId, version: u64 },
    /// See `SchedulerEventKind::JobEnabled`.
    JobEnabled { job_id: JobId, version: u64 },
    /// See `SchedulerEventKind::JobDisabled`.
    JobDisabled { job_id: JobId, version: u64, reason: Seq<char> },
    /// See `SchedulerEventKind::JobDeleted`.
    JobDeleted { job_id: JobId, version: u64 },
    /// See `SchedulerEventKind::TriggerScheduled`.
    TriggerScheduled { job_id: JobId, version: u64, run_at: Timestamp },
    /// See `SchedulerEventKind::TriggerSkipped`.
    TriggerSkipped { job_id: JobId, version: u64, scheduled_at: Timestamp, reason: Seq<char> },
    /// See `SchedulerEventKind::ExecutionQueued`.
    ExecutionQueued { job_id: JobId, version: u64, run_id: RunId, pending_count: int },
    /// See `SchedulerEventKind::ExecutionStarted`.
    ExecutionStarted { job_id: JobId, version: u64, run_id: RunId, attempt: u32, scheduled_at: Timestamp },
    /// See `SchedulerEventKind::ExecutionSucceeded`.
    ExecutionSucceeded { job_id: JobId, version: u64, run_id: RunId, attempt: u32, duration_ms: u64 },
    /// See `SchedulerEventKind::ExecutionFailed`.
    ExecutionFailed { job_id: JobId, version: u64, run_id: RunId, attempt: u32, error: Seq<char>, will_retry: bool },
    /// See `SchedulerEventKind::ExecutionTimedOut`.
    ExecutionTimedOut { job_id: JobId, version: u64, run_id: RunId, attempt: u32 },
    /// See `SchedulerEventKind::ExecutionPanicked`.
    ExecutionPanicked { job_id: JobId, version: u64, run_id: RunId, attempt: u32, message: Seq<char> },
    /// See `SchedulerEventKind::ExecutionCancelled`.
    ExecutionCancelled { job_id: JobId, version: u64, run_id: RunId },
    /// See `SchedulerEventKind::RetryScheduled`.
    RetryScheduled { job_id: JobId, version: u64, run_id: RunId, attempt: u32, run_at: Timestamp },
    /// See `SchedulerEventKind::OutputDelivered`.
    OutputDelivered { job_id: JobId, version: u64, run_id: RunId },
    /// See `SchedulerEventKind::CallbackFailed`.
    CallbackFailed { job_id: JobId, version: u64, run_id: RunId, error: Seq<char> },
    /// See `SchedulerEventKind::OutputChannelClosed`.
    OutputChannelClosed { job_id: JobId, version: u64, run_id: RunId },
    /// See `SchedulerEventKind::PendingReplaced`.
    PendingReplaced { job_id: JobId, removed_run_id: RunId, replacement_run_id: RunId },
    /// See `SchedulerEventKind::BackpressureApplied`.
    BackpressureApplied { job_id: JobId, version: u64 },
}

impl View for SchedulerEventKind {
    type V = SchedulerEventKindView;

    open spec fn view(&self) -> SchedulerEventKindView {
        match *self {
            SchedulerEventKind::SchedulerStarted => SchedulerEventKindView::SchedulerStarted,
            SchedulerEventKind::SchedulerConfigUpdated { revision } =>
                SchedulerEventKindView::SchedulerConfigUpdated { revision },
            SchedulerEventKind::SchedulerStopping => SchedulerEventKindView::SchedulerStopping,
            SchedulerEventKind::SchedulerStopped => SchedulerEventKindView::SchedulerStopped,
            SchedulerEventKind::SchedulerFailed { message } =>
                SchedulerEventKindView::SchedulerFailed { message: message@ },
            SchedulerEventKind::JobAdded { job_id, version } =>
                SchedulerEventKindView::JobAdded { job_id, version },
            SchedulerEventKind::JobUpdated { job_id, version } =>
                SchedulerEventKindView::JobUpdated { job_id, version },
            SchedulerEventKind::JobEnabled { job_id, version } =>
                SchedulerEventKindView::JobEnabled { job_id, version },
            SchedulerEventKind::JobDisabled { job_id, version, reason } =>
                SchedulerEventKindView::JobDisabled { job_id, version, reason: reason@ },
            SchedulerEventKind::JobDeleted { job_id, version } =>
                SchedulerEventKindView::JobDeleted { job_id, version },
            SchedulerEventKind::TriggerScheduled { job_id, version, run_at } =>
                SchedulerEventKindView::TriggerScheduled { job_id, version, run_at },
            SchedulerEventKind::TriggerSkipped { job_id, version, scheduled_at, reason } =>
                SchedulerEventKindView::TriggerSkipped { job_id, version, scheduled_at, reason: reason@ },
            SchedulerEventKind::ExecutionQueued { job_id, version, run_id, pending_count } =>
                SchedulerEventKindView::ExecutionQueued { job_id, version, run_id, pending_count: pending_count as int },
            SchedulerEventKind::ExecutionStarted { job_id, version, run_id, attempt, scheduled_at } =>
                SchedulerEventKindView::ExecutionStarted { job_id, version, run_id, attempt, scheduled_at },
            SchedulerEventKind::ExecutionSucceeded { job_id, version, run_id, attempt, duration_ms } =>
                SchedulerEventKindView::ExecutionSucceeded { job_id, version, run_id, attempt, duration_ms },
            SchedulerEventKind::ExecutionFailed { job_id, version, run_id, attempt, error, will_retry } =>
                SchedulerEventKindView::ExecutionFailed { job_id, version, run_id, attempt, error: error@, will_retry },
            SchedulerEventKind::ExecutionTimedOut { job_id, version, run_id, attempt } =>
                SchedulerEventKindView::ExecutionTimedOut { job_id, version, run_id, attempt },
            SchedulerEventKind::ExecutionPanicked { job_id, version, run_id, attempt, message } =>
                SchedulerEventKindView::ExecutionPanicked { job_id, version, run_id, attempt, message: message@ },
            SchedulerEventKind::ExecutionCancelled { job_id, version, run_id } =>
                SchedulerEventKindView::ExecutionCancelled { job_id, version, run_id },
            SchedulerEventKind::RetryScheduled { job_id, version, run_id, attempt, run_at } =>
                SchedulerEventKindView::RetryScheduled { job_id, version, run_id, attempt, run_at },
            SchedulerEventKind::OutputDelivered { job_id, version, run_id } =>
                SchedulerEventKindView::OutputDelivered { job_id, version, run_id },
            SchedulerEventKind::CallbackFailed { job_id, version, run_id, error } =>
                SchedulerEventKindView::CallbackFailed { job_id, version, run_id, error: error@ },
            SchedulerEventKind::OutputChannelClosed { job_id, version, run_id } =>
                SchedulerEventKindView::OutputChannelClosed { job_id, version, run_id },
            SchedulerEventKind::PendingReplaced { job_id, removed_run_id, replacement_run_id } =>
                SchedulerEventKindView::PendingReplaced { job_id, removed_run_id, replacement_run_id },
            SchedulerEventKind::BackpressureApplied { job_id, version } =>
                SchedulerEventKindView::BackpressureApplied { job_id, version },
        }
    }
}

} // verus!
