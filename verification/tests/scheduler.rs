//! Scheduler: triggers, queues, retries and limits, driven without a clock.

use smalux_agent::scheduler::config::{
    apply_config_patch, validate_config, SchedulerConfig, SchedulerConfigPatch, SchedulerError,
    SchedulerStatus,
};
use smalux_agent::scheduler::cron::{is_cron_start, next_occurrence};
use smalux_agent::scheduler::deadline::{latest_supported_delay, timer_delay};
use smalux_agent::scheduler::engine::completion::{
    duration_ms, panic_message, CompletionOutcome, ExecutionMetadata, TaskCompletion,
};
use smalux_agent::scheduler::engine::lifecycle::{Command, Reply};
use smalux_agent::scheduler::engine::{Effect, SchedulerActor};
use smalux_agent::scheduler::event::{SchedulerEvent, SchedulerEventKind};
use smalux_agent::scheduler::model::{
    CapacityPolicy, ExecutionRetryPolicy, FailurePolicy, JobId, JobOptions, JobPatch, JobPriority,
    JobState, MisfirePolicy, PatchValue, RescheduleMode, RetryCondition, RunId, Schedule, Trigger,
    TriggerCoalescing,
};
use smalux_agent::scheduler::queue::{PendingExecution, PendingKind, ReadyQueue, TimerEntry};
use smalux_agent::scheduler::task::{
    action_outcome, after_run, callback_outcome, channel_outcome, map_task_error, report_header,
    report_result, report_sent, task_outcome_name, timestamp, AdapterStep, CallbackError,
    TaskBinding, TaskCancellationMode, TaskContext, TaskError, TaskRunResult,
};
use smalux_agent::scheduler::time::{Span, Timestamp};
use smalux_agent::scheduler::timing::{
    datetime_from_nanos, datetime_nanos, due_occurrences, effective_queue_policies, first_run_at,
    next_after, next_future_occurrence, validate_trigger,
};

const START: i128 = 1_700_000_000_000_000_000;

fn at(millis: i128) -> Timestamp {
    Timestamp { nanos: START + millis * 1_000_000 }
}

struct Started {
    handle: u64,
    context: TaskContext,
    timeout: Option<Span>,
}

struct Harness {
    actor: SchedulerActor,
    next_id: JobId,
    timers: Vec<(u64, TimerEntry)>,
    started: Vec<Started>,
    cancelled: Vec<RunId>,
    events: Vec<SchedulerEvent>,
    status: Option<SchedulerStatus>,
}

impl Harness {
    fn new(config: SchedulerConfig) -> Harness {
        validate_config(&config).unwrap();
        let mut harness = Harness {
            actor: SchedulerActor::new(config),
            next_id: 1,
            timers: Vec::new(),
            started: Vec::new(),
            cancelled: Vec::new(),
            events: Vec::new(),
            status: None,
        };
        harness.actor.start(at(0));
        harness.absorb();
        harness
    }

    fn absorb(&mut self) {
        for effect in self.actor.take_effects() {
            match effect {
                Effect::Emit(event) => self.events.push(event),
                Effect::ArmTimer { key, entry } => self.timers.push((key, entry)),
                Effect::DisarmTimer { key } => self.timers.retain(|timer| timer.0 != key),
                Effect::ResetTimer { .. } => {}
                Effect::Start { handle, context, timeout, .. } => {
                    self.started.push(Started { handle, context, timeout });
                }
                Effect::Cancel { run_id } => self.cancelled.push(run_id),
                Effect::ClearTimers => self.timers.clear(),
                Effect::SetStatus(status) => self.status = Some(status),
            }
        }
    }

    fn add(&mut self, handle: u64, trigger: Trigger, options: JobOptions, now: Timestamp) -> JobId {
        let id = self.try_add(handle, trigger, options, now).unwrap();
        self.actor.advance(now);
        self.absorb();
        id
    }

    fn try_add(
        &mut self,
        handle: u64,
        trigger: Trigger,
        options: JobOptions,
        now: Timestamp,
    ) -> Result<JobId, SchedulerError> {
        let fresh = self.next_id;
        self.next_id += 1;
        assert!(!self.actor.contains_job(fresh));
        let task =
            TaskBinding::new(handle, "test".to_string(), TaskCancellationMode::Cooperative);
        self.actor.add_job(None, fresh, 0, true, trigger, task, options, now)
    }

    fn run_until(&mut self, now: Timestamp) {
        assert!(is_cron_start(now));
        loop {
            let due: Vec<TimerEntry> = self
                .timers
                .iter()
                .filter(|timer| timer.1.run_at.nanos <= now.nanos)
                .map(|timer| timer.1)
                .collect();
            if due.is_empty() {
                break;
            }
            self.timers.retain(|timer| timer.1.run_at.nanos > now.nanos);
            assert!(due.iter().all(|entry| self.actor.accepts_timer(entry)));
            self.actor.handle_expired_batch(due, now);
            self.actor.advance(now);
            self.absorb();
        }
    }

    fn finish(&mut self, place: usize, outcome: CompletionOutcome, now: Timestamp) {
        let context = &self.started[place].context;
        let completion = TaskCompletion {
            metadata: ExecutionMetadata {
                job_id: context.job_id,
                version: context.version,
                run_id: context.run_id,
                attempt: context.attempt,
                scheduled_at: context.scheduled_at,
            },
            elapsed: Span::from_millis(3),
            outcome,
        };
        assert!(self.actor.accepts_completion(&completion, now));
        self.actor.handle_completion(completion, now);
        self.actor.advance(now);
        self.absorb();
    }

    fn succeed(&mut self, place: usize, now: Timestamp) {
        self.finish(place, CompletionOutcome::Finished(TaskRunResult::Completed), now);
    }

    fn saw(&self, wanted: impl Fn(&SchedulerEventKind) -> bool) -> bool {
        self.events.iter().any(|event| wanted(&event.kind))
    }
}

fn fast_config() -> SchedulerConfig {
    SchedulerConfig {
        minimum_interval: Span::from_millis(5),
        minimum_retry_delay: Span::from_millis(5),
        ..SchedulerConfig::default()
    }
}

fn transient() -> CompletionOutcome {
    CompletionOutcome::Finished(TaskRunResult::TaskTransient("temporary failure".to_string()))
}

#[test]
fn add_run_query_and_delete_job() {
    let mut harness = Harness::new(SchedulerConfig::default());
    let id = harness.add(1, Trigger::once(at(0)), JobOptions::default(), at(0));
    harness.run_until(at(0));
    assert_eq!(harness.started.len(), 1);
    assert_eq!(harness.started[0].handle, 1);
    harness.succeed(0, at(1));
    let snapshot = harness.actor.get(id).unwrap();
    harness.actor.delete_job(id, snapshot.version, true, at(2)).unwrap();
    assert!(harness.actor.get(id).is_none());
}

#[test]
fn stale_update_returns_version_conflict() {
    let mut harness = Harness::new(SchedulerConfig::default());
    let id = harness.add(1, Trigger::once(at(60_000)), JobOptions::default(), at(0));
    harness.actor.update_job(id, 0, JobPatch::new(), at(1)).unwrap();
    assert!(matches!(
        harness.actor.update_job(id, 0, JobPatch::new(), at(2)),
        Err(SchedulerError::VersionConflict { .. })
    ));
}

#[test]
fn invalid_update_keeps_original_job_unchanged() {
    let mut harness = Harness::new(SchedulerConfig::default());
    let original_trigger = Trigger::interval(Span::from_secs(10));
    let id = harness.add(1, original_trigger.clone(), JobOptions::default(), at(0));
    let mut patch = JobPatch::new();
    patch.trigger = Some(Trigger::interval(Span::from_millis(1)));

    assert!(matches!(
        harness.actor.update_job(id, 0, patch, at(1)),
        Err(SchedulerError::InvalidTrigger(_))
    ));
    let snapshot = harness.actor.get(id).unwrap();
    assert_eq!(snapshot.version, 0);
    assert_eq!(snapshot.trigger, original_trigger);
}

#[test]
fn enabling_enabled_job_is_idempotent() {
    let mut harness = Harness::new(SchedulerConfig::default());
    let id = harness.add(1, Trigger::once(at(60_000)), JobOptions::default(), at(0));

    let snapshot = harness.actor.enable_job(id, 0, at(1)).unwrap();
    assert_eq!(snapshot.version, 0);
    assert_eq!(snapshot.state, JobState::Enabled);
}

#[test]
fn closed_output_channel_deletes_job() {
    let mut harness = Harness::new(fast_config());
    let id = harness.add(1, Trigger::once(at(0)), JobOptions::default(), at(0));
    harness.run_until(at(0));
    assert_eq!(channel_outcome(false), TaskRunResult::ChannelClosed);
    harness.finish(0, CompletionOutcome::Finished(channel_outcome(false)), at(1));
    assert!(harness.actor.get(id).is_none());
    assert!(harness.saw(|kind| matches!(kind, SchedulerEventKind::OutputChannelClosed { .. })));
}

#[test]
fn once_job_without_retry_reaches_terminal_state_after_failure() {
    let mut harness = Harness::new(fast_config());
    let id = harness.add(1, Trigger::once(at(0)), JobOptions::default(), at(0));
    harness.run_until(at(0));
    harness.finish(0, transient(), at(1));
    let snapshot = harness.actor.get(id).unwrap();
    assert_eq!(snapshot.state, JobState::Completed);
    assert_eq!(snapshot.consecutive_failures, 1);
}

#[test]
fn transient_failure_retries_and_then_completes() {
    let mut harness = Harness::new(fast_config());
    let options = JobOptions {
        retry: ExecutionRetryPolicy::Exponential {
            max_attempts: 2,
            initial_delay: Span::from_millis(5),
            max_delay: Span::from_millis(5),
            retry_on: RetryCondition::default(),
        },
        ..JobOptions::default()
    };
    let id = harness.add(1, Trigger::once(at(0)), options, at(0));
    harness.run_until(at(0));
    harness.finish(0, transient(), at(1));
    assert_eq!(harness.started.len(), 1);
    harness.run_until(at(5));
    assert_eq!(harness.started.len(), 1);
    harness.run_until(at(6));
    assert_eq!(harness.started.len(), 2);
    assert_eq!(harness.started[1].context.attempt, 2);
    assert_eq!(harness.started[1].context.run_id, harness.started[0].context.run_id);
    harness.succeed(1, at(7));
    let snapshot = harness.actor.get(id).unwrap();
    assert_eq!(snapshot.state, JobState::Completed);
    assert_eq!(snapshot.consecutive_failures, 0);
}

#[test]
fn timeout_releases_global_concurrency_slot() {
    let mut config = fast_config();
    config.global_concurrency = 1;
    let mut harness = Harness::new(config);
    harness.add(
        1,
        Trigger::once(at(0)).with_timeout(Some(Span::from_millis(20))),
        JobOptions { priority: JobPriority::critical(), ..JobOptions::default() },
        at(0),
    );
    harness.run_until(at(0));
    assert_eq!(harness.started.len(), 1);
    assert_eq!(harness.started[0].timeout, Some(Span::from_millis(20)));
    harness.add(2, Trigger::once(at(1)), JobOptions::default(), at(1));
    harness.run_until(at(1));
    assert_eq!(harness.started.len(), 1);

    harness.finish(0, CompletionOutcome::TimedOut, at(20));
    assert_eq!(harness.started.len(), 2);
    assert_eq!(harness.started[1].handle, 2);
    harness.succeed(1, at(21));
    assert_eq!(harness.actor.total_running, 0);
}

#[test]
fn updating_disabled_job_does_not_enable_or_schedule_it() {
    let mut harness = Harness::new(fast_config());
    let id =
        harness.add(1, Trigger::interval(Span::from_secs(10)), JobOptions::default(), at(0));
    let disabled = harness.actor.disable_job(id, 0, "maintenance".to_string(), at(1)).unwrap();
    let mut patch = JobPatch::new();
    patch.trigger = Some(Trigger::interval(Span::from_secs(20)));

    let updated = harness.actor.update_job(id, disabled.version, patch, at(2)).unwrap();
    assert_eq!(updated.state, JobState::Disabled { reason: "maintenance".to_owned() });
    assert_eq!(updated.next_run_at, None);
}

#[test]
fn deleting_job_cancels_running_execution() {
    let mut harness = Harness::new(fast_config());
    let id = harness.add(
        1,
        Trigger::once(at(0)).with_timeout(None),
        JobOptions::default(),
        at(0),
    );
    harness.run_until(at(0));
    assert_eq!(harness.started.len(), 1);

    harness.actor.delete_job(id, 0, true, at(1)).unwrap();
    harness.absorb();
    assert_eq!(harness.cancelled, vec![harness.started[0].context.run_id]);
}

#[test]
fn callback_failure_does_not_rerun_value_task() {
    let mut harness = Harness::new(fast_config());
    let options = JobOptions {
        retry: ExecutionRetryPolicy::Exponential {
            max_attempts: 3,
            initial_delay: Span::from_millis(5),
            max_delay: Span::from_millis(5),
            retry_on: RetryCondition::default(),
        },
        ..JobOptions::default()
    };
    let id = harness.add(1, Trigger::once(at(0)), options, at(0));
    harness.run_until(at(0));
    let outcome =
        callback_outcome(Err(CallbackError::Transient("delivery unavailable".to_string())));
    harness.finish(0, CompletionOutcome::Finished(outcome), at(1));
    harness.run_until(at(1_000));
    assert_eq!(harness.started.len(), 1);
    assert_eq!(harness.actor.get(id).unwrap().state, JobState::Completed);
    assert!(harness.saw(|kind| matches!(kind, SchedulerEventKind::CallbackFailed { .. })));
}

#[test]
fn scheduler_config_update_uses_revision_lock() {
    let mut harness = Harness::new(fast_config());
    let updated = harness
        .actor
        .update_config(
            0,
            SchedulerConfigPatch { global_max_pending: Some(16), ..SchedulerConfigPatch::default() },
            at(1),
        )
        .unwrap();
    assert_eq!(updated.revision, 1);
    assert_eq!(updated.config.global_max_pending, 16);
    assert!(matches!(
        harness.actor.update_config(0, SchedulerConfigPatch::default(), at(2)),
        Err(SchedulerError::ConfigRevisionConflict { expected: 0, actual: 1 })
    ));
    assert_eq!(harness.actor.get_config().revision, 1);
}

#[test]
fn catch_up_defaults_to_lossless_queue_policies() {
    let trigger = Trigger {
        schedule: Schedule::Interval { every: Span::from_secs(1), start_at: None },
        misfire: MisfirePolicy::CatchUp { max_runs: 3 },
        timeout: None,
    };

    assert_eq!(
        effective_queue_policies(&trigger, &JobOptions::default()),
        (TriggerCoalescing::KeepAll, CapacityPolicy::Backpressure)
    );
}

#[test]
fn other_triggers_default_to_the_latest() {
    let trigger = Trigger::interval(Span::from_secs(1));
    assert_eq!(
        effective_queue_policies(&trigger, &JobOptions::default()),
        (TriggerCoalescing::KeepLatest, CapacityPolicy::ReplaceOldestTrigger)
    );
    let options = JobOptions {
        coalescing: Some(TriggerCoalescing::KeepAll),
        capacity: Some(CapacityPolicy::SkipNewest),
        ..JobOptions::default()
    };
    assert_eq!(
        effective_queue_policies(&trigger, &options),
        (TriggerCoalescing::KeepAll, CapacityPolicy::SkipNewest)
    );
}

#[test]
fn long_interval_backlog_is_bounded_and_preserves_phase() {
    let now = at(0);
    let scheduled_at = at(-365 * 24 * 3_600_000);
    let trigger = Trigger {
        schedule: Schedule::Interval {
            every: Span::from_millis(100),
            start_at: Some(scheduled_at),
        },
        misfire: MisfirePolicy::CatchUp { max_runs: 3 },
        timeout: None,
    };

    let due = due_occurrences(&trigger, scheduled_at, now, 3).unwrap();
    assert_eq!(due.occurrences.len(), 3);
    let next = due.next.unwrap();
    assert!(next.nanos > now.nanos);
    let phase = (datetime_nanos(next) - datetime_nanos(scheduled_at)) % 100_000_000;
    assert_eq!(phase, 0);
}

#[test]
fn panic_releases_global_concurrency_slot() {
    let mut config = fast_config();
    config.global_concurrency = 1;
    let mut harness = Harness::new(config);
    harness.add(1, Trigger::once(at(0)), JobOptions::default(), at(0));
    harness.run_until(at(0));
    harness.add(2, Trigger::once(at(1)), JobOptions::default(), at(1));
    harness.run_until(at(1));
    assert_eq!(harness.started.len(), 1);

    let message = panic_message(Some("intentional scheduler test panic".to_string()));
    harness.finish(0, CompletionOutcome::Panicked(message), at(2));
    assert_eq!(harness.started.len(), 2);
    harness.succeed(1, at(3));
    assert!(harness.saw(|kind| matches!(
        kind,
        SchedulerEventKind::ExecutionPanicked { message, .. }
            if message == "intentional scheduler test panic"
    )));
}

#[test]
fn permanent_failure_cancels_same_version_peer() {
    let mut harness = Harness::new(fast_config());
    let trigger = Trigger {
        schedule: Schedule::Interval { every: Span::from_millis(5), start_at: Some(at(-20)) },
        misfire: MisfirePolicy::CatchUp { max_runs: 2 },
        timeout: None,
    };
    let options = JobOptions { concurrency: Some(2), ..JobOptions::default() };
    let id = harness.add(1, trigger, options, at(0));
    harness.run_until(at(1));
    assert_eq!(harness.started.len(), 2);

    let outcome = map_task_error(TaskError::Permanent("invalid task configuration".to_string()));
    harness.finish(0, CompletionOutcome::Finished(outcome), at(2));
    assert_eq!(harness.cancelled, vec![harness.started[1].context.run_id]);
    assert!(matches!(harness.actor.get(id).unwrap().state, JobState::Disabled { .. }));
    harness.finish(1, CompletionOutcome::Cancelled, at(3));
    assert_eq!(harness.actor.total_running, 0);
}

#[test]
fn scheduler_respects_job_and_global_concurrency_limits() {
    let mut config = fast_config();
    config.global_concurrency = 2;
    let mut harness = Harness::new(config);
    let trigger = Trigger {
        schedule: Schedule::Interval { every: Span::from_millis(5), start_at: None },
        misfire: MisfirePolicy::FireOnce,
        timeout: Some(Span::from_secs(30)),
    };
    let options = JobOptions {
        concurrency: Some(2),
        coalescing: Some(TriggerCoalescing::KeepAll),
        capacity: Some(CapacityPolicy::Backpressure),
        ..JobOptions::default()
    };
    let id = harness.add(1, trigger, options, at(0));
    for step in 1..10 {
        harness.run_until(at(step * 5));
        assert!(harness.actor.total_running <= 2);
    }
    assert_eq!(harness.started.len(), 2);
    assert_eq!(harness.actor.get(id).unwrap().running_count, 2);

    let snapshot = harness.actor.get(id).unwrap();
    harness
        .actor
        .disable_job(id, snapshot.version, "test complete".to_string(), at(60))
        .unwrap();
    harness.absorb();
    assert_eq!(harness.actor.get(id).unwrap().pending_count, 0);
}

#[test]
fn successful_value_delivery_emits_output_event() {
    let mut harness = Harness::new(fast_config());
    let id = harness.add(1, Trigger::once(at(0)), JobOptions::default(), at(0));
    harness.run_until(at(0));
    harness.finish(0, CompletionOutcome::Finished(channel_outcome(true)), at(1));
    assert!(harness.saw(|kind| matches!(
        kind,
        SchedulerEventKind::OutputDelivered { job_id, .. } if *job_id == id
    )));
}

#[test]
fn priorities_are_bounded() {
    assert_eq!(JobPriority::new(0).unwrap().get(), 0);
    assert_eq!(JobPriority::new(10).unwrap().get(), 10);
    assert_eq!(JobPriority::new(11), Err(SchedulerError::InvalidPriority(11)));
    let priority: Result<JobPriority, SchedulerError> = 7u8.try_into();
    assert_eq!(priority, Ok(JobPriority::high()));
    let refused: Result<JobPriority, SchedulerError> = 200u8.try_into();
    assert_eq!(refused, Err(SchedulerError::InvalidPriority(200)));
    assert_eq!(u8::from(JobPriority::low()), 3);
    assert_eq!(JobPriority::default().get(), 5);
    assert_eq!(JobPriority::lowest().get(), 0);
    assert_eq!(JobPriority::critical().get(), 10);
    assert!(JobPriority::high() > JobPriority::normal());
}

#[test]
fn the_more_urgent_job_goes_first() {
    let mut config = fast_config();
    config.global_concurrency = 1;
    let mut harness = Harness::new(config);
    harness.add(1, Trigger::once(at(0)), JobOptions::default(), at(0));
    harness.run_until(at(0));
    let low = JobOptions { priority: JobPriority::low(), ..JobOptions::default() };
    let high = JobOptions { priority: JobPriority::high(), ..JobOptions::default() };
    harness.add(2, Trigger::once(at(1)), low, at(1));
    harness.add(3, Trigger::once(at(1)), high, at(1));
    harness.run_until(at(1));
    harness.succeed(0, at(2));
    assert_eq!(harness.started[1].handle, 3);
    harness.succeed(1, at(3));
    assert_eq!(harness.started[2].handle, 2);
}

#[test]
fn only_the_latest_trigger_waits() {
    let mut harness = Harness::new(fast_config());
    let trigger = Trigger {
        schedule: Schedule::Interval { every: Span::from_millis(5), start_at: None },
        misfire: MisfirePolicy::FireOnce,
        timeout: None,
    };
    let id = harness.add(1, trigger, JobOptions::default(), at(0));
    for step in 1..6 {
        harness.run_until(at(step * 5));
    }
    assert_eq!(harness.started.len(), 1);
    assert_eq!(harness.actor.get(id).unwrap().pending_count, 1);
    let waiting = harness.actor.ready.items[0].scheduled_at;
    assert_eq!(waiting, at(25));
    assert!(harness.saw(|kind| matches!(kind, SchedulerEventKind::PendingReplaced { .. })));
}

#[test]
fn a_full_queue_makes_triggers_wait() {
    let mut harness = Harness::new(fast_config());
    let trigger = Trigger {
        schedule: Schedule::Interval { every: Span::from_millis(5), start_at: None },
        misfire: MisfirePolicy::FireOnce,
        timeout: None,
    };
    let options = JobOptions {
        max_pending: Some(1),
        coalescing: Some(TriggerCoalescing::KeepAll),
        capacity: Some(CapacityPolicy::Backpressure),
        ..JobOptions::default()
    };
    let id = harness.add(1, trigger, options, at(0));
    for step in 1..4 {
        harness.run_until(at(step * 5));
    }
    assert_eq!(harness.actor.ready.items.len(), 1);
    assert_eq!(harness.actor.get(id).unwrap().pending_count, 2);
    assert!(harness.saw(|kind| matches!(kind, SchedulerEventKind::BackpressureApplied { .. })));
    harness.succeed(0, at(16));
    assert_eq!(harness.started.len(), 2);
    harness.succeed(1, at(17));
    assert_eq!(harness.started.len(), 3);
}

#[test]
fn a_full_queue_skips_new_triggers() {
    let mut harness = Harness::new(fast_config());
    let trigger = Trigger {
        schedule: Schedule::Interval { every: Span::from_millis(5), start_at: None },
        misfire: MisfirePolicy::FireOnce,
        timeout: None,
    };
    let options = JobOptions {
        max_pending: Some(1),
        coalescing: Some(TriggerCoalescing::KeepAll),
        capacity: Some(CapacityPolicy::SkipNewest),
        ..JobOptions::default()
    };
    harness.add(1, trigger, options, at(0));
    for step in 1..4 {
        harness.run_until(at(step * 5));
    }
    assert_eq!(harness.actor.ready.items.len(), 1);
    assert_eq!(harness.actor.ready.items[0].scheduled_at, at(10));
    assert!(harness.saw(|kind| matches!(kind, SchedulerEventKind::TriggerSkipped { .. })));
}

#[test]
fn repeated_failures_disable_a_job() {
    let mut harness = Harness::new(fast_config());
    let options = JobOptions {
        failure: FailurePolicy {
            disable_after_consecutive_failures: Some(2),
            ..FailurePolicy::default()
        },
        ..JobOptions::default()
    };
    let id = harness.add(1, Trigger::interval(Span::from_millis(5)), options, at(0));
    harness.run_until(at(0));
    harness.finish(0, transient(), at(1));
    assert_eq!(harness.actor.get(id).unwrap().state, JobState::Enabled);
    harness.run_until(at(5));
    harness.finish(1, transient(), at(6));
    let snapshot = harness.actor.get(id).unwrap();
    assert_eq!(snapshot.consecutive_failures, 2);
    assert!(matches!(snapshot.state, JobState::Disabled { .. }));
    harness.run_until(at(1_000));
    assert_eq!(harness.started.len(), 2);
}

#[test]
fn stale_completion_only_frees_its_slot() {
    let mut harness = Harness::new(fast_config());
    let id = harness.add(1, Trigger::interval(Span::from_millis(5)), JobOptions::default(), at(0));
    harness.run_until(at(0));
    harness.actor.update_job(id, 0, JobPatch::new(), at(6)).unwrap();
    harness.absorb();
    let before = harness.actor.get(id).unwrap();
    harness.finish(0, transient(), at(7));
    let after = harness.actor.get(id).unwrap();
    assert_eq!(before.running_count, 1);
    assert_eq!(after.running_count, 0);
    assert_eq!(after.consecutive_failures, 0);
    assert_eq!(after.last_outcome, before.last_outcome);
}

#[test]
fn retries_wait_longer_each_time() {
    let mut harness = Harness::new(fast_config());
    let options = JobOptions {
        retry: ExecutionRetryPolicy::Exponential {
            max_attempts: 5,
            initial_delay: Span::from_millis(10),
            max_delay: Span::from_millis(35),
            retry_on: RetryCondition::default(),
        },
        ..JobOptions::default()
    };
    harness.add(1, Trigger::once(at(0)), options, at(0));
    harness.run_until(at(0));
    let mut now = 0;
    for (place, delay) in [10, 20, 35, 35].into_iter().enumerate() {
        harness.finish(place, transient(), at(now));
        let next = harness.timers[0].1.run_at;
        assert_eq!(next, at(now + delay));
        now += delay;
        harness.run_until(at(now));
    }
    harness.finish(4, transient(), at(now));
    assert!(harness.timers.is_empty());
    assert_eq!(harness.started.len(), 5);
}

#[test]
fn job_ids_and_limits_are_checked() {
    let mut config = fast_config();
    config.max_jobs = 1;
    let mut harness = Harness::new(config);
    let id = harness.add(1, Trigger::once(at(60_000)), JobOptions::default(), at(0));
    assert_eq!(
        harness.try_add(2, Trigger::once(at(60_000)), JobOptions::default(), at(0)),
        Err(SchedulerError::MaximumJobsReached(1))
    );
    assert!(matches!(
        harness.actor.delete_job(99, 0, true, at(1)),
        Err(SchedulerError::JobNotFound(99))
    ));
    harness.actor.delete_job(id, 0, true, at(1)).unwrap();

    let task = TaskBinding::new(1, "test".to_string(), TaskCancellationMode::Cooperative);
    let added = harness.actor.add_job(
        Some(7),
        1,
        4,
        false,
        Trigger::once(at(60_000)),
        task,
        JobOptions::default(),
        at(2),
    );
    assert_eq!(added, Ok(7));
    let snapshot = harness.actor.get(7).unwrap();
    assert_eq!(snapshot.version, 4);
    assert!(matches!(snapshot.state, JobState::Disabled { .. }));
    assert_eq!(snapshot.next_run_at, None);
    let task = TaskBinding::new(1, "test".to_string(), TaskCancellationMode::Cooperative);
    harness
        .actor
        .update_config(
            0,
            SchedulerConfigPatch { max_jobs: Some(2), ..SchedulerConfigPatch::default() },
            at(2),
        )
        .unwrap();
    let again = harness.actor.add_job(
        Some(7),
        1,
        0,
        true,
        Trigger::once(at(60_000)),
        task,
        JobOptions::default(),
        at(2),
    );
    assert_eq!(again, Err(SchedulerError::JobAlreadyExists(7)));
}

#[test]
fn triggers_are_checked() {
    let config = SchedulerConfig::default();
    let options = JobOptions::default();
    validate_trigger(&Trigger::interval(Span::from_millis(100)), &options, &config).unwrap();
    assert!(matches!(
        validate_trigger(&Trigger::interval(Span::from_millis(99)), &options, &config),
        Err(SchedulerError::InvalidTrigger(_))
    ));
    assert!(matches!(
        validate_trigger(&Trigger::cron("not a schedule".to_string()), &options, &config),
        Err(SchedulerError::InvalidTrigger(_))
    ));
    validate_trigger(&Trigger::cron("0 0 * * *".to_string()), &options, &config).unwrap();
    let nowhere =
        Trigger::cron("0 0 * * *".to_string()).with_timezone("Nowhere/Else".to_string());
    assert!(matches!(first_run_at(&nowhere, at(0)), Err(SchedulerError::InvalidTrigger(_))));
    let too_many = Trigger {
        schedule: Schedule::Interval { every: Span::from_secs(1), start_at: None },
        misfire: MisfirePolicy::CatchUp { max_runs: 101 },
        timeout: None,
    };
    assert!(matches!(
        validate_trigger(&too_many, &options, &config),
        Err(SchedulerError::InvalidTrigger(_))
    ));
    let hasty = JobOptions {
        retry: ExecutionRetryPolicy::Exponential {
            max_attempts: 2,
            initial_delay: Span::from_millis(1),
            max_delay: Span::from_secs(1),
            retry_on: RetryCondition::default(),
        },
        ..JobOptions::default()
    };
    assert!(matches!(
        validate_trigger(&Trigger::once(at(0)), &hasty, &config),
        Err(SchedulerError::InvalidRetry(_))
    ));
}

#[test]
fn cron_follows_the_calendar_and_the_time_zone() {
    let noon = Timestamp { nanos: 1_704_110_400_000_000_000 };
    let next = next_occurrence("0 0 * * *", "UTC", noon).unwrap();
    assert_eq!(next.nanos, 1_704_153_600_000_000_000);
    let berlin = next_occurrence("0 0 * * *", "Europe/Berlin", noon).unwrap();
    assert_eq!(berlin.nanos, 1_704_150_000_000_000_000);
    assert!(next_occurrence("0 0 30 2 *", "UTC", noon).is_err());
    let schedule = Schedule::Cron {
        expression: "30 12 * * *".to_string(),
        timezone: "UTC".to_string(),
    };
    let after = next_after(&schedule, noon).unwrap().unwrap();
    assert_eq!(after.nanos, 1_704_112_200_000_000_000);
    let trigger = Trigger::cron("30 12 * * *".to_string()).with_timezone("UTC".to_string());
    assert_eq!(first_run_at(&trigger, noon).unwrap(), after);
}

#[test]
fn intervals_keep_their_phase() {
    let schedule = Schedule::Interval { every: Span::from_secs(10), start_at: None };
    let next = next_future_occurrence(&schedule, at(0), at(25_500)).unwrap().unwrap();
    assert_eq!(next, at(30_000));
    let once = Schedule::Once { at: at(5) };
    assert_eq!(next_future_occurrence(&once, at(0), at(10)).unwrap(), None);
    let skipping = Trigger {
        schedule: Schedule::Interval { every: Span::from_secs(10), start_at: None },
        misfire: MisfirePolicy::Skip,
        timeout: None,
    };
    let due = due_occurrences(&skipping, at(0), at(25_000), 100).unwrap();
    assert_eq!(due.next, Some(at(30_000)));
    assert!(due.occurrences.len() <= 1);
}

#[test]
fn far_instants_are_refused() {
    assert!(datetime_from_nanos(i128::MAX).is_err());
    assert!(datetime_from_nanos(8_210_266_876_800_000_000_000).is_err());
    let last = datetime_from_nanos(8_210_266_876_799_999_999_999).unwrap();
    assert_eq!(datetime_nanos(last), 8_210_266_876_799_999_999_999);
    assert!(last.is_representable());
    assert_eq!(last.checked_add(Span { nanos: 1 }), None);
    assert!(Span { nanos: u128::MAX }.check_delta().is_err());
    assert!(Span::from_secs(1).check_delta().is_ok());
    assert_eq!(Timestamp { nanos: -1 }.parts(), (-1, 999_999_999));
}

#[test]
fn durations_have_a_text() {
    assert_eq!(Span::from_millis(1_500).to_text(), "1.5s");
    assert_eq!(Span::from_millis(5).to_text(), "5ms");
    assert_eq!(duration_ms(Span::from_secs(2)), 2_000);
    assert_eq!(duration_ms(Span { nanos: u128::MAX }), u64::MAX);
    assert_eq!(panic_message(None), "task panicked with a non-string payload");
}

#[test]
fn the_longest_supported_delay_is_found() {
    for longest in [0u64, 1, 7, 99, 100, 1_000] {
        let delay = latest_supported_delay(|seconds| seconds <= longest, 100);
        assert_eq!(delay, longest.min(100));
    }
    assert_eq!(latest_supported_delay(|_| true, u64::MAX), u64::MAX);
    assert_eq!(timer_delay(at(5), at(9)), Span { nanos: 0 });
    assert_eq!(timer_delay(at(9), at(5)), Span::from_millis(4));
}

#[test]
fn updates_can_run_at_once_or_keep_the_plan() {
    let mut harness = Harness::new(fast_config());
    let id = harness.add(1, Trigger::interval(Span::from_secs(10)), JobOptions::default(), at(0));
    let mut patch = JobPatch::new();
    patch.reschedule = RescheduleMode::RunNow;
    harness.actor.update_job(id, 0, patch, at(100)).unwrap();
    harness.absorb();
    harness.run_until(at(100));
    assert_eq!(harness.started.len(), 1);

    let mut patch = JobPatch::new();
    patch.max_pending = PatchValue::Assign(3);
    patch.reschedule = RescheduleMode::Preserve;
    let planned = harness.actor.get(id).unwrap().next_run_at;
    let updated = harness.actor.update_job(id, 1, patch, at(200)).unwrap();
    assert_eq!(updated.max_pending, 3);
    assert_eq!(updated.next_run_at, planned);
    let mut patch = JobPatch::new();
    patch.max_pending = PatchValue::Inherit;
    let updated = harness.actor.update_job(id, 2, patch, at(300)).unwrap();
    assert_eq!(updated.max_pending, SchedulerConfig::default().default_job_max_pending);
}

#[test]
fn nothing_starts_in_shutdown() {
    let mut harness = Harness::new(fast_config());
    let id = harness.add(1, Trigger::interval(Span::from_millis(5)), JobOptions::default(), at(0));
    harness.run_until(at(0));
    harness.actor.begin_shutdown(at(6));
    harness.absorb();
    assert_eq!(harness.status, Some(SchedulerStatus::Stopping));
    assert_eq!(harness.cancelled, vec![harness.started[0].context.run_id]);
    assert!(harness.timers.is_empty());
    harness.actor.finish_shutdown(at(7));
    harness.absorb();
    assert_eq!(harness.status, Some(SchedulerStatus::Stopped));
    assert!(harness.saw(|kind| matches!(kind, SchedulerEventKind::SchedulerStopped)));
    assert!(harness.actor.get(id).is_some());
    assert_eq!(harness.started.len(), 1);
}

#[test]
fn events_are_numbered() {
    let mut harness = Harness::new(fast_config());
    harness.add(1, Trigger::interval(Span::from_millis(5)), JobOptions::default(), at(0));
    harness.run_until(at(20));
    for (place, event) in harness.events.iter().enumerate() {
        assert_eq!(event.sequence, place as u64 + 1);
    }
}

#[test]
fn commands_reach_the_engine() {
    let mut harness = Harness::new(fast_config());
    let reply = harness.actor.handle_command(
        Command::Add {
            job_id: None,
            fresh_id: 5,
            generation: 0,
            enabled: true,
            trigger: Trigger::once(at(60_000)),
            task: TaskBinding::new(1, "test".to_string(), TaskCancellationMode::Cooperative),
            options: JobOptions::default(),
        },
        at(0),
    );
    assert!(matches!(reply, Reply::Added(Ok(5))));
    assert!(matches!(
        harness.actor.handle_command(Command::List, at(1)),
        Reply::Listed(jobs) if jobs.len() == 1 && jobs[0].task_kind == "test"
    ));
    assert!(matches!(
        harness.actor.handle_command(Command::Get { job_id: 6 }, at(1)),
        Reply::Found(None)
    ));
    let reply = harness.actor.handle_command(
        Command::Disable { job_id: 5, expected_version: 0, reason: "pause".to_string() },
        at(2),
    );
    assert!(matches!(reply, Reply::Changed(Ok(_))));
    let reply = harness
        .actor
        .handle_command(Command::Enable { job_id: 5, expected_version: 1 }, at(3));
    assert!(matches!(reply, Reply::Changed(Ok(job)) if job.state == JobState::Enabled));
    let reply = harness.actor.handle_command(
        Command::Update { job_id: 5, expected_version: 9, patch: JobPatch::new() },
        at(4),
    );
    assert!(matches!(reply, Reply::Changed(Err(SchedulerError::VersionConflict { .. }))));
    let reply = harness
        .actor
        .handle_command(Command::Delete { job_id: 5, expected_version: 2 }, at(5));
    assert!(matches!(reply, Reply::Deleted(Ok(()))));
    assert!(matches!(
        harness.actor.handle_command(Command::GetConfig, at(6)),
        Reply::Config(snapshot) if snapshot.revision == 0
    ));
    let reply = harness.actor.handle_command(
        Command::UpdateConfig { expected_revision: 0, patch: SchedulerConfigPatch::default() },
        at(7),
    );
    assert!(matches!(reply, Reply::Reconfigured(Ok(_))));
    assert!(matches!(harness.actor.handle_command(Command::Shutdown, at(8)), Reply::Stop));
}

#[test]
fn configurations_are_checked() {
    let mut config = SchedulerConfig::default();
    apply_config_patch(
        &mut config,
        SchedulerConfigPatch { max_jobs: Some(0), ..SchedulerConfigPatch::default() },
    );
    assert_eq!(config.max_jobs, 0);
    let error = validate_config(&config).unwrap_err();
    assert_eq!(
        error.message(),
        "scheduler capacities and safety limits must be greater than zero"
    );
}

#[test]
fn task_results_have_outcomes() {
    assert_eq!(action_outcome(Ok(())), TaskRunResult::Completed);
    assert_eq!(
        action_outcome(Err(TaskError::Transient("x".to_string()))),
        TaskRunResult::TaskTransient("x".to_string())
    );
    assert_eq!(channel_outcome(true), TaskRunResult::OutputDelivered);
    assert_eq!(callback_outcome(Ok(())), TaskRunResult::OutputDelivered);
    assert_eq!(
        callback_outcome(Err(CallbackError::Permanent("y".to_string()))),
        TaskRunResult::CallbackPermanent("y".to_string())
    );
    assert!(matches!(after_run(Ok(3u8)), AdapterStep::Deliver(3)));
    assert!(matches!(
        after_run::<u8>(Err(TaskError::Permanent("z".to_string()))),
        AdapterStep::Finish(TaskRunResult::TaskPermanent(text)) if text == "z"
    ));
    assert!(report_result(Some(1u8)).is_ok());
    assert!(matches!(report_result::<u8>(None), Err(CallbackError::Permanent(_))));
    assert!(report_sent(true).is_ok());
    assert!(report_sent(false).is_err());
    assert!(!task_outcome_name(&TaskRunResult::Completed).is_empty());
}

#[test]
fn reports_carry_the_run() {
    let context = TaskContext {
        job_id: 0x0102_0304_0506_0708_090a_0b0c_0d0e_0f10,
        version: 3,
        run_id: 7,
        attempt: 2,
        scheduled_at: at(0),
        started_at: Timestamp { nanos: -1 },
    };
    let header = report_header(&context, 9);
    assert_eq!(header.job_id, vec![1, 2, 3, 4, 5, 6, 7, 8, 9, 10, 11, 12, 13, 14, 15, 16]);
    assert_eq!(header.run_id[15], 7);
    assert_eq!(header.job_revision, 9);
    assert_eq!(header.attempt, 2);
    assert_eq!(header.scheduled_at.seconds, 1_700_000_000);
    assert_eq!(header.started_at.seconds, -1);
    assert_eq!(header.started_at.nanos, 999_999_999);
    assert_eq!(timestamp(at(1)).nanos, 1_000_000);
}

#[test]
fn the_ready_queue_takes_the_most_urgent_and_oldest() {
    let waiting = |run_id: RunId, priority: JobPriority| PendingExecution {
        job_id: 1,
        version: 0,
        run_id,
        attempt: 1,
        scheduled_at: at(0),
        kind: PendingKind::Normal,
        priority,
        batch_id: 1,
    };
    let mut queue = ReadyQueue::new();
    assert!(queue.is_empty());
    queue.insert(waiting(1, JobPriority::normal()));
    queue.insert(waiting(2, JobPriority::high()));
    queue.insert(waiting(3, JobPriority::normal()));
    assert_eq!(queue.len(), 3);
    assert_eq!(queue.count_job(1), 3);
    assert_eq!(queue.pop_dispatchable(&vec![true, true, true]).unwrap().run_id, 2);
    assert_eq!(queue.pop_dispatchable(&vec![false, false]), None);
    assert_eq!(queue.remove_oldest_trigger(1).unwrap().run_id, 1);
    assert_eq!(queue.remove_normal_triggers(1).len(), 1);
    assert!(queue.is_empty());
}

#[test]
fn zero_counts_are_refused() {
    let config = SchedulerConfig::default();
    let refusal = |trigger: Trigger, options: JobOptions| {
        validate_trigger(&trigger, &options, &config).unwrap_err().message()
    };
    let once = || Trigger::once(at(0));
    assert_eq!(
        refusal(once(), JobOptions { concurrency: Some(0), ..JobOptions::default() }),
        "job concurrency must be greater than zero"
    );
    let failure = FailurePolicy {
        disable_after_consecutive_failures: Some(0),
        ..FailurePolicy::default()
    };
    assert_eq!(
        refusal(once(), JobOptions { failure, ..JobOptions::default() }),
        "failure limit must be greater than zero"
    );
    let none = Trigger {
        schedule: Schedule::Interval { every: Span::from_secs(1), start_at: None },
        misfire: MisfirePolicy::CatchUp { max_runs: 0 },
        timeout: None,
    };
    assert_eq!(refusal(none, JobOptions::default()), "catch-up count must be greater than zero");
    let retry = ExecutionRetryPolicy::Exponential {
        max_attempts: 0,
        initial_delay: Span::from_secs(1),
        max_delay: Span::from_secs(1),
        retry_on: RetryCondition::default(),
    };
    assert_eq!(
        refusal(once(), JobOptions { retry, ..JobOptions::default() }),
        "retry attempts or delays violate scheduler limits"
    );
    for patch in [
        SchedulerConfigPatch { global_concurrency: Some(0), ..SchedulerConfigPatch::default() },
        SchedulerConfigPatch {
            default_job_concurrency: Some(0),
            ..SchedulerConfigPatch::default()
        },
        SchedulerConfigPatch { due_batch_size: Some(0), ..SchedulerConfigPatch::default() },
    ] {
        let mut config = SchedulerConfig::default();
        apply_config_patch(&mut config, patch);
        assert!(validate_config(&config).is_err());
    }
}

#[test]
fn priorities_are_ordered_by_their_numbers() {
    for a in 0..=10u8 {
        for b in 0..=10u8 {
            let (x, y) = (JobPriority::new(a).unwrap(), JobPriority::new(b).unwrap());
            assert_eq!(x < y, a < b);
            assert_eq!(x == y, a == b);
            assert_eq!(x.cmp(&y), a.cmp(&b));
        }
    }
}

#[test]
fn made_up_cron_occurrences_rise() {
    let noon = Timestamp { nanos: 1_704_110_400_000_000_000 };
    let later = Timestamp { nanos: noon.nanos + 3_600_000_000_000 };
    let trigger = Trigger {
        schedule: Schedule::Cron {
            expression: "*/10 * * * *".to_string(),
            timezone: "UTC".to_string(),
        },
        misfire: MisfirePolicy::CatchUp { max_runs: 4 },
        timeout: None,
    };
    let due = due_occurrences(&trigger, noon, later, 100).unwrap();
    let minutes: Vec<i128> = due
        .occurrences
        .iter()
        .map(|instant| (instant.nanos - noon.nanos) / 60_000_000_000)
        .collect();
    assert_eq!(minutes, vec![0, 10, 20, 30]);
    assert_eq!(due.next, Some(Timestamp { nanos: later.nanos + 600_000_000_000 }));
}
