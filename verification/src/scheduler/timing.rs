//! Checks of triggers and the arithmetic of planned instants.

use super::config::{unit_view, SchedulerConfig, SchedulerError, SchedulerErrorView};
use super::cron::{check_expression, cron_next, cron_rejection, cron_start, next_occurrence};
use super::model::{
    CapacityPolicy, ExecutionRetryPolicy, JobOptions, MisfirePolicy, Schedule, ScheduleView,
    Trigger, TriggerCoalescing, TriggerView,
};
use super::time::{
    delta_error, fits_delta, max_int, min_int, representable, second_of, span_text, Span, Timestamp,
    LARGEST_DELTA_MILLIS, NANOS_PER_MILLI,
};
use crate::text::{decimal, decimal_text, join};
use vstd::prelude::*;

verus! {

/// Whether losing an occurrence of this trigger is not acceptable by default.
pub open spec fn lossless(trigger: TriggerView) -> bool {
    trigger.schedule is Once || trigger.misfire is CatchUp
}

/// Merging and capacity policies in force: the options' own, else lossless ones for one-shot and
/// catch-up triggers and latest-only ones for other triggers.
pub open spec fn queue_policies(trigger: TriggerView, options: JobOptions) -> (
    TriggerCoalescing,
    CapacityPolicy,
) {
    (
        match options.coalescing {
            Some(coalescing) => coalescing,
            None => if lossless(trigger) {
                TriggerCoalescing::KeepAll
            } else {
                TriggerCoalescing::KeepLatest
            },
        },
        match options.capacity {
            Some(capacity) => capacity,
            None => if lossless(trigger) {
                CapacityPolicy::Backpressure
            } else {
                CapacityPolicy::ReplaceOldestTrigger
            },
        },
    )
}

/// Merging and capacity policies in force.
pub fn effective_queue_policies(trigger: &Trigger, options: &JobOptions) -> (policies: (
    TriggerCoalescing,
    CapacityPolicy,
))
    ensures
        policies == queue_policies(trigger@, *options),
{
    let lossless = trigger.schedule.is_once() || matches!(
        trigger.misfire,
        MisfirePolicy::CatchUp { .. }
    );
    let coalescing = match options.coalescing {
        Some(coalescing) => coalescing,
        None => if lossless {
            TriggerCoalescing::KeepAll
        } else {
            TriggerCoalescing::KeepLatest
        },
    };
    let capacity = match options.capacity {
        Some(capacity) => capacity,
        None => if lossless {
            CapacityPolicy::Backpressure
        } else {
            CapacityPolicy::ReplaceOldestTrigger
        },
    };
    (coalescing, capacity)
}

/// Whether a retry policy stays within the limits.
pub open spec fn retry_allowed(retry: ExecutionRetryPolicy, config: SchedulerConfig) -> bool {
    match retry {
        ExecutionRetryPolicy::NoRetry => true,
        ExecutionRetryPolicy::Exponential { max_attempts, initial_delay, max_delay, .. } => {
            &&& 0 < max_attempts <= config.maximum_retry_attempts
            &&& initial_delay.nanos >= config.minimum_retry_delay.nanos
            &&& max_delay.nanos >= initial_delay.nanos
        },
    }
}

/// Which count of a trigger or its options is zero, where one is.
pub open spec fn zero_count(trigger: TriggerView, options: JobOptions) -> Option<Seq<char>> {
    if options.max_pending == Some(0usize) {
        Some("job pending capacity must be greater than zero"@)
    } else if options.concurrency == Some(0usize) {
        Some("job concurrency must be greater than zero"@)
    } else if options.failure.disable_after_consecutive_failures == Some(0u32) {
        Some("failure limit must be greater than zero"@)
    } else if trigger.misfire is CatchUp && trigger.misfire->max_runs == 0 {
        Some("catch-up count must be greater than zero"@)
    } else {
        None
    }
}

/// First rule that a trigger with its options breaks, or `None` where it breaks none.
pub open spec fn trigger_error(
    trigger: TriggerView,
    options: JobOptions,
    config: SchedulerConfig,
) -> Option<SchedulerErrorView> {
    let schedule_error = match trigger.schedule {
        ScheduleView::Interval { every, .. } => if every.nanos < config.minimum_interval.nanos {
            Some("interval must be at least "@ + span_text(config.minimum_interval))
        } else {
            None
        },
        ScheduleView::Cron { expression, .. } => cron_rejection(expression),
        ScheduleView::Once { .. } => None,
    };
    if zero_count(trigger, options) is Some {
        Some(SchedulerErrorView::InvalidTrigger(zero_count(trigger, options)->0))
    } else if schedule_error is Some {
        Some(SchedulerErrorView::InvalidTrigger(schedule_error->0))
    } else if trigger.misfire is CatchUp && trigger.misfire->max_runs > config.maximum_catch_up {
        Some(
            SchedulerErrorView::InvalidTrigger(
                "catch-up count exceeds "@ + decimal(config.maximum_catch_up as nat),
            ),
        )
    } else if trigger.misfire is CatchUp && queue_policies(trigger, options) != (
        TriggerCoalescing::KeepAll,
        CapacityPolicy::Backpressure,
    ) {
        Some(
            SchedulerErrorView::InvalidTrigger(
                "catch-up requires keep-all coalescing and backpressure capacity"@,
            ),
        )
    } else if !retry_allowed(options.retry, config) {
        Some(
            SchedulerErrorView::InvalidRetry(
                "retry attempts or delays violate scheduler limits"@,
            ),
        )
    } else {
        None
    }
}

/// Answer of a check: the error where there is one.
pub open spec fn check_answer(error: Option<SchedulerErrorView>) -> Result<
    (),
    SchedulerErrorView,
> {
    match error {
        Some(error) => Err(error),
        None => Ok(()),
    }
}

fn invalid_trigger(text: &str) -> (error: SchedulerError)
    ensures
        error@ == SchedulerErrorView::InvalidTrigger(text@),
{
    SchedulerError::InvalidTrigger(text.to_owned())
}

/// Checks a trigger with its options against the limits. Catch-up needs lossless queueing, and
/// retries cannot go around the limits.
pub fn validate_trigger(
    trigger: &Trigger,
    options: &JobOptions,
    config: &SchedulerConfig,
) -> (checked: Result<(), SchedulerError>)
    ensures
        unit_view(checked) == check_answer(trigger_error(trigger@, *options, *config)),
{
    if let Some(limit) = options.max_pending {
        if limit == 0 {
            return Err(invalid_trigger("job pending capacity must be greater than zero"));
        }
    }
    if let Some(limit) = options.concurrency {
        if limit == 0 {
            return Err(invalid_trigger("job concurrency must be greater than zero"));
        }
    }
    if let Some(limit) = options.failure.disable_after_consecutive_failures {
        if limit == 0 {
            return Err(invalid_trigger("failure limit must be greater than zero"));
        }
    }
    if let MisfirePolicy::CatchUp { max_runs } = trigger.misfire {
        if max_runs == 0 {
            return Err(invalid_trigger("catch-up count must be greater than zero"));
        }
    }
    match &trigger.schedule {
        Schedule::Interval { every, .. } => {
            if every.nanos < config.minimum_interval.nanos {
                let text = join(
                    "interval must be at least ",
                    config.minimum_interval.to_text().as_str(),
                );
                return Err(SchedulerError::InvalidTrigger(text));
            }
        },
        Schedule::Cron { expression, .. } => {
            if let Err(text) = check_expression(expression.as_str()) {
                return Err(SchedulerError::InvalidTrigger(text));
            }
        },
        Schedule::Once { .. } => {},
    }
    if let MisfirePolicy::CatchUp { max_runs } = trigger.misfire {
        if max_runs > config.maximum_catch_up {
            let text = join(
                "catch-up count exceeds ",
                decimal_text(config.maximum_catch_up as u64).as_str(),
            );
            return Err(SchedulerError::InvalidTrigger(text));
        }
        let (coalescing, capacity) = effective_queue_policies(trigger, options);
        if coalescing != TriggerCoalescing::KeepAll || capacity != CapacityPolicy::Backpressure {
            return Err(
                invalid_trigger("catch-up requires keep-all coalescing and backpressure capacity"),
            );
        }
    }
    if let ExecutionRetryPolicy::Exponential { max_attempts, initial_delay, max_delay, .. } =
        options.retry {
        if max_attempts == 0 || max_attempts > config.maximum_retry_attempts || initial_delay.nanos
            < config.minimum_retry_delay.nanos || max_delay.nanos < initial_delay.nanos {
            return Err(
                SchedulerError::InvalidRetry(
                    "retry attempts or delays violate scheduler limits".to_owned(),
                ),
            );
        }
    }
    Ok(())
}

/// Planned instant, if any, or why there is none.
pub type Planned = Result<Option<Timestamp>, SchedulerErrorView>;

/// Answer of a planning function with its error taken by its view.
pub open spec fn planned_view(planned: Result<Option<Timestamp>, SchedulerError>) -> Planned {
    match planned {
        Ok(next) => Ok(next),
        Err(error) => Err(error@),
    }
}

/// Instant or error with the error taken by its view.
pub open spec fn instant_answer(answer: Result<Timestamp, SchedulerError>) -> Result<
    Timestamp,
    SchedulerErrorView,
> {
    match answer {
        Ok(instant) => Ok(instant),
        Err(error) => Err(error@),
    }
}

/// Next planned instant after `after`: none for a one-shot schedule, one period later for an
/// interval, the next occurrence of a cron expression.
pub open spec fn following(schedule: ScheduleView, after: Timestamp) -> Planned {
    match schedule {
        ScheduleView::Once { .. } => Ok(None),
        ScheduleView::Interval { every, .. } => if !fits_delta(every) {
            Err(SchedulerErrorView::InvalidTrigger(delta_error()))
        } else if representable(after.nanos + every.nanos) {
            Ok(Some(Timestamp { nanos: (after.nanos + every.nanos) as i128 }))
        } else {
            Err(SchedulerErrorView::InvalidTrigger("next interval occurrence overflowed"@))
        },
        ScheduleView::Cron { expression, timezone } => match cron_next(
            expression,
            timezone,
            after,
        ) {
            Ok(next) => Ok(Some(next)),
            Err(text) => Err(SchedulerErrorView::InvalidTrigger(text)),
        },
    }
}

/// Next planned instant after `after`.
pub fn next_after(schedule: &Schedule, after: Timestamp) -> (next: Result<
    Option<Timestamp>,
    SchedulerError,
>)
    requires
        schedule@ is Cron ==> cron_start(after.nanos as int),
    ensures
        planned_view(next) == following(schedule@, after),
        schedule@ is Cron && next is Ok ==> next->Ok_0 is Some && next->Ok_0->0.nanos
            > after.nanos && representable(next->Ok_0->0.nanos as int),
{
    match schedule {
        Schedule::Once { .. } => Ok(None),
        Schedule::Interval { every, .. } => {
            match every.check_delta() {
                Ok(_) => {},
                Err(text) => {
                    return Err(SchedulerError::InvalidTrigger(text));
                },
            }
            match after.checked_add(*every) {
                Some(next) => Ok(Some(next)),
                None => Err(invalid_trigger("next interval occurrence overflowed")),
            }
        },
        Schedule::Cron { expression, timezone } => {
            match next_occurrence(expression.as_str(), timezone.as_str(), after) {
                Ok(next) => Ok(Some(next)),
                Err(text) => Err(SchedulerError::InvalidTrigger(text)),
            }
        },
    }
}

/// First planned instant of a trigger that is registered or enabled at `now`.
pub open spec fn first_instant(trigger: TriggerView, now: Timestamp) -> Result<
    Timestamp,
    SchedulerErrorView,
> {
    match trigger.schedule {
        ScheduleView::Once { at } => Ok(
            Timestamp { nanos: max_int(at.nanos as int, now.nanos as int) as i128 },
        ),
        ScheduleView::Interval { start_at, .. } => Ok(
            match start_at {
                Some(start) => start,
                None => now,
            },
        ),
        ScheduleView::Cron { .. } => match following(trigger.schedule, now) {
            Ok(Some(next)) => Ok(next),
            Ok(None) => Err(SchedulerErrorView::InvalidTrigger("cron has no future occurrence"@)),
            Err(error) => Err(error),
        },
    }
}

/// First planned instant of a trigger that is registered or enabled at `now`.
pub fn first_run_at(trigger: &Trigger, now: Timestamp) -> (first: Result<
    Timestamp,
    SchedulerError,
>)
    requires
        trigger@.schedule is Cron ==> cron_start(now.nanos as int),
    ensures
        instant_answer(first) == first_instant(trigger@, now),
        trigger@.schedule is Cron && first is Ok ==> first->Ok_0.nanos > now.nanos,
        trigger@.schedule is Once ==> first is Ok && first->Ok_0.nanos >= now.nanos,
{
    match &trigger.schedule {
        Schedule::Once { at } => Ok(at.max(now)),
        Schedule::Interval { start_at, .. } => Ok(
            match start_at {
                Some(start) => *start,
                None => now,
            },
        ),
        Schedule::Cron { .. } => match next_after(&trigger.schedule, now) {
            Ok(Some(next)) => Ok(next),
            Ok(None) => Err(invalid_trigger("cron has no future occurrence")),
            Err(error) => Err(error),
        },
    }
}

/// Time that has gone by since an anchor, never negative.
pub open spec fn elapsed_since(anchor: Timestamp, now: Timestamp) -> int {
    if now.nanos <= anchor.nanos {
        0
    } else {
        min_int(now.nanos - anchor.nanos, i128::MAX as int)
    }
}

/// Smallest whole number of periods that leads from an anchor past `now`.
pub open spec fn steps_past(anchor: Timestamp, now: Timestamp, every: int) -> int {
    elapsed_since(anchor, now) / every + 1
}

/// The instant at a number of nanoseconds, where the calendar can represent it.
pub open spec fn instant_at(nanos: int) -> Result<Timestamp, SchedulerErrorView> {
    if nanos > i128::MAX || !(i64::MIN <= second_of(nanos) <= i64::MAX) {
        Err(SchedulerErrorView::InvalidTrigger("future interval occurrence overflowed"@))
    } else if !representable(nanos) {
        Err(SchedulerErrorView::InvalidTrigger("future interval occurrence is out of range"@))
    } else {
        Ok(Timestamp { nanos: nanos as i128 })
    }
}

/// Next planned instant after `now` in phase with `anchor`.
pub open spec fn future_occurrence(
    schedule: ScheduleView,
    anchor: Timestamp,
    now: Timestamp,
) -> Planned {
    match schedule {
        ScheduleView::Once { .. } => Ok(None),
        ScheduleView::Cron { .. } => following(schedule, now),
        ScheduleView::Interval { every, .. } => if every.nanos > i128::MAX {
            Err(SchedulerErrorView::InvalidTrigger("interval is too large"@))
        } else if every.nanos == 0 {
            Err(SchedulerErrorView::InvalidTrigger("interval must be greater than zero"@))
        } else {
            let advance = steps_past(anchor, now, every.nanos as int) * every.nanos;
            if advance > i128::MAX {
                Err(SchedulerErrorView::InvalidTrigger("future interval occurrence overflowed"@))
            } else {
                match instant_at(anchor.nanos + advance) {
                    Ok(instant) => Ok(Some(instant)),
                    Err(error) => Err(error),
                }
            }
        },
    }
}

/// Nanoseconds since the epoch.
pub fn datetime_nanos(value: Timestamp) -> (nanos: i128)
    ensures
        nanos == value.nanos,
{
    value.nanos
}

/// The instant at a number of nanoseconds since the epoch.
pub fn datetime_from_nanos(value: i128) -> (instant: Result<Timestamp, SchedulerError>)
    ensures
        instant_answer(instant) == instant_at(value as int),
{
    let instant = Timestamp { nanos: value };
    let (seconds, _) = instant.parts();
    if seconds < i64::MIN as i128 || seconds > i64::MAX as i128 {
        return Err(invalid_trigger("future interval occurrence overflowed"));
    }
    if instant.is_representable() {
        Ok(instant)
    } else {
        Err(invalid_trigger("future interval occurrence is out of range"))
    }
}

/// The first whole number of periods past a length of time lies beyond it, by one period at most.
pub proof fn lemma_steps(elapsed: int, every: int)
    requires
        elapsed >= 0,
        every > 0,
    ensures
        elapsed / every >= 0,
        (elapsed / every + 1) * every > elapsed,
        (elapsed / every + 1) * every <= elapsed + every,
        elapsed / every <= elapsed,
{
    assert(elapsed == every * (elapsed / every) + elapsed % every && 0 <= elapsed % every < every)
        by (nonlinear_arith)
        requires
            every > 0,
    ;
    assert((elapsed / every + 1) * every == every * (elapsed / every) + every) by (nonlinear_arith);
    assert(elapsed / every >= 0) by (nonlinear_arith)
        requires
            elapsed >= 0,
            every > 0,
    ;
    assert(elapsed / every <= elapsed) by (nonlinear_arith)
        requires
            elapsed >= 0,
            every > 0,
    ;
}

/// A planned instant, where there is one, lies after `now`.
pub open spec fn lies_past(
    next: Result<Option<Timestamp>, SchedulerError>,
    now: Timestamp,
) -> bool {
    match next {
        Ok(Some(instant)) => instant.nanos > now.nanos,
        _ => true,
    }
}

/// Next planned instant after `now` in phase with `anchor`, found without walking over the
/// periods in between.
pub fn next_future_occurrence(schedule: &Schedule, anchor: Timestamp, now: Timestamp) -> (next:
    Result<Option<Timestamp>, SchedulerError>)
    requires
        schedule@ is Cron ==> cron_start(now.nanos as int),
    ensures
        planned_view(next) == future_occurrence(schedule@, anchor, now),
        representable(anchor.nanos as int) && representable(now.nanos as int) ==> lies_past(
            next,
            now,
        ),
{
    match schedule {
        Schedule::Once { .. } => Ok(None),
        Schedule::Cron { .. } => next_after(schedule, now),
        Schedule::Interval { every, .. } => {
            if every.nanos > i128::MAX as u128 {
                return Err(invalid_trigger("interval is too large"));
            }
            let interval: i128 = every.nanos as i128;
            if interval == 0 {
                return Err(invalid_trigger("interval must be greater than zero"));
            }
            let elapsed: i128 = if now.nanos <= anchor.nanos {
                0
            } else {
                match now.nanos.checked_sub(anchor.nanos) {
                    Some(value) => value,
                    None => i128::MAX,
                }
            };
            proof {
                lemma_steps(elapsed as int, interval as int);
            }
            let overflowed = invalid_trigger("future interval occurrence overflowed");
            let whole: i128 = elapsed / interval;
            let steps: i128 = match whole.checked_add(1) {
                Some(steps) => steps,
                None => {
                    proof {
                        assert((whole + 1) * interval > i128::MAX) by (nonlinear_arith)
                            requires
                                whole + 1 > i128::MAX,
                                interval >= 1,
                        ;
                    }
                    return Err(overflowed);
                },
            };
            let advance: i128 = match steps.checked_mul(interval) {
                Some(advance) => advance,
                None => {
                    proof {
                        assert(steps * interval >= 0) by (nonlinear_arith)
                            requires
                                steps >= 0,
                                interval >= 0,
                        ;
                    }
                    return Err(overflowed);
                },
            };
            let target: i128 = match anchor.nanos.checked_add(advance) {
                Some(target) => target,
                None => {
                    return Err(overflowed);
                },
            };
            match datetime_from_nanos(target) {
                Ok(instant) => Ok(Some(instant)),
                Err(error) => Err(error),
            }
        },
    }
}

/// What a timer that fired leads to.
#[derive(Debug, PartialEq, Eq)]
pub struct DueSchedule {
    /// Planned instants to execute now.
    pub occurrences: Vec<Timestamp>,
    /// Next normal trigger to plan.
    pub next: Option<Timestamp>,
}

/// What a `DueSchedule` holds.
pub struct DueView {
    /// See `DueSchedule::occurrences`.
    pub occurrences: Seq<Timestamp>,
    /// See `DueSchedule::next`.
    pub next: Option<Timestamp>,
}

impl View for DueSchedule {
    type V = DueView;

    open spec fn view(&self) -> DueView {
        DueView { occurrences: self.occurrences@, next: self.next }
    }
}

/// Answer of `due_occurrences` with its error taken by its view.
pub open spec fn due_answer(due: Result<DueSchedule, SchedulerError>) -> Result<
    DueView,
    SchedulerErrorView,
> {
    match due {
        Ok(due) => Ok(due@),
        Err(error) => Err(error@),
    }
}

/// Whether a planned instant has come.
pub open spec fn has_come(next: Option<Timestamp>, now: Timestamp) -> bool {
    next matches Some(instant) && instant.nanos <= now.nanos
}

/// Occurrences made up one by one, at most `limit` of them, and what is planned after the last.
pub open spec fn made_up(
    schedule: ScheduleView,
    occurrences: Seq<Timestamp>,
    next: Option<Timestamp>,
    now: Timestamp,
    limit: nat,
) -> Result<DueView, SchedulerErrorView>
    decreases limit - occurrences.len(),
{
    if occurrences.len() < limit && has_come(next, now) {
        match following(schedule, next->0) {
            Ok(after) => made_up(schedule, occurrences.push(next->0), after, now, limit),
            Err(error) => Err(error),
        }
    } else {
        Ok(DueView { occurrences, next })
    }
}

/// With the given occurrences, what is planned next after `now` in phase with `anchor`.
pub open spec fn then_future(
    occurrences: Seq<Timestamp>,
    schedule: ScheduleView,
    anchor: Timestamp,
    now: Timestamp,
) -> Result<DueView, SchedulerErrorView> {
    match future_occurrence(schedule, anchor, now) {
        Ok(next) => Ok(DueView { occurrences, next }),
        Err(error) => Err(error),
    }
}

/// What a timer planned for `scheduled_at` leads to at `now`. Without a further missed period it
/// executes the planned instant; else the misfire policy decides.
pub open spec fn due(
    trigger: TriggerView,
    scheduled_at: Timestamp,
    now: Timestamp,
    maximum_catch_up: u32,
) -> Result<DueView, SchedulerErrorView> {
    if trigger.schedule is Once {
        Ok(DueView { occurrences: seq![scheduled_at], next: None })
    } else {
        match following(trigger.schedule, scheduled_at) {
            Err(error) => Err(error),
            Ok(next) => if !has_come(next, now) {
                Ok(DueView { occurrences: seq![scheduled_at], next })
            } else {
                match trigger.misfire {
                    MisfirePolicy::Skip => then_future(
                        Seq::empty(),
                        trigger.schedule,
                        scheduled_at,
                        now,
                    ),
                    MisfirePolicy::FireOnce => then_future(
                        seq![now],
                        trigger.schedule,
                        scheduled_at,
                        now,
                    ),
                    MisfirePolicy::CatchUp { max_runs } => match made_up(
                        trigger.schedule,
                        seq![scheduled_at],
                        next,
                        now,
                        min_int(max_runs as int, maximum_catch_up as int) as nat,
                    ) {
                        Err(error) => Err(error),
                        Ok(batch) => if has_come(batch.next, now) {
                            then_future(
                                batch.occurrences,
                                trigger.schedule,
                                scheduled_at,
                                now,
                            )
                        } else {
                            Ok(batch)
                        },
                    },
                }
            },
        }
    }
}

/// Whether instants can be asked about: the calendar has them, and for a cron schedule every
/// time zone has them.
pub open spec fn askable(schedule: ScheduleView, instant: Timestamp) -> bool {
    &&& representable(instant.nanos as int)
    &&& schedule is Cron ==> cron_start(instant.nanos as int)
}

/// Whether time passes between two planned instants of a schedule.
pub open spec fn moves_on(schedule: ScheduleView) -> bool {
    schedule matches ScheduleView::Interval { every, .. } ==> every.nanos > 0
}

/// Largest number of occurrences that one timer leads to.
pub open spec fn most_occurrences(misfire: MisfirePolicy, maximum_catch_up: u32) -> int {
    match misfire {
        MisfirePolicy::CatchUp { max_runs } => max_int(
            1,
            min_int(max_runs as int, maximum_catch_up as int),
        ),
        _ => 1,
    }
}

/// Whether instants come one after the other.
pub open spec fn rising(occurrences: Seq<Timestamp>) -> bool {
    forall|i: int, j: int|
        0 <= i < j < occurrences.len() ==> (#[trigger] occurrences[i]).nanos < (
        #[trigger] occurrences[j]).nanos
}

/// What a timer planned for `scheduled_at` leads to at `now`. The number of occurrences is
/// bounded, all of them have come one after the other, and the next planned instant lies after
/// `now`.
pub fn due_occurrences(
    trigger: &Trigger,
    scheduled_at: Timestamp,
    now: Timestamp,
    maximum_catch_up: u32,
) -> (answer: Result<DueSchedule, SchedulerError>)
    requires
        askable(trigger@.schedule, scheduled_at),
        askable(trigger@.schedule, now),
    ensures
        due_answer(answer) == due(trigger@, scheduled_at, now, maximum_catch_up),
        match answer {
            Ok(found) => {
                &&& found.next is None <==> trigger@.schedule is Once
                &&& found.next matches Some(instant) ==> instant.nanos > now.nanos
                &&& found.occurrences@.len() <= most_occurrences(
                    trigger.misfire,
                    maximum_catch_up,
                )
                &&& trigger.misfire is CatchUp ==> found.occurrences@.len() >= 1
                &&& moves_on(trigger@.schedule) ==> rising(found.occurrences@)
                &&& forall|i: int|
                    0 <= i < found.occurrences@.len() ==> {
                        let instant = #[trigger] found.occurrences@[i];
                        instant == scheduled_at || (scheduled_at.nanos <= instant.nanos
                            <= now.nanos)
                    }
            },
            Err(_) => true,
        },
{
    if trigger.schedule.is_once() {
        let occurrences = vec![scheduled_at];
        assert(occurrences@ =~= seq![scheduled_at]);
        return Ok(DueSchedule { occurrences, next: None });
    }
    let mut next = match next_after(&trigger.schedule, scheduled_at) {
        Ok(next) => next,
        Err(error) => {
            return Err(error);
        },
    };
    let missed = match next {
        Some(instant) => instant.nanos <= now.nanos,
        None => false,
    };
    if !missed {
        let occurrences = vec![scheduled_at];
        assert(occurrences@ =~= seq![scheduled_at]);
        return Ok(DueSchedule { occurrences, next });
    }
    match trigger.misfire {
        MisfirePolicy::Skip => {
            match next_future_occurrence(&trigger.schedule, scheduled_at, now) {
                Ok(next) => Ok(DueSchedule { occurrences: Vec::new(), next }),
                Err(error) => Err(error),
            }
        },
        MisfirePolicy::FireOnce => {
            match next_future_occurrence(&trigger.schedule, scheduled_at, now) {
                Ok(next) => {
                    let occurrences = vec![now];
                    assert(occurrences@ =~= seq![now]);
                    Ok(DueSchedule { occurrences, next })
                },
                Err(error) => Err(error),
            }
        },
        MisfirePolicy::CatchUp { max_runs } => {
            let limit: u32 = if max_runs <= maximum_catch_up {
                max_runs
            } else {
                maximum_catch_up
            };
            let mut occurrences = vec![scheduled_at];
            assert(occurrences@ =~= seq![scheduled_at]);
            let ghost first = next;
            let mut going = occurrences.len() < limit as usize;
            while going
                invariant
                    going == (occurrences.len() < limit && has_come(next, now)),
                    1 <= occurrences.len() <= max_int(1, limit as int),
                    limit == min_int(max_runs as int, maximum_catch_up as int),
                    trigger.misfire == (MisfirePolicy::CatchUp { max_runs }),
                    following(trigger@.schedule, scheduled_at) == Planned::Ok(first),
                    has_come(first, now),
                    askable(trigger@.schedule, scheduled_at),
                    askable(trigger@.schedule, now),
                    !(trigger@.schedule is Once),
                    next matches Some(instant) ==> instant.nanos >= scheduled_at.nanos,
                    next is Some,
                    moves_on(trigger@.schedule) ==> rising(occurrences@) && next->0.nanos
                        > occurrences@.last().nanos,
                    made_up(trigger@.schedule, occurrences@, next, now, limit as nat) == made_up(
                        trigger@.schedule,
                        seq![scheduled_at],
                        first,
                        now,
                        limit as nat,
                    ),
                    forall|i: int|
                        0 <= i < occurrences@.len() ==> {
                            let instant = #[trigger] occurrences@[i];
                            instant == scheduled_at || (scheduled_at.nanos <= instant.nanos
                                <= now.nanos)
                        },
                decreases limit - occurrences.len(),
            {
                let value = match next {
                    Some(value) => value,
                    None => scheduled_at,
                };
                occurrences.push(value);
                next = match next_after(&trigger.schedule, value) {
                    Ok(next) => next,
                    Err(error) => {
                        return Err(error);
                    },
                };
                let come = match next {
                    Some(instant) => instant.nanos <= now.nanos,
                    None => false,
                };
                going = occurrences.len() < limit as usize && come;
            }
            let late = match next {
                Some(instant) => instant.nanos <= now.nanos,
                None => false,
            };
            if late {
                next = match next_future_occurrence(&trigger.schedule, scheduled_at, now) {
                    Ok(next) => next,
                    Err(error) => {
                        return Err(error);
                    },
                };
            }
            Ok(DueSchedule { occurrences, next })
        },
    }
}

/// One-shot and catch-up triggers keep every occurrence unless the options say otherwise; other
/// triggers keep the latest.
pub proof fn law_default_queue_policies(trigger: TriggerView, options: JobOptions)
    requires
        options.coalescing is None,
        options.capacity is None,
    ensures
        queue_policies(trigger, options) == if lossless(trigger) {
            (TriggerCoalescing::KeepAll, CapacityPolicy::Backpressure)
        } else {
            (TriggerCoalescing::KeepLatest, CapacityPolicy::ReplaceOldestTrigger)
        },
{
}

/// A trigger that passes the check makes up for at most as many occurrences as the limit, and
/// only with queueing that loses none.
pub proof fn law_accepted_catch_up_is_lossless(
    trigger: TriggerView,
    options: JobOptions,
    config: SchedulerConfig,
)
    requires
        trigger_error(trigger, options, config) is None,
        trigger.misfire is CatchUp,
    ensures
        0 < trigger.misfire->max_runs <= config.maximum_catch_up,
        queue_policies(trigger, options) == (
            TriggerCoalescing::KeepAll,
            CapacityPolicy::Backpressure,
        ),
{
}

/// Instants that lie a whole number of periods after an anchor.
pub open spec fn in_phase(anchor: Timestamp, every: Span, periods: int, instant: Timestamp) -> bool {
    instant.nanos == anchor.nanos + periods * every.nanos
}

proof fn lemma_made_up_phase(
    anchor: Timestamp,
    every: Span,
    start_at: Option<Timestamp>,
    occurrences: Seq<Timestamp>,
    next: Option<Timestamp>,
    now: Timestamp,
    limit: nat,
)
    requires
        next is Some,
        in_phase(anchor, every, occurrences.len() as int, next->0),
        forall|k: int|
            0 <= k < occurrences.len() ==> in_phase(anchor, every, k, #[trigger] occurrences[k]),
    ensures
        match made_up(
            ScheduleView::Interval { every, start_at },
            occurrences,
            next,
            now,
            limit,
        ) {
            Ok(batch) => {
                &&& batch.next is Some
                &&& in_phase(anchor, every, batch.occurrences.len() as int, batch.next->0)
                &&& batch.occurrences.len() >= occurrences.len()
                &&& !has_come(batch.next, now) ==> batch.next == next || batch.next->0.nanos
                    - every.nanos <= now.nanos
                &&& forall|k: int|
                    0 <= k < batch.occurrences.len() ==> in_phase(
                        anchor,
                        every,
                        k,
                        #[trigger] batch.occurrences[k],
                    )
            },
            Err(_) => true,
        },
    decreases limit - occurrences.len(),
{
    let schedule = ScheduleView::Interval { every, start_at };
    if occurrences.len() < limit && has_come(next, now) {
        match following(schedule, next->0) {
            Ok(after) => {
                let longer = occurrences.push(next->0);
                assert((occurrences.len() + 1) * every.nanos == occurrences.len() * every.nanos
                    + every.nanos) by (nonlinear_arith);
                assert(in_phase(anchor, every, longer.len() as int, after->0));
                lemma_made_up_phase(anchor, every, start_at, longer, after, now, limit);
            },
            Err(_) => {},
        }
    }
}

/// An interval trigger keeps its phase however late its timer fires: what is planned next lies a
/// whole number of periods after the planned instant, it is the first such instant after `now`,
/// and the occurrences that are made up follow each other period by period.
pub proof fn law_interval_keeps_phase(
    trigger: TriggerView,
    every: Span,
    start_at: Option<Timestamp>,
    scheduled_at: Timestamp,
    now: Timestamp,
    maximum_catch_up: u32,
) -> (periods: int)
    requires
        trigger.schedule == (ScheduleView::Interval { every, start_at }),
        every.nanos > 0,
        representable(scheduled_at.nanos as int),
        representable(now.nanos as int),
    ensures
        match due(trigger, scheduled_at, now, maximum_catch_up) {
            Ok(batch) => {
                &&& batch.next is Some
                &&& periods >= 1
                &&& in_phase(scheduled_at, every, periods, batch.next->0)
                &&& batch.next->0.nanos > now.nanos
                &&& batch.next->0.nanos - every.nanos <= max_int(
                    now.nanos as int,
                    scheduled_at.nanos as int,
                )
                &&& trigger.misfire is CatchUp ==> forall|k: int|
                    0 <= k < batch.occurrences.len() ==> in_phase(
                        scheduled_at,
                        every,
                        k,
                        #[trigger] batch.occurrences[k],
                    )
            },
            Err(_) => true,
        },
{
    let schedule = trigger.schedule;
    let elapsed = elapsed_since(scheduled_at, now);
    lemma_steps(elapsed, every.nanos as int);
    let far = steps_past(scheduled_at, now, every.nanos as int);
    match following(schedule, scheduled_at) {
        Err(_) => 0,
        Ok(next) => {
            assert(in_phase(scheduled_at, every, 1, next->0));
            if !has_come(next, now) {
                assert(seq![scheduled_at][0] == scheduled_at);
                1
            } else {
                match trigger.misfire {
                    MisfirePolicy::CatchUp { max_runs } => {
                        let limit = min_int(max_runs as int, maximum_catch_up as int) as nat;
                        let first = seq![scheduled_at];
                        lemma_made_up_phase(
                            scheduled_at,
                            every,
                            start_at,
                            first,
                            next,
                            now,
                            limit,
                        );
                        match made_up(schedule, first, next, now, limit) {
                            Ok(batch) => if has_come(batch.next, now) {
                                far
                            } else {
                                batch.occurrences.len() as int
                            },
                            Err(_) => 0,
                        }
                    },
                    _ => far,
                }
            }
        },
    }
}

/// A one-shot trigger first runs at its own instant and never before it, or at once where that
/// instant has passed. An interval trigger first runs at its start, or at once where it has none.
/// A cron trigger first runs at the next occurrence of its expression.
pub proof fn law_first_run(trigger: TriggerView, now: Timestamp)
    ensures
        match trigger.schedule {
            ScheduleView::Once { at } => match first_instant(trigger, now) {
                Ok(first) => {
                    &&& first.nanos >= at.nanos
                    &&& at.nanos >= now.nanos ==> first == at
                    &&& at.nanos < now.nanos ==> first == now
                },
                Err(_) => false,
            },
            ScheduleView::Interval { every, start_at } => match first_instant(trigger, now) {
                Ok(first) => {
                    &&& start_at is Some ==> first == start_at->0
                    &&& start_at is None ==> first == now
                },
                Err(_) => false,
            },
            ScheduleView::Cron { expression, timezone } => match cron_next(
                expression,
                timezone,
                now,
            ) {
                Ok(occurrence) => first_instant(trigger, now) == Ok::<
                    Timestamp,
                    SchedulerErrorView,
                >(occurrence),
                Err(text) => first_instant(trigger, now) == Err::<Timestamp, SchedulerErrorView>(
                    SchedulerErrorView::InvalidTrigger(text),
                ),
            },
        },
{
}

/// A one-shot trigger executes its planned instant, however late, and plans nothing more.
pub proof fn law_one_shot_runs_once(
    trigger: TriggerView,
    scheduled_at: Timestamp,
    now: Timestamp,
    maximum_catch_up: u32,
)
    requires
        trigger.schedule is Once,
    ensures
        match due(trigger, scheduled_at, now, maximum_catch_up) {
            Ok(batch) => {
                &&& batch.occurrences.len() == 1
                &&& batch.occurrences[0] == scheduled_at
                &&& batch.next is None
            },
            Err(_) => false,
        },
{
}

/// An interval timer that fires before its next period has come executes exactly the planned
/// instant, whatever the misfire policy, and plans the next period.
pub proof fn law_timely_interval_runs_as_planned(
    trigger: TriggerView,
    every: Span,
    start_at: Option<Timestamp>,
    scheduled_at: Timestamp,
    now: Timestamp,
    maximum_catch_up: u32,
)
    requires
        trigger.schedule == (ScheduleView::Interval { every, start_at }),
        every.nanos <= LARGEST_DELTA_MILLIS * NANOS_PER_MILLI,
        representable(scheduled_at.nanos + every.nanos),
        scheduled_at.nanos + every.nanos > now.nanos,
    ensures
        match due(trigger, scheduled_at, now, maximum_catch_up) {
            Ok(batch) => {
                &&& batch.occurrences.len() == 1
                &&& batch.occurrences[0] == scheduled_at
                &&& batch.next matches Some(next) && next.nanos == scheduled_at.nanos + every.nanos
            },
            Err(_) => false,
        },
{
}

/// Where whole periods of an interval trigger were missed, the misfire policy decides: skipping
/// executes nothing, firing once executes one instant, the present one, and catching up starts
/// with the planned instant.
pub proof fn law_missed_intervals_follow_the_policy(
    trigger: TriggerView,
    every: Span,
    start_at: Option<Timestamp>,
    scheduled_at: Timestamp,
    now: Timestamp,
    maximum_catch_up: u32,
)
    requires
        trigger.schedule == (ScheduleView::Interval { every, start_at }),
        every.nanos > 0,
        scheduled_at.nanos + every.nanos <= now.nanos,
        representable(scheduled_at.nanos as int),
        representable(now.nanos as int),
    ensures
        match due(trigger, scheduled_at, now, maximum_catch_up) {
            Ok(batch) => {
                &&& trigger.misfire is Skip ==> batch.occurrences.len() == 0
                &&& trigger.misfire is FireOnce ==> batch.occurrences.len() == 1
                    && batch.occurrences[0] == now
                &&& trigger.misfire is CatchUp ==> batch.occurrences.len() >= 1
                    && batch.occurrences[0] == scheduled_at
            },
            Err(_) => true,
        },
{
    if let MisfirePolicy::CatchUp { max_runs } = trigger.misfire {
        let next = Some(Timestamp { nanos: (scheduled_at.nanos + every.nanos) as i128 });
        lemma_made_up_bounds(
            trigger.schedule,
            seq![scheduled_at],
            next,
            now,
            min_int(max_runs as int, maximum_catch_up as int) as nat,
        );
    }
}

proof fn lemma_made_up_bounds(
    schedule: ScheduleView,
    occurrences: Seq<Timestamp>,
    next: Option<Timestamp>,
    now: Timestamp,
    limit: nat,
)
    ensures
        match made_up(schedule, occurrences, next, now, limit) {
            Ok(batch) => {
                &&& occurrences.len() <= batch.occurrences.len()
                &&& batch.occurrences.len() <= max_int(occurrences.len() as int, limit as int)
                &&& batch.occurrences.len() < limit ==> !has_come(batch.next, now)
                &&& forall|k: int|
                    0 <= k < occurrences.len() ==> #[trigger] batch.occurrences[k]
                        == occurrences[k]
                &&& forall|k: int|
                    occurrences.len() <= k < batch.occurrences.len() ==> (
                    #[trigger] batch.occurrences[k]).nanos <= now.nanos
            },
            Err(_) => true,
        },
    decreases limit - occurrences.len(),
{
    if occurrences.len() < limit && has_come(next, now) {
        match following(schedule, next->0) {
            Ok(after) => {
                let longer = occurrences.push(next->0);
                lemma_made_up_bounds(schedule, longer, after, now, limit);
                if let Ok(batch) = made_up(schedule, longer, after, now, limit) {
                    assert forall|k: int| 0 <= k < occurrences.len() implies
                        #[trigger] batch.occurrences[k] == occurrences[k] by {
                        assert(batch.occurrences[k] == longer[k]);
                    }
                    assert(batch.occurrences[occurrences.len() as int]
                        == longer[occurrences.len() as int]);
                }
            },
            Err(_) => {},
        }
    }
}

/// Catching up executes every period that has come, one after the other, and stops early only at
/// the smaller of the trigger's and the scheduler's limit.
pub proof fn law_catch_up_makes_up_every_period(
    trigger: TriggerView,
    every: Span,
    start_at: Option<Timestamp>,
    scheduled_at: Timestamp,
    now: Timestamp,
    max_runs: u32,
    maximum_catch_up: u32,
)
    requires
        trigger.schedule == (ScheduleView::Interval { every, start_at }),
        trigger.misfire == (MisfirePolicy::CatchUp { max_runs }),
        max_runs > 0,
        maximum_catch_up > 0,
        every.nanos > 0,
        scheduled_at.nanos <= now.nanos,
    ensures
        match due(trigger, scheduled_at, now, maximum_catch_up) {
            Ok(batch) => {
                let runs = batch.occurrences.len();
                &&& 1 <= runs <= max_runs
                &&& runs <= maximum_catch_up
                &&& forall|k: int|
                    0 <= k < runs ==> (#[trigger] batch.occurrences[k]).nanos == scheduled_at.nanos
                        + k * every.nanos && batch.occurrences[k].nanos <= now.nanos
                &&& runs < max_runs && runs < maximum_catch_up ==> scheduled_at.nanos + runs
                    * every.nanos > now.nanos
            },
            Err(_) => true,
        },
{
    if let Ok(next) = following(trigger.schedule, scheduled_at) {
        let limit = min_int(max_runs as int, maximum_catch_up as int) as nat;
        let first = seq![scheduled_at];
        assert(in_phase(scheduled_at, every, 0, first[0]));
        assert(in_phase(scheduled_at, every, 1, next->0));
        lemma_made_up_phase(scheduled_at, every, start_at, first, next, now, limit);
        lemma_made_up_bounds(trigger.schedule, first, next, now, limit);
        if has_come(next, now) {
            if let Ok(batch) = made_up(trigger.schedule, first, next, now, limit) {
                assert forall|k: int| 0 <= k < batch.occurrences.len() implies (
                #[trigger] batch.occurrences[k]).nanos <= now.nanos && batch.occurrences[k].nanos
                    == scheduled_at.nanos + k * every.nanos by {
                    assert(in_phase(scheduled_at, every, k, batch.occurrences[k]));
                    if k == 0 {
                        assert(batch.occurrences[0] == first[0]);
                    }
                }
            }
        } else {
            assert forall|k: int| 0 <= k < first.len() implies (#[trigger] first[k]).nanos
                == scheduled_at.nanos + k * every.nanos && first[k].nanos <= now.nanos by {
                assert(k == 0);
            }
        }
    }
}

proof fn lemma_between_representable(low: int, middle: int, high: int)
    requires
        low <= middle <= high,
        representable(low),
        representable(high),
    ensures
        representable(middle),
{
}

proof fn lemma_made_up_succeeds(
    every: Span,
    start_at: Option<Timestamp>,
    low: Timestamp,
    occurrences: Seq<Timestamp>,
    next: Option<Timestamp>,
    now: Timestamp,
    limit: nat,
)
    requires
        fits_delta(every),
        next is Some,
        low.nanos <= next->0.nanos,
        representable(low.nanos as int),
        representable(now.nanos + every.nanos),
    ensures
        made_up(ScheduleView::Interval { every, start_at }, occurrences, next, now, limit) is Ok,
    decreases limit - occurrences.len(),
{
    if occurrences.len() < limit && has_come(next, now) {
        let after = next->0.nanos + every.nanos;
        lemma_between_representable(low.nanos as int, after, now.nanos + every.nanos);
        lemma_made_up_succeeds(
            every,
            start_at,
            low,
            occurrences.push(next->0),
            Some(Timestamp { nanos: after as i128 }),
            now,
            limit,
        );
    }
}

/// A timer of an interval trigger never fails while the calendar has the periods around the
/// present instant.
pub proof fn law_interval_timers_succeed(
    trigger: TriggerView,
    every: Span,
    start_at: Option<Timestamp>,
    scheduled_at: Timestamp,
    now: Timestamp,
    maximum_catch_up: u32,
)
    requires
        trigger.schedule == (ScheduleView::Interval { every, start_at }),
        0 < every.nanos <= LARGEST_DELTA_MILLIS * NANOS_PER_MILLI,
        representable(scheduled_at.nanos as int),
        representable(now.nanos as int),
        representable(scheduled_at.nanos + every.nanos),
        representable(now.nanos + every.nanos),
    ensures
        due(trigger, scheduled_at, now, maximum_catch_up) is Ok,
{
    let next = Some(Timestamp { nanos: (scheduled_at.nanos + every.nanos) as i128 });
    let elapsed = elapsed_since(scheduled_at, now);
    lemma_steps(elapsed, every.nanos as int);
    if has_come(next, now) {
        let advance = steps_past(scheduled_at, now, every.nanos as int) * every.nanos;
        lemma_between_representable(
            scheduled_at.nanos as int,
            scheduled_at.nanos + advance,
            now.nanos + every.nanos,
        );
        if let MisfirePolicy::CatchUp { max_runs } = trigger.misfire {
            lemma_made_up_succeeds(
                every,
                start_at,
                scheduled_at,
                seq![scheduled_at],
                next,
                now,
                min_int(max_runs as int, maximum_catch_up as int) as nat,
            );
        }
    }
}

/// A cron timer that fires before the next occurrence executes exactly the planned instant. Where
/// further occurrences were missed, skipping executes nothing and firing once executes the present
/// instant; both go on with the next occurrence after the present one.
pub proof fn law_cron_timers_follow_the_policy(
    trigger: TriggerView,
    expression: Seq<char>,
    timezone: Seq<char>,
    scheduled_at: Timestamp,
    now: Timestamp,
    maximum_catch_up: u32,
)
    requires
        trigger.schedule == (ScheduleView::Cron { expression, timezone }),
    ensures
        match cron_next(expression, timezone, scheduled_at) {
            Err(text) => due(trigger, scheduled_at, now, maximum_catch_up) == Err::<
                DueView,
                SchedulerErrorView,
            >(SchedulerErrorView::InvalidTrigger(text)),
            Ok(coming) => match due(trigger, scheduled_at, now, maximum_catch_up) {
                Ok(batch) => if coming.nanos > now.nanos {
                    &&& batch.occurrences.len() == 1
                    &&& batch.occurrences[0] == scheduled_at
                    &&& batch.next == Some(coming)
                } else {
                    &&& trigger.misfire is Skip ==> batch.occurrences.len() == 0
                    &&& trigger.misfire is FireOnce ==> batch.occurrences.len() == 1
                        && batch.occurrences[0] == now
                    &&& trigger.misfire is CatchUp ==> batch.occurrences.len() >= 1
                        && batch.occurrences[0] == scheduled_at
                    &&& !(trigger.misfire is CatchUp) ==> cron_next(expression, timezone, now)
                        == Ok::<Timestamp, Seq<char>>(batch.next->0) && batch.next is Some
                },
                Err(_) => coming.nanos <= now.nanos && (!(trigger.misfire is CatchUp) ==> cron_next(
                    expression,
                    timezone,
                    now,
                ) is Err),
            },
        },
{
    if let MisfirePolicy::CatchUp { max_runs } = trigger.misfire {
        if let Ok(coming) = cron_next(expression, timezone, scheduled_at) {
            lemma_made_up_bounds(
                trigger.schedule,
                seq![scheduled_at],
                Some(coming),
                now,
                min_int(max_runs as int, maximum_catch_up as int) as nat,
            );
        }
    }
}

proof fn lemma_made_up_chain(
    expression: Seq<char>,
    timezone: Seq<char>,
    occurrences: Seq<Timestamp>,
    next: Timestamp,
    now: Timestamp,
    limit: nat,
)
    requires
        occurrences.len() > 0,
        cron_next(expression, timezone, occurrences.last()) == Ok::<Timestamp, Seq<char>>(next),
        forall|k: int|
            0 <= k < occurrences.len() - 1 ==> cron_next(
                expression,
                timezone,
                #[trigger] occurrences[k],
            ) == Ok::<Timestamp, Seq<char>>(occurrences[k + 1]),
    ensures
        match made_up(
            ScheduleView::Cron { expression, timezone },
            occurrences,
            Some(next),
            now,
            limit,
        ) {
            Ok(batch) => {
                &&& batch.occurrences.len() > 0
                &&& batch.next is Some
                &&& cron_next(expression, timezone, batch.occurrences.last()) == Ok::<
                    Timestamp,
                    Seq<char>,
                >(batch.next->0)
                &&& forall|k: int|
                    0 <= k < batch.occurrences.len() - 1 ==> cron_next(
                        expression,
                        timezone,
                        #[trigger] batch.occurrences[k],
                    ) == Ok::<Timestamp, Seq<char>>(batch.occurrences[k + 1])
            },
            Err(_) => true,
        },
    decreases limit - occurrences.len(),
{
    if occurrences.len() < limit && next.nanos <= now.nanos {
        if let Ok(after) = cron_next(expression, timezone, next) {
            let longer = occurrences.push(next);
            assert forall|k: int| 0 <= k < longer.len() - 1 implies cron_next(
                expression,
                timezone,
                #[trigger] longer[k],
            ) == Ok::<Timestamp, Seq<char>>(longer[k + 1]) by {
                assert(longer[k] == occurrences[k]);
            }
            lemma_made_up_chain(expression, timezone, longer, after, now, limit);
        }
    }
}

/// Catching up a cron trigger executes the missed occurrences one after the other, each the next
/// one after its predecessor, and stops early only at the smaller of the two limits.
pub proof fn law_cron_catch_up_leaves_nothing_out(
    trigger: TriggerView,
    expression: Seq<char>,
    timezone: Seq<char>,
    scheduled_at: Timestamp,
    now: Timestamp,
    max_runs: u32,
    maximum_catch_up: u32,
)
    requires
        trigger.schedule == (ScheduleView::Cron { expression, timezone }),
        trigger.misfire == (MisfirePolicy::CatchUp { max_runs }),
        max_runs > 0,
        maximum_catch_up > 0,
    ensures
        match due(trigger, scheduled_at, now, maximum_catch_up) {
            Ok(batch) => {
                let runs = batch.occurrences.len();
                &&& 1 <= runs <= max_runs
                &&& runs <= maximum_catch_up
                &&& batch.occurrences[0] == scheduled_at
                &&& forall|k: int|
                    0 <= k < runs - 1 ==> cron_next(
                        expression,
                        timezone,
                        #[trigger] batch.occurrences[k],
                    ) == Ok::<Timestamp, Seq<char>>(batch.occurrences[k + 1])
                &&& forall|k: int|
                    0 < k < runs ==> (#[trigger] batch.occurrences[k]).nanos <= now.nanos
                &&& match cron_next(expression, timezone, batch.occurrences.last()) {
                    Ok(coming) => {
                        &&& runs < max_runs && runs < maximum_catch_up ==> coming.nanos > now.nanos
                        &&& coming.nanos > now.nanos ==> batch.next == Some(coming)
                        &&& coming.nanos <= now.nanos ==> batch.next is Some && cron_next(
                            expression,
                            timezone,
                            now,
                        ) == Ok::<Timestamp, Seq<char>>(batch.next->0)
                    },
                    Err(_) => false,
                }
            },
            Err(_) => true,
        },
{
    if let Ok(coming) = cron_next(expression, timezone, scheduled_at) {
        let limit = min_int(max_runs as int, maximum_catch_up as int) as nat;
        let first = seq![scheduled_at];
        assert(first.last() == scheduled_at);
        lemma_made_up_chain(expression, timezone, first, coming, now, limit);
        lemma_made_up_bounds(trigger.schedule, first, Some(coming), now, limit);
        if let Ok(batch) = made_up(trigger.schedule, first, Some(coming), now, limit) {
            assert(batch.occurrences[0] == first[0]);
        }
    }
}

/// The period after an instant: none for a one-shot schedule, one interval later for an interval
/// that the calendar can hold, the next occurrence for a cron expression.
pub proof fn law_next_period(schedule: ScheduleView, after: Timestamp)
    ensures
        match schedule {
            ScheduleView::Once { .. } => following(schedule, after) == Planned::Ok(None),
            ScheduleView::Interval { every, .. } => {
                &&& following(schedule, after) is Ok <==> every.nanos <= LARGEST_DELTA_MILLIS
                    * NANOS_PER_MILLI && representable(after.nanos + every.nanos)
                &&& following(schedule, after) matches Ok(next) ==> next is Some && next->0.nanos
                    == after.nanos + every.nanos
            },
            ScheduleView::Cron { expression, timezone } => match cron_next(
                expression,
                timezone,
                after,
            ) {
                Ok(next) => following(schedule, after) == Planned::Ok(Some(next)),
                Err(text) => following(schedule, after) == Planned::Err(
                    SchedulerErrorView::InvalidTrigger(text),
                ),
            },
        },
{
}

/// The options' own queueing is always used. Without it, one-shot and catch-up triggers keep every
/// occurrence and wait for room; all others keep the latest and give up the oldest.
pub proof fn law_queue_policies(trigger: TriggerView, options: JobOptions)
    ensures
        options.coalescing matches Some(own) ==> queue_policies(trigger, options).0 == own,
        options.capacity matches Some(own) ==> queue_policies(trigger, options).1 == own,
        options.coalescing is None ==> (queue_policies(trigger, options).0
            == TriggerCoalescing::KeepAll <==> trigger.schedule is Once || trigger.misfire
            is CatchUp),
        options.coalescing is None ==> (queue_policies(trigger, options).0
            == TriggerCoalescing::KeepLatest <==> !(trigger.schedule is Once) && !(trigger.misfire
            is CatchUp)),
        options.capacity is None ==> (queue_policies(trigger, options).1
            == CapacityPolicy::Backpressure <==> trigger.schedule is Once || trigger.misfire
            is CatchUp),
        options.capacity is None ==> (queue_policies(trigger, options).1
            == CapacityPolicy::ReplaceOldestTrigger <==> !(trigger.schedule is Once) && !(
        trigger.misfire is CatchUp)),
{
}

/// A trigger with its options passes the check exactly where none of its counts is zero, its
/// interval is long enough, its expression can be read, it catches up within the limit and without
/// loss, and its retries stay within the limits.
pub proof fn law_accepted_triggers(
    trigger: TriggerView,
    options: JobOptions,
    config: SchedulerConfig,
)
    ensures
        trigger_error(trigger, options, config) is None <==> {
            &&& options.max_pending matches Some(limit) ==> limit > 0
            &&& options.concurrency matches Some(limit) ==> limit > 0
            &&& options.failure.disable_after_consecutive_failures matches Some(limit) ==> limit > 0
            &&& trigger.schedule matches ScheduleView::Interval { every, .. } ==> every.nanos
                >= config.minimum_interval.nanos
            &&& trigger.schedule matches ScheduleView::Cron { expression, .. } ==> cron_rejection(
                expression,
            ) is None
            &&& trigger.misfire matches MisfirePolicy::CatchUp { max_runs } ==> {
                &&& 0 < max_runs <= config.maximum_catch_up
                &&& options.coalescing is None || options.coalescing == Some(
                    TriggerCoalescing::KeepAll,
                )
                &&& options.capacity is None || options.capacity == Some(
                    CapacityPolicy::Backpressure,
                )
            }
            &&& options.retry matches ExecutionRetryPolicy::Exponential {
                max_attempts,
                initial_delay,
                max_delay,
                retry_on,
            } ==> {
                &&& 0 < max_attempts <= config.maximum_retry_attempts
                &&& config.minimum_retry_delay.nanos <= initial_delay.nanos <= max_delay.nanos
            }
        },
        trigger_error(trigger, options, config) matches Some(error) ==> error is InvalidTrigger
            || error is InvalidRetry,
{
}

} // verus!
