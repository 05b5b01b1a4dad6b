//! Deadlines on a clock that cannot show every moment.

use crate::scheduler::time::{max_int, representable, Span, Timestamp};
use vstd::prelude::*;

verus! {

/// Time until an instant; none where it has passed.
pub fn timer_delay(run_at: Timestamp, now: Timestamp) -> (delay: Span)
    requires
        representable(run_at.nanos as int),
        representable(now.nanos as int),
    ensures
        delay.nanos == max_int(run_at.nanos - now.nanos, 0),
{
    if run_at.nanos <= now.nanos {
        Span { nanos: 0 }
    } else {
        let delay: i128 = run_at.nanos - now.nanos;
        Span { nanos: delay as u128 }
    }
}

/// Longest supported delay, in whole seconds, that is no longer than the requested one. Where
/// the clock supports every delay that is shorter than a supported one, no longer delay of the
/// requested length or less is supported.
pub fn latest_supported_delay<F: Fn(u64) -> bool>(supports: F, requested: u64) -> (delay: u64)
    requires
        forall|seconds: u64| call_requires(supports, (seconds,)),
    ensures
        delay <= requested,
        delay == 0 || call_ensures(supports, (delay,), true),
        delay == requested || call_ensures(supports, ((delay + 1) as u64,), false),
{
    let mut lower: u64 = 0;
    let mut upper: u64 = requested;
    while lower < upper
        invariant
            forall|seconds: u64| call_requires(supports, (seconds,)),
            lower <= upper <= requested,
            lower == 0 || call_ensures(supports, (lower,), true),
            upper == requested || call_ensures(supports, ((upper + 1) as u64,), false),
        decreases upper - lower,
    {
        let gap: u64 = upper - lower;
        let middle: u64 = lower + gap / 2 + gap % 2;
        if supports(middle) {
            lower = middle;
        } else {
            upper = middle - 1;
        }
    }
    lower
}

/// On a clock that supports exactly the delays up to a longest one, the search finds the shorter
/// of the requested and the longest delay.
pub proof fn law_longest_delay_is_found<F: Fn(u64) -> bool>(
    supports: F,
    requested: u64,
    longest: u64,
    delay: u64,
)
    requires
        forall|seconds: u64, answer: bool| #[trigger]
            call_ensures(supports, (seconds,), answer) ==> answer == (seconds <= longest),
        delay <= requested,
        delay == 0 || call_ensures(supports, (delay,), true),
        delay == requested || call_ensures(supports, ((delay + 1) as u64,), false),
    ensures
        delay == (if requested <= longest {
            requested
        } else {
            longest
        }),
{
}

/// A timer waits until its instant and no longer, and does not wait once the instant has passed.
pub proof fn law_timers_wait_for_their_instant(run_at: Timestamp, now: Timestamp, delay: Span)
    requires
        call_ensures(timer_delay, (run_at, now), delay),
    ensures
        now.nanos <= run_at.nanos ==> now.nanos + delay.nanos == run_at.nanos,
        now.nanos >= run_at.nanos ==> delay.nanos == 0,
{
}

} // verus!
