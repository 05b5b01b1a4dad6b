//! Wall clock instants and durations of the scheduler, counted in nanoseconds.

use vstd::prelude::*;

verus! {

/// Nanoseconds in one second.
pub const NANOS_PER_SECOND: i128 = 1_000_000_000;

/// Nanoseconds in one millisecond.
pub const NANOS_PER_MILLI: u128 = 1_000_000;

/// First second that a UTC wall clock instant can lie in: -262143-01-01T00:00:00Z.
pub const FIRST_SECOND: i64 = -8_334_601_228_800;

/// Last second that a UTC wall clock instant can lie in: +262142-12-31T23:59:59Z.
pub const LAST_SECOND: i64 = 8_210_266_876_799;

/// Largest time difference, in milliseconds, that can be added to an instant.
pub const LARGEST_DELTA_MILLIS: u128 = 9_223_372_036_854_775_807;

/// UTC wall clock instant: nanoseconds since 1970-01-01T00:00:00Z.
#[derive(Debug, Clone, Copy, PartialEq, Eq, Structural)]
pub struct Timestamp {
    /// Nanoseconds since the Unix epoch; negative before it.
    pub nanos: i128,
}

/// Length of time in nanoseconds.
#[derive(Debug, Clone, Copy, PartialEq, Eq, Structural)]
pub struct Span {
    /// Length in nanoseconds.
    pub nanos: u128,
}

/// Whole seconds of an instant, rounded towards the past.
pub open spec fn second_of(nanos: int) -> int {
    nanos / NANOS_PER_SECOND as int
}

/// Nanoseconds of an instant past its whole second.
pub open spec fn subsecond_of(nanos: int) -> int {
    nanos % NANOS_PER_SECOND as int
}

/// Instants that the calendar can represent.
pub open spec fn representable(nanos: int) -> bool {
    FIRST_SECOND <= second_of(nanos) <= LAST_SECOND
}

/// Smaller of two numbers.
pub open spec fn min_int(a: int, b: int) -> int {
    if a <= b {
        a
    } else {
        b
    }
}

/// Larger of two numbers.
pub open spec fn max_int(a: int, b: int) -> int {
    if a >= b {
        a
    } else {
        b
    }
}

/// `chrono::DateTime::from_timestamp`: the instant at `seconds` and `nanos`, given back as its
/// two parts, or `None` where the second lies outside the calendar's range. A sub-second part
/// below one second is always accepted and kept.
#[verifier::external_body]
fn calendar_instant(seconds: i64, nanos: u32) -> (instant: Option<(i64, u32)>)
    requires
        nanos < NANOS_PER_SECOND,
    ensures
        instant == (if FIRST_SECOND <= seconds <= LAST_SECOND {
            Some((seconds, nanos))
        } else {
            None
        }),
{
    chrono::DateTime::from_timestamp(seconds, nanos).map(
        |instant| (instant.timestamp(), instant.timestamp_subsec_nanos()),
    )
}

/// `chrono::TimeDelta::from_std`: the time difference of the given length, or the text of the
/// range error where it is longer than the largest time difference.
#[verifier::external_body]
fn time_delta(seconds: u64, nanos: u32) -> (delta: Result<(i64, i32), String>)
    requires
        nanos < NANOS_PER_SECOND,
    ensures
        match delta {
            Ok((s, n)) => s == seconds && n == nanos
                && seconds * 1000 * NANOS_PER_MILLI + nanos <= LARGEST_DELTA_MILLIS
                * NANOS_PER_MILLI,
            Err(text) => text@
                == "Source duration value is out of range for the target type"@
                && seconds * 1000 * NANOS_PER_MILLI + nanos > LARGEST_DELTA_MILLIS
                * NANOS_PER_MILLI,
        },
{
    match chrono::TimeDelta::from_std(std::time::Duration::new(seconds, nanos)) {
        Ok(delta) => Ok((delta.num_seconds(), delta.subsec_nanos())),
        Err(error) => Err(error.to_string()),
    }
}

/// `Debug` text of `std::time::Duration` for the given length.
pub uninterp spec fn duration_text(seconds: u64, nanos: u32) -> Seq<char>;

/// The `Debug` text of `std::time::Duration::new(seconds, nanos)`, such as `1.5s`.
#[verifier::external_body]
fn format_duration(seconds: u64, nanos: u32) -> (text: String)
    requires
        nanos < NANOS_PER_SECOND,
    ensures
        text@ == duration_text(seconds, nanos),
{
    format!("{:?}", std::time::Duration::new(seconds, nanos))
}

impl Timestamp {
    /// Seconds and sub-second nanoseconds of this instant.
    pub fn parts(self) -> (parts: (i128, u32))
        ensures
            parts.0 == second_of(self.nanos as int),
            parts.1 == subsecond_of(self.nanos as int),
            parts.1 < NANOS_PER_SECOND,
    {
        let seconds: i128 = match self.nanos.checked_div_euclid(NANOS_PER_SECOND) {
            Some(value) => value,
            None => 0,
        };
        let nanos: i128 = match self.nanos.checked_rem_euclid(NANOS_PER_SECOND) {
            Some(value) => value,
            None => 0,
        };
        (seconds, nanos as u32)
    }

    /// Whether the calendar can represent this instant.
    pub fn is_representable(self) -> (yes: bool)
        ensures
            yes == representable(self.nanos as int),
    {
        let (seconds, nanos) = self.parts();
        if seconds < i64::MIN as i128 || seconds > i64::MAX as i128 {
            return false;
        }
        calendar_instant(seconds as i64, nanos).is_some()
    }

    /// This instant moved into the future, where the calendar can represent the result.
    pub fn checked_add(self, delta: Span) -> (sum: Option<Timestamp>)
        ensures
            sum == (if representable(self.nanos + delta.nanos) {
                Some(Timestamp { nanos: (self.nanos + delta.nanos) as i128 })
            } else {
                None
            }),
    {
        match self.nanos.checked_add_unsigned(delta.nanos) {
            Some(nanos) => {
                let sum = Timestamp { nanos };
                if sum.is_representable() {
                    Some(sum)
                } else {
                    None
                }
            },
            None => None,
        }
    }

    /// Later of two instants.
    pub fn max(self, other: Timestamp) -> (later: Timestamp)
        ensures
            later.nanos == max_int(self.nanos as int, other.nanos as int),
    {
        if self.nanos >= other.nanos {
            self
        } else {
            other
        }
    }
}

/// Lengths that a time difference can hold.
pub open spec fn fits_delta(span: Span) -> bool {
    span.nanos <= LARGEST_DELTA_MILLIS * NANOS_PER_MILLI
}

/// Text of the error for a length that no time difference can hold.
pub open spec fn delta_error() -> Seq<char> {
    "Source duration value is out of range for the target type"@
}

/// Largest length of `std::time::Duration`, in nanoseconds.
pub open spec fn longest_span() -> int {
    u64::MAX * NANOS_PER_SECOND + NANOS_PER_SECOND - 1
}

impl Span {
    /// Span of whole seconds.
    pub fn from_secs(seconds: u64) -> (span: Span)
        ensures
            span.nanos == seconds * NANOS_PER_SECOND,
    {
        Span { nanos: seconds as u128 * 1_000_000_000 }
    }

    /// Span of whole milliseconds.
    pub fn from_millis(millis: u64) -> (span: Span)
        ensures
            span.nanos == millis * NANOS_PER_MILLI,
    {
        Span { nanos: millis as u128 * NANOS_PER_MILLI }
    }

    /// Whether this span is empty.
    pub fn is_zero(self) -> (zero: bool)
        ensures
            zero == (self.nanos == 0),
    {
        self.nanos == 0
    }

    /// Whole milliseconds of this span, or `u64::MAX` where there are more.
    pub fn saturating_millis(self) -> (millis: u64)
        ensures
            millis == min_int(self.nanos as int / NANOS_PER_MILLI as int, u64::MAX as int),
    {
        let millis: u128 = self.nanos / NANOS_PER_MILLI;
        if millis > u64::MAX as u128 {
            u64::MAX
        } else {
            millis as u64
        }
    }

    /// Shorter of two spans.
    pub fn min(self, other: Span) -> (shorter: Span)
        ensures
            shorter.nanos == min_int(self.nanos as int, other.nanos as int),
    {
        if self.nanos <= other.nanos {
            self
        } else {
            other
        }
    }

    /// Whole seconds and the rest of this span; lengths beyond `std::time::Duration` are cut to
    /// its longest value.
    pub fn parts(self) -> (parts: (u64, u32))
        ensures
            self.nanos <= longest_span() ==> parts.0 * NANOS_PER_SECOND + parts.1 == self.nanos,
            self.nanos > longest_span() ==> parts == (u64::MAX, 999_999_999u32),
            parts.1 < NANOS_PER_SECOND,
    {
        let seconds: u128 = self.nanos / 1_000_000_000;
        let nanos: u128 = self.nanos % 1_000_000_000;
        if seconds > u64::MAX as u128 {
            (u64::MAX, 999_999_999)
        } else {
            (seconds as u64, nanos as u32)
        }
    }

    /// Checks that a time difference can hold this span.
    pub fn check_delta(self) -> (checked: Result<(), String>)
        ensures
            match checked {
                Ok(_) => fits_delta(self),
                Err(text) => !fits_delta(self) && text@ == delta_error(),
            },
    {
        let (seconds, nanos) = self.parts();
        match time_delta(seconds, nanos) {
            Ok(_) => Ok(()),
            Err(text) => Err(text),
        }
    }

    /// Text that shows this span in error messages.
    pub fn to_text(self) -> (text: String)
        ensures
            text@ == span_text(self),
    {
        let (seconds, nanos) = self.parts();
        format_duration(seconds, nanos)
    }
}

/// Text of a span: that of the equal `std::time::Duration`.
pub open spec fn span_text(span: Span) -> Seq<char> {
    if span.nanos <= longest_span() {
        duration_text(
            (span.nanos as int / NANOS_PER_SECOND as int) as u64,
            (span.nanos as int % NANOS_PER_SECOND as int) as u32,
        )
    } else {
        duration_text(u64::MAX, 999_999_999u32)
    }
}

/// An instant that can be represented moves by exactly the given length, and moves exactly where
/// the calendar reaches that far.
pub proof fn law_instants_move_by_their_delay(
    instant: Timestamp,
    delta: Span,
    sum: Option<Timestamp>,
)
    requires
        call_ensures(Timestamp::checked_add, (instant, delta), sum),
    ensures
        sum matches Some(sum) ==> sum.nanos - instant.nanos == delta.nanos,
        sum is Some <==> FIRST_SECOND * NANOS_PER_SECOND <= instant.nanos + delta.nanos < (
        LAST_SECOND + 1) * NANOS_PER_SECOND,
{
    let nanos = instant.nanos + delta.nanos;
    assert(nanos == second_of(nanos) * NANOS_PER_SECOND + subsecond_of(nanos));
    assert(0 <= subsecond_of(nanos) < NANOS_PER_SECOND);
    if representable(nanos) {
        assert(sum is Some);
        assert(FIRST_SECOND * NANOS_PER_SECOND <= second_of(nanos) * NANOS_PER_SECOND
            <= LAST_SECOND * NANOS_PER_SECOND);
    }
}

/// The later of two instants is one of them and lies before neither; the shorter of two spans is
/// one of them and is longer than neither.
pub proof fn law_later_and_shorter(
    a: Timestamp,
    b: Timestamp,
    later: Timestamp,
    c: Span,
    d: Span,
    shorter: Span,
)
    requires
        call_ensures(Timestamp::max, (a, b), later),
        call_ensures(Span::min, (c, d), shorter),
    ensures
        later == a || later == b,
        later.nanos >= a.nanos && later.nanos >= b.nanos,
        shorter == c || shorter == d,
        shorter.nanos <= c.nanos && shorter.nanos <= d.nanos,
{
}

/// The milliseconds of a span are the whole ones, as far as they can be shown.
pub proof fn law_whole_milliseconds(span: Span, millis: u64)
    requires
        call_ensures(Span::saturating_millis, (span,), millis),
    ensures
        millis * NANOS_PER_MILLI <= span.nanos,
        millis < u64::MAX ==> span.nanos < (millis + 1) * NANOS_PER_MILLI,
{
}

} // verus!
