//! Cron expressions: validity and next occurrences in an IANA time zone.

use super::time::{
    representable, subsecond_of, second_of, Timestamp, FIRST_SECOND, LAST_SECOND, NANOS_PER_SECOND,
};
use std::str::FromStr;
use vstd::prelude::*;

verus! {

/// Seconds in two days: no time zone offset is longer.
pub const ZONE_MARGIN_SECONDS: i64 = 172_800;

/// Why `croner::Cron::from_str` refuses an expression: the text of its error, or `None` where it
/// accepts the expression.
pub uninterp spec fn cron_rejection(expression: Seq<char>) -> Option<Seq<char>>;

/// What `croner::Cron::find_next_occurrence` answers, exclusive of its start: the seconds and
/// nanoseconds of the next occurrence of an expression in a time zone after an instant, or the
/// text of the error.
pub uninterp spec fn cron_occurrence(
    expression: Seq<char>,
    timezone: Seq<char>,
    seconds: i64,
    nanos: u32,
) -> Result<(i64, u32), Seq<char>>;

/// Answer of an occurrence search with its error taken as text.
pub open spec fn occurrence_view(found: Result<(i64, u32), String>) -> Result<
    (i64, u32),
    Seq<char>,
> {
    match found {
        Ok(next) => Ok(next),
        Err(text) => Err(text@),
    }
}

/// An expression that does not parse gives the text of that error.
pub open spec fn keeps_rejection(
    found: Result<(i64, u32), String>,
    expression: Seq<char>,
) -> bool {
    cron_rejection(expression) matches Some(text) ==> found matches Err(given) && given@ == text
}

/// An occurrence is an instant of the calendar that lies after the start.
pub open spec fn lies_after(
    found: Result<(i64, u32), String>,
    seconds: i64,
    nanos: u32,
) -> bool {
    found matches Ok(next) ==> {
        &&& FIRST_SECOND <= next.0 <= LAST_SECOND
        &&& next.1 < NANOS_PER_SECOND
        &&& seconds < next.0 || (seconds == next.0 && nanos < next.1)
    }
}

/// Instant or error of an occurrence search with its error taken as text.
pub open spec fn instant_view(found: Result<Timestamp, String>) -> Result<Timestamp, Seq<char>> {
    match found {
        Ok(next) => Ok(next),
        Err(text) => Err(text@),
    }
}

/// `croner::Cron::from_str`: whether the expression parses, else the text of the error.
#[verifier::external_body]
pub(crate) fn check_expression(expression: &str) -> (checked: Result<(), String>)
    ensures
        match checked {
            Ok(_) => cron_rejection(expression@) is None,
            Err(text) => cron_rejection(expression@) == Some(text@),
        },
{
    match croner::Cron::from_str(expression) {
        Ok(_) => Ok(()),
        Err(error) => Err(error.to_string()),
    }
}

/// `croner::Cron::find_next_occurrence` without its start, on the instant in the time zone of the
/// given IANA name (`chrono_tz::Tz::from_str`, `chrono::DateTime::with_timezone`). An expression
/// that does not parse gives the text of that error; the search begins one second past the start,
/// so an occurrence lies after it. A start next to an end of the calendar has no local time in
/// some time zones.
#[verifier::external_body]
fn find_occurrence(
    expression: &str,
    timezone: &str,
    seconds: i64,
    nanos: u32,
) -> (found: Result<(i64, u32), String>)
    requires
        FIRST_SECOND + ZONE_MARGIN_SECONDS <= seconds <= LAST_SECOND - ZONE_MARGIN_SECONDS,
        nanos < NANOS_PER_SECOND,
    ensures
        occurrence_view(found) == cron_occurrence(expression@, timezone@, seconds, nanos),
        keeps_rejection(found, expression@),
        lies_after(found, seconds, nanos),
{
    let cron = croner::Cron::from_str(expression).map_err(|error| error.to_string())?;
    let zone = chrono_tz::Tz::from_str(timezone).map_err(|error| error.to_string())?;
    let start = chrono::DateTime::from_timestamp(seconds, nanos).expect("instant in range");
    let next = cron.find_next_occurrence(&start.with_timezone(&zone), false);
    match next {
        Ok(next) => Ok((next.timestamp(), next.timestamp_subsec_nanos())),
        Err(error) => Err(error.to_string()),
    }
}

/// Instants from which the next cron occurrence can be asked in every time zone.
pub open spec fn cron_start(nanos: int) -> bool {
    FIRST_SECOND + ZONE_MARGIN_SECONDS <= second_of(nanos) <= LAST_SECOND - ZONE_MARGIN_SECONDS
}

/// Whether the next cron occurrence can be asked from an instant in every time zone.
pub fn is_cron_start(instant: Timestamp) -> (yes: bool)
    ensures
        yes == cron_start(instant.nanos as int),
        yes ==> representable(instant.nanos as int),
{
    let (seconds, _) = instant.parts();
    FIRST_SECOND as i128 + ZONE_MARGIN_SECONDS as i128 <= seconds && seconds <= LAST_SECOND as i128
        - ZONE_MARGIN_SECONDS as i128
}

/// Next occurrence of a cron expression, as nanoseconds since the epoch.
pub open spec fn cron_next(
    expression: Seq<char>,
    timezone: Seq<char>,
    after: Timestamp,
) -> Result<Timestamp, Seq<char>> {
    match cron_occurrence(
        expression,
        timezone,
        second_of(after.nanos as int) as i64,
        subsecond_of(after.nanos as int) as u32,
    ) {
        Ok(next) => Ok(Timestamp { nanos: (next.0 * NANOS_PER_SECOND + next.1) as i128 }),
        Err(text) => Err(text),
    }
}

/// Instant of an occurrence that came back as seconds and nanoseconds.
pub fn occurrence_instant(next: (i64, u32)) -> (instant: Timestamp)
    ensures
        instant.nanos == next.0 * NANOS_PER_SECOND + next.1,
{
    Timestamp { nanos: next.0 as i128 * NANOS_PER_SECOND + next.1 as i128 }
}

/// Next occurrence of a cron expression after an instant.
pub fn next_occurrence(expression: &str, timezone: &str, after: Timestamp) -> (next: Result<
    Timestamp,
    String,
>)
    requires
        cron_start(after.nanos as int),
    ensures
        instant_view(next) == cron_next(expression@, timezone@, after),
        next matches Ok(instant) ==> representable(instant.nanos as int) && instant.nanos
            > after.nanos,
        cron_rejection(expression@) matches Some(text) ==> next matches Err(given) && given@
            == text,
{
    let (seconds, nanos) = after.parts();
    match find_occurrence(expression, timezone, seconds as i64, nanos) {
        Ok(found) => Ok(occurrence_instant(found)),
        Err(text) => Err(text),
    }
}

} // verus!
