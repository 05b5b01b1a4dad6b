//! Monotonic instants of the service loops.

use crate::scheduler::time::Span;
use vstd::prelude::*;

verus! {

/// Reading of a monotonic clock: nanoseconds since the clock's origin.
#[derive(Debug, Clone, Copy, PartialEq, Eq, Structural)]
pub struct Moment {
    /// Nanoseconds since the origin.
    pub nanos: u128,
}

/// Whether the clock can show the reading `span` after `moment`.
pub open spec fn reachable(moment: Moment, span: Span) -> bool {
    moment.nanos + span.nanos <= u128::MAX
}

/// Reading of the clock `span` after `moment`.
pub open spec fn later(moment: Moment, span: Span) -> Moment {
    Moment { nanos: (moment.nanos + span.nanos) as u128 }
}

/// Time that passed between two readings; nothing where `now` lies before `earlier`.
pub open spec fn elapsed(earlier: Moment, now: Moment) -> int {
    if earlier.nanos <= now.nanos {
        now.nanos - earlier.nanos
    } else {
        0
    }
}

impl Moment {
    /// Reading of the clock `span` after this one.
    pub fn after(self, span: Span) -> (moment: Moment)
        requires
            reachable(self, span),
        ensures
            moment == later(self, span),
    {
        Moment { nanos: self.nanos + span.nanos }
    }

    /// Whether the clock can show the reading `span` after this one.
    pub fn reaches(self, span: Span) -> (yes: bool)
        ensures
            yes == reachable(self, span),
    {
        self.nanos.checked_add(span.nanos).is_some()
    }

    /// Time that passed since `earlier`; nothing where that reading lies ahead.
    pub fn since(self, earlier: Moment) -> (span: Span)
        ensures
            span.nanos == elapsed(earlier, self),
    {
        if earlier.nanos <= self.nanos {
            Span { nanos: self.nanos - earlier.nanos }
        } else {
            Span { nanos: 0 }
        }
    }
}

/// A reading that the clock can show lies as far ahead as was asked for, and that much time has
/// passed when the clock shows it. Before that less has passed, and nothing passes backwards.
pub proof fn law_readings_and_spans(moment: Moment, span: Span, now: Moment)
    ensures
        reachable(moment, span) <==> moment.nanos + span.nanos <= u128::MAX,
        reachable(moment, span) ==> later(moment, span).nanos - moment.nanos == span.nanos,
        reachable(moment, span) ==> elapsed(moment, later(moment, span)) == span.nanos,
        reachable(moment, span) ==> (elapsed(moment, now) < span.nanos <==> now.nanos < later(
            moment,
            span,
        ).nanos && span.nanos > 0),
        elapsed(moment, now) > 0 <==> moment.nanos < now.nanos,
        now.nanos <= moment.nanos ==> elapsed(moment, now) == 0,
{
}

} // verus!
