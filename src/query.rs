//! Day-of-year index ranges for date queries, split where they wrap
//! around the end of a year.

use vstd::prelude::*;

use crate::date::{ordinal_of, Date, MAX_JULIAN, MAX_ORDINAL, MIN_JULIAN};

verus! {

/// The number of days on either side of a query date that a post may
/// span: a post overlapping the date starts at most this many days away.
pub const QUERY_MARGIN_DAYS: i32 = 7;

/// An inclusive range of day-of-year ordinals.
#[derive(Clone, Copy, PartialEq, Eq, Structural, Hash, Debug)]
pub struct OrdinalRange {
    pub start: u16,
    pub end: u16,
}

/// One inclusive range of ordinals, or two where the window wraps past
/// the end of the year.
#[derive(Clone, Copy, PartialEq, Eq, Structural, Hash, Debug)]
pub struct OrdinalWindow {
    pub first: OrdinalRange,
    pub second: Option<OrdinalRange>,
}

/// The window from ordinal `start` to ordinal `end`: one range where
/// `start <= end`; otherwise the rest of the year from `start` and the
/// beginning of the next up to `end`.
pub open spec fn window_of(start: u16, end: u16) -> OrdinalWindow {
    if start <= end {
        OrdinalWindow { first: OrdinalRange { start, end }, second: None }
    } else {
        OrdinalWindow {
            first: OrdinalRange { start, end: MAX_ORDINAL },
            second: Some(OrdinalRange { start: 1, end }),
        }
    }
}

/// Whether the window from `start` to `end`, wrapping where needed,
/// holds ordinal `o`.
pub open spec fn wraps_over(start: u16, end: u16, o: u16) -> bool {
    if start <= end {
        start <= o <= end
    } else {
        start <= o || o <= end
    }
}

impl OrdinalRange {
    /// Whether `o` lies in this range.
    pub open spec fn holds(self, o: u16) -> bool {
        self.start <= o <= self.end
    }
}

impl OrdinalWindow {
    /// Whether `o` lies in one of the ranges.
    pub open spec fn holds(self, o: u16) -> bool {
        self.first.holds(o) || (self.second matches Some(s) && s.holds(o))
    }

    /// Whether `o` lies in one of the ranges.
    pub fn contains(&self, o: u16) -> (r: bool)
        ensures
            r == self.holds(o),
    {
        (self.first.start <= o && o <= self.first.end) || match self.second {
            Some(s) => s.start <= o && o <= s.end,
            None => false,
        }
    }
}

/// The index ranges for ordinals from `start` to `end`, split at the end
/// of the year where `start > end`.
pub fn ordinal_window(start: u16, end: u16) -> (r: OrdinalWindow)
    ensures
        r == window_of(start, end),
{
    if start <= end {
        OrdinalWindow { first: OrdinalRange { start, end }, second: None }
    } else {
        OrdinalWindow {
            first: OrdinalRange { start, end: MAX_ORDINAL },
            second: Some(OrdinalRange { start: 1, end }),
        }
    }
}

/// The index ranges of the posts that may overlap day `on`: those starting
/// from [`QUERY_MARGIN_DAYS`] days before to as many days after it. `None`
/// where those days lie outside the calendar.
pub fn window_around(on: &Date) -> (r: Option<OrdinalWindow>)
    ensures
        r is Some <==> MIN_JULIAN <= on.julian - QUERY_MARGIN_DAYS && on.julian
            + QUERY_MARGIN_DAYS <= MAX_JULIAN,
        r matches Some(w) ==> w == window_of(
            ordinal_of(on.julian - QUERY_MARGIN_DAYS) as u16,
            ordinal_of(on.julian + QUERY_MARGIN_DAYS) as u16,
        ),
{
    let start = match on.checked_add_days(-QUERY_MARGIN_DAYS) {
        Some(d) => d,
        None => {
            return None;
        },
    };
    let end = match on.checked_add_days(QUERY_MARGIN_DAYS) {
        Some(d) => d,
        None => {
            return None;
        },
    };
    Some(ordinal_window(start.ordinal(), end.ordinal()))
}

/// The index ranges of the days from `after` to `before`.
pub fn window_between(after: &Date, before: &Date) -> (r: OrdinalWindow)
    ensures
        r == window_of(after.ordinal, before.ordinal),
{
    ordinal_window(after.ordinal(), before.ordinal())
}

/// A window holds exactly the ordinals of the year that lie between its
/// ends, wrapping past the end of the year.
pub proof fn lemma_window_holds(start: u16, end: u16, o: u16)
    requires
        1 <= start <= MAX_ORDINAL,
        1 <= end <= MAX_ORDINAL,
        1 <= o <= MAX_ORDINAL,
    ensures
        window_of(start, end).holds(o) == wraps_over(start, end, o),
{
}

} // verus!
