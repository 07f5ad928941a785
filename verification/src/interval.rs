//! Time intervals within a day, the validated building block of the layering
//! index. An interval is half-open: it covers the instants from `start`
//! inclusive up to `end` exclusive, so two intervals that merely touch
//! (one ends exactly where the other starts) do not overlap.

use vstd::prelude::*;

verus! {

/// Mathematical image of an interval: a half-open range `[start, end)`
/// of minutes.
pub struct IntervalView {
    pub start: int,
    pub end: int,
}

impl IntervalView {
    /// A well-formed interval starts strictly before it ends.
    pub open spec fn valid(self) -> bool {
        0 <= self.start < self.end
    }

    /// Whether the instant `t` lies inside the half-open range.
    pub open spec fn covers(self, t: int) -> bool {
        self.start <= t < self.end
    }

    /// Whether two half-open ranges share at least one instant.
    pub open spec fn overlaps(self, other: IntervalView) -> bool {
        self.start < other.end && other.start < self.end
    }
}

/// The single way interval construction can fail.
#[derive(Clone, Copy, Debug, PartialEq, Eq, Structural)]
pub enum IntervalError {
    /// The requested start does not lie strictly before the requested end.
    InvalidInterval,
}

/// A validated half-open time interval, in minutes since midnight.
/// Values of this type always satisfy `start < end`: the constructors
/// reject anything else, and nothing mutates an interval afterwards.
#[derive(Clone, Copy, Debug, PartialEq, Eq, Structural)]
pub struct Interval {
    start: u32,
    end: u32,
}

impl View for Interval {
    type V = IntervalView;

    closed spec fn view(&self) -> IntervalView {
        IntervalView { start: self.start as int, end: self.end as int }
    }
}

impl Interval {
    #[verifier::type_invariant]
    pub open spec fn wf(self) -> bool {
        self@.valid()
    }
}

/// Minutes since midnight of the wall-clock time `h:m`.
pub open spec fn minutes_spec(h: int, m: int) -> int {
    h * 60 + m
}

impl Interval {
    /// Builds the interval `[start, end)` from minute counts, rejecting
    /// `start >= end` with `InvalidInterval`; this is the only validation
    /// point, and the only failure, in the whole layering core.
    pub fn new(start: u32, end: u32) -> (r: Result<Interval, IntervalError>)
        ensures
            r is Ok <==> start < end,
            r matches Ok(iv) ==> iv@.start == start && iv@.end == end,
            r matches Err(e) ==> e == IntervalError::InvalidInterval,
    {
        if start < end {
            Ok(Interval { start, end })
        } else {
            Err(IntervalError::InvalidInterval)
        }
    }

    /// Builds an interval from two wall-clock times given as (hour, minute)
    /// pairs, like the popup form supplies them.
    pub fn from_hm(start: (u32, u32), end: (u32, u32)) -> (r: Result<Interval, IntervalError>)
        requires
            start.0 < 24,
            start.1 < 60,
            end.0 < 24,
            end.1 < 60,
        ensures
            r is Ok <==> minutes_spec(start.0 as int, start.1 as int)
                < minutes_spec(end.0 as int, end.1 as int),
            r matches Ok(iv) ==> iv@.start == minutes_spec(start.0 as int, start.1 as int)
                && iv@.end == minutes_spec(end.0 as int, end.1 as int),
            r matches Err(e) ==> e == IntervalError::InvalidInterval,
    {
        Interval::new(start.0 * 60 + start.1, end.0 * 60 + end.1)
    }

    /// First covered minute.
    pub fn start(&self) -> (r: u32)
        ensures
            r == self@.start,
    {
        self.start
    }

    /// First minute past the interval.
    pub fn end(&self) -> (r: u32)
        ensures
            r == self@.end,
    {
        self.end
    }
}

} // verus!
