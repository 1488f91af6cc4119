//! Spans of time, with the range and the saturation of the standard library's
//! duration: whole nanoseconds up to the largest number of seconds that 64 bits
//! hold, and 999,999,999 nanoseconds.

use vstd::prelude::*;

verus! {

/// Nanoseconds in one second.
pub const NANOS_PER_SEC: u128 = 1_000_000_000;

/// Nanoseconds in one millisecond.
pub const NANOS_PER_MILLI: u128 = 1_000_000;

/// Nanoseconds of the longest span.
pub const MAX_NANOS: u128 = 18_446_744_073_709_551_615_999_999_999;

/// A span of time.
#[derive(Clone, Copy, Debug, PartialEq, Eq, PartialOrd, Ord, Hash, Structural)]
pub struct Duration {
    /// The whole span in nanoseconds.
    pub nanos: u128,
}

impl View for Duration {
    type V = int;

    /// The span in nanoseconds.
    open spec fn view(&self) -> int {
        self.nanos as int
    }
}

impl Default for Duration {
    fn default() -> (r: Self)
        ensures
            r@ == 0,
    {
        Duration { nanos: 0 }
    }
}

impl Duration {
    /// Whether the span is one that the type is meant to hold.
    pub open spec fn wf(self) -> bool {
        self@ <= MAX_NANOS
    }

    /// The empty span.
    pub fn zero() -> (r: Self)
        ensures
            r@ == 0,
            r.wf(),
    {
        Duration { nanos: 0 }
    }

    /// The longest span.
    pub fn max_value() -> (r: Self)
        ensures
            r@ == MAX_NANOS,
            r.wf(),
    {
        Duration { nanos: MAX_NANOS }
    }

    /// A span of whole seconds.
    pub fn from_secs(secs: u64) -> (r: Self)
        ensures
            r@ == secs * NANOS_PER_SEC,
            r.wf(),
    {
        Duration { nanos: secs as u128 * NANOS_PER_SEC }
    }

    /// A span of whole milliseconds.
    pub fn from_millis(millis: u64) -> (r: Self)
        ensures
            r@ == millis * NANOS_PER_MILLI,
            r.wf(),
    {
        Duration { nanos: millis as u128 * NANOS_PER_MILLI }
    }

    /// A span of whole nanoseconds.
    pub fn from_nanos(nanos: u64) -> (r: Self)
        ensures
            r@ == nanos,
            r.wf(),
    {
        Duration { nanos: nanos as u128 }
    }

    /// A span of seconds and nanoseconds; `None` when it is longer than the
    /// longest span.
    pub fn from_parts(secs: u64, nanos: u32) -> (r: Option<Self>)
        ensures
            r is Some <==> secs * NANOS_PER_SEC + nanos <= MAX_NANOS,
            r matches Some(d) ==> d@ == secs * NANOS_PER_SEC + nanos && d.wf(),
    {
        let total: u128 = secs as u128 * NANOS_PER_SEC + nanos as u128;
        if total <= MAX_NANOS {
            Some(Duration { nanos: total })
        } else {
            None
        }
    }

    /// Whole milliseconds in the span, rounded down.
    pub fn as_millis(&self) -> (r: u128)
        ensures
            r == self@ / NANOS_PER_MILLI as int,
    {
        self.nanos / NANOS_PER_MILLI
    }

    /// Whole seconds in the span, rounded down.
    pub fn as_secs(&self) -> (r: u128)
        ensures
            r == self@ / NANOS_PER_SEC as int,
    {
        self.nanos / NANOS_PER_SEC
    }

    /// Whether the span is empty.
    pub fn is_zero(&self) -> (r: bool)
        ensures
            r == (self@ == 0),
    {
        self.nanos == 0
    }

    /// Whether this span is shorter than the other.
    pub fn shorter(self, other: Self) -> (r: bool)
        ensures
            r == (self@ < other@),
    {
        self.nanos < other.nanos
    }

    /// Whether this span is no longer than the other.
    pub fn within(self, other: Self) -> (r: bool)
        ensures
            r == (self@ <= other@),
    {
        self.nanos <= other.nanos
    }

    /// The sum, or the longest span where the sum is longer than that.
    pub fn saturating_add(self, other: Self) -> (r: Self)
        ensures
            r@ == spec_min(self@ + other@, MAX_NANOS as int),
            r.wf(),
    {
        let total: u128 = self.nanos.saturating_add(other.nanos);
        Duration { nanos: if total <= MAX_NANOS { total } else { MAX_NANOS } }
    }

    /// The difference, or the empty span where the other is longer.
    pub fn saturating_sub(self, other: Self) -> (r: Self)
        ensures
            r@ == spec_max(self@ - other@, 0),
            self.wf() ==> r.wf(),
    {
        Duration { nanos: self.nanos.saturating_sub(other.nanos) }
    }

    /// The distance between the two spans.
    pub fn abs_diff(self, other: Self) -> (r: Self)
        ensures
            r@ == spec_distance(self@, other@),
            self.wf() && other.wf() ==> r.wf(),
    {
        if self.nanos > other.nanos {
            Duration { nanos: self.nanos - other.nanos }
        } else {
            Duration { nanos: other.nanos - self.nanos }
        }
    }

    /// The shorter of the two spans.
    pub fn min(self, other: Self) -> (r: Self)
        ensures
            r@ == spec_min(self@, other@),
            r == self || r == other,
    {
        if other.nanos < self.nanos {
            other
        } else {
            self
        }
    }

    /// The longer of the two spans.
    pub fn max(self, other: Self) -> (r: Self)
        ensures
            r@ == spec_max(self@, other@),
            r == self || r == other,
    {
        if other.nanos >= self.nanos {
            other
        } else {
            self
        }
    }

    /// The span divided by a positive number, rounded down to a nanosecond.
    pub fn divide(self, divisor: u32) -> (r: Self)
        requires
            divisor > 0,
        ensures
            r@ == self@ / divisor as int,
            self.wf() ==> r.wf(),
    {
        proof {
            assert(self.nanos as int / divisor as int <= self.nanos) by (nonlinear_arith)
                requires
                    divisor > 0,
            ;
        }
        Duration { nanos: self.nanos / divisor as u128 }
    }
}

/// The smaller of two integers.
pub open spec fn spec_min(left: int, right: int) -> int {
    if left <= right {
        left
    } else {
        right
    }
}

/// The greater of two integers.
pub open spec fn spec_max(left: int, right: int) -> int {
    if left >= right {
        left
    } else {
        right
    }
}

/// The distance between two integers.
pub open spec fn spec_distance(left: int, right: int) -> int {
    if left >= right {
        left - right
    } else {
        right - left
    }
}

/// The lesser of two is one of them and above neither, the greater one of them and below
/// neither, and they are apart by what has to be added to the lesser for the greater.
pub proof fn extremes_are_a_distance_apart(left: int, right: int)
    ensures
        spec_min(left, right) == left || spec_min(left, right) == right,
        spec_min(left, right) <= left && spec_min(left, right) <= right,
        spec_max(left, right) == left || spec_max(left, right) == right,
        spec_max(left, right) >= left && spec_max(left, right) >= right,
        spec_min(left, right) + spec_distance(left, right) == spec_max(left, right),
        spec_distance(left, right) == spec_distance(right, left),
{
}

/// A second has a thousand milliseconds, and the longest time is that of the largest number
/// of seconds in 64 bits, and all but one nanosecond of another.
pub proof fn times_have_their_units()
    ensures
        NANOS_PER_SEC == 1_000 * NANOS_PER_MILLI,
        NANOS_PER_MILLI == 1_000_000,
        MAX_NANOS == u64::MAX * NANOS_PER_SEC + (NANOS_PER_SEC - 1),
{
}

} // verus!
