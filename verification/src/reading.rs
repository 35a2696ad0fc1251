//! Raw sensor readings.

use vstd::prelude::*;

verus! {

/// Least value a `Reading` can hold: two sensors at their lowest.
pub const READING_MIN: i64 = -4_294_967_296;

/// Greatest value a `Reading` can hold: two sensors at their highest.
pub const READING_MAX: i64 = 4_294_967_294;

/// A tare-corrected value in raw sensor units: what one sensor reports, or
/// the sum of what two sensors report.
///
/// The view is the value as a mathematical integer.
#[derive(Clone, Copy, Debug, PartialEq, Eq)]
pub struct Reading {
    raw: i64,
}

impl View for Reading {
    type V = int;

    closed spec fn view(&self) -> int {
        self.raw as int
    }
}

impl Reading {
    /// The range every `Reading` lies in.
    #[verifier::type_invariant]
    pub open spec fn valid(self) -> bool {
        READING_MIN <= self@ <= READING_MAX
    }

    /// The reading of one sensor.
    pub fn single(value: i32) -> (r: Reading)
        ensures
            r@ == value,
            r.valid(),
    {
        Reading { raw: value as i64 }
    }

    /// The combined reading of two sensors: their sum.
    pub fn combined(left: i32, right: i32) -> (r: Reading)
        ensures
            r@ == left + right,
            r.valid(),
    {
        Reading { raw: left as i64 + right as i64 }
    }

    /// The value in raw units.
    pub fn raw(&self) -> (v: i64)
        ensures
            v == self@,
            READING_MIN <= v <= READING_MAX,
    {
        proof {
            use_type_invariant(self);
        }
        self.raw
    }
}

} // verus!
