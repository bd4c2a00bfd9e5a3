//! Lengths of time in fixed-point form.
//!
//! A card is requested a whole number of times, and each rarity is requested
//! either once or twenty times a week. Every length of time that comes up is
//! therefore a whole number of twentieths, of a week or of a day, and a
//! [`Span`] holds that number exactly.

use vstd::prelude::*;

verus! {

/// The number of parts that a [`Span`] divides one unit into.
pub const PARTS: u128 = 20;

/// A length of time, counted in twentieths of its unit.
#[derive(Clone, Copy, Debug, PartialEq, Eq, Structural)]
pub struct Span {
    pub twentieths: u128,
}

/// The number of whole units that cover `twentieths` twentieths of a unit:
/// the twentieths divided by twenty, rounded up.
pub open spec fn units_up(twentieths: nat) -> nat {
    ((twentieths + PARTS - 1) / (PARTS as int)) as nat
}

impl Span {
    /// The number of whole units that cover the span: the span rounded up.
    pub open spec fn ceil(self) -> nat {
        units_up(self.twentieths as nat)
    }

    /// The sum of two spans, in twentieths.
    pub open spec fn plus(self, other: Span) -> nat {
        (self.twentieths + other.twentieths) as nat
    }

    /// A span of `units` whole units.
    pub fn whole(units: u64) -> (span: Span)
        ensures
            span.twentieths == PARTS * units,
            span.ceil() == units,
    {
        Span { twentieths: PARTS * (units as u128) }
    }

    /// The span rounded up to whole units.
    pub fn whole_up(&self) -> (units: u128)
        ensures
            units == self.ceil(),
            PARTS * (units - 1) < self.twentieths <= PARTS * units,
    {
        if self.twentieths % PARTS == 0 {
            self.twentieths / PARTS
        } else {
            self.twentieths / PARTS + 1
        }
    }

    /// The two spans one after the other, unless the sum is too large to hold.
    pub fn checked_add(&self, other: &Span) -> (sum: Option<Span>)
        ensures
            sum == (if self.plus(*other) <= u128::MAX {
                Some(Span { twentieths: self.plus(*other) as u128 })
            } else {
                None
            }),
    {
        match self.twentieths.checked_add(other.twentieths) {
            Some(twentieths) => Some(Span { twentieths }),
            None => None,
        }
    }

    /// Whether this span is strictly shorter than the other.
    pub fn shorter_than(&self, other: &Span) -> (shorter: bool)
        ensures
            shorter == (self.twentieths < other.twentieths),
    {
        self.twentieths < other.twentieths
    }
}

/// Rounding up adds less than one unit, and nothing to a whole number of units.
pub proof fn lemma_ceil_bounds(span: Span)
    ensures
        span.twentieths <= PARTS * span.ceil(),
        PARTS * span.ceil() < span.twentieths + PARTS,
        span.twentieths % PARTS == 0 ==> PARTS * span.ceil() == span.twentieths,
{
}

/// A longer span never rounds up to fewer units.
pub proof fn lemma_ceil_monotonic(a: Span, b: Span)
    requires
        a.twentieths <= b.twentieths,
    ensures
        a.ceil() <= b.ceil(),
{
}

} // verus!
