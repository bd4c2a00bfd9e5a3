//! The ways in which an estimate or a schedule can fail.

use vstd::prelude::*;

verus! {

/// Why no estimate, schedule or arena could be produced.
#[derive(Clone, Copy, Debug, PartialEq, Eq, Structural)]
pub enum CalcError {
    /// Cards are still missing, but the arena allows no request for them.
    NoRequestCapacity,
    /// The day of completion lies beyond the dates the calendar can hold.
    DateOverflow,
    /// A card was to be scheduled before it had been estimated.
    MissingEstimate,
    /// A number was given that stands for no arena.
    UnknownTier,
}

impl CalcError {
    /// The text that describes each failure.
    pub open spec fn text(self) -> Seq<char> {
        match self {
            CalcError::NoRequestCapacity => "Cards cannot be requested in this arena"@,
            CalcError::DateOverflow => "The date of completion is out of range"@,
            CalcError::MissingEstimate => "One or more cards have missing values"@,
            CalcError::UnknownTier => "There is no such arena"@,
        }
    }

    /// A sentence for the user that describes the failure.
    pub fn message(&self) -> (s: &'static str)
        ensures
            s@ == self.text(),
    {
        match self {
            CalcError::NoRequestCapacity => "Cards cannot be requested in this arena",
            CalcError::DateOverflow => "The date of completion is out of range",
            CalcError::MissingEstimate => "One or more cards have missing values",
            CalcError::UnknownTier => "There is no such arena",
        }
    }
}

} // verus!
