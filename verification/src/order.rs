//! The order of cards by the time they still take.
//!
//! A card that takes fewer days comes first. Legendary cards, which cannot
//! be requested, come after all others and tie with one another.

use crate::arena::Arena;
use crate::card::{CardEntry, Rarity};
use crate::error::CalcError;
use crate::estimate::tier;
use crate::span::Span;
use vstd::prelude::*;

verus! {

impl CardEntry {
    /// The days, in twentieths, by which the card is ranked: those of its
    /// estimate, or, where it has none, those that an estimate would give
    /// it. A legendary card has no such days.
    pub open spec fn rank_days(self, arena: Arena) -> Option<nat> {
        if self.rarity is Legendary {
            None
        } else if self.computed is Some {
            Some(self.computed.unwrap().days_remaining.twentieths as nat)
        } else {
            Some(self.days_missing(arena))
        }
    }

    /// Whether the card can be ranked: it is legendary, or has an estimate,
    /// or can be given one in `arena`.
    pub open spec fn can_rank(self, arena: Arena) -> bool {
        self.rarity is Legendary || self.computed is Some || self.can_request(arena)
    }

    /// Whether this card comes strictly before `other`: it takes fewer days,
    /// or `other` is legendary and this card is not.
    pub open spec fn precedes(self, other: CardEntry, arena: Arena) -> bool {
        match (self.rank_days(arena), other.rank_days(arena)) {
            (Some(mine), Some(theirs)) => mine < theirs,
            (Some(_), None) => true,
            (None, _) => false,
        }
    }

    /// Whether neither card comes before the other.
    pub open spec fn ties_with(self, other: CardEntry, arena: Arena) -> bool {
        !self.precedes(other, arena) && !other.precedes(self, arena)
    }

    /// The days by which the card is ranked: those of its estimate, or,
    /// where it has none, those that an estimate gives it. A legendary card
    /// has no such days. A card that has no estimate and can be given none
    /// cannot be ranked, which is a failure with `NoRequestCapacity`.
    pub fn days_to_rank_by(&self, arena: Option<&Arena>) -> (days: Result<Option<Span>, CalcError>)
        ensures
            days is Ok <==> self.can_rank(tier(arena)),
            days matches Ok(days) ==> ({
                &&& days is Some <==> self.rank_days(tier(arena)) is Some
                &&& days matches Some(span) ==> self.rank_days(tier(arena)) == Some(
                    span.twentieths as nat,
                )
            }),
            days matches Err(e) ==> e == CalcError::NoRequestCapacity,
    {
        if self.rarity == Rarity::Legendary {
            return Ok(None);
        }
        match self.computed {
            Some(data) => Ok(Some(data.days_remaining)),
            None => self.days_remaining(arena),
        }
    }

    /// Whether the card can be ranked: it is legendary, or has an estimate,
    /// or can be given one in the arena.
    pub fn is_rankable(&self, arena: Option<&Arena>) -> (rankable: bool)
        ensures
            rankable == self.can_rank(tier(arena)),
    {
        self.days_to_rank_by(arena).is_ok()
    }

    /// Whether this card comes strictly before `other`.
    pub fn comes_before(&self, other: &Self, arena: Option<&Arena>) -> (before: bool)
        requires
            self.can_rank(tier(arena)),
            other.can_rank(tier(arena)),
        ensures
            before == self.precedes(*other, tier(arena)),
    {
        match (self.days_to_rank_by(arena), other.days_to_rank_by(arena)) {
            (Ok(Some(mine)), Ok(Some(theirs))) => mine.shorter_than(&theirs),
            (Ok(Some(_)), Ok(None)) => true,
            _ => false,
        }
    }
}

/// Of two cards exactly one thing holds: the first comes before the second,
/// the second before the first, or they tie.
pub proof fn lemma_order_is_total(a: CardEntry, b: CardEntry, arena: Arena)
    ensures
        a.precedes(b, arena) || b.precedes(a, arena) || a.ties_with(b, arena),
        !(a.precedes(b, arena) && b.precedes(a, arena)),
        !(a.precedes(b, arena) && a.ties_with(b, arena)),
        !(b.precedes(a, arena) && a.ties_with(b, arena)),
{
}

/// No card comes before itself, and of two cards at most one comes before
/// the other.
pub proof fn lemma_precedes_is_strict(a: CardEntry, b: CardEntry, arena: Arena)
    ensures
        !a.precedes(a, arena),
        a.precedes(b, arena) ==> !b.precedes(a, arena),
{
}

/// A card that comes before a second, which comes before a third, comes
/// before the third.
pub proof fn lemma_precedes_is_transitive(a: CardEntry, b: CardEntry, c: CardEntry, arena: Arena)
    requires
        a.precedes(b, arena),
        b.precedes(c, arena),
    ensures
        a.precedes(c, arena),
{
}

/// To tie is an equivalence: every card ties with itself, ties go both ways,
/// and two cards that tie with a third tie with each other.
pub proof fn lemma_ties_are_an_equivalence(a: CardEntry, b: CardEntry, c: CardEntry, arena: Arena)
    ensures
        a.ties_with(a, arena),
        a.ties_with(b, arena) ==> b.ties_with(a, arena),
        a.ties_with(b, arena) && b.ties_with(c, arena) ==> a.ties_with(c, arena),
{
}

/// Cards that tie stand alike to every other card.
pub proof fn lemma_ties_stand_alike(a: CardEntry, b: CardEntry, c: CardEntry, arena: Arena)
    requires
        a.ties_with(b, arena),
    ensures
        a.precedes(c, arena) == b.precedes(c, arena),
        c.precedes(a, arena) == c.precedes(b, arena),
{
}

/// Of two cards that are not legendary, the one that takes fewer days comes
/// first.
pub proof fn lemma_fewer_days_come_first(a: CardEntry, b: CardEntry, arena: Arena)
    requires
        !(a.rarity is Legendary),
        !(b.rarity is Legendary),
    ensures
        a.precedes(b, arena) <==> a.rank_days(arena).unwrap() < b.rank_days(arena).unwrap(),
{
}

/// A legendary card comes after every card that is not legendary, and ties
/// with every legendary card.
pub proof fn lemma_legendary_comes_last(a: CardEntry, b: CardEntry, arena: Arena)
    requires
        a.rarity is Legendary,
    ensures
        !a.precedes(b, arena),
        b.rarity is Legendary ==> a.ties_with(b, arena),
        !(b.rarity is Legendary) ==> b.precedes(a, arena),
{
}

} // verus!
