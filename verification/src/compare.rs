//! The order of cards by the time they still take, in the form that the
//! sorting routines of the standard library ask for.

use crate::arena::Arena;
use crate::card::CardEntry;
use crate::estimate::tier;
use std::cmp::Ordering;
use vstd::prelude::*;

verus! {

/// How `a` stands to `b` when cards are ordered by the time they still take
/// in `arena`: before it, after it, or level with it.
pub open spec fn standing(a: CardEntry, b: CardEntry, arena: Arena) -> Ordering {
    if a.precedes(b, arena) {
        Ordering::Less
    } else if b.precedes(a, arena) {
        Ordering::Greater
    } else {
        Ordering::Equal
    }
}

impl CardEntry {
    /// Compares two cards by the days they still take. A legendary card
    /// comes after every card that is not legendary, and level with every
    /// legendary card. A card without an estimate is ranked by the days that
    /// an estimate would give it.
    pub fn compare_by_remaining(a: &Self, b: &Self, arena: Option<&Arena>) -> (order: Ordering)
        requires
            a.can_rank(tier(arena)),
            b.can_rank(tier(arena)),
        ensures
            order == standing(*a, *b, tier(arena)),
            order is Less <==> a.precedes(*b, tier(arena)),
            order is Greater <==> b.precedes(*a, tier(arena)),
            order is Equal <==> a.ties_with(*b, tier(arena)),
    {
        if a.comes_before(b, arena) {
            Ordering::Less
        } else if b.comes_before(a, arena) {
            Ordering::Greater
        } else {
            Ordering::Equal
        }
    }

    /// Custom order algorithm for sorting CardEntries by days: a function
    /// that compares two cards as `compare_by_remaining` does in `arena`.
    pub fn sort_by_remaining(arena: Option<&Arena>) -> (compare: impl Fn(&Self, &Self) -> Ordering
        + '_)
        ensures
            forall|a: &Self, b: &Self|
                a.can_rank(tier(arena)) && b.can_rank(tier(arena)) ==> call_requires(
                    compare,
                    (a, b),
                ),
            forall|a: &Self, b: &Self, order: Ordering|
                call_ensures(compare, (a, b), order) ==> order == standing(*a, *b, tier(arena)),
    {
        move |a: &Self, b: &Self| -> (order: Ordering)
            requires
                a.can_rank(tier(arena)),
                b.can_rank(tier(arena)),
            ensures
                order == standing(*a, *b, tier(arena)),
            { Self::compare_by_remaining(a, b, arena) }
    }
}

/// The comparison is one that a sort can go by: turned round it gives the
/// opposite answer, a card stands level with itself, and what holds from a
/// first card to a second and from the second to a third holds from the
/// first to the third.
pub proof fn lemma_standing_is_an_order(a: CardEntry, b: CardEntry, c: CardEntry, arena: Arena)
    ensures
        standing(a, a, arena) is Equal,
        standing(a, b, arena) is Less <==> standing(b, a, arena) is Greater,
        standing(a, b, arena) is Equal <==> standing(b, a, arena) is Equal,
        standing(a, b, arena) is Less && standing(b, c, arena) is Less ==> standing(a, c, arena)
            is Less,
        standing(a, b, arena) is Equal && standing(b, c, arena) is Equal ==> standing(a, c, arena)
            is Equal,
        standing(a, b, arena) is Equal ==> standing(a, c, arena) == standing(b, c, arena),
{
}

/// A legendary card stands after every card that is not legendary and level
/// with every legendary card.
pub proof fn lemma_legendary_stands_last(a: CardEntry, b: CardEntry, arena: Arena)
    requires
        a.rarity is Legendary,
    ensures
        b.rarity is Legendary ==> standing(a, b, arena) is Equal,
        !(b.rarity is Legendary) ==> standing(a, b, arena) is Greater && standing(b, a, arena)
            is Less,
{
}

} // verus!
