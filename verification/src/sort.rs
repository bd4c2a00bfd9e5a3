//! The stable sort of a list of cards by the time they still take.

use crate::arena::Arena;
use crate::card::CardEntry;
use crate::error::CalcError;
use crate::estimate::tier;
use crate::order::{
    lemma_legendary_comes_last, lemma_precedes_is_strict, lemma_precedes_is_transitive,
    lemma_ties_stand_alike,
};
use vstd::prelude::*;

verus! {

/// Whether every card of the list can be ranked.
pub open spec fn all_can_rank(cards: Seq<CardEntry>, arena: Arena) -> bool {
    forall|i: int| 0 <= i < cards.len() ==> (#[trigger] cards[i]).can_rank(arena)
}

/// Whether the list is in order: no card comes strictly before a card that
/// stands earlier in the list.
pub open spec fn in_order(cards: Seq<CardEntry>, arena: Arena) -> bool {
    forall|i: int, j: int| 0 <= i < j < cards.len() ==> !cards[j].precedes(cards[i], arena)
}

/// The cards of the list that tie with `like`, in the order of the list.
pub open spec fn tying_with(cards: Seq<CardEntry>, like: CardEntry, arena: Arena) -> Seq<
    CardEntry,
> {
    cards.filter(|card: CardEntry| card.ties_with(like, arena))
}

/// The first position from `from` on whose card comes strictly after `card`,
/// or the length of the list if there is none: the place of `card` behind
/// all cards that do not come after it.
pub open spec fn place_for(cards: Seq<CardEntry>, card: CardEntry, arena: Arena, from: int) -> int
    decreases cards.len() - from,
{
    if from >= cards.len() {
        cards.len() as int
    } else if card.precedes(cards[from], arena) {
        from
    } else {
        place_for(cards, card, arena, from + 1)
    }
}

/// The list sorted by the days the cards still take, cards that tie staying
/// in the order in which they stand in the list. Each card in turn is put
/// behind the cards before it that do not come after it.
pub open spec fn stable_sort(cards: Seq<CardEntry>, arena: Arena) -> Seq<CardEntry>
    decreases cards.len(),
{
    if cards.len() == 0 {
        cards
    } else {
        let sorted = stable_sort(cards.drop_last(), arena);
        sorted.insert(place_for(sorted, cards.last(), arena, 0), cards.last())
    }
}

impl CardEntry {
    /// Sorts the list by the days the cards still take, fewest first and
    /// legendary cards last. Cards that tie stay in the order in which they
    /// stood.
    ///
    /// A card without an estimate is ranked by the days that an estimate
    /// gives it. Where a card has none and can be given none, the list
    /// stays as it is and the call fails with `NoRequestCapacity`.
    pub fn sort_all(list: &mut Vec<Self>, arena: Option<&Arena>) -> (outcome: Result<
        (),
        CalcError,
    >)
        ensures
            outcome is Ok <==> all_can_rank(old(list)@, tier(arena)),
            (match outcome {
                Ok(()) => {
                    &&& final(list)@ == stable_sort(old(list)@, tier(arena))
                    &&& in_order(final(list)@, tier(arena))
                    &&& forall|like: CardEntry|
                        #[trigger] tying_with(final(list)@, like, tier(arena)) == tying_with(
                            old(list)@,
                            like,
                            tier(arena),
                        )
                    &&& final(list)@.to_multiset() == old(list)@.to_multiset()
                    &&& final(list)@.len() == old(list)@.len()
                },
                Err(e) => e == CalcError::NoRequestCapacity && final(list)@ == old(list)@,
            }),
    {
        let mut checked: usize = 0;
        while checked < list.len()
            invariant
                checked <= list@.len(),
                list@ == old(list)@,
                forall|k: int| 0 <= k < checked ==> (#[trigger] list@[k]).can_rank(tier(arena)),
            decreases list@.len() - checked,
        {
            if !list[checked].is_rankable(arena) {
                return Err(CalcError::NoRequestCapacity);
            }
            checked += 1;
        }
        Self::sort_ranked(list, arena);
        proof {
            lemma_sort_is_in_order(old(list)@, tier(arena));
            lemma_sort_permutes(old(list)@, tier(arena));
            assert forall|like: CardEntry| #[trigger]
                tying_with(list@, like, tier(arena)) == tying_with(
                    old(list)@,
                    like,
                    tier(arena),
                ) by {
                lemma_sort_is_stable(old(list)@, like, tier(arena));
            }
        }
        Ok(())
    }

    /// Sorts a list of cards that can all be ranked.
    fn sort_ranked(list: &mut Vec<Self>, arena: Option<&Arena>)
        requires
            all_can_rank(old(list)@, tier(arena)),
        ensures
            final(list)@ == stable_sort(old(list)@, tier(arena)),
    {
        let mut i: usize = 0;
        assert(old(list)@.take(0) =~= Seq::<CardEntry>::empty());
        assert(old(list)@.skip(0) =~= old(list)@);
        while i < list.len()
            invariant
                i <= old(list)@.len(),
                list@.len() == old(list)@.len(),
                all_can_rank(old(list)@, tier(arena)),
                all_can_rank(list@, tier(arena)),
                list@ == stable_sort(old(list)@.take(i as int), tier(arena)) + old(list)@.skip(
                    i as int,
                ),
            decreases list@.len() - i,
        {
            let ghost sorted = stable_sort(old(list)@.take(i as int), tier(arena));
            proof {
                lemma_sort_keeps_length(old(list)@.take(i as int), tier(arena));
                assert(list@[i as int] == old(list)@[i as int]);
            }
            let card = list.remove(i);
            assert(list@ =~= sorted + old(list)@.skip(i as int + 1));
            let mut j: usize = 0;
            while j < i && !card.comes_before(&list[j], arena)
                invariant
                    j <= i,
                    i < old(list)@.len(),
                    sorted.len() == i,
                    list@ == sorted + old(list)@.skip(i as int + 1),
                    all_can_rank(old(list)@, tier(arena)),
                    all_can_rank(list@, tier(arena)),
                    card == old(list)@[i as int],
                    place_for(sorted, card, tier(arena), 0) == place_for(
                        sorted,
                        card,
                        tier(arena),
                        j as int,
                    ),
                decreases i - j,
            {
                j += 1;
            }
            list.insert(j, card);
            proof {
                let next = old(list)@.take(i as int + 1);
                assert(next.drop_last() =~= old(list)@.take(i as int));
                assert(next.last() == card);
                assert(place_for(sorted, card, tier(arena), j as int) == j);
                assert(list@ =~= stable_sort(next, tier(arena)) + old(list)@.skip(i as int + 1));
            }
            i += 1;
        }
        assert(old(list)@.take(i as int) =~= old(list)@);
    }
}

/// The cards from `from` up to the place for `card` do not come after it,
/// and the card at that place, if there is one, does.
pub proof fn lemma_place_divides(cards: Seq<CardEntry>, card: CardEntry, arena: Arena, from: int)
    requires
        0 <= from <= cards.len(),
    ensures
        from <= place_for(cards, card, arena, from) <= cards.len(),
        forall|k: int|
            from <= k < place_for(cards, card, arena, from) ==> !card.precedes(
                #[trigger] cards[k],
                arena,
            ),
        place_for(cards, card, arena, from) < cards.len() ==> card.precedes(
            cards[place_for(cards, card, arena, from)],
            arena,
        ),
    decreases cards.len() - from,
{
    if from < cards.len() && !card.precedes(cards[from], arena) {
        lemma_place_divides(cards, card, arena, from + 1);
    }
}

/// Where no card from `from` on comes after `card`, its place is the end of
/// the list.
pub proof fn lemma_place_at_end(cards: Seq<CardEntry>, card: CardEntry, arena: Arena, from: int)
    requires
        0 <= from <= cards.len(),
        forall|k: int| from <= k < cards.len() ==> !card.precedes(#[trigger] cards[k], arena),
    ensures
        place_for(cards, card, arena, from) == cards.len(),
    decreases cards.len() - from,
{
    if from < cards.len() {
        lemma_place_at_end(cards, card, arena, from + 1);
    }
}

/// Sorting keeps the number of cards.
pub proof fn lemma_sort_keeps_length(cards: Seq<CardEntry>, arena: Arena)
    ensures
        stable_sort(cards, arena).len() == cards.len(),
    decreases cards.len(),
{
    if cards.len() > 0 {
        let sorted = stable_sort(cards.drop_last(), arena);
        lemma_sort_keeps_length(cards.drop_last(), arena);
        lemma_place_divides(sorted, cards.last(), arena, 0);
    }
}

/// Sorting keeps every card one that can be ranked.
pub proof fn lemma_sort_keeps_rankable(cards: Seq<CardEntry>, arena: Arena)
    requires
        all_can_rank(cards, arena),
    ensures
        all_can_rank(stable_sort(cards, arena), arena),
{
    let sorted = stable_sort(cards, arena);
    assert forall|i: int| 0 <= i < sorted.len() implies (#[trigger] sorted[i]).can_rank(arena) by {
        lemma_sort_holds_the_same_cards(cards, arena, sorted[i]);
        assert(sorted.contains(sorted[i]));
        let j = choose|j: int| 0 <= j < cards.len() && cards[j] == sorted[i];
        assert(cards[j].can_rank(arena));
    }
}

/// A list that is in order stays in order when a card is put in its place.
pub proof fn lemma_insert_keeps_order(cards: Seq<CardEntry>, card: CardEntry, arena: Arena)
    requires
        in_order(cards, arena),
    ensures
        in_order(cards.insert(place_for(cards, card, arena, 0), card), arena),
{
    let place = place_for(cards, card, arena, 0);
    let longer = cards.insert(place, card);
    lemma_place_divides(cards, card, arena, 0);
    assert forall|i: int, j: int| 0 <= i < j < longer.len() implies !longer[j].precedes(
        longer[i],
        arena,
    ) by {
        if j < place {
            assert(longer[i] == cards[i] && longer[j] == cards[j]);
        } else if j == place {
            assert(longer[i] == cards[i] && longer[j] == card);
        } else if i < place {
            assert(longer[i] == cards[i] && longer[j] == cards[j - 1]);
        } else if i == place {
            // the card at `place` comes after `card`, and no later card
            // comes before the one at `place`
            assert(longer[i] == card && longer[j] == cards[j - 1]);
            if cards[j - 1].precedes(card, arena) {
                lemma_precedes_is_transitive(cards[j - 1], card, cards[place], arena);
                lemma_precedes_is_strict(cards[place], cards[place], arena);
            }
        } else {
            assert(longer[i] == cards[i - 1] && longer[j] == cards[j - 1]);
        }
    }
}

/// The sorted list is in order.
pub proof fn lemma_sort_is_in_order(cards: Seq<CardEntry>, arena: Arena)
    ensures
        in_order(stable_sort(cards, arena), arena),
    decreases cards.len(),
{
    if cards.len() > 0 {
        lemma_sort_is_in_order(cards.drop_last(), arena);
        lemma_insert_keeps_order(stable_sort(cards.drop_last(), arena), cards.last(), arena);
    }
}

/// The sorted list holds the cards of the list, each as often as the list
/// does.
pub proof fn lemma_sort_permutes(cards: Seq<CardEntry>, arena: Arena)
    ensures
        stable_sort(cards, arena).to_multiset() == cards.to_multiset(),
        stable_sort(cards, arena).len() == cards.len(),
    decreases cards.len(),
{
    lemma_sort_keeps_length(cards, arena);
    if cards.len() > 0 {
        let sorted = stable_sort(cards.drop_last(), arena);
        lemma_sort_permutes(cards.drop_last(), arena);
        lemma_place_divides(sorted, cards.last(), arena, 0);
        vstd::seq_lib::to_multiset_insert(
            sorted,
            place_for(sorted, cards.last(), arena, 0),
            cards.last(),
        );
        vstd::seq_lib::to_multiset_build(cards.drop_last(), cards.last());
        assert(cards.drop_last().push(cards.last()) =~= cards);
    }
}

/// The sorted list holds the very cards that the list holds.
pub proof fn lemma_sort_holds_the_same_cards(cards: Seq<CardEntry>, arena: Arena, card: CardEntry)
    ensures
        stable_sort(cards, arena).contains(card) <==> cards.contains(card),
{
    lemma_sort_permutes(cards, arena);
    vstd::seq_lib::to_multiset_contains(cards, card);
    vstd::seq_lib::to_multiset_contains(stable_sort(cards, arena), card);
}

/// Sorting is stable: the cards that tie with one another stand in the
/// sorted list in the order in which they stood before.
pub proof fn lemma_sort_is_stable(cards: Seq<CardEntry>, like: CardEntry, arena: Arena)
    ensures
        tying_with(stable_sort(cards, arena), like, arena) == tying_with(cards, like, arena),
    decreases cards.len(),
{
    if cards.len() > 0 {
        let front = cards.drop_last();
        let card = cards.last();
        let sorted = stable_sort(front, arena);
        let place = place_for(sorted, card, arena, 0);
        let ties = |other: CardEntry| other.ties_with(like, arena);
        lemma_sort_is_stable(front, like, arena);
        lemma_sort_is_in_order(front, arena);
        lemma_place_divides(sorted, card, arena, 0);
        let head = sorted.take(place);
        let tail = sorted.skip(place);
        assert(sorted =~= head + tail);
        assert(sorted.insert(place, card) =~= head.push(card) + tail);
        assert(cards =~= front.push(card));
        Seq::filter_distributes_over_add(head, tail, ties);
        Seq::filter_distributes_over_add(head.push(card), tail, ties);
        head.lemma_filter_push(card, ties);
        front.lemma_filter_push(card, ties);
        if ties(card) {
            // every card behind the place comes after `card`, and so after `like`
            assert forall|k: int| 0 <= k < tail.len() implies !ties(#[trigger] tail[k]) by {
                assert(tail[k] == sorted[place + k]);
                assert(card.precedes(sorted[place], arena));
                assert(k > 0 ==> !sorted[place + k].precedes(sorted[place], arena));
                lemma_ties_stand_alike(card, like, tail[k], arena);
            }
            assert(tail.all(|other: CardEntry| !ties(other)));
            tail.lemma_all_neg_filter_empty(ties);
            assert(tail.filter(ties) =~= Seq::<CardEntry>::empty());
            assert(head.filter(ties).push(card) + tail.filter(ties) =~= (head.filter(ties)
                + tail.filter(ties)).push(card));
        }
    }
}

/// Sorting leaves a list that is in order as it is.
pub proof fn lemma_sort_keeps_sorted(cards: Seq<CardEntry>, arena: Arena)
    requires
        in_order(cards, arena),
    ensures
        stable_sort(cards, arena) == cards,
    decreases cards.len(),
{
    if cards.len() > 0 {
        let front = cards.drop_last();
        assert(in_order(front, arena)) by {
            assert forall|i: int, j: int| 0 <= i < j < front.len() implies !front[j].precedes(
                front[i],
                arena,
            ) by {
                assert(front[i] == cards[i] && front[j] == cards[j]);
            }
        }
        lemma_sort_keeps_sorted(front, arena);
        assert forall|k: int| 0 <= k < front.len() implies !cards.last().precedes(
            #[trigger] front[k],
            arena,
        ) by {
            assert(front[k] == cards[k]);
        }
        lemma_place_at_end(front, cards.last(), arena, 0);
        assert(front.insert(front.len() as int, cards.last()) =~= cards);
    }
}

/// Sorting a second time changes nothing.
pub proof fn lemma_sort_twice(cards: Seq<CardEntry>, arena: Arena)
    ensures
        stable_sort(stable_sort(cards, arena), arena) == stable_sort(cards, arena),
{
    lemma_sort_is_in_order(cards, arena);
    lemma_sort_keeps_sorted(stable_sort(cards, arena), arena);
}

/// In a list that is in order, whatever order the cards came in, no card
/// that is not legendary stands behind a legendary one.
pub proof fn lemma_legendary_at_the_end(cards: Seq<CardEntry>, arena: Arena, i: int, j: int)
    requires
        in_order(cards, arena),
        0 <= i < j < cards.len(),
        cards[i].rarity is Legendary,
    ensures
        cards[j].rarity is Legendary,
{
    lemma_legendary_comes_last(cards[i], cards[j], arena);
}

/// Sorting puts every legendary card behind every card that is not
/// legendary, in whatever order the cards came.
pub proof fn lemma_sort_puts_legendary_last(cards: Seq<CardEntry>, arena: Arena, i: int, j: int)
    requires
        0 <= i < j < cards.len(),
        stable_sort(cards, arena)[i].rarity is Legendary,
    ensures
        stable_sort(cards, arena)[j].rarity is Legendary,
{
    lemma_sort_keeps_length(cards, arena);
    lemma_sort_is_in_order(cards, arena);
    lemma_legendary_at_the_end(stable_sort(cards, arena), arena, i, j);
}

/// The cards that tie with `like` in a list that starts with `first`: the
/// first card if it ties, and then those of the rest of the list.
proof fn lemma_tying_from_the_front(cards: Seq<CardEntry>, like: CardEntry, arena: Arena)
    requires
        cards.len() > 0,
    ensures
        tying_with(cards, like, arena) == (if cards[0].ties_with(like, arena) {
            seq![cards[0]]
        } else {
            Seq::empty()
        }) + tying_with(cards.drop_first(), like, arena),
{
    let ties = |other: CardEntry| other.ties_with(like, arena);
    assert(cards =~= seq![cards[0]] + cards.drop_first());
    cards.drop_first().lemma_filter_prepend(cards[0], ties);
}

/// Two lists in order that hold, for every card, the same cards that tie
/// with it in the same order, are the same list.
pub proof fn lemma_order_and_ties_fix_the_list(
    first: Seq<CardEntry>,
    second: Seq<CardEntry>,
    arena: Arena,
)
    requires
        in_order(first, arena),
        in_order(second, arena),
        forall|like: CardEntry|
            #[trigger] tying_with(first, like, arena) == tying_with(second, like, arena),
    ensures
        first == second,
    decreases first.len(),
{
    if first.len() == 0 || second.len() == 0 {
        if first.len() > 0 {
            lemma_tying_from_the_front(first, first[0], arena);
            assert(tying_with(first, first[0], arena)[0] == first[0]);
            assert(tying_with(second, first[0], arena).len() == 0) by {
                assert(second =~= Seq::<CardEntry>::empty());
                second.lemma_filter_len(|other: CardEntry| other.ties_with(first[0], arena));
            }
        }
        if second.len() > 0 {
            lemma_tying_from_the_front(second, second[0], arena);
            assert(tying_with(second, second[0], arena)[0] == second[0]);
            assert(tying_with(first, second[0], arena).len() == 0) by {
                assert(first =~= Seq::<CardEntry>::empty());
                first.lemma_filter_len(|other: CardEntry| other.ties_with(second[0], arena));
            }
        }
        assert(first =~= second);
    } else {
        let a = first[0];
        let b = second[0];
        // each list holds the head of the other
        lemma_tying_from_the_front(first, a, arena);
        lemma_tying_from_the_front(second, b, arena);
        assert(tying_with(first, a, arena)[0] == a);
        assert(tying_with(second, b, arena)[0] == b);
        assert(tying_with(second, a, arena).contains(a)) by {
            assert(tying_with(second, a, arena) == tying_with(first, a, arena));
        }
        assert(tying_with(first, b, arena).contains(b)) by {
            assert(tying_with(first, b, arena) == tying_with(second, b, arena));
        }
        second.lemma_filter_contains_rev(|other: CardEntry| other.ties_with(a, arena), a);
        first.lemma_filter_contains_rev(|other: CardEntry| other.ties_with(b, arena), b);
        let i = choose|i: int| 0 <= i < second.len() && second[i] == a;
        let j = choose|j: int| 0 <= j < first.len() && first[j] == b;
        // so neither head comes before the other
        assert(!a.precedes(b, arena)) by {
            if i > 0 {
                assert(!second[i].precedes(second[0], arena));
            }
        }
        assert(!b.precedes(a, arena)) by {
            if j > 0 {
                assert(!first[j].precedes(first[0], arena));
            }
        }
        // and the first of the cards that tie with them is one and the same
        lemma_tying_from_the_front(second, a, arena);
        assert(tying_with(second, a, arena)[0] == b);
        assert(a == b);
        let rest = first.drop_first();
        let other_rest = second.drop_first();
        assert(in_order(rest, arena)) by {
            assert forall|m: int, n: int| 0 <= m < n < rest.len() implies !rest[n].precedes(
                rest[m],
                arena,
            ) by {
                assert(rest[m] == first[m + 1] && rest[n] == first[n + 1]);
            }
        }
        assert(in_order(other_rest, arena)) by {
            assert forall|m: int, n: int| 0 <= m < n < other_rest.len() implies
                !other_rest[n].precedes(other_rest[m], arena) by {
                assert(other_rest[m] == second[m + 1] && other_rest[n] == second[n + 1]);
            }
        }
        assert forall|like: CardEntry| #[trigger]
            tying_with(rest, like, arena) == tying_with(other_rest, like, arena) by {
            lemma_tying_from_the_front(first, like, arena);
            lemma_tying_from_the_front(second, like, arena);
            assert(tying_with(first, like, arena) == tying_with(second, like, arena));
            let head = if a.ties_with(like, arena) {
                seq![a]
            } else {
                Seq::<CardEntry>::empty()
            };
            let left = tying_with(rest, like, arena);
            let right = tying_with(other_rest, like, arena);
            assert(head + left == head + right);
            assert(left =~= (head + left).skip(head.len() as int));
            assert(right =~= (head + right).skip(head.len() as int));
        }
        lemma_order_and_ties_fix_the_list(rest, other_rest, arena);
        assert(first =~= seq![a] + rest);
        assert(second =~= seq![b] + other_rest);
    }
}

/// The sorted list is the one arrangement of the cards that is in order and
/// keeps the cards that tie in the order in which they stood.
pub proof fn lemma_sort_is_the_stable_order(
    cards: Seq<CardEntry>,
    arranged: Seq<CardEntry>,
    arena: Arena,
)
    requires
        in_order(arranged, arena),
        forall|like: CardEntry|
            #[trigger] tying_with(arranged, like, arena) == tying_with(cards, like, arena),
    ensures
        arranged == stable_sort(cards, arena),
{
    lemma_sort_is_in_order(cards, arena);
    assert forall|like: CardEntry| #[trigger]
        tying_with(arranged, like, arena) == tying_with(
            stable_sort(cards, arena),
            like,
            arena,
        ) by {
        lemma_sort_is_stable(cards, like, arena);
    }
    lemma_order_and_ties_fix_the_list(arranged, stable_sort(cards, arena), arena);
}

} // verus!
