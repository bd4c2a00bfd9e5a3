//! One pass over a list of cards: estimate, sort, schedule.

use crate::arena::Arena;
use crate::card::CardEntry;
use crate::error::CalcError;
use crate::estimate::{estimated, tier};
use crate::moment::Moment;
use crate::schedule::{is_schedule_of, lemma_schedule_keeps_estimates, obstacle, scheduled};
use crate::sort::{all_can_rank, in_order, lemma_sort_holds_the_same_cards, stable_sort};
use vstd::prelude::*;

verus! {

/// A place in the schedule changes nothing in the order of cards: a list
/// that is in order is still in order when its cards are scheduled.
pub proof fn lemma_schedule_keeps_order(
    before: Seq<CardEntry>,
    after: Seq<CardEntry>,
    arena: Arena,
    now: Moment,
)
    requires
        in_order(before, arena),
        is_schedule_of(after, before, now, Ok(())),
    ensures
        in_order(after, arena),
{
    assert forall|i: int, j: int| 0 <= i < j < after.len() implies !after[j].precedes(
        after[i],
        arena,
    ) by {
        assert(obstacle(before, now, i) is None && obstacle(before, now, j) is None);
        assert(after[i] == scheduled(before, now, i) && after[j] == scheduled(before, now, j));
        assert(after[i].rank_days(arena) == before[i].rank_days(arena));
        assert(after[j].rank_days(arena) == before[j].rank_days(arena));
        assert(!before[j].precedes(before[i], arena));
    }
}

impl CardEntry {
    /// Makes one pass over the list, with `now` as the present: estimates
    /// every card anew, sorts the list by the days the cards take, and
    /// schedules the cards in that order.
    ///
    /// Where a card that lacks cards cannot be requested in the arena, the
    /// pass ends after the estimates with `NoRequestCapacity`, the list
    /// unsorted. Where the schedule meets an obstacle, the pass ends with
    /// it, the list sorted and scheduled up to the obstacle. After a
    /// failure the whole pass has to be made again.
    pub fn plan_all(list: &mut Vec<Self>, arena: Option<&Arena>, now: Moment) -> (outcome: Result<
        (),
        CalcError,
    >)
        ensures
            final(list)@.len() == old(list)@.len(),
            ({
                let fresh = estimated(old(list)@, tier(arena), now);
                if all_can_rank(fresh, tier(arena)) {
                    is_schedule_of(final(list)@, stable_sort(fresh, tier(arena)), now, outcome)
                } else {
                    outcome == Err::<(), CalcError>(CalcError::NoRequestCapacity) && final(list)@
                        == fresh
                }
            }),
            outcome is Ok ==> in_order(final(list)@, tier(arena)),
            forall|i: int|
                0 <= i < final(list)@.len() ==> (#[trigger] final(list)@[i]).estimate_stands(
                    tier(arena),
                ),
    {
        Self::compute_all(list, arena, now);
        let ghost fresh = list@;
        match Self::sort_all(list, arena) {
            Ok(()) => {},
            Err(e) => {
                return Err(e);
            },
        }
        let ghost sorted = list@;
        assert forall|i: int| 0 <= i < sorted.len() implies (#[trigger] sorted[i]).estimate_stands(
            tier(arena),
        ) by {
            lemma_sort_holds_the_same_cards(fresh, tier(arena), sorted[i]);
            assert(sorted.contains(sorted[i]));
            let j = choose|j: int| 0 <= j < fresh.len() && fresh[j] == sorted[i];
            assert(fresh[j].estimate_stands(tier(arena)));
        }
        let outcome = Self::sum_all(list, now);
        proof {
            lemma_schedule_keeps_estimates(list@, sorted, now, outcome, tier(arena));
            if outcome is Ok {
                lemma_schedule_keeps_order(sorted, list@, tier(arena), now);
            }
        }
        outcome
    }
}

} // verus!
