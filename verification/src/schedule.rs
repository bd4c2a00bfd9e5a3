//! The schedule of a list of cards that are taken one after another.
//!
//! Commons and rares are requested from the same slots, so each of them
//! waits for the commons and rares before it. Epics have slots of their
//! own and wait for the epics before them only. Legendary cards cannot be
//! requested and have no place in the schedule.

use crate::arena::Arena;
use crate::card::{CardEntry, Rarity};
use crate::error::CalcError;
use crate::estimate::CardData;
use crate::moment::{lemma_no_moment_beyond_count, Moment};
use crate::span::{units_up, Span};
use vstd::prelude::*;

verus! {

/// The request slots that cards compete for.
#[derive(Clone, Copy, Debug, PartialEq, Eq, Structural)]
pub enum Bucket {
    /// The slots for commons and rares
    Regular,
    /// The slots for epics
    Epic,
}

impl Rarity {
    /// The slots that cards of this rarity are requested from.
    pub open spec fn slots(self) -> Option<Bucket> {
        match self {
            Rarity::Common | Rarity::Rare => Some(Bucket::Regular),
            Rarity::Epic => Some(Bucket::Epic),
            Rarity::Legendary => None,
        }
    }

    /// The slots that cards of this rarity are requested from: none for
    /// legendary cards.
    pub fn bucket(&self) -> (bucket: Option<Bucket>)
        ensures
            bucket == self.slots(),
    {
        match self {
            Rarity::Common | Rarity::Rare => Some(Bucket::Regular),
            Rarity::Epic => Some(Bucket::Epic),
            Rarity::Legendary => None,
        }
    }
}

impl CardData {
    /// The estimate with its place in the schedule filled in.
    pub open spec fn in_order(self, days: Span, done_on: Moment) -> CardData {
        CardData { days_in_order: Some(days), done_in_order_on: Some(done_on), ..self }
    }

    /// Fills in the place of the card in the schedule: the days until the
    /// card is done, and the moment this comes to as the calendar worked it
    /// out. Where the calendar has no such moment, nothing is filled in and
    /// the call fails with `DateOverflow`.
    pub fn schedule(&mut self, days: Span, done_on: Option<Moment>) -> (outcome: Result<
        (),
        CalcError,
    >)
        ensures
            (match done_on {
                Some(done_on) => outcome is Ok && *final(self) == old(self).in_order(days, done_on),
                None => outcome == Err::<(), CalcError>(CalcError::DateOverflow) && *final(self)
                    == *old(self),
            }),
    {
        match done_on {
            Some(done_on) => {
                self.done_in_order_on = Some(done_on);
                self.days_in_order = Some(days);
                Ok(())
            },
            None => Err(CalcError::DateOverflow),
        }
    }
}

/// The days, in twentieths, that `card` takes up in the slots of `bucket`:
/// its estimate if it is requested from these slots, and nothing otherwise.
pub open spec fn days_taken(card: CardEntry, bucket: Bucket) -> nat {
    if card.rarity.slots() == Some(bucket) && card.computed is Some {
        card.computed.unwrap().days_remaining.twentieths as nat
    } else {
        0
    }
}

/// The days, in twentieths, that the first `n` cards take up in the slots of
/// `bucket`.
pub open spec fn days_before(cards: Seq<CardEntry>, n: int, bucket: Bucket) -> nat
    decreases n,
{
    if n <= 0 {
        0
    } else {
        days_before(cards, n - 1, bucket) + days_taken(cards[n - 1], bucket)
    }
}

/// The days, in twentieths, until the card at `i` is done when the cards
/// are taken in order: its own days after those of the cards before it that
/// are requested from the same slots.
pub open spec fn days_in_order(cards: Seq<CardEntry>, i: int) -> nat
    recommends
        0 <= i < cards.len(),
        !(cards[i].rarity is Legendary),
{
    days_before(cards, i + 1, cards[i].rarity.slots().unwrap())
}

/// Why the schedule cannot go past the card at `i`, if it cannot: the card
/// has no estimate, or the calendar does not hold the day on which it would
/// be done. Legendary cards never stand in the way.
pub open spec fn obstacle(cards: Seq<CardEntry>, now: Moment, i: int) -> Option<CalcError>
    recommends
        0 <= i < cards.len(),
{
    if cards[i].rarity is Legendary {
        None
    } else if cards[i].computed is None {
        Some(CalcError::MissingEstimate)
    } else if now.plus_days(units_up(days_in_order(cards, i))) is None {
        Some(CalcError::DateOverflow)
    } else {
        None
    }
}

/// The card at `i` with its place in the schedule filled in. A legendary
/// card stays as it is.
pub open spec fn scheduled(cards: Seq<CardEntry>, now: Moment, i: int) -> CardEntry
    recommends
        0 <= i < cards.len(),
        obstacle(cards, now, i) is None,
{
    if cards[i].rarity is Legendary {
        cards[i]
    } else {
        CardEntry {
            computed: Some(
                cards[i].computed.unwrap().in_order(
                    Span { twentieths: days_in_order(cards, i) as u128 },
                    now.plus_days(units_up(days_in_order(cards, i))).unwrap(),
                ),
            ),
            ..cards[i]
        }
    }
}

/// Whether `entry` is done, by its place in the schedule, on the day that
/// lies the days in order of the card at `i`, rounded up to whole days,
/// after `now`. Nothing is asked of a legendary card.
pub open spec fn done_on_time(entry: CardEntry, cards: Seq<CardEntry>, now: Moment, i: int) -> bool
    recommends
        0 <= i < cards.len(),
{
    cards[i].rarity is Legendary || (entry.computed matches Some(data)
        && data.done_in_order_on matches Some(done_on) && done_on.is_days_after(
        now,
        units_up(days_in_order(cards, i)),
    ))
}

/// Whether `after` and `outcome` are what scheduling makes of the list
/// `before`.
///
/// Where nothing stands in the way, every card has its place in the
/// schedule. Otherwise the outcome is the first obstacle: the cards before
/// it have their place, and the card it was met at and the cards behind it
/// are as they were.
pub open spec fn is_schedule_of(
    after: Seq<CardEntry>,
    before: Seq<CardEntry>,
    now: Moment,
    outcome: Result<(), CalcError>,
) -> bool {
    &&& after.len() == before.len()
    &&& match outcome {
        Ok(()) => {
            &&& forall|i: int| 0 <= i < before.len() ==> #[trigger] obstacle(before, now, i) is None
            &&& forall|i: int|
                0 <= i < before.len() ==> #[trigger] after[i] == scheduled(before, now, i)
                    && done_on_time(after[i], before, now, i)
        },
        Err(e) => exists|k: int|
            {
                &&& 0 <= k < before.len()
                &&& #[trigger] obstacle(before, now, k) == Some(e)
                &&& forall|i: int| 0 <= i < k ==> #[trigger] obstacle(before, now, i) is None
                &&& forall|i: int|
                    0 <= i < k ==> #[trigger] after[i] == scheduled(before, now, i)
                        && done_on_time(after[i], before, now, i)
                &&& forall|i: int| k <= i < before.len() ==> #[trigger] after[i] == before[i]
            },
    }
}

/// Scheduling leaves the estimates standing: it changes nothing of a card
/// but its place in the schedule.
pub proof fn lemma_schedule_keeps_estimates(
    after: Seq<CardEntry>,
    before: Seq<CardEntry>,
    now: Moment,
    outcome: Result<(), CalcError>,
    arena: Arena,
)
    requires
        is_schedule_of(after, before, now, outcome),
        forall|i: int| 0 <= i < before.len() ==> (#[trigger] before[i]).estimate_stands(arena),
    ensures
        forall|i: int| 0 <= i < after.len() ==> (#[trigger] after[i]).estimate_stands(arena),
{
    let stop = match outcome {
        Ok(()) => before.len() as int,
        Err(e) => choose|k: int|
            {
                &&& 0 <= k < before.len()
                &&& #[trigger] obstacle(before, now, k) == Some(e)
                &&& forall|i: int| 0 <= i < k ==> #[trigger] obstacle(before, now, i) is None
                &&& forall|i: int|
                    0 <= i < k ==> #[trigger] after[i] == scheduled(before, now, i)
                        && done_on_time(after[i], before, now, i)
                &&& forall|i: int| k <= i < before.len() ==> #[trigger] after[i] == before[i]
            },
    };
    assert forall|i: int| 0 <= i < after.len() implies (#[trigger] after[i]).estimate_stands(
        arena,
    ) by {
        assert(before[i].estimate_stands(arena));
        if i < stop {
            assert(obstacle(before, now, i) is None);
            assert(after[i] == scheduled(before, now, i));
        } else {
            assert(after[i] == before[i]);
        }
    }
}

/// A card is done its own days after the cards before it that share its
/// slots.
pub proof fn lemma_days_add_up(cards: Seq<CardEntry>, i: int)
    requires
        0 <= i < cards.len(),
        !(cards[i].rarity is Legendary),
        cards[i].computed is Some,
    ensures
        days_in_order(cards, i) == days_before(cards, i, cards[i].rarity.slots().unwrap())
            + cards[i].computed.unwrap().days_remaining.twentieths,
{
}

/// The days taken up in one kind of slots depend on the cards requested
/// from these slots alone: two lists that agree on those cards, whatever
/// else they hold, take up the same days.
pub proof fn lemma_slots_are_independent(
    first: Seq<CardEntry>,
    second: Seq<CardEntry>,
    n: int,
    bucket: Bucket,
)
    requires
        n <= first.len(),
        n <= second.len(),
        forall|i: int| 0 <= i < n ==> days_taken(first[i], bucket) == days_taken(second[i], bucket),
    ensures
        days_before(first, n, bucket) == days_before(second, n, bucket),
    decreases n,
{
    if n > 0 {
        lemma_slots_are_independent(first, second, n - 1, bucket);
    }
}

/// The days taken up never shrink along the list.
pub proof fn lemma_days_before_grow(cards: Seq<CardEntry>, m: int, n: int, bucket: Bucket)
    requires
        m <= n,
    ensures
        days_before(cards, m, bucket) <= days_before(cards, n, bucket),
    decreases n - m,
{
    if m < n {
        lemma_days_before_grow(cards, m, n - 1, bucket);
    }
}

impl CardEntry {
    /// Works out the schedule for cards that are taken in the order of the
    /// list, with `now` as the present.
    ///
    /// Every card but the legendary ones is given the days until it is done,
    /// which are its own days after those of the cards before it that share
    /// its request slots, and the moment that lies these days, rounded up to
    /// whole days, after `now`.
    ///
    /// The schedule stops at the first card that has no estimate
    /// (`MissingEstimate`) or whose day the calendar cannot hold
    /// (`DateOverflow`). The cards before it then have their place in the
    /// schedule, and this card and the cards after it are as they were.
    pub fn sum_all(list: &mut Vec<Self>, now: Moment) -> (outcome: Result<(), CalcError>)
        ensures
            is_schedule_of(final(list)@, old(list)@, now, outcome),
    {
        let mut prev_time_regular = Span { twentieths: 0 };
        let mut prev_time_epic = Span { twentieths: 0 };
        let mut i: usize = 0;
        while i < list.len()
            invariant
                list@.len() == old(list)@.len(),
                i <= list@.len(),
                prev_time_regular.twentieths == days_before(old(list)@, i as int, Bucket::Regular),
                prev_time_epic.twentieths == days_before(old(list)@, i as int, Bucket::Epic),
                forall|j: int| 0 <= j < i ==> #[trigger] obstacle(old(list)@, now, j) is None,
                forall|j: int|
                    0 <= j < i ==> #[trigger] list@[j] == scheduled(old(list)@, now, j)
                        && done_on_time(list@[j], old(list)@, now, j),
                forall|j: int| i <= j < list@.len() ==> #[trigger] list@[j] == old(list)@[j],
            decreases list@.len() - i,
        {
            // Handle cards according to their respective rarities
            match list[i].rarity.bucket() {
                None => {
                    // Skip legendary cards
                },
                Some(bucket) => {
                    let prev_time = match bucket {
                        Bucket::Regular => prev_time_regular,
                        Bucket::Epic => prev_time_epic,
                    };
                    let mut data = match list[i].computed {
                        Some(data) => data,
                        None => {
                            assert(obstacle(old(list)@, now, i as int) == Some(
                                CalcError::MissingEstimate,
                            ));
                            return Err(CalcError::MissingEstimate);
                        },
                    };
                    let current_time = match prev_time.checked_add(&data.days_remaining) {
                        Some(current_time) => current_time,
                        None => {
                            proof {
                                lemma_no_moment_beyond_count(
                                    now,
                                    units_up(days_in_order(old(list)@, i as int)),
                                );
                                assert(obstacle(old(list)@, now, i as int) == Some(
                                    CalcError::DateOverflow,
                                ));
                            }
                            return Err(CalcError::DateOverflow);
                        },
                    };
                    let done_in_order_on = now.after_days(current_time.whole_up());
                    match data.schedule(current_time, done_in_order_on) {
                        Ok(()) => {},
                        Err(e) => {
                            assert(obstacle(old(list)@, now, i as int) == Some(e));
                            return Err(e);
                        },
                    }
                    list[i].computed = Some(data);
                    match bucket {
                        Bucket::Regular => {
                            prev_time_regular = current_time;
                        },
                        Bucket::Epic => {
                            prev_time_epic = current_time;
                        },
                    }
                },
            }
            i += 1;
        }
        Ok(())
    }
}

} // verus!
