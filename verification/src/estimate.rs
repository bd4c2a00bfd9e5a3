//! The estimate for one card: how many cards and requests are still
//! missing, how long the requests take, and the day on which the last of
//! them is placed.

use crate::arena::{get_request_size, Arena};
use crate::card::{CardEntry, Rarity};
use crate::error::CalcError;
use crate::moment::{lemma_moment_by_parts, Moment};
use crate::span::{Span, PARTS};
use vstd::arithmetic::div_mod::{lemma_fundamental_div_mod, lemma_fundamental_div_mod_converse};
use vstd::prelude::*;

verus! {

/// The number of days in a week.
pub const DAYS_PER_WEEK: u128 = 7;

/// What is left to do for a card, and by when it is done.
#[derive(Clone, Copy, Debug, PartialEq, Eq, Structural)]
pub struct CardData {
    /// The cards still to be collected
    pub cards_remaining: usize,
    /// The requests it takes to collect them
    pub requests_remaining: usize,
    /// The weeks it takes to place the requests
    pub weeks_remaining: Span,
    /// The same time in days
    pub days_remaining: Span,
    /// The moment at which the last request is placed
    pub done_on: Moment,
    /// The days until the card is done when the cards are taken one after
    /// another
    pub days_in_order: Option<Span>,
    /// The moment at which the card is done when the cards are taken one
    /// after another
    pub done_in_order_on: Option<Moment>,
}

impl CardData {
    /// The estimate without a place in the schedule.
    pub open spec fn unscheduled(self) -> CardData {
        CardData { days_in_order: None, done_in_order_on: None, ..self }
    }
}

/// The arena that is meant: the given one, or the legendary arena where none
/// is given.
pub open spec fn tier(arena: Option<&Arena>) -> Arena {
    match arena {
        Some(arena) => *arena,
        None => Arena::LegendaryArena,
    }
}

/// The number of requests of `size` cards each that bring in `cards` cards:
/// `cards / size`, rounded up.
pub open spec fn requests_for(cards: nat, size: nat) -> nat {
    if cards == 0 {
        0
    } else {
        ((cards + size - 1) / (size as int)) as nat
    }
}

/// `requests_for` is the least number of requests that bring in all the
/// cards: one request fewer leaves some card out.
pub proof fn lemma_requests_cover(cards: nat, size: nat)
    requires
        size > 0,
    ensures
        requests_for(cards, size) * size >= cards,
        cards > 0 ==> (requests_for(cards, size) - 1) * size < cards,
        requests_for(cards, size) <= cards,
{
    if cards > 0 {
        let total = cards + size - 1;
        let requests = total / (size as int);
        lemma_fundamental_div_mod(total, size as int);
        assert(total == size * requests + total % (size as int));
        assert(size * requests == requests * size) by (nonlinear_arith);
        assert((requests - 1) * size == requests * size - size) by (nonlinear_arith);
        assert(requests >= 0 && (requests > cards ==> requests * size > cards + size - 1))
            by (nonlinear_arith)
            requires
                size > 0,
                cards > 0,
                requests * size <= cards + size - 1,
                requests * size > cards - 1,
        ;
    }
}

/// The list with every card estimated anew: each card with the estimate for
/// it in its slot, or with an empty slot where there is none.
pub open spec fn estimated(cards: Seq<CardEntry>, arena: Arena, now: Moment) -> Seq<CardEntry> {
    Seq::new(cards.len(), |i: int| cards[i].with_outcome(cards[i].estimate(arena, now)))
}

/// The arena to look a request size up in: the given one, or the legendary
/// arena where none is given.
pub fn arena_or_default(arena: Option<&Arena>) -> (chosen: Arena)
    ensures
        chosen == tier(arena),
{
    match arena {
        Some(arena) => *arena,
        None => Arena::LegendaryArena,
    }
}

/// The number of requests of `size` cards each that it takes to collect
/// `cards` cards. Where cards are missing and a request brings none, no
/// number of requests will do.
pub fn requests_needed(cards: usize, size: usize) -> (requests: Result<usize, CalcError>)
    ensures
        requests == (if cards > 0 && size == 0 {
            Err::<usize, CalcError>(CalcError::NoRequestCapacity)
        } else {
            Ok(requests_for(cards as nat, size as nat) as usize)
        }),
        requests matches Ok(n) ==> n * size >= cards && (cards > 0 ==> (n - 1) * size < cards),
{
    if cards == 0 {
        Ok(0)
    } else if size == 0 {
        Err(CalcError::NoRequestCapacity)
    } else {
        proof {
            lemma_requests_cover(cards as nat, size as nat);
            let full = cards as int / size as int;
            let rest = cards as int % size as int;
            lemma_fundamental_div_mod(cards as int, size as int);
            assert(size * full == full * size) by (nonlinear_arith);
            if rest == 0 {
                lemma_fundamental_div_mod_converse(cards + size - 1, size as int, full, size - 1);
            } else {
                assert((full + 1) * size == full * size + size) by (nonlinear_arith);
                lemma_fundamental_div_mod_converse(
                    cards + size - 1,
                    size as int,
                    full + 1,
                    rest - 1,
                );
            }
        }
        if cards % size == 0 {
            Ok(cards / size)
        } else {
            Ok(cards / size + 1)
        }
    }
}

impl CardEntry {
    /// The number of cards that one request for this card yields in `arena`:
    /// commons have a size of their own, all other cards come in the size of
    /// rares.
    pub open spec fn per_request(self, arena: Arena) -> nat {
        if self.rarity is Common {
            arena.request_size().common as nat
        } else {
            arena.request_size().rare as nat
        }
    }

    /// Whether requests can bring in what is missing: either nothing is, or
    /// a request yields at least one card.
    pub open spec fn can_request(self, arena: Arena) -> bool {
        self.cards_missing() == 0 || self.per_request(arena) > 0
    }

    /// The number of requests still to be placed for this card.
    pub open spec fn requests_missing(self, arena: Arena) -> nat {
        requests_for(self.cards_missing(), self.per_request(arena))
    }

    /// The weeks it takes to place the missing requests, in twentieths of a
    /// week: the requests divided by the requests per week.
    pub open spec fn weeks_missing(self, arena: Arena) -> nat {
        (self.requests_missing(arena) * PARTS / (self.rarity.weekly_requests() as int)) as nat
    }

    /// The days it takes to place the missing requests, in twentieths of a
    /// day: seven times the weeks.
    pub open spec fn days_missing(self, arena: Arena) -> nat {
        (DAYS_PER_WEEK * self.weeks_missing(arena)) as nat
    }

    /// The estimate for a card that is done at `done_on`.
    pub open spec fn estimate_at(self, arena: Arena, done_on: Moment) -> CardData {
        CardData {
            cards_remaining: self.cards_missing() as usize,
            requests_remaining: self.requests_missing(arena) as usize,
            weeks_remaining: Span { twentieths: self.weeks_missing(arena) as u128 },
            days_remaining: Span { twentieths: self.days_missing(arena) as u128 },
            done_on,
            days_in_order: None,
            done_in_order_on: None,
        }
    }

    /// The time still needed for the card in `arena`: none for a legendary
    /// card, which cannot be requested, and a failure where cards are
    /// missing that the arena allows no request for.
    pub open spec fn days_needed(self, arena: Arena) -> Result<Option<Span>, CalcError> {
        if self.rarity is Legendary {
            Ok(None)
        } else if !self.can_request(arena) {
            Err(CalcError::NoRequestCapacity)
        } else {
            Ok(Some(Span { twentieths: self.days_missing(arena) as u128 }))
        }
    }

    /// The estimate for the card in `arena`, given the moment that lies the
    /// needed days, rounded up, after the present, or `None` where the
    /// calendar holds no such moment.
    pub open spec fn estimate_until(self, arena: Arena, done_on: Option<Moment>) -> Result<
        Option<CardData>,
        CalcError,
    > {
        if self.rarity is Legendary {
            Ok(None)
        } else if !self.can_request(arena) {
            Err(CalcError::NoRequestCapacity)
        } else {
            match done_on {
                Some(done_on) => Ok(Some(self.estimate_at(arena, done_on))),
                None => Err(CalcError::DateOverflow),
            }
        }
    }

    /// The estimate for the card in `arena` when the present is `now`.
    pub open spec fn estimate(self, arena: Arena, now: Moment) -> Result<
        Option<CardData>,
        CalcError,
    > {
        self.estimate_until(
            arena,
            now.plus_days(Span { twentieths: self.days_missing(arena) as u128 }.ceil()),
        )
    }

    /// Whether the estimate in the slot still stands: the slot is empty, or
    /// it holds the cards, requests, weeks and days that an estimate in
    /// `arena` gives for the card as it is. The slot of a card that was
    /// changed since it was estimated may hold anything.
    pub open spec fn estimate_stands(self, arena: Arena) -> bool {
        self.computed matches Some(data) ==> {
            &&& !(self.rarity is Legendary)
            &&& self.can_request(arena)
            &&& data.unscheduled() == self.estimate_at(arena, data.done_on)
        }
    }

    /// The slot of the card after an attempt to estimate it with outcome
    /// `outcome`: the estimate where there is one, and nothing otherwise.
    pub open spec fn with_outcome(self, outcome: Result<Option<CardData>, CalcError>) -> CardEntry {
        CardEntry {
            computed: match outcome {
                Ok(data) => data,
                Err(_) => None,
            },
            ..self
        }
    }

    /// The cards, requests, weeks and days that are missing for a card that
    /// is not legendary.
    fn count_remaining(&self, arena: Option<&Arena>) -> (counts: Result<
        (usize, usize, Span, Span),
        CalcError,
    >)
        requires
            !(self.rarity is Legendary),
        ensures
            counts is Ok <==> self.can_request(tier(arena)),
            counts matches Err(e) ==> e == CalcError::NoRequestCapacity,
            counts matches Ok((cards, requests, weeks, days)) ==> ({
                &&& cards == self.cards_missing()
                &&& requests == self.requests_missing(tier(arena))
                &&& weeks.twentieths == self.weeks_missing(tier(arena))
                &&& days.twentieths == self.days_missing(tier(arena))
                &&& weeks.twentieths * self.rarity.weekly_requests() == PARTS * requests
                &&& days.twentieths == DAYS_PER_WEEK * weeks.twentieths
                &&& requests <= cards
            }),
    {
        let request_size = get_request_size(&arena_or_default(arena));
        let cards = self.cards_remaining();
        let size = if self.rarity == Rarity::Common {
            request_size.common
        } else {
            request_size.rare
        };
        let requests = match requests_needed(cards, size) {
            Ok(requests) => requests,
            Err(e) => {
                return Err(e);
            },
        };
        proof {
            if size > 0 {
                lemma_requests_cover(cards as nat, size as nat);
            }
        }
        let frequency = self.rarity.requests_per_week();
        let weeks = Span { twentieths: requests as u128 * PARTS / (frequency as u128) };
        let days = Span { twentieths: DAYS_PER_WEEK * weeks.twentieths };
        proof {
            let scaled = requests as int * PARTS as int;
            if frequency == 1 {
                assert(scaled / 1 == scaled);
            } else {
                assert(scaled / 20 == requests);
            }
        }
        Ok((cards, requests, weeks, days))
    }

    /// The time that it still takes to collect the cards for the upgrade:
    /// none for a legendary card, a failure where the arena allows no
    /// request for the cards that are missing.
    pub fn days_remaining(&self, arena: Option<&Arena>) -> (days: Result<Option<Span>, CalcError>)
        ensures
            days == self.days_needed(tier(arena)),
    {
        if self.rarity == Rarity::Legendary {
            return Ok(None);
        }
        match self.count_remaining(arena) {
            Ok((_, _, _, days)) => Ok(Some(days)),
            Err(e) => Err(e),
        }
    }

    /// The estimate for the card, given the moment at which it is done as
    /// the calendar worked it out, or `None` where the calendar has no such
    /// moment.
    ///
    /// A legendary card gets no estimate. A card that lacks cards which the
    /// arena allows no request for fails with `NoRequestCapacity`, and one
    /// without a moment to be done at with `DateOverflow`.
    pub fn calc_remaining_until(&self, arena: Option<&Arena>, done_on: Option<Moment>) -> (estimate:
        Result<Option<CardData>, CalcError>)
        ensures
            estimate == self.estimate_until(tier(arena), done_on),
            estimate matches Ok(Some(data)) ==> ({
                &&& data.cards_remaining == self.cards_missing()
                &&& data.requests_remaining == self.requests_missing(tier(arena))
                &&& data.weeks_remaining.twentieths * self.rarity.weekly_requests() == PARTS
                    * data.requests_remaining
                &&& data.days_remaining.twentieths == DAYS_PER_WEEK
                    * data.weeks_remaining.twentieths
                &&& self.have >= self.need ==> data.cards_remaining == 0 && data.requests_remaining
                    == 0
            }),
    {
        if self.rarity == Rarity::Legendary {
            return Ok(None);
        }
        let (cards_remaining, requests_remaining, weeks_remaining, days_remaining) =
            match self.count_remaining(arena) {
            Ok(counts) => counts,
            Err(e) => {
                return Err(e);
            },
        };
        match done_on {
            Some(done_on) => Ok(
                Some(
                    CardData {
                        cards_remaining,
                        requests_remaining,
                        weeks_remaining,
                        days_remaining,
                        done_on,
                        days_in_order: None,
                        done_in_order_on: None,
                    },
                ),
            ),
            None => Err(CalcError::DateOverflow),
        }
    }

    /// The estimate for the card when the present is `now`.
    ///
    /// A legendary card gets no estimate. A card that lacks cards which the
    /// arena allows no request for fails with `NoRequestCapacity`. Otherwise
    /// the card is done the needed days, rounded up to whole days, after
    /// `now`, and where the calendar cannot hold that day the estimate fails
    /// with `DateOverflow`.
    pub fn calc_remaining(&self, arena: Option<&Arena>, now: Moment) -> (estimate: Result<
        Option<CardData>,
        CalcError,
    >)
        ensures
            estimate == self.estimate(tier(arena), now),
            self.with_outcome(estimate).estimate_stands(tier(arena)),
            estimate matches Ok(Some(data)) ==> ({
                &&& data.cards_remaining == self.cards_missing()
                &&& data.requests_remaining == self.requests_missing(tier(arena))
                &&& data.weeks_remaining.twentieths * self.rarity.weekly_requests() == PARTS
                    * data.requests_remaining
                &&& data.days_remaining.twentieths == DAYS_PER_WEEK
                    * data.weeks_remaining.twentieths
                &&& data.done_on.is_days_after(now, data.days_remaining.ceil())
                &&& self.have >= self.need ==> data.cards_remaining == 0 && data.requests_remaining
                    == 0 && data.done_on == now
            }),
    {
        let days = match self.days_remaining(arena) {
            Ok(Some(days)) => days,
            Ok(None) => {
                return Ok(None);
            },
            Err(e) => {
                return Err(e);
            },
        };
        let done_on = now.after_days(days.whole_up());
        let estimate = self.calc_remaining_until(arena, done_on);
        proof {
            if self.have >= self.need && done_on is Some {
                lemma_moment_by_parts(done_on.unwrap(), now);
            }
        }
        estimate
    }

    /// Estimates every card of the list anew, with `now` as the present. A
    /// card for which there is no estimate, or none can be made, is left
    /// without one.
    pub fn compute_all(list: &mut Vec<Self>, arena: Option<&Arena>, now: Moment)
        ensures
            final(list)@ == estimated(old(list)@, tier(arena), now),
            final(list)@.len() == old(list)@.len(),
            forall|i: int|
                0 <= i < old(list)@.len() ==> (#[trigger] final(list)@[i]).estimate_stands(
                    tier(arena),
                ),
            forall|i: int|
                0 <= i < old(list)@.len() ==> #[trigger] final(list)@[i] == old(list)@[i].with_outcome(
                    old(list)@[i].estimate(tier(arena), now),
                ),
            forall|i: int|
                0 <= i < old(list)@.len() ==> ((#[trigger] final(list)@[i]).computed matches Some(
                    data,
                ) ==> data.done_on.is_days_after(now, data.days_remaining.ceil())),
    {
        let mut i: usize = 0;
        while i < list.len()
            invariant
                list@.len() == old(list)@.len(),
                i <= list@.len(),
                forall|j: int|
                    0 <= j < i ==> #[trigger] list@[j] == old(list)@[j].with_outcome(
                        old(list)@[j].estimate(tier(arena), now),
                    ),
                forall|j: int|
                    0 <= j < i ==> ((#[trigger] list@[j]).computed matches Some(data)
                        ==> data.done_on.is_days_after(now, data.days_remaining.ceil())),
                forall|j: int| 0 <= j < i ==> (#[trigger] list@[j]).estimate_stands(tier(arena)),
                forall|j: int| i <= j < list@.len() ==> #[trigger] list@[j] == old(list)@[j],
            decreases list@.len() - i,
        {
            let estimate = list[i].calc_remaining(arena, now);
            list[i].computed = match estimate {
                Ok(data) => data,
                Err(_) => None,
            };
            i += 1;
        }
        assert(list@ =~= estimated(old(list)@, tier(arena), now));
    }
}

/// The numbers of an estimate are exact: the weeks are the requests divided
/// by the requests per week, the days are seven times the weeks with nothing
/// rounded in between, and there are no more requests than cards.
pub proof fn lemma_estimate_is_exact(card: CardEntry, arena: Arena, done_on: Moment)
    requires
        !(card.rarity is Legendary),
        card.can_request(arena),
    ensures
        card.estimate_until(arena, Some(done_on)) == Ok::<Option<CardData>, CalcError>(
            Some(card.estimate_at(arena, done_on)),
        ),
        card.estimate_at(arena, done_on).cards_remaining == card.cards_missing(),
        card.estimate_at(arena, done_on).requests_remaining == card.requests_missing(arena),
        card.estimate_at(arena, done_on).requests_remaining <= card.cards_missing(),
        card.estimate_at(arena, done_on).weeks_remaining.twentieths
            * card.rarity.weekly_requests() == PARTS * card.requests_missing(arena),
        card.estimate_at(arena, done_on).days_remaining.twentieths == DAYS_PER_WEEK
            * card.estimate_at(arena, done_on).weeks_remaining.twentieths,
{
    if card.per_request(arena) > 0 {
        lemma_requests_cover(card.cards_missing(), card.per_request(arena));
    }
    let scaled = card.requests_missing(arena) as int * PARTS as int;
    if card.rarity is Epic {
        assert(scaled / 1 == scaled);
    } else {
        assert(scaled / 20 == card.requests_missing(arena));
    }
}

/// A card of which the player owns as many as the upgrade takes lacks no
/// card and no request, in every arena, and is done at once.
pub proof fn lemma_nothing_missing(card: CardEntry, arena: Arena, done_on: Moment)
    requires
        card.have >= card.need,
    ensures
        card.cards_missing() == 0,
        card.requests_missing(arena) == 0,
        card.can_request(arena),
        !(card.rarity is Legendary) ==> ({
            &&& card.days_missing(arena) == 0
            &&& card.estimate_at(arena, done_on).cards_remaining == 0
            &&& card.estimate_at(arena, done_on).requests_remaining == 0
            &&& card.estimate_at(arena, done_on).days_remaining.twentieths == 0
        }),
{
    let scaled = card.requests_missing(arena) as int * PARTS as int;
    assert(scaled == 0);
    if card.rarity.weekly_requests() > 0 {
        assert(scaled / (card.rarity.weekly_requests() as int) == 0) by (nonlinear_arith)
            requires
                scaled == 0,
                card.rarity.weekly_requests() > 0,
        ;
    }
}

/// Two estimates of one card, in one arena and at one present, are the same
/// estimate.
pub proof fn lemma_estimate_is_determined(
    card: CardEntry,
    arena: Arena,
    now: Moment,
    first: Result<Option<CardData>, CalcError>,
    second: Result<Option<CardData>, CalcError>,
)
    requires
        first == card.estimate(arena, now),
        second == card.estimate(arena, now),
    ensures
        first == second,
{
}

/// In the training camp no card that lacks cards can be estimated, whatever
/// its rarity, unless it is legendary.
pub proof fn lemma_no_requests_in_training_camp(card: CardEntry, now: Moment)
    requires
        card.cards_missing() > 0,
        !(card.rarity is Legendary),
    ensures
        card.estimate(Arena::TrainingCamp, now) == Err::<Option<CardData>, CalcError>(
            CalcError::NoRequestCapacity,
        ),
{
}

} // verus!
