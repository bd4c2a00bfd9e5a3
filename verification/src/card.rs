//! Cards as a player records them: what the card is, how many copies the
//! player owns, and how many the next upgrade takes.

use crate::estimate::CardData;
use vstd::prelude::*;

verus! {

/// What kind of card it is.
#[derive(Clone, Copy, Debug, PartialEq, Eq, Structural)]
pub enum CardType {
    Troop,
    Spell,
    Building,
}

/// How rare a card is. The rarity decides how a card can be requested.
#[derive(Clone, Copy, Debug, PartialEq, Eq, Structural)]
pub enum Rarity {
    Common,
    Rare,
    Epic,
    Legendary,
}

/// The number of requests a player places per week, by rarity.
#[derive(Clone, Copy, Debug, PartialEq, Eq, Structural)]
pub struct RequestFrequency {
    pub common: usize,
    pub rare: usize,
    pub epic: usize,
    pub legendary: usize,
}

/// Requests per week for commons and rares: six a day on three days, and two
/// more.
pub const REGULAR_REQUESTS_PER_WEEK: usize = 6 * 3 + 2;

/// Requests per week for epics.
pub const EPIC_REQUESTS_PER_WEEK: usize = 1;

impl RequestFrequency {
    /// The amount of requests to place per week
    pub open spec fn weekly() -> RequestFrequency {
        RequestFrequency {
            common: REGULAR_REQUESTS_PER_WEEK,
            rare: REGULAR_REQUESTS_PER_WEEK,
            epic: EPIC_REQUESTS_PER_WEEK,
            legendary: 0,
        }
    }

    /// The amount of requests to place per week
    pub fn per_week() -> (frequency: RequestFrequency)
        ensures
            frequency == RequestFrequency::weekly(),
    {
        RequestFrequency {
            common: REGULAR_REQUESTS_PER_WEEK,
            rare: REGULAR_REQUESTS_PER_WEEK,
            epic: EPIC_REQUESTS_PER_WEEK,
            legendary: 0,
        }
    }
}

impl Rarity {
    /// The number of requests per week for cards of this rarity. Legendary
    /// cards cannot be requested at all.
    pub open spec fn weekly_requests(self) -> nat {
        match self {
            Rarity::Common => RequestFrequency::weekly().common as nat,
            Rarity::Rare => RequestFrequency::weekly().rare as nat,
            Rarity::Epic => RequestFrequency::weekly().epic as nat,
            Rarity::Legendary => RequestFrequency::weekly().legendary as nat,
        }
    }

    /// The number of requests per week for cards of this rarity.
    pub fn requests_per_week(&self) -> (frequency: usize)
        ensures
            frequency == self.weekly_requests(),
            frequency == 0 <==> self is Legendary,
            *self is Common || *self is Rare ==> frequency == 20,
            *self is Epic ==> frequency == 1,
    {
        let frequency = RequestFrequency::per_week();
        match self {
            Rarity::Common => frequency.common,
            Rarity::Rare => frequency.rare,
            Rarity::Epic => frequency.epic,
            Rarity::Legendary => frequency.legendary,
        }
    }
}

/// One card of a player's collection.
#[derive(Clone, Debug, PartialEq)]
pub struct CardEntry {
    /// The name of the card
    pub name: String,
    /// The amount of cards in possession
    pub have: usize,
    /// The amount of cards required to upgrade
    pub need: usize,
    /// The kind of the card
    pub card_type: CardType,
    /// The rarity of the card
    pub rarity: Rarity,
    /// The estimate last worked out for the card, if it still stands
    pub computed: Option<CardData>,
}

impl CardEntry {
    /// The number of cards still to be collected for the upgrade.
    pub open spec fn cards_missing(self) -> nat {
        if self.need <= self.have {
            0
        } else {
            (self.need - self.have) as nat
        }
    }

    /// A card without an estimate.
    pub fn new(name: String, card_type: CardType, rarity: Rarity, have: usize, need: usize) -> (card:
        CardEntry)
        ensures
            card == (CardEntry { name, have, need, card_type, rarity, computed: None }),
    {
        CardEntry { name, have, need, card_type, rarity, computed: None }
    }

    /// The amount of cards required to upgrade
    pub fn get_needed_cards(&self) -> (needed: usize)
        ensures
            needed == self.need,
    {
        self.need
    }

    /// The number of cards still to be collected: none once the player owns
    /// as many as the upgrade takes.
    pub fn cards_remaining(&self) -> (remaining: usize)
        ensures
            remaining == self.cards_missing(),
            self.have >= self.need ==> remaining == 0,
            self.have < self.need ==> remaining + self.have == self.need,
    {
        if self.get_needed_cards() < self.have {
            0
        } else {
            self.get_needed_cards() - self.have
        }
    }

    /// Records how many cards the player owns. The estimate no longer
    /// stands and is dropped.
    pub fn set_have(&mut self, have: usize)
        ensures
            *final(self) == (CardEntry { have, computed: None, ..*old(self) }),
    {
        self.have = have;
        self.computed = None;
    }

    /// Records how many cards the upgrade takes. The estimate no longer
    /// stands and is dropped.
    pub fn set_need(&mut self, need: usize)
        ensures
            *final(self) == (CardEntry { need, computed: None, ..*old(self) }),
    {
        self.need = need;
        self.computed = None;
    }

    /// Records the rarity of the card. The estimate no longer stands and is
    /// dropped.
    pub fn set_rarity(&mut self, rarity: Rarity)
        ensures
            *final(self) == (CardEntry { rarity, computed: None, ..*old(self) }),
    {
        self.rarity = rarity;
        self.computed = None;
    }
}

} // verus!
