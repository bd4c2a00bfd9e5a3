//! The arenas a player advances through, and what each arena allows a player
//! to request from and donate to clan mates.

use crate::error::CalcError;
use vstd::prelude::*;

verus! {

/// The stage of the game a player has reached, lowest first.
#[derive(Clone, Copy, Debug, PartialEq, Eq, Structural)]
pub enum Arena {
    TrainingCamp,
    GoblinStadium,
    BonePit,
    BarbarianBowl,
    PekkasPlayhouse,
    SpellValley,
    BuildersWorkshop,
    RoyalArena,
    FrozenPeak,
    JungleArena,
    HogMountain,
    ElectroValley,
    SpookyTown,
    LegendaryArena,
}

/// How many cards one request yields, by rarity class.
#[derive(Clone, Copy, Debug, PartialEq, Eq, Structural)]
pub struct RequestSize {
    pub common: usize,
    pub rare: usize,
}

/// How many cards one donation may hold, by rarity class.
#[derive(Clone, Copy, Debug, PartialEq, Eq, Structural)]
pub struct DonationSize {
    pub common: usize,
    pub rare: usize,
}

/// The number of arenas.
pub const ARENAS: usize = 14;

impl Arena {
    /// The position of the arena on the ladder, the training camp being 0.
    pub open spec fn rank(self) -> nat {
        match self {
            Arena::TrainingCamp => 0,
            Arena::GoblinStadium => 1,
            Arena::BonePit => 2,
            Arena::BarbarianBowl => 3,
            Arena::PekkasPlayhouse => 4,
            Arena::SpellValley => 5,
            Arena::BuildersWorkshop => 6,
            Arena::RoyalArena => 7,
            Arena::FrozenPeak => 8,
            Arena::JungleArena => 9,
            Arena::HogMountain => 10,
            Arena::ElectroValley => 11,
            Arena::SpookyTown => 12,
            Arena::LegendaryArena => 13,
        }
    }

    /// The league an arena belongs to: 0 for the training camp, then three
    /// arenas to a league, the legendary arena sharing the last one.
    pub open spec fn league(self) -> nat {
        if self.rank() == 0 {
            0
        } else if self.rank() <= 3 {
            1
        } else if self.rank() <= 6 {
            2
        } else if self.rank() <= 9 {
            3
        } else {
            4
        }
    }

    /// Cards per request in this arena.
    pub open spec fn request_size(self) -> RequestSize {
        match self {
            Arena::TrainingCamp => RequestSize { common: 0, rare: 0 },
            Arena::GoblinStadium | Arena::BonePit | Arena::BarbarianBowl => RequestSize {
                common: 10,
                rare: 1,
            },
            Arena::PekkasPlayhouse | Arena::SpellValley | Arena::BuildersWorkshop => RequestSize {
                common: 20,
                rare: 2,
            },
            Arena::RoyalArena | Arena::FrozenPeak | Arena::JungleArena => RequestSize {
                common: 30,
                rare: 3,
            },
            Arena::HogMountain
            | Arena::ElectroValley
            | Arena::SpookyTown
            | Arena::LegendaryArena => RequestSize { common: 40, rare: 4 },
        }
    }

    /// Cards per donation in this arena.
    pub open spec fn donation_size(self) -> DonationSize {
        match self {
            Arena::TrainingCamp => DonationSize { common: 0, rare: 0 },
            Arena::GoblinStadium => DonationSize { common: 1, rare: 1 },
            Arena::BonePit | Arena::BarbarianBowl => DonationSize { common: 2, rare: 1 },
            Arena::PekkasPlayhouse | Arena::SpellValley | Arena::BuildersWorkshop => DonationSize {
                common: 4,
                rare: 1,
            },
            Arena::RoyalArena | Arena::FrozenPeak | Arena::JungleArena => DonationSize {
                common: 6,
                rare: 1,
            },
            Arena::HogMountain
            | Arena::ElectroValley
            | Arena::SpookyTown
            | Arena::LegendaryArena => DonationSize { common: 8, rare: 1 },
        }
    }

    /// Cards a player may donate per day in this arena.
    pub open spec fn donation_limit(self) -> nat {
        match self {
            Arena::TrainingCamp => 0,
            Arena::GoblinStadium | Arena::BonePit | Arena::BarbarianBowl => 90,
            Arena::PekkasPlayhouse | Arena::SpellValley | Arena::BuildersWorkshop => 180,
            Arena::RoyalArena | Arena::FrozenPeak | Arena::JungleArena => 270,
            Arena::HogMountain
            | Arena::ElectroValley
            | Arena::SpookyTown
            | Arena::LegendaryArena => 360,
        }
    }

    /// The position of the arena on the ladder, the training camp being 0.
    pub fn index(&self) -> (rank: usize)
        ensures
            rank == self.rank(),
            rank < ARENAS,
    {
        match self {
            Arena::TrainingCamp => 0,
            Arena::GoblinStadium => 1,
            Arena::BonePit => 2,
            Arena::BarbarianBowl => 3,
            Arena::PekkasPlayhouse => 4,
            Arena::SpellValley => 5,
            Arena::BuildersWorkshop => 6,
            Arena::RoyalArena => 7,
            Arena::FrozenPeak => 8,
            Arena::JungleArena => 9,
            Arena::HogMountain => 10,
            Arena::ElectroValley => 11,
            Arena::SpookyTown => 12,
            Arena::LegendaryArena => 13,
        }
    }

    /// The arena at position `rank` of the ladder. A number past the last
    /// arena is refused with `UnknownTier`.
    pub fn from_index(rank: usize) -> (arena: Result<Arena, CalcError>)
        ensures
            arena is Ok <==> rank < ARENAS,
            arena matches Ok(a) ==> a.rank() == rank,
            arena matches Err(e) ==> e == CalcError::UnknownTier,
    {
        match rank {
            0 => Ok(Arena::TrainingCamp),
            1 => Ok(Arena::GoblinStadium),
            2 => Ok(Arena::BonePit),
            3 => Ok(Arena::BarbarianBowl),
            4 => Ok(Arena::PekkasPlayhouse),
            5 => Ok(Arena::SpellValley),
            6 => Ok(Arena::BuildersWorkshop),
            7 => Ok(Arena::RoyalArena),
            8 => Ok(Arena::FrozenPeak),
            9 => Ok(Arena::JungleArena),
            10 => Ok(Arena::HogMountain),
            11 => Ok(Arena::ElectroValley),
            12 => Ok(Arena::SpookyTown),
            13 => Ok(Arena::LegendaryArena),
            _ => Err(CalcError::UnknownTier),
        }
    }
}

/// Returns the daily donation limit for a given arena
pub fn get_donation_limit(arena: &Arena) -> (limit: usize)
    ensures
        limit == arena.donation_limit(),
{
    match arena {
        Arena::TrainingCamp => 0,
        Arena::GoblinStadium => 90,
        Arena::BonePit => 90,
        Arena::BarbarianBowl => 90,
        Arena::PekkasPlayhouse => 180,
        Arena::SpellValley => 180,
        Arena::BuildersWorkshop => 180,
        Arena::RoyalArena => 270,
        Arena::FrozenPeak => 270,
        Arena::JungleArena => 270,
        Arena::HogMountain => 360,
        Arena::ElectroValley => 360,
        Arena::SpookyTown => 360,
        Arena::LegendaryArena => 360,
    }
}

/// Returns the donation size limit for a given arena
pub fn get_donation_size(arena: &Arena) -> (size: DonationSize)
    ensures
        size == arena.donation_size(),
{
    match arena {
        Arena::TrainingCamp => DonationSize { common: 0, rare: 0 },
        Arena::GoblinStadium => DonationSize { common: 1, rare: 1 },
        Arena::BonePit => DonationSize { common: 2, rare: 1 },
        Arena::BarbarianBowl => DonationSize { common: 2, rare: 1 },
        Arena::PekkasPlayhouse => DonationSize { common: 4, rare: 1 },
        Arena::SpellValley => DonationSize { common: 4, rare: 1 },
        Arena::BuildersWorkshop => DonationSize { common: 4, rare: 1 },
        Arena::RoyalArena => DonationSize { common: 6, rare: 1 },
        Arena::FrozenPeak => DonationSize { common: 6, rare: 1 },
        Arena::JungleArena => DonationSize { common: 6, rare: 1 },
        Arena::HogMountain => DonationSize { common: 8, rare: 1 },
        Arena::ElectroValley => DonationSize { common: 8, rare: 1 },
        Arena::SpookyTown => DonationSize { common: 8, rare: 1 },
        Arena::LegendaryArena => DonationSize { common: 8, rare: 1 },
    }
}

/// Returns the request size limit for a given arena
pub fn get_request_size(arena: &Arena) -> (size: RequestSize)
    ensures
        size == arena.request_size(),
{
    match arena {
        Arena::TrainingCamp => RequestSize { common: 0, rare: 0 },
        Arena::GoblinStadium | Arena::BonePit | Arena::BarbarianBowl => RequestSize {
            common: 10,
            rare: 1,
        },
        Arena::PekkasPlayhouse | Arena::SpellValley | Arena::BuildersWorkshop => RequestSize {
            common: 20,
            rare: 2,
        },
        Arena::RoyalArena | Arena::FrozenPeak | Arena::JungleArena => RequestSize {
            common: 30,
            rare: 3,
        },
        Arena::HogMountain | Arena::ElectroValley | Arena::SpookyTown | Arena::LegendaryArena => {
            RequestSize { common: 40, rare: 4 }
        },
    }
}

/// All limits follow from the league of the arena: a request yields ten
/// commons or one rare per league, ninety cards a day may be donated per
/// league, and a donation holds two commons per league (one only in the
/// first arena after the training camp) and one rare.
pub proof fn lemma_limits_by_league(arena: Arena)
    ensures
        arena.request_size().common == 10 * arena.league(),
        arena.request_size().rare == arena.league(),
        arena.donation_limit() == 90 * arena.league(),
        arena.donation_size().common == (if arena is GoblinStadium {
            1
        } else {
            2 * arena.league()
        }),
        arena.donation_size().rare == (if arena is TrainingCamp {
            0nat
        } else {
            1nat
        }),
{
}

/// The training camp is the one arena without requests and donations.
pub proof fn lemma_only_training_camp_is_closed(arena: Arena)
    ensures
        arena.request_size().common == 0 <==> arena is TrainingCamp,
        arena.request_size().rare == 0 <==> arena is TrainingCamp,
        arena.donation_limit() == 0 <==> arena is TrainingCamp,
        arena.donation_size().common == 0 <==> arena is TrainingCamp,
        arena.donation_size().rare == 0 <==> arena is TrainingCamp,
{
}

/// No limit shrinks as a player climbs the ladder.
pub proof fn lemma_limits_grow_with_rank(lower: Arena, higher: Arena)
    requires
        lower.rank() <= higher.rank(),
    ensures
        lower.request_size().common <= higher.request_size().common,
        lower.request_size().rare <= higher.request_size().rare,
        lower.donation_size().common <= higher.donation_size().common,
        lower.donation_size().rare <= higher.donation_size().rare,
        lower.donation_limit() <= higher.donation_limit(),
{
}

/// Two arenas at the same position of the ladder are the same arena.
pub proof fn lemma_rank_names_arena(a: Arena, b: Arena)
    requires
        a.rank() == b.rank(),
    ensures
        a == b,
{
}

} // verus!
