//! Plans the card requests of a player.
//!
//! For every card of a collection the library works out how many cards and
//! requests are still missing for the next upgrade, how long the requests
//! take at the rate at which the rarity of the card can be requested, and
//! the day on which the last of them is placed. It orders cards by that
//! time, and schedules the cards of a list one after another within the
//! request slots they compete for.
//!
//! A pass over a list of cards goes through [`CardEntry::compute_all`],
//! [`CardEntry::sort_all`] and [`CardEntry::sum_all`], in this order, which
//! is what [`CardEntry::plan_all`] does. The present is handed in as a
//! [`Moment`]; the library reads no clock.
//!
//! Lengths of time are exact. A [`Span`] counts twentieths of a week or of a
//! day, which is the finest step that the request rates give rise to. The
//! calendar is that of `chrono`: a [`Moment`] is moved by whole days there,
//! and an estimate fails where `chrono` has no date left.

pub mod arena;
pub mod card;
pub mod compare;
pub mod error;
pub mod estimate;
pub mod moment;
pub mod order;
pub mod pass;
pub mod schedule;
pub mod sort;
pub mod span;

pub use arena::{
    get_donation_limit, get_donation_size, get_request_size, Arena, DonationSize, RequestSize,
};
pub use card::{CardEntry, CardType, Rarity, RequestFrequency};
pub use error::CalcError;
pub use estimate::{requests_needed, CardData};
pub use moment::Moment;
pub use schedule::Bucket;
pub use span::Span;
