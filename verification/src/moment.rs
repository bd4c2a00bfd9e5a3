//! Points in time, and the calendar arithmetic that is left to `chrono`.

use chrono::{DateTime, TimeDelta};
use vstd::prelude::*;

verus! {

/// The number of seconds in a day.
pub const SECONDS_PER_DAY: i64 = 86_400;

/// The number of nanoseconds in a second.
pub const NANOS_PER_SECOND: u32 = 1_000_000_000;

/// A date and time of day: whole seconds counted from the start of 1970,
/// every day taken as 86 400 seconds long, and the nanoseconds into the
/// running second.
#[derive(Clone, Copy, Debug, PartialEq, Eq, Structural)]
pub struct Moment {
    secs: i64,
    nanos: u32,
}

/// The date and time that [`chrono::DateTime::checked_add_signed`] gives for
/// the moment `secs`, `nanos` and a [`chrono::TimeDelta`] of `days` days, as
/// seconds and nanoseconds again; `None` where the calendar of `chrono` does
/// not hold the moment or the result.
pub uninterp spec fn date_after_days(secs: i64, nanos: u32, days: i64) -> Option<(i64, u32)>;

impl Moment {
    #[verifier::type_invariant]
    spec fn within_second(self) -> bool {
        self.nanos < NANOS_PER_SECOND
    }

    /// The whole seconds since the start of 1970.
    pub closed spec fn seconds(self) -> int {
        self.secs as int
    }

    /// The nanoseconds into the running second.
    pub closed spec fn nanoseconds(self) -> int {
        self.nanos as int
    }

    /// The moment `days` days after this one, if the calendar holds it.
    pub closed spec fn plus_days(self, days: nat) -> Option<Moment> {
        if days > i64::MAX {
            None
        } else {
            match date_after_days(self.secs, self.nanos, days as i64) {
                Some((secs, nanos)) => Some(Moment { secs, nanos }),
                None => None,
            }
        }
    }

    /// Whether this moment lies `days` days after `earlier`, at the same
    /// time of day.
    pub open spec fn is_days_after(self, earlier: Moment, days: nat) -> bool {
        &&& self.seconds() == earlier.seconds() + SECONDS_PER_DAY * days
        &&& self.nanoseconds() == earlier.nanoseconds()
    }

    /// The moment `nanos` nanoseconds after second `secs`, unless `nanos`
    /// makes up a whole second or more.
    pub fn new(secs: i64, nanos: u32) -> (moment: Option<Moment>)
        ensures
            moment is Some <==> nanos < NANOS_PER_SECOND,
            moment matches Some(m) ==> m.seconds() == secs && m.nanoseconds() == nanos,
    {
        if nanos < NANOS_PER_SECOND {
            Some(Moment { secs, nanos })
        } else {
            None
        }
    }

    /// The whole seconds since the start of 1970.
    pub fn secs(&self) -> (secs: i64)
        ensures
            secs == self.seconds(),
    {
        self.secs
    }

    /// The nanoseconds into the running second.
    pub fn nanos(&self) -> (nanos: u32)
        ensures
            nanos == self.nanoseconds(),
            nanos < NANOS_PER_SECOND,
    {
        proof {
            use_type_invariant(self);
        }
        self.nanos
    }

    /// The moment `days` days later, at the same time of day. There is none
    /// where the calendar cannot hold this moment or the later one.
    pub fn after_days(&self, days: u128) -> (later: Option<Moment>)
        ensures
            later == self.plus_days(days as nat),
            later matches Some(moment) ==> moment.is_days_after(*self, days as nat),
    {
        proof {
            use_type_invariant(self);
        }
        if days > i64::MAX as u128 {
            None
        } else {
            add_days(*self, days as i64)
        }
    }
}

/// The calendar holds no moment that lies more days ahead than a signed
/// number of 64 bits can count.
pub proof fn lemma_no_moment_beyond_count(now: Moment, days: nat)
    requires
        days > i64::MAX,
    ensures
        now.plus_days(days) is None,
{
}

/// Two moments with the same seconds and nanoseconds are the same moment.
pub proof fn lemma_moment_by_parts(a: Moment, b: Moment)
    requires
        a.seconds() == b.seconds(),
        a.nanoseconds() == b.nanoseconds(),
    ensures
        a == b,
{
}

/// Calls [`chrono::DateTime::checked_add_signed`] on the UTC date and time
/// that `chrono` makes of `at`, with a [`chrono::TimeDelta`] of `days` days.
///
/// Taken on trust: the result is a function of the three numbers alone, and
/// where there is one, it lies exactly `days` times 86 400 seconds after
/// `at`, with the nanoseconds unchanged. `chrono` counts no leap second in a
/// moment whose nanoseconds stay below a second, and adds whole days to the
/// date without touching the time of day.
#[verifier::external_body]
fn add_days(at: Moment, days: i64) -> (later: Option<Moment>)
    requires
        at.nanos < NANOS_PER_SECOND,
        0 <= days,
    ensures
        later == (match date_after_days(at.secs, at.nanos, days) {
            Some((secs, nanos)) => Some(Moment { secs, nanos }),
            None => None,
        }),
        later matches Some(m) ==> m.secs == at.secs + SECONDS_PER_DAY * days && m.nanos
            == at.nanos,
{
    let start = DateTime::from_timestamp(at.secs, at.nanos)?;
    let end = start.checked_add_signed(TimeDelta::try_days(days)?)?;
    Some(Moment { secs: end.timestamp(), nanos: end.timestamp_subsec_nanos() })
}

} // verus!
