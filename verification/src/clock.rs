//! Points in time, and the waits between them.
use vstd::prelude::*;

use crate::outside;

verus! {

/// A UTC time that a calendar can hold.
#[derive(Debug, Clone, Copy, PartialEq, Eq, Structural)]
pub struct Timestamp {
    secs: i64,
    nanos: u32,
}

/// The last second that a calendar time can hold.
pub const LAST_SECOND: i64 = 8_210_266_876_799;

/// The first second that a calendar time can hold.
pub const FIRST_SECOND: i64 = -8_334_601_228_800;

impl Timestamp {
    #[verifier::type_invariant]
    spec fn valid(self) -> bool {
        FIRST_SECOND <= self.secs <= LAST_SECOND && self.nanos < 1_000_000_000
    }

    /// Nanoseconds since the epoch.
    pub closed spec fn total(self) -> int {
        self.secs * 1_000_000_000 + self.nanos
    }

    /// Whether the time `ms` milliseconds later can be held too.
    pub open spec fn can_shift(self, ms: int) -> bool {
        FIRST_SECOND * 1_000_000_000 <= self.total() + ms * 1_000_000 < (LAST_SECOND + 1)
            * 1_000_000_000
    }

    /// The time with the given seconds since the epoch and nanoseconds, where a
    /// calendar can hold it.
    pub fn new(secs: i64, nanos: u32) -> (r: Option<Timestamp>)
        ensures
            r is Some <==> FIRST_SECOND <= secs <= LAST_SECOND && nanos < 1_000_000_000,
            r matches Some(t) ==> t.total() == secs * 1_000_000_000 + nanos,
    {
        if FIRST_SECOND <= secs && secs <= LAST_SECOND && nanos < 1_000_000_000 {
            Some(Timestamp { secs, nanos })
        } else {
            None
        }
    }

    /// The present time, which is never before the epoch.
    pub fn now() -> (r: Timestamp)
        ensures
            0 <= r.total() < (LAST_SECOND + 1) * 1_000_000_000,
    {
        let (secs, nanos) = outside::utc_now();
        Timestamp { secs, nanos }
    }

    /// The whole seconds since the epoch.
    pub fn secs(self) -> (r: i64)
        ensures
            r == self.total() / 1_000_000_000,
    {
        proof {
            use_type_invariant(&self);
        }
        self.secs
    }

    /// The nanoseconds within the second.
    pub fn nanos(self) -> (r: u32)
        ensures
            r == self.total() % 1_000_000_000,
    {
        proof {
            use_type_invariant(&self);
        }
        self.nanos
    }

    /// Whether the time `ms` milliseconds later can be held too.
    pub fn fits_shift(self, ms: i64) -> (r: bool)
        ensures
            r == self.can_shift(ms as int),
    {
        proof {
            use_type_invariant(&self);
        }
        let first: i128 = FIRST_SECOND as i128 * 1_000_000_000;
        let end: i128 = (LAST_SECOND as i128 + 1) * 1_000_000_000;
        let total: i128 = self.secs as i128 * 1_000_000_000 + self.nanos as i128 + ms as i128
            * 1_000_000;
        first <= total && total < end
    }

    /// The time `ms` milliseconds later.
    pub fn shift_millis(self, ms: i64) -> (r: Timestamp)
        requires
            self.can_shift(ms as int),
        ensures
            r.total() == self.total() + ms * 1_000_000,
    {
        proof {
            use_type_invariant(&self);
        }
        let first: i128 = FIRST_SECOND as i128 * 1_000_000_000;
        let total: i128 = self.secs as i128 * 1_000_000_000 + self.nanos as i128 + ms as i128
            * 1_000_000;
        let offset: i128 = total - first;
        let whole: i128 = offset / 1_000_000_000;
        let part: i128 = offset % 1_000_000_000;
        Timestamp { secs: (FIRST_SECOND as i128 + whole) as i64, nanos: part as u32 }
    }

    /// Nanoseconds since the epoch.
    pub fn total_nanos(self) -> (r: i128)
        ensures
            r == self.total(),
            FIRST_SECOND * 1_000_000_000 <= r < (LAST_SECOND + 1) * 1_000_000_000,
    {
        proof {
            use_type_invariant(&self);
        }
        self.secs as i128 * 1_000_000_000 + self.nanos as i128
    }

    /// The whole milliseconds from `from` to this time, and never less than one.
    pub open spec fn millis_since(self, from: Timestamp) -> int {
        let gap = (self.total() - from.total()) / 1_000_000;
        if gap < 1 {
            1
        } else {
            gap
        }
    }

    /// The whole milliseconds from `from` to this time, and never less than one.
    pub fn wait_from(self, from: Timestamp) -> (r: u64)
        ensures
            r == self.millis_since(from),
    {
        proof {
            use_type_invariant(&self);
            use_type_invariant(&from);
        }
        let total: i128 = (self.secs as i128 - from.secs as i128) * 1_000_000_000 + (self.nanos
            as i128 - from.nanos as i128);
        if total < 1_000_000 {
            1
        } else {
            let ms: i128 = total / 1_000_000;
            ms as u64
        }
    }

    /// The RFC 3339 text of the time.
    pub open spec fn rfc3339_view(self) -> Seq<char> {
        outside::rfc3339_text(self.total() / 1_000_000_000, self.total() % 1_000_000_000)
    }

    /// The RFC 3339 text of the time.
    pub fn to_rfc3339(self) -> (r: String)
        ensures
            r@ == self.rfc3339_view(),
    {
        proof {
            use_type_invariant(&self);
        }
        outside::rfc3339(self.secs, self.nanos)
    }
}

/// What is left of a time is counted in whole milliseconds, rounded down, and never
/// counts as over while it is asked for: it is at least one.
pub proof fn law_waits_are_whole_milliseconds(until: Timestamp, from: Timestamp)
    ensures
        until.millis_since(from) >= 1,
        until.total() - from.total() >= 1_000_000 ==> until.millis_since(from) * 1_000_000
            <= until.total() - from.total() < (until.millis_since(from) + 1) * 1_000_000,
        until.total() - from.total() < 1_000_000 ==> until.millis_since(from) == 1,
{
}

/// A shift by some milliseconds and back leads to the same time.
pub proof fn law_shifts_can_be_undone(t: Timestamp, ms: i64, there: Timestamp, back: Timestamp)
    requires
        ms > i64::MIN,
        call_ensures(Timestamp::shift_millis, (t, ms), there),
        call_ensures(Timestamp::shift_millis, (there, (-ms) as i64), back),
    ensures
        there.total() - t.total() == ms * 1_000_000,
        back.total() == t.total(),
{
}

} // verus!
