//! Points in time, from chrono.

use chrono::{DateTime, MappedLocalTime, TimeZone, Utc};
use vstd::prelude::*;

verus! {

/// A chrono date and time in UTC, carried as it is; the date and time that a
/// [`UtcDateTime`] holds.
#[verifier::external_body]
#[derive(Debug)]
pub struct UtcInstant(pub DateTime<Utc>);

/// A point in time in UTC: chrono's date and time, and the number of
/// milliseconds since the Unix epoch that it stands for. Only
/// `utc_from_millis` makes one, so the two always belong together.
#[derive(Debug)]
pub struct UtcDateTime {
    millis: i64,
    instant: UtcInstant,
}

impl UtcDateTime {
    /// The milliseconds since 1970-01-01T00:00:00Z that this point stands for.
    pub closed spec fn millis_spec(&self) -> i64 {
        self.millis
    }

    /// The milliseconds since 1970-01-01T00:00:00Z that this point stands for.
    pub fn millis(&self) -> (r: i64)
        ensures
            r == self.millis_spec(),
    {
        self.millis
    }

    /// The date and time, as chrono made it from [`UtcDateTime::millis`].
    pub fn instant(&self) -> &UtcInstant {
        &self.instant
    }
}

/// The first millisecond that chrono can represent: 1 January of the year
/// -262143, 00:00:00.000 UTC.
pub open spec fn utc_min_millis() -> int {
    -8334601228800000
}

/// The last millisecond that chrono can represent: 31 December of the year
/// 262142, 23:59:59.999 UTC.
pub open spec fn utc_max_millis() -> int {
    8210266876799999
}

/// Whether chrono can represent the instant `millis` milliseconds after the
/// Unix epoch as a date and time in UTC.
pub open spec fn utc_millis_representable(millis: i64) -> bool {
    utc_min_millis() <= millis <= utc_max_millis()
}

/// Calls chrono's `TimeZone::timestamp_millis_opt` on `Utc`, and reads the
/// milliseconds of the date and time it gives with `DateTime::timestamp_millis`.
/// Claimed: a single date and time comes back exactly when the instant lies
/// in chrono's range of dates (the years -262143 to 262142), and its
/// milliseconds are `millis` (chrono documents that the two round-trip).
#[verifier::external_body]
pub(crate) fn utc_from_millis(millis: i64) -> (r: Option<UtcDateTime>)
    ensures
        r is Some == utc_millis_representable(millis),
        r matches Some(t) ==> t.millis_spec() == millis,
{
    match Utc.timestamp_millis_opt(millis) {
        MappedLocalTime::Single(t) => Some(UtcDateTime { millis: t.timestamp_millis(), instant: UtcInstant(t) }),
        MappedLocalTime::Ambiguous(_, _) => None,
        MappedLocalTime::None => None,
    }
}

} // verus!
