//! UTC instants as whole seconds and nanoseconds, with RFC 3339 text
//! through chrono.

use chrono::DateTime;
use vstd::prelude::*;

verus! {

/// Seconds of 0000-01-01T00:00:00Z after the Unix epoch.
pub const MIN_SECS: i64 = -62_167_219_200;

/// Seconds of 9999-12-31T23:59:59Z after the Unix epoch.
pub const MAX_SECS: i64 = 253_402_300_799;

/// Seconds in a minute.
pub const MINUTE: i64 = 60;

/// Seconds in an hour.
pub const HOUR: i64 = 3_600;

/// Seconds in a day.
pub const DAY: i64 = 86_400;

/// A point in UTC time: whole seconds since 1970-01-01T00:00:00Z and the
/// nanoseconds after that second (999_999_999 or fewer, except within a
/// leap second).
#[derive(Clone, Copy, Debug, PartialEq, Eq, Structural)]
pub struct UtcTime {
    pub secs: i64,
    pub nanos: u32,
}

/// chrono accepts a nanosecond part of 1_000_000_000 or more only in the
/// last second of a minute, where it stands for a leap second.
pub open spec fn nanos_fit(secs: i64, nanos: u32) -> bool {
    nanos < 1_000_000_000 || (nanos < 2_000_000_000 && (secs as int) % 60 == 59)
}

/// An instant between the years 0000 and 9999 that chrono can represent
/// and RFC 3339 can write.
pub open spec fn in_range(t: UtcTime) -> bool {
    &&& MIN_SECS <= t.secs <= MAX_SECS
    &&& nanos_fit(t.secs, t.nanos)
}

/// An instant outside any leap second, as the system clock gives one.
pub open spec fn is_clock_time(t: UtcTime) -> bool {
    &&& MIN_SECS <= t.secs <= MAX_SECS
    &&& t.nanos < 1_000_000_000
}

/// `a` comes strictly before `b`.
pub open spec fn precedes(a: UtcTime, b: UtcTime) -> bool {
    a.secs < b.secs || (a.secs == b.secs && a.nanos < b.nanos)
}

/// `a` plus `k` whole seconds.
pub open spec fn shifted(a: UtcTime, k: int) -> UtcTime {
    UtcTime { secs: (a.secs + k) as i64, nanos: a.nanos }
}

/// The RFC 3339 text that chrono's `DateTime::<Utc>::to_rfc3339` writes
/// for the instant `secs`, `nanos`.
pub uninterp spec fn rfc3339_text(secs: i64, nanos: u32) -> Seq<char>;

/// The instant, as whole seconds and nanoseconds, that chrono's
/// `DateTime::parse_from_rfc3339` reads from `text`, or `None` where
/// chrono refuses it.
pub uninterp spec fn rfc3339_parse(text: Seq<char>) -> Option<(i64, u32)>;

impl UtcTime {
    /// Whether `self` comes strictly before `other`.
    pub fn is_before(&self, other: &UtcTime) -> (r: bool)
        ensures
            r == precedes(*self, *other),
    {
        self.secs < other.secs || (self.secs == other.secs && self.nanos < other.nanos)
    }

    /// `self` moved by `k` whole seconds.
    pub fn plus_secs(&self, k: i64) -> (r: UtcTime)
        requires
            self.nanos < 1_000_000_000,
            MIN_SECS <= self.secs + k <= MAX_SECS,
        ensures
            r == shifted(*self, k as int),
            is_clock_time(r),
    {
        UtcTime { secs: self.secs + k, nanos: self.nanos }
    }

    /// The earlier of `self` and `other`.
    pub fn earlier(&self, other: &UtcTime) -> (r: UtcTime)
        ensures
            r == (if precedes(*other, *self) { *other } else { *self }),
    {
        if other.is_before(self) {
            *other
        } else {
            *self
        }
    }

    /// The RFC 3339 text of `self`, as `DateTime::<Utc>::to_rfc3339` writes
    /// it. chrono builds the instant with `DateTime::from_timestamp`, which
    /// succeeds for every instant in range. The text itself is named, not
    /// stated; what is stated is that `DateTime::parse_from_rfc3339` reads
    /// it back as the same instant (a four-digit year, the second written
    /// as 60 within a leap second, and every nonzero nanosecond digit kept).
    #[verifier::external_body]
    pub(crate) fn to_rfc3339(&self) -> (r: String)
        requires
            in_range(*self),
        ensures
            r@ == rfc3339_text(self.secs, self.nanos),
            rfc3339_parse(r@) == Some((self.secs, self.nanos)),
    {
        DateTime::from_timestamp(self.secs, self.nanos).unwrap().to_rfc3339()
    }
}

/// Reads RFC 3339 text with chrono's `DateTime::parse_from_rfc3339`, giving
/// the instant as chrono's `timestamp` and `timestamp_subsec_nanos` report
/// it. chrono documents that these two round-trip through
/// `DateTime::from_timestamp`, so the nanosecond part fits its second.
#[verifier::external_body]
pub(crate) fn parse_rfc3339(text: &str) -> (r: Option<UtcTime>)
    ensures
        r is None <==> rfc3339_parse(text@) is None,
        r matches Some(t) ==> rfc3339_parse(text@) == Some((t.secs, t.nanos)),
        r matches Some(t) ==> nanos_fit(t.secs, t.nanos),
{
    DateTime::parse_from_rfc3339(text).ok().map(
        |d| UtcTime { secs: d.timestamp(), nanos: d.timestamp_subsec_nanos() },
    )
}

} // verus!
