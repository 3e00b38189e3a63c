//! Instants: reading RFC 3339 timestamps and measuring whole seconds between instants.

use crate::text::Text;
use chrono::DateTime;
use vstd::prelude::*;

verus! {

/// An instant: seconds since the Unix epoch and nanoseconds within the second. Within a leap
/// second the nanoseconds go beyond one thousand million.
#[derive(Clone, Copy, PartialEq, Eq, Structural, Debug)]
pub struct Instant {
    pub secs: i64,
    pub nanos: u32,
}

/// The instant that an RFC 3339 timestamp denotes: its seconds and nanoseconds, none where the
/// text is no such timestamp.
pub uninterp spec fn rfc3339(text: Text) -> Option<(int, int)>;

/// The whole seconds from one instant to another, each given by its seconds and nanoseconds; none
/// where one of them cannot be represented.
pub uninterp spec fn elapsed(from_secs: int, from_nanos: int, to_secs: int, to_nanos: int) -> Option<
    int,
>;

/// Calls `chrono::DateTime::parse_from_rfc3339`. Claims that the outcome depends on the text
/// alone.
#[verifier::external_body]
fn parsed(text: &str) -> (r: Option<(i64, u32)>)
    ensures
        match r {
            Some((s, n)) => rfc3339(text@) == Some((s as int, n as int)),
            None => rfc3339(text@) is None,
        },
{
    match DateTime::parse_from_rfc3339(text) {
        Ok(t) => Some((t.timestamp(), t.timestamp_subsec_nanos())),
        Err(_) => None,
    }
}

/// The quotient rounded toward zero.
pub open spec fn whole(n: int, d: int) -> int {
    if n >= 0 {
        n / d
    } else {
        -((-n) / d)
    }
}

/// Calls `chrono::DateTime::signed_duration_since` and takes the whole seconds of the result.
/// Claims that they depend on the two instants alone, that they are known for instants of the years
/// 1970 to 9999, and that outside leap seconds they are the difference in nanoseconds, rounded
/// toward zero to seconds. What a leap second adds is left unsaid.
#[verifier::external_body]
fn seconds_between(from: Instant, to: Instant) -> (r: Option<i64>)
    ensures
        match r {
            Some(x) => elapsed(
                from.secs as int,
                from.nanos as int,
                to.secs as int,
                to.nanos as int,
            ) == Some(x as int),
            None => elapsed(
                from.secs as int,
                from.nanos as int,
                to.secs as int,
                to.nanos as int,
            ) is None,
        },
        r matches Some(x) ==> from.nanos < 1_000_000_000 && to.nanos < 1_000_000_000 ==> x == whole(
            from.nanos_to(to),
            1_000_000_000,
        ),
        from.is_usual() && to.is_usual() ==> r is Some,
{
    match (DateTime::from_timestamp(from.secs, from.nanos), DateTime::from_timestamp(to.secs, to.nanos)) {
        (Some(a), Some(b)) => Some(b.signed_duration_since(a).num_seconds()),
        _ => None,
    }
}

/// The RFC 3339 timestamp of an instant in UTC.
pub uninterp spec fn rfc3339_text(secs: int, nanos: int) -> Text;

/// Calls `chrono::DateTime::to_rfc3339`. Claims that the timestamp depends on the instant alone,
/// and that reading it gives the instant back in the years 1970 to 9999, outside leap seconds. An
/// instant that `DateTime` cannot hold is written as an empty text.
#[verifier::external_body]
fn written(at: Instant) -> (r: String)
    ensures
        r@ == rfc3339_text(at.secs as int, at.nanos as int),
        at.is_usual() ==> rfc3339(r@) == Some((at.secs as int, at.nanos as int)),
{
    match DateTime::from_timestamp(at.secs, at.nanos) {
        Some(t) => t.to_rfc3339(),
        None => String::new(),
    }
}

impl Instant {
    /// Whether the instant lies in the years 1970 to 9999, outside leap seconds.
    pub open spec fn is_usual(self) -> bool {
        0 <= self.secs < 253_402_300_800 && self.nanos < 1_000_000_000
    }

    /// The RFC 3339 timestamp of the instant.
    pub open spec fn text(self) -> Text {
        rfc3339_text(self.secs as int, self.nanos as int)
    }

    /// The RFC 3339 timestamp of the instant.
    pub fn stamp(self) -> (r: String)
        ensures
            r@ == self.text(),
            self.is_usual() ==> is_instant(r@, self),
    {
        written(self)
    }

    /// Whether this instant is after the other.
    pub open spec fn is_after(self, other: Instant) -> bool {
        self.secs > other.secs || (self.secs == other.secs && self.nanos > other.nanos)
    }

    /// The later of two instants.
    pub open spec fn later(self, other: Instant) -> Instant {
        if self.is_after(other) {
            self
        } else {
            other
        }
    }

    /// The nanoseconds from this instant to another, leap seconds left out.
    pub open spec fn nanos_to(self, other: Instant) -> int {
        (other.secs - self.secs) * 1_000_000_000 + (other.nanos - self.nanos)
    }

    /// Whether at least so many whole seconds lie between this instant and a later one.
    pub open spec fn is_past(self, limit: int, now: Instant) -> bool {
        if self.is_usual() && now.is_usual() {
            whole(self.nanos_to(now), 1_000_000_000) >= limit
        } else {
            match elapsed(self.secs as int, self.nanos as int, now.secs as int, now.nanos as int) {
                Some(x) => x >= limit,
                None => false,
            }
        }
    }

    /// Whether this instant is after the other.
    pub fn after(self, other: Instant) -> (r: bool)
        ensures
            r == self.is_after(other),
    {
        self.secs > other.secs || (self.secs == other.secs && self.nanos > other.nanos)
    }

    /// The later of two instants.
    pub fn max(self, other: Instant) -> (r: Instant)
        ensures
            r == self.later(other),
    {
        if self.after(other) {
            self
        } else {
            other
        }
    }

    /// Whether at least so many whole seconds lie between this instant and a later one.
    pub fn past(self, limit: i64, now: Instant) -> (r: bool)
        ensures
            r == self.is_past(limit as int, now),
    {
        match seconds_between(self, now) {
            Some(x) => x >= limit,
            None => false,
        }
    }
}

/// Of two instants in the years 1970 to 9999, the later one is so many seconds past the other just
/// when that much time lies between them.
pub proof fn time_passes_by_the_nanosecond(from: Instant, limit: int, now: Instant)
    requires
        from.is_usual(),
        now.is_usual(),
        limit > 0,
    ensures
        from.is_past(limit, now) <==> from.nanos_to(now) >= limit * 1_000_000_000,
{
}

/// The instant that an RFC 3339 timestamp denotes.
pub open spec fn is_instant(text: Text, at: Instant) -> bool {
    rfc3339(text) == Some((at.secs as int, at.nanos as int))
}

/// The instant that an RFC 3339 timestamp denotes.
pub fn read_instant(text: &str) -> (r: Option<Instant>)
    ensures
        match r {
            Some(at) => is_instant(text@, at),
            None => rfc3339(text@) is None,
        },
{
    match parsed(text) {
        Some((secs, nanos)) => Some(Instant { secs, nanos }),
        None => None,
    }
}

} // verus!
