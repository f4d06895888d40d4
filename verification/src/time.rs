//! Instants of time as plain numbers, and the calls into `chrono` that read
//! and make them.
use vstd::prelude::*;

verus! {

/// An instant in UTC: whole seconds since 1970-01-01T00:00:00Z and the
/// nanoseconds into that second (above 999,999,999 only inside a leap second).
#[derive(Clone, Copy, Debug, PartialEq, Eq, Structural, Hash)]
pub struct Timestamp {
    pub secs: i64,
    pub nanos: u32,
}

/// The first second of 2001, the first year after 2000.
pub const YEAR_2001_SECS: i64 = 978_307_200;

/// A bound that the seconds of every instant `chrono` can hold stay within.
pub const MAX_ABS_SECS: i64 = 9_000_000_000_000;

/// What `chrono` reads out of a date-time text, if it accepts the text.
pub uninterp spec fn datetime_text_value(s: Seq<char>) -> Option<Timestamp>;

/// The first second that `chrono` can hold: the start of the year -262143.
pub const MIN_SECS: i64 = -8_334_601_228_800;

/// The last second that `chrono` can hold: the end of the year 262142.
pub const MAX_SECS: i64 = 8_210_266_876_799;

/// Whether `chrono` can hold the instant made of these seconds and
/// nanoseconds: the seconds lie in its range of years, and the nanoseconds
/// stay below a second, or below two seconds in the last second of a minute,
/// where a leap second may stand.
pub open spec fn timestamp_representable(secs: i64, nanos: u32) -> bool {
    &&& MIN_SECS <= secs <= MAX_SECS
    &&& nanos < 2_000_000_000
    &&& nanos < 1_000_000_000 || secs % 60 == 59
}

impl Timestamp {
    /// Within the range of instants that `chrono` can hold.
    pub open spec fn wf(&self) -> bool {
        &&& -MAX_ABS_SECS <= self.secs <= MAX_ABS_SECS
        &&& self.nanos < 2_000_000_000
    }

    /// The instant as one number of nanoseconds since the epoch.
    pub open spec fn nanos_since_epoch(&self) -> int {
        self.secs * 1_000_000_000 + self.nanos
    }

    /// Milliseconds since the epoch, the fraction of a millisecond dropped.
    pub open spec fn millis(&self) -> int {
        self.secs * 1000 + self.nanos / 1_000_000
    }

    /// `self` is strictly earlier than `other`.
    pub open spec fn before(&self, other: &Timestamp) -> bool {
        self.secs < other.secs || (self.secs == other.secs && self.nanos < other.nanos)
    }

    /// Whether `chrono` can hold the instant.
    pub fn is_representable(&self) -> (r: bool)
        ensures
            r == timestamp_representable(self.secs, self.nanos),
    {
        if self.secs < MIN_SECS || self.secs > MAX_SECS || self.nanos >= 2_000_000_000 {
            return false;
        }
        if self.nanos < 1_000_000_000 {
            return true;
        }
        let second: i64 = if self.secs >= 0 {
            self.secs % 60
        } else {
            59 - (-(self.secs + 1)) % 60
        };
        second == 59
    }

    /// The epoch itself, the default instant.
    pub fn epoch() -> (r: Timestamp)
        ensures
            r.secs == 0,
            r.nanos == 0,
            r.wf(),
    {
        Timestamp { secs: 0, nanos: 0 }
    }

    /// Milliseconds since the epoch.
    pub fn timestamp_millis(&self) -> (r: i64)
        requires
            self.wf(),
        ensures
            r == self.millis(),
    {
        self.secs * 1000 + (self.nanos / 1_000_000) as i64
    }

    /// Whether `self` is strictly earlier than `other`.
    pub fn is_before(&self, other: &Timestamp) -> (r: bool)
        ensures
            r == self.before(other),
    {
        self.secs < other.secs || (self.secs == other.secs && self.nanos < other.nanos)
    }

    /// Whether the instant lies in a year after 2000.
    pub fn is_after_2000(&self) -> (r: bool)
        ensures
            r == (self.secs >= YEAR_2001_SECS),
    {
        self.secs >= YEAR_2001_SECS
    }

    /// Whether more than `seconds` have passed from `self` to `now`.
    pub fn elapsed_more_than(&self, now: &Timestamp, seconds: i64) -> (r: bool)
        ensures
            r == (now.nanos_since_epoch() - self.nanos_since_epoch() > seconds * 1_000_000_000),
    {
        let passed: i128 = (now.secs as i128 - self.secs as i128) * 1_000_000_000 + (now.nanos as i128
            - self.nanos as i128);
        passed > seconds as i128 * 1_000_000_000
    }
}

/// Wraps `chrono`'s `FromStr` for `DateTime<Utc>`, which accepts a relaxed
/// RFC 3339 text. The result is named by `datetime_text_value`; an accepted
/// text gives an instant within `chrono`'s range.
#[verifier::external_body]
pub(crate) fn parse_datetime(s: &str) -> (r: Option<Timestamp>)
    ensures
        r == datetime_text_value(s@),
        r matches Some(t) ==> t.wf(),
{
    match s.parse::<chrono::DateTime<chrono::Utc>>() {
        Ok(t) => Some(Timestamp { secs: t.timestamp(), nanos: t.timestamp_subsec_nanos() }),
        Err(_) => None,
    }
}

/// Wraps `chrono::DateTime::from_timestamp`: the instant with exactly these
/// seconds and nanoseconds, or nothing when `chrono` cannot hold it, which
/// `timestamp_representable` says in full.
#[verifier::external_body]
pub(crate) fn from_timestamp(secs: i64, nanos: u32) -> (r: Option<Timestamp>)
    ensures
        r == if timestamp_representable(secs, nanos) {
            Some(Timestamp { secs, nanos })
        } else {
            None::<Timestamp>
        },
        r matches Some(t) ==> t.wf(),
{
    match chrono::DateTime::from_timestamp(secs, nanos) {
        Some(t) => Some(Timestamp { secs: t.timestamp(), nanos: t.timestamp_subsec_nanos() }),
        None => None,
    }
}

/// Wraps `chrono::Utc::now`. Nothing is known of the instant but that it is
/// within `chrono`'s range.
#[verifier::external_body]
pub(crate) fn now() -> (r: Timestamp)
    ensures
        r.wf(),
{
    let t = chrono::Utc::now();
    Timestamp { secs: t.timestamp(), nanos: t.timestamp_subsec_nanos() }
}

} // verus!
