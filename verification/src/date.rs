//! The date normalizer: email-style dates as instants at a chosen offset.

use vstd::prelude::*;

verus! {

/// What `chrono::DateTime::parse_from_rfc2822` makes of `text`: `None` where
/// it rejects the text, else the instant it denotes as whole seconds since
/// the Unix epoch, the nanoseconds past that second, and the offset from UTC,
/// in seconds east, that the text carried.
pub uninterp spec fn rfc2822_instant(text: Seq<char>) -> Option<(i64, u32, i32)>;

/// Calls `chrono::DateTime::parse_from_rfc2822` and takes the result apart
/// with `timestamp`, `timestamp_subsec_nanos` and `offset().local_minus_utc()`.
/// Nothing is claimed of the result but that it is the parse of `text`.
#[verifier::external_body]
fn parse_rfc2822(text: &str) -> (r: Option<(i64, u32, i32)>)
    ensures
        r == rfc2822_instant(text@),
{
    match chrono::DateTime::parse_from_rfc2822(text) {
        Ok(d) => Some((d.timestamp(), d.timestamp_subsec_nanos(), d.offset().local_minus_utc())),
        Err(_) => None,
    }
}

/// A fixed offset from UTC, strictly less than one day either way.
#[derive(Clone, Copy, Debug)]
pub struct UtcOffset {
    seconds: i32,
}

impl View for UtcOffset {
    type V = int;

    /// Seconds east of UTC.
    closed spec fn view(&self) -> int {
        self.seconds as int
    }
}

impl UtcOffset {
    #[verifier::type_invariant]
    spec fn in_range(self) -> bool {
        Self::valid_seconds(self.seconds as int)
    }

    /// The seconds east of UTC that can make an offset.
    pub open spec fn valid_seconds(seconds: int) -> bool {
        -86_400 < seconds < 86_400
    }

    /// The offset `seconds` east of UTC, if that is less than a day.
    pub fn new(seconds: i32) -> (r: Option<UtcOffset>)
        ensures
            r is Some <==> Self::valid_seconds(seconds as int),
            r matches Some(o) ==> o@ == seconds,
    {
        if -86_400 < seconds && seconds < 86_400 {
            Some(UtcOffset { seconds })
        } else {
            None
        }
    }

    /// UTC itself.
    pub fn utc() -> (r: UtcOffset)
        ensures
            r@ == 0,
    {
        UtcOffset { seconds: 0 }
    }

    /// Seconds east of UTC.
    pub fn seconds(&self) -> (r: i32)
        ensures
            r == self@,
            Self::valid_seconds(r as int),
    {
        proof {
            use_type_invariant(self);
        }
        self.seconds
    }
}

/// An instant with the offset at which it is to be shown.
#[derive(Clone, Copy, Debug)]
pub struct Timestamp {
    /// Whole seconds since the Unix epoch, in UTC.
    pub seconds: i64,
    /// Nanoseconds past `seconds`; a leap second counts past 999,999,999.
    pub nanos: u32,
    /// The offset from UTC at which the instant is expressed.
    pub offset: UtcOffset,
}

/// A parsed date (seconds, nanoseconds, the offset it was written with)
/// expressed at `target`: the instant is kept, the offset is replaced.
pub open spec fn expressed_at(parsed: Option<(i64, u32, i32)>, target: UtcOffset) -> Option<
    Timestamp,
> {
    match parsed {
        Some((seconds, nanos, _)) => Some(Timestamp { seconds, nanos, offset: target }),
        None => None,
    }
}

/// The instant that `text` denotes as an email-style date, expressed at
/// `target`; `None` where `text` is no such date.
pub open spec fn normalized_date(text: Seq<char>, target: UtcOffset) -> Option<Timestamp> {
    expressed_at(rfc2822_instant(text), target)
}

/// Re-expresses a parsed date at `target`. `parsed` holds the seconds since
/// the Unix epoch, the nanoseconds past that second, and the offset the date
/// was written with, which is dropped; `None` stays `None`.
pub fn express_at(parsed: Option<(i64, u32, i32)>, target: UtcOffset) -> (r: Option<Timestamp>)
    ensures
        r == expressed_at(parsed, target),
{
    match parsed {
        Some((seconds, nanos, _)) => Some(Timestamp { seconds, nanos, offset: target }),
        None => None,
    }
}

/// Parses `text` as an email-style date with an offset and re-expresses the
/// instant at `target`. The instant is kept; the offset in the text is not.
pub fn normalize_date(text: &str, target: UtcOffset) -> (r: Option<Timestamp>)
    ensures
        r == normalized_date(text@, target),
{
    express_at(parse_rfc2822(text), target)
}

} // verus!
