//! The time of the resolution, written as text.
use crate::text::{contains, ends_with};
use vstd::prelude::*;
use vstd::string::*;

verus! {

/// What every time written here looks like: a date and a time of day with
/// `T` between them, and the offset of UTC, `+00:00`, at the end. Year,
/// month, day, hour, minute and second take at least 19 characters.
pub open spec fn is_timestamp(s: Seq<char>) -> bool {
    s.len() >= 25 && contains(s, "T"@) && ends_with(s, "+00:00"@)
}

/// The RFC 3339 text of the instant that lies `seconds` seconds and
/// `nanoseconds` nanoseconds after the first of January 1970, UTC, as
/// `chrono` writes it; `None` where `chrono` has no date for the instant.
pub uninterp spec fn rfc3339_text(seconds: i64, nanoseconds: u32) -> Option<Seq<char>>;

/// `chrono::DateTime::from_timestamp`, written with
/// `DateTime::to_rfc3339`: the instant as text, such as
/// `2024-05-01T10:00:00.250+00:00`, or `None` where the instant is out of
/// range. Of every text holds what `is_timestamp` says.
#[verifier::external_body]
fn rfc3339_of(seconds: i64, nanoseconds: u32) -> (r: Option<String>)
    ensures
        r.deep_view() == rfc3339_text(seconds, nanoseconds),
        r is Some ==> is_timestamp(r->0@),
{
    chrono::DateTime::from_timestamp(seconds, nanoseconds).map(|instant| instant.to_rfc3339())
}

/// What the system clock read: how far the time lies from the first of
/// January 1970, UTC, and on which side.
#[derive(Debug, Clone, Copy, PartialEq, Eq, Structural)]
pub struct ClockReading {
    pub before_epoch: bool,
    pub seconds: u64,
    pub nanoseconds: u32,
}

/// The reading as whole seconds since 1970, negative before it, and the
/// nanoseconds that follow those seconds; `None` where the seconds do not
/// fit, or a reading before 1970 holds a whole second of nanoseconds.
pub open spec fn unix_time(reading: ClockReading) -> Option<(i64, u32)> {
    if reading.seconds > i64::MAX {
        None
    } else if !reading.before_epoch {
        Some((reading.seconds as i64, reading.nanoseconds))
    } else if reading.nanoseconds == 0 {
        Some(((-(reading.seconds as int)) as i64, 0u32))
    } else if reading.nanoseconds < 1_000_000_000 {
        Some(
            (
                (-(reading.seconds as int) - 1) as i64,
                (1_000_000_000 - reading.nanoseconds) as u32,
            ),
        )
    } else {
        None
    }
}

/// The text of the time that the clock read.
pub open spec fn clock_text(reading: ClockReading) -> Option<Seq<char>> {
    match unix_time(reading) {
        Some(t) => rfc3339_text(t.0, t.1),
        None => None,
    }
}

/// The time that the clock read, as RFC 3339 text.
///
/// Gives `None` where the reading does not fit, and where `chrono` has no
/// date for it.
pub fn timestamp(reading: &ClockReading) -> (r: Option<String>)
    ensures
        r.deep_view() == clock_text(*reading),
        r is Some ==> is_timestamp(r->0@),
{
    if reading.seconds > 0x7fff_ffff_ffff_ffff {
        return None;
    }
    let seconds: i64 = reading.seconds as i64;
    if !reading.before_epoch {
        rfc3339_of(seconds, reading.nanoseconds)
    } else if reading.nanoseconds == 0 {
        rfc3339_of(-seconds, 0)
    } else if reading.nanoseconds < 1_000_000_000 {
        rfc3339_of(-seconds - 1, 1_000_000_000 - reading.nanoseconds)
    } else {
        None
    }
}

} // verus!
