//! Instants of time, and their RFC 3339 text.

use vstd::prelude::*;

verus! {

/// An instant in UTC, as `chrono::DateTime<Utc>` holds it: the seconds since
/// the Unix epoch, and the nanoseconds since the start of that second (above
/// 999,999,999 within a leap second).
#[derive(Debug, Clone, Copy, PartialEq, Eq, Structural)]
pub struct Timestamp {
    pub secs: i64,
    pub nanos: u32,
}

/// `a` is not later than `b`: instants are ordered by their seconds, then
/// by their nanoseconds, as `DateTime<Utc>` orders them.
pub open spec fn not_after(a: Timestamp, b: Timestamp) -> bool {
    a.secs < b.secs || (a.secs == b.secs && a.nanos <= b.nanos)
}

/// `a` is strictly earlier than `b`.
pub open spec fn before(a: Timestamp, b: Timestamp) -> bool {
    !not_after(b, a)
}

impl Timestamp {
    /// Whether `self` is not later than `other`.
    pub fn not_after(&self, other: &Timestamp) -> (r: bool)
        ensures
            r == not_after(*self, *other),
    {
        self.secs < other.secs || (self.secs == other.secs && self.nanos <= other.nanos)
    }
}

/// The instant that an RFC 3339 text denotes, as
/// `<chrono::DateTime<FixedOffset> as FromStr>::from_str` reads it, or nothing
/// where it refuses the text.
pub uninterp spec fn timestamp_of_text(text: Seq<char>) -> Option<Timestamp>;

/// Calls `str::parse::<chrono::DateTime<chrono::FixedOffset>>` (what
/// deserializing a `DateTime<Utc>` does with a JSON string) and takes the
/// instant's `timestamp()` and `timestamp_subsec_nanos()`. The contract names
/// the result; which texts are accepted is not written out.
#[verifier::external_body]
pub(crate) fn parse_timestamp(text: &str) -> (r: Option<Timestamp>)
    ensures
        r == timestamp_of_text(text@),
{
    match text.parse::<chrono::DateTime<chrono::FixedOffset>>() {
        Ok(d) => Some(Timestamp { secs: d.timestamp(), nanos: d.timestamp_subsec_nanos() }),
        Err(_) => None,
    }
}

/// A reading of the system clock against the Unix epoch: `Ok` of the time
/// since the epoch, or `Err` of the time until it when the clock is earlier,
/// each as whole seconds and the nanoseconds of the second left over.
pub type ClockReading = Result<(u64, u32), (u64, u32)>;

/// Calls `SystemTime::now().duration_since(UNIX_EPOCH)` and takes the
/// duration, or the duration of its error (how far the clock is before the
/// epoch), as `as_secs()` and `subsec_nanos()`. The std documentation says
/// that the nanoseconds of a duration are below one second; the reading
/// itself is the machine's clock, of which nothing more is stated.
#[verifier::external_body]
fn read_clock() -> (r: ClockReading)
    ensures
        match r {
            Ok(d) => d.1 < 1_000_000_000,
            Err(d) => d.1 < 1_000_000_000,
        },
{
    match std::time::SystemTime::now().duration_since(std::time::UNIX_EPOCH) {
        Ok(d) => Ok((d.as_secs(), d.subsec_nanos())),
        Err(e) => Err((e.duration().as_secs(), e.duration().subsec_nanos())),
    }
}

/// The instant of a clock reading, the seconds floored so that the
/// nanoseconds count forward; a reading beyond what `i64` seconds hold gives
/// the last or the first instant that they hold.
pub open spec fn instant_of(reading: ClockReading) -> Timestamp {
    match reading {
        Ok((s, n)) => if s <= i64::MAX {
            Timestamp { secs: s as i64, nanos: n }
        } else {
            Timestamp { secs: i64::MAX, nanos: 999_999_999 }
        },
        Err((s, n)) => if n == 0 && s <= 0x8000_0000_0000_0000 {
            Timestamp { secs: (-(s as int)) as i64, nanos: 0 }
        } else if n > 0 && s < 0x8000_0000_0000_0000 {
            Timestamp { secs: (-(s as int) - 1) as i64, nanos: (1_000_000_000 - n) as u32 }
        } else {
            Timestamp { secs: i64::MIN, nanos: 0 }
        },
    }
}

/// The nanoseconds since the Unix epoch that a clock reading tells,
/// negative before it.
pub open spec fn reading_nanos(reading: ClockReading) -> int {
    match reading {
        Ok((s, n)) => s * 1_000_000_000 + n,
        Err((s, n)) => -(s * 1_000_000_000 + n),
    }
}

/// The instant of a clock reading whose nanoseconds are below one second:
/// the same time, counted in seconds and nanoseconds, when `i64` seconds
/// hold it.
pub fn instant_of_clock(reading: ClockReading) -> (r: Timestamp)
    requires
        match reading {
            Ok(d) => d.1 < 1_000_000_000,
            Err(d) => d.1 < 1_000_000_000,
        },
    ensures
        r == instant_of(reading),
        r.nanos < 1_000_000_000,
        i64::MIN <= reading_nanos(reading) / 1_000_000_000 <= i64::MAX ==> r.secs * 1_000_000_000
            + r.nanos == reading_nanos(reading),
{
    match reading {
        Ok((s, n)) => if s <= i64::MAX as u64 {
            Timestamp { secs: s as i64, nanos: n }
        } else {
            Timestamp { secs: i64::MAX, nanos: 999_999_999 }
        },
        Err((s, n)) => if n == 0 && s <= 0x8000_0000_0000_0000u64 {
            let secs: i64 = if s == 0x8000_0000_0000_0000u64 {
                i64::MIN
            } else {
                -(s as i64)
            };
            Timestamp { secs, nanos: 0 }
        } else if n > 0 && s < 0x8000_0000_0000_0000u64 {
            Timestamp { secs: -(s as i64) - 1, nanos: 1_000_000_000 - n }
        } else {
            Timestamp { secs: i64::MIN, nanos: 0 }
        },
    }
}

/// The current time of the machine's clock. Nothing is stated of which
/// instant it is; the seconds are floored, so the nanoseconds are below one
/// second.
pub(crate) fn now() -> (r: Timestamp)
    ensures
        r.nanos < 1_000_000_000,
{
    instant_of_clock(read_clock())
}

} // verus!
