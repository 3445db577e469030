//! Instants and delays as plain numbers, and the calendar questions that are
//! put to `chrono`.

use chrono::{Datelike, TimeZone};
use vstd::prelude::*;

verus! {

/// Nanoseconds in a second.
pub const NANOS_PER_SEC: u32 = 1_000_000_000;

/// Seconds in a day.
pub const SECS_PER_DAY: i64 = 86_400;

/// Seconds in an hour.
pub const SECS_PER_HOUR: i64 = 3600;

/// The first second of the year 1, counted from the Unix epoch.
pub const MIN_TIMESTAMP_SECS: i64 = -62_135_596_800;

/// The last second of the year 9999, counted from the Unix epoch.
pub const MAX_TIMESTAMP_SECS: i64 = 253_402_300_799;

/// Whether `secs` and `nanos` name an instant of the years 1 to 9999.
pub open spec fn timestamp_in_range(secs: int, nanos: int) -> bool {
    MIN_TIMESTAMP_SECS <= secs <= MAX_TIMESTAMP_SECS && 0 <= nanos < NANOS_PER_SEC
}

/// An instant in UTC: whole seconds since the Unix epoch and the nanoseconds
/// into that second. Every value lies in the years 1 to 9999.
#[derive(Clone, Copy, Debug, PartialEq, Eq, Structural)]
pub struct Timestamp {
    secs: i64,
    nanos: u32,
}

impl View for Timestamp {
    type V = int;

    /// Nanoseconds since the Unix epoch.
    closed spec fn view(&self) -> int {
        self.secs * NANOS_PER_SEC + self.nanos
    }
}

impl Timestamp {
    #[verifier::type_invariant]
    spec fn in_range(self) -> bool {
        timestamp_in_range(self.secs as int, self.nanos as int)
    }

    /// Whole seconds since the Unix epoch.
    pub closed spec fn seconds(self) -> int {
        self.secs as int
    }

    /// Nanoseconds into the second.
    pub closed spec fn subsec_nanos(self) -> int {
        self.nanos as int
    }

    /// The view counts nanoseconds: seconds times a thousand million, plus
    /// the nanoseconds into the second.
    pub proof fn lemma_view(self)
        ensures
            self@ == self.seconds() * NANOS_PER_SEC + self.subsec_nanos(),
    {
    }

    /// The instant `secs` seconds and `nanos` nanoseconds after the epoch,
    /// where that lies within range.
    pub fn new(secs: i64, nanos: u32) -> (t: Option<Timestamp>)
        ensures
            t is Some <==> timestamp_in_range(secs as int, nanos as int),
            t matches Some(x) ==> x.seconds() == secs && x.subsec_nanos() == nanos,
    {
        if MIN_TIMESTAMP_SECS <= secs && secs <= MAX_TIMESTAMP_SECS && nanos < NANOS_PER_SEC {
            Some(Timestamp { secs, nanos })
        } else {
            None
        }
    }

    /// Whole seconds since the Unix epoch.
    pub fn secs(&self) -> (s: i64)
        ensures
            s == self.seconds(),
            timestamp_in_range(self.seconds(), self.subsec_nanos()),
    {
        proof {
            use_type_invariant(self);
        }
        self.secs
    }

    /// Nanoseconds into the second.
    pub fn nanos(&self) -> (n: u32)
        ensures
            n == self.subsec_nanos(),
            timestamp_in_range(self.seconds(), self.subsec_nanos()),
    {
        proof {
            use_type_invariant(self);
        }
        self.nanos
    }

    /// Whether this instant lies before `other`.
    pub fn is_before(&self, other: &Timestamp) -> (b: bool)
        ensures
            b == (self@ < other@),
    {
        proof {
            use_type_invariant(self);
            use_type_invariant(other);
        }
        self.secs < other.secs || (self.secs == other.secs && self.nanos < other.nanos)
    }

    /// The RFC 3339 text of the instant in UTC, as `chrono` writes it.
    pub open spec fn rfc3339(self) -> Seq<char> {
        rfc3339_text(self.seconds(), self.subsec_nanos())->0
    }

    /// The instant as RFC 3339 text in UTC.
    pub fn to_rfc3339(&self) -> (text: String)
        ensures
            text@ == self.rfc3339(),
            rfc3339_text(self.seconds(), self.subsec_nanos()) == Some(text@),
    {
        proof {
            use_type_invariant(self);
        }
        match format_rfc3339(self.secs, self.nanos) {
            Some(text) => text,
            None => vstd::pervasive::unreached(),
        }
    }
}

/// A span of time that is not negative: whole seconds and the nanoseconds
/// beyond them.
#[derive(Clone, Copy, Debug, PartialEq, Eq, Structural)]
pub struct Delay {
    pub secs: u64,
    pub nanos: u32,
}

impl View for Delay {
    type V = int;

    /// The span in nanoseconds.
    open spec fn view(&self) -> int {
        self.secs * NANOS_PER_SEC + self.nanos
    }
}

/// The delay of `total` nanoseconds.
pub open spec fn delay_of_nanos(total: int) -> Delay {
    Delay {
        secs: (total / NANOS_PER_SEC as int) as u64,
        nanos: (total % NANOS_PER_SEC as int) as u32,
    }
}

/// What chrono's `DateTime::to_rfc3339` writes for the UTC instant that
/// `DateTime::from_timestamp` makes of `secs` and `nanos`; `None` where it
/// makes none.
pub uninterp spec fn rfc3339_text(secs: int, nanos: int) -> Option<Seq<char>>;

/// Year, month and day that chrono's `DateTime::with_timezone` gives the
/// instant `secs` seconds after the epoch at `offset` seconds east of UTC;
/// `None` where chrono has no such instant or offset.
pub uninterp spec fn civil_date(secs: int, offset: int) -> Option<(int, int, int)>;

/// The instant, in seconds after the epoch, that chrono's
/// `TimeZone::with_ymd_and_hms` gives the local date and time at `offset`
/// seconds east of UTC; `None` where it gives no single instant.
pub uninterp spec fn civil_instant(
    offset: int,
    year: int,
    month: int,
    day: int,
    hour: int,
    minute: int,
    second: int,
) -> Option<int>;

/// Formats an instant through chrono: `DateTime::from_timestamp`, then
/// `DateTime::to_rfc3339`. The text is the one named by `rfc3339_text`.
/// For the years 1 to 9999, with less than a second of nanoseconds,
/// `from_timestamp` makes an instant, so there is a text.
#[verifier::external_body]
fn format_rfc3339(secs: i64, nanos: u32) -> (text: Option<String>)
    ensures
        match text {
            Some(t) => rfc3339_text(secs as int, nanos as int) == Some(t@),
            None => rfc3339_text(secs as int, nanos as int) is None,
        },
        timestamp_in_range(secs as int, nanos as int) ==> text is Some,
{
    match chrono::DateTime::from_timestamp(secs, nanos) {
        Some(instant) => Some(instant.to_rfc3339()),
        None => None,
    }
}

/// Asks chrono for the local date of an instant: `FixedOffset::east_opt`,
/// `DateTime::from_timestamp` and `DateTime::with_timezone`, then the year,
/// month and day of the result. The date is the one named by `civil_date`.
#[verifier::external_body]
fn local_date(secs: i64, offset: i32) -> (date: Option<(i32, u32, u32)>)
    ensures
        match date {
            Some(d) => civil_date(secs as int, offset as int) == Some(
                (d.0 as int, d.1 as int, d.2 as int),
            ),
            None => civil_date(secs as int, offset as int) is None,
        },
{
    let zone = chrono::FixedOffset::east_opt(offset)?;
    let local = chrono::DateTime::from_timestamp(secs, 0)?.with_timezone(&zone);
    Some((local.year(), local.month(), local.day()))
}

/// Asks chrono for the instant of a local date and time:
/// `FixedOffset::east_opt`, then `TimeZone::with_ymd_and_hms` and the
/// timestamp of its single result. The instant is the one named by
/// `civil_instant`.
#[verifier::external_body]
fn local_instant(
    offset: i32,
    year: i32,
    month: u32,
    day: u32,
    hour: u32,
    minute: u32,
    second: u32,
) -> (secs: Option<i64>)
    ensures
        match secs {
            Some(t) => civil_instant(
                offset as int,
                year as int,
                month as int,
                day as int,
                hour as int,
                minute as int,
                second as int,
            ) == Some(t as int),
            None => civil_instant(
                offset as int,
                year as int,
                month as int,
                day as int,
                hour as int,
                minute as int,
                second as int,
            ) is None,
        },
{
    let zone = chrono::FixedOffset::east_opt(offset)?;
    match zone.with_ymd_and_hms(year, month, day, hour, minute, second).single() {
        Some(instant) => Some(instant.timestamp()),
        None => None,
    }
}

/// The instant that the calendar of `chrono` gives for `hour` o'clock on
/// the local date of `now`, at `offset` seconds east of UTC; `None` where
/// it gives none or that instant lies out of range.
pub open spec fn local_hour_today(now_secs: int, offset: int, hour: int) -> Option<int> {
    match civil_date(now_secs, offset) {
        Some((year, month, day)) => match civil_instant(offset, year, month, day, hour, 0, 0) {
            Some(t) => if timestamp_in_range(t, 0) {
                Some(t)
            } else {
                None
            },
            None => None,
        },
        None => None,
    }
}

/// The instant, in seconds after the epoch, at which the local day of the
/// instant `secs` reaches `hour` o'clock, at `offset` seconds east of UTC.
/// Every day has 86 400 seconds, and a local day begins where the local
/// count of seconds is a multiple of that.
pub open spec fn hour_of_local_day(secs: int, offset: int, hour: int) -> int {
    (secs + offset) / (SECS_PER_DAY as int) * SECS_PER_DAY - offset + hour * SECS_PER_HOUR
}

/// Whether the calendar of `chrono` and the count of seconds agree on the
/// instant of `hour` o'clock on the local day of `now`.
pub open spec fn calendar_agrees(now_secs: int, offset: int, hour: int) -> bool {
    &&& -SECS_PER_DAY < offset < SECS_PER_DAY
    &&& 0 <= hour < 24
    &&& local_hour_today(now_secs, offset, hour) == Some(hour_of_local_day(now_secs, offset, hour))
}

/// The instant at which the local day of `now` reaches `hour` o'clock, at
/// `offset` seconds east of UTC. The calendar of `chrono` is asked, and its
/// answer is taken only where it is the instant that the count of seconds
/// gives.
pub fn hour_today(now: Timestamp, offset: i32, hour: u32) -> (at: Option<Timestamp>)
    ensures
        at is Some <==> calendar_agrees(now.seconds(), offset as int, hour as int),
        at matches Some(t) ==> t.seconds() == hour_of_local_day(
            now.seconds(),
            offset as int,
            hour as int,
        ) && t.subsec_nanos() == 0,
{
    if offset <= -86_400 || offset >= 86_400 || hour >= 24 {
        return None;
    }
    // Local seconds, moved up by a whole number of days so that they are not
    // negative and the division rounds down.
    let days_moved: i128 = 719_163;
    let moved: i128 = now.secs() as i128 + offset as i128 + days_moved * 86_400;
    let local_day: i128 = moved / 86_400 - days_moved;
    let expected: i128 = local_day * 86_400 - offset as i128 + hour as i128 * 3600;
    assert(expected == hour_of_local_day(now.seconds(), offset as int, hour as int));
    match local_date(now.secs(), offset) {
        Some((year, month, day)) => match local_instant(offset, year, month, day, hour, 0, 0) {
            Some(t) => if t as i128 == expected {
                Timestamp::new(t, 0)
            } else {
                None
            },
            None => None,
        },
        None => None,
    }
}

} // verus!
