//! Instants in UTC, held as milliseconds since 1970-01-01T00:00:00Z.

use vstd::prelude::*;

verus! {

/// Milliseconds in one day.
pub const MILLIS_PER_DAY: i64 = 86_400_000;

/// Bound on the instants that always have a calendar date: about 253 000
/// years on either side of 1970.
pub const MILLIS_LIMIT: i64 = 8_000_000_000_000_000;

/// A day of the proleptic Gregorian calendar.
#[derive(Clone, Copy, Debug, PartialEq, Eq, Structural)]
pub struct CalendarDate {
    pub year: i32,
    pub month: u32,
    pub day: u32,
}

/// A time of day, to the millisecond.
#[derive(Clone, Copy, Debug, PartialEq, Eq, Structural)]
pub struct ClockTime {
    pub hour: u32,
    pub minute: u32,
    pub second: u32,
    pub millisecond: u32,
}

/// The UTC calendar day, as (year, month, day), of the instant `millis`
/// milliseconds after the Unix epoch.
pub uninterp spec fn utc_date_of(millis: int) -> (int, int, int);

/// The instant, in milliseconds after the Unix epoch, that a date-time text
/// denotes, if it is one.
pub uninterp spec fn utc_millis_of_text(s: Seq<char>) -> Option<i64>;

/// Relies on `chrono::DateTime::from_timestamp_millis` and
/// `DateTime::date_naive`: the UTC calendar day of an instant. chrono accepts
/// every instant whose day lies within about 262 000 years of year zero.
#[verifier::external_body]
fn calendar_date_of_millis(millis: i64) -> (r: Option<CalendarDate>)
    ensures
        -MILLIS_LIMIT <= millis <= MILLIS_LIMIT ==> r.is_some(),
        r matches Some(d) ==> (d.year as int, d.month as int, d.day as int) == utc_date_of(
            millis as int,
        ),
{
    match chrono::DateTime::from_timestamp_millis(millis) {
        Some(t) => {
            let d = t.date_naive();
            Some(
                CalendarDate {
                    year: chrono::Datelike::year(&d),
                    month: chrono::Datelike::month(&d),
                    day: chrono::Datelike::day(&d),
                },
            )
        },
        None => None,
    }
}

/// Relies on chrono's `FromStr` for `DateTime<Utc>` (RFC 3339, with a space
/// also accepted between date and time) and `DateTime::timestamp_millis`.
#[verifier::external_body]
fn parse_utc_millis(s: &str) -> (r: Option<i64>)
    ensures
        r == utc_millis_of_text(s@),
{
    match s.parse::<chrono::DateTime<chrono::Utc>>() {
        Ok(t) => Some(t.timestamp_millis()),
        Err(_) => None,
    }
}

pub open spec fn millis_of_day(millis: int) -> int {
    millis % (MILLIS_PER_DAY as int)
}

/// The time of day (UTC) of the instant `millis`.
pub open spec fn clock_time_of(millis: int) -> ClockTime {
    let m = millis_of_day(millis);
    ClockTime {
        hour: (m / 3_600_000) as u32,
        minute: ((m / 60_000) % 60) as u32,
        second: ((m / 1000) % 60) as u32,
        millisecond: (m % 1000) as u32,
    }
}

/// An instant together with its UTC calendar day.
#[derive(Clone, Copy, Debug, PartialEq, Eq)]
pub struct Timestamp {
    millis: i64,
    date: CalendarDate,
}

impl Timestamp {
    pub closed spec fn spec_millis(self) -> int {
        self.millis as int
    }

    pub closed spec fn spec_date(self) -> (int, int, int) {
        (self.date.year as int, self.date.month as int, self.date.day as int)
    }

    /// The instant `millis` milliseconds after the Unix epoch, where it has
    /// a calendar date.
    pub fn from_millis(millis: i64) -> (r: Option<Timestamp>)
        ensures
            -MILLIS_LIMIT <= millis <= MILLIS_LIMIT ==> r.is_some(),
            r matches Some(t) ==> t.spec_millis() == millis && t.spec_date() == utc_date_of(
                millis as int,
            ),
    {
        match calendar_date_of_millis(millis) {
            Some(date) => Some(Timestamp { millis, date }),
            None => None,
        }
    }

    /// Reads an RFC 3339 date-time such as `2024-03-01T12:00:00Z`.
    pub fn parse(s: &str) -> (r: Option<Timestamp>)
        ensures
            utc_millis_of_text(s@) is None ==> r is None,
            r matches Some(t) ==> utc_millis_of_text(s@) == Some(t.spec_millis() as i64)
                && t.spec_date() == utc_date_of(t.spec_millis()),
            utc_millis_of_text(s@) matches Some(m) && -MILLIS_LIMIT <= m <= MILLIS_LIMIT
                ==> r is Some,
    {
        match parse_utc_millis(s) {
            Some(m) => Timestamp::from_millis(m),
            None => None,
        }
    }

    pub fn millis(&self) -> (r: i64)
        ensures
            r == self.spec_millis(),
    {
        self.millis
    }

    pub fn date(&self) -> (r: CalendarDate)
        ensures
            (r.year as int, r.month as int, r.day as int) == self.spec_date(),
    {
        self.date
    }

    /// The time of day in UTC.
    pub fn time(&self) -> (r: ClockTime)
        ensures
            r == clock_time_of(self.spec_millis()),
    {
        let day = MILLIS_PER_DAY as i128;
        let shifted = self.millis as i128 + day * 106_751_992_000;
        proof {
            vstd::arithmetic::div_mod::lemma_mod_multiples_vanish(
                106_751_992_000,
                self.millis as int,
                day as int,
            );
            assert(day * 106_751_992_000 == 106_751_992_000 * day);
        }
        let m = (shifted % day) as u32;
        assert(m as int == millis_of_day(self.millis as int));
        ClockTime {
            hour: m / 3_600_000,
            minute: (m / 60_000) % 60,
            second: (m / 1000) % 60,
            millisecond: m % 1000,
        }
    }
}

} // verus!
