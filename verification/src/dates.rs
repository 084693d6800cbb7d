use vstd::prelude::*;

use chrono::{Datelike, TimeZone, Timelike};

use crate::error::Error;
use crate::strutil::{spec_u64_dec, u64_to_string};

verus! {

/// A calendar timestamp in the course's local time zone, kept as plain
/// calendar fields. Comparisons against epoch instants go through the local
/// zone (see `to_epoch`); calendar-day arithmetic stays in the calendar.
#[derive(Clone, Copy, PartialEq, Eq, Structural, Debug)]
pub struct LocalDatetime {
    pub year: i32,
    pub month: u8,
    pub day: u8,
    pub hour: u8,
    pub minute: u8,
    pub second: u8,
}

/// The time of day a due date means when its date is given without a time.
pub const DEFAULT_DUE_HOUR: u8 = 23;

pub const DEFAULT_DUE_MINUTE: u8 = 59;

pub const DEFAULT_DUE_SECOND: u8 = 59;

/// What `chrono::NaiveDate::checked_add_days` yields: the calendar date
/// `days` later, a function of the date and the count alone; nothing when
/// the input or the result leaves the representable calendar.
pub uninterp spec fn naive_plus_days(year: int, month: int, day: int, days: int) -> Option<
    (int, int, int),
>;

/// What `chrono::NaiveDate::checked_sub_days` yields, likewise for moving
/// into the past.
pub uninterp spec fn naive_minus_days(year: int, month: int, day: int, days: int) -> Option<
    (int, int, int),
>;

/// Relies on chrono's NaiveDate::checked_add_days: pure calendar arithmetic,
/// determined by the starting date and the day count; None when the start is
/// no calendar date or the result falls outside chrono's range.
#[verifier::external_body]
fn add_days_raw(year: i32, month: u8, day: u8, days: u64) -> (r: Option<(i32, u8, u8)>)
    ensures
        match r {
            Some(t) => naive_plus_days(year as int, month as int, day as int, days as int)
                == Some((t.0 as int, t.1 as int, t.2 as int)),
            None => naive_plus_days(year as int, month as int, day as int, days as int) is None,
        },
{
    let date = chrono::NaiveDate::from_ymd_opt(year, month as u32, day as u32)?;
    let shifted = date.checked_add_days(chrono::Days::new(days))?;
    Some((shifted.year(), shifted.month() as u8, shifted.day() as u8))
}

/// Relies on chrono's NaiveDate::checked_sub_days, as `add_days_raw` does on
/// its counterpart.
#[verifier::external_body]
fn sub_days_raw(year: i32, month: u8, day: u8, days: u64) -> (r: Option<(i32, u8, u8)>)
    ensures
        match r {
            Some(t) => naive_minus_days(year as int, month as int, day as int, days as int)
                == Some((t.0 as int, t.1 as int, t.2 as int)),
            None => naive_minus_days(year as int, month as int, day as int, days as int) is None,
        },
{
    let date = chrono::NaiveDate::from_ymd_opt(year, month as u32, day as u32)?;
    let shifted = date.checked_sub_days(chrono::Days::new(days))?;
    Some((shifted.year(), shifted.month() as u8, shifted.day() as u8))
}

/// Relies on chrono's TimeZone::from_local_datetime on the Local zone,
/// resolved with `single`: the epoch second this calendar timestamp denotes
/// here, or None when the local zone makes it invalid or ambiguous. The
/// answer depends on the machine's zone, so nothing more is claimed of it.
#[verifier::external_body]
fn local_epoch_raw(year: i32, month: u8, day: u8, hour: u8, minute: u8, second: u8) -> (r: Option<
    i64,
>) {
    let date = chrono::NaiveDate::from_ymd_opt(year, month as u32, day as u32)?;
    let time = chrono::NaiveTime::from_hms_opt(hour as u32, minute as u32, second as u32)?;
    let resolved = chrono::Local.from_local_datetime(&date.and_time(time)).single()?;
    Some(resolved.timestamp())
}

/// Relies on chrono's TimeZone::timestamp_opt on the Local zone, resolved
/// with `earliest`: the local calendar rendering of an epoch second. Which
/// instant it names depends on the machine's zone, so no value is claimed;
/// what holds of every outcome is that the accessors deliver a valid
/// calendar time — chrono documents `month` in 1..=12, `day` in 1..=31,
/// `hour` below 24 and `minute`/`second` below 60.
#[verifier::external_body]
fn epoch_local_raw(epoch: i64) -> (r: Option<(i32, u8, u8, u8, u8, u8)>)
    ensures
        r matches Some(t) ==> 1 <= t.1 <= 12 && 1 <= t.2 <= 31 && t.3 < 24 && t.4 < 60 && t.5
            < 60,
{
    let resolved = chrono::Local.timestamp_opt(epoch, 0).earliest()?;
    Some((
        resolved.year(),
        resolved.month() as u8,
        resolved.day() as u8,
        resolved.hour() as u8,
        resolved.minute() as u8,
        resolved.second() as u8,
    ))
}

/// What `toml::value::Datetime`'s FromStr accepts, as plain values: the date
/// triple and the time triple, either of which the text may omit; None when
/// the text is no TOML datetime. A function of the characters alone.
pub uninterp spec fn toml_datetime_of(s: Seq<char>) -> Option<
    (Option<(int, int, int)>, Option<(int, int, int)>),
>;

pub open spec fn raw_datetime_view(raw: (Option<(i32, u8, u8)>, Option<(u8, u8, u8)>)) -> (
    Option<(int, int, int)>,
    Option<(int, int, int)>,
) {
    (
        match raw.0 {
            Some(d) => Some((d.0 as int, d.1 as int, d.2 as int)),
            None => None,
        },
        match raw.1 {
            Some(t) => Some((t.0 as int, t.1 as int, t.2 as int)),
            None => None,
        },
    )
}

/// Relies on the FromStr impl of toml::value::Datetime: parses the TOML
/// datetime grammar. Seconds the text omits read as zero, as TOML defines;
/// any zone offset is dropped, dates being interpreted in the local zone.
#[verifier::external_body]
fn parse_toml_datetime_raw(s: &str) -> (r: Option<(Option<(i32, u8, u8)>, Option<(u8, u8, u8)>)>)
    ensures
        match r {
            Some(raw) => toml_datetime_of(s@) == Some(raw_datetime_view(raw)),
            None => toml_datetime_of(s@) is None,
        },
{
    let dt: toml::value::Datetime = s.parse().ok()?;
    Some((
        dt.date.map(|d| (d.year as i32, d.month, d.day)),
        dt.time.map(|t| (t.hour, t.minute, t.second.unwrap_or(0))),
    ))
}

impl LocalDatetime {
    /// What a parsed TOML datetime means as a course timestamp: the date is
    /// required; a missing time means the end of the day, 23:59:59.
    pub open spec fn spec_of_parts(date: (int, int, int), time: Option<(int, int, int)>)
        -> LocalDatetime {
        LocalDatetime {
            year: date.0 as i32,
            month: date.1 as u8,
            day: date.2 as u8,
            hour: (match time {
                Some(t) => t.0 as u8,
                None => 23u8,
            }),
            minute: (match time {
                Some(t) => t.1 as u8,
                None => 59u8,
            }),
            second: (match time {
                Some(t) => t.2 as u8,
                None => 59u8,
            }),
        }
    }

    /// The epoch second this timestamp denotes in the machine's local zone,
    /// or None when the zone has no single such instant.
    pub fn to_epoch(&self) -> (r: Option<i64>) {
        local_epoch_raw(self.year, self.month, self.day, self.hour, self.minute, self.second)
    }

    /// The local calendar rendering of an epoch second, or None when the
    /// zone cannot render it. Whatever comes back is a valid calendar time;
    /// which one is the zone's business.
    pub fn from_epoch(epoch: i64) -> (r: Option<LocalDatetime>)
        ensures
            r matches Some(d) ==> 1 <= d.month <= 12 && 1 <= d.day <= 31 && d.hour < 24 && d.minute
                < 60 && d.second < 60,
    {
        match epoch_local_raw(epoch) {
            Some(t) => Some(
                LocalDatetime {
                    year: t.0,
                    month: t.1,
                    day: t.2,
                    hour: t.3,
                    minute: t.4,
                    second: t.5,
                },
            ),
            None => None,
        }
    }

    /// This timestamp shifted by whole calendar days, the time of day kept.
    /// The shift is chrono's calendar arithmetic under the names
    /// `naive_plus_days` / `naive_minus_days`.
    pub fn shift_days(&self, offset: i64) -> (r: Option<LocalDatetime>)
        ensures
            match r {
                Some(d) => {
                    &&& (d.hour, d.minute, d.second) == (self.hour, self.minute, self.second)
                    &&& (if offset >= 0 {
                        naive_plus_days(
                            self.year as int,
                            self.month as int,
                            self.day as int,
                            offset as int,
                        )
                    } else {
                        naive_minus_days(
                            self.year as int,
                            self.month as int,
                            self.day as int,
                            -(offset as int),
                        )
                    }) == Some((d.year as int, d.month as int, d.day as int))
                },
                None => (if offset >= 0 {
                    naive_plus_days(
                        self.year as int,
                        self.month as int,
                        self.day as int,
                        offset as int,
                    )
                } else {
                    naive_minus_days(
                        self.year as int,
                        self.month as int,
                        self.day as int,
                        -(offset as int),
                    )
                }) is None,
            },
    {
        let shifted = if offset >= 0 {
            add_days_raw(self.year, self.month, self.day, offset as u64)
        } else {
            let mag: u64 = (-(offset as i128)) as u64;
            sub_days_raw(self.year, self.month, self.day, mag)
        };
        match shifted {
            Some(t) => Some(
                LocalDatetime {
                    year: t.0,
                    month: t.1,
                    day: t.2,
                    hour: self.hour,
                    minute: self.minute,
                    second: self.second,
                },
            ),
            None => None,
        }
    }

    /// Renders a component, padded to two digits when it is one.
    fn two_digits(n: u8) -> (r: String)
        ensures
            r@ == spec_two_digits(n as nat),
    {
        if n < 10 {
            let mut s = String::from_str("0");
            s.append(u64_to_string(n as u64).as_str());
            proof {
                reveal_strlit("0");
                assert(s@ =~= spec_two_digits(n as nat));
            }
            s
        } else {
            u64_to_string(n as u64)
        }
    }

    /// The timestamp as "YYYY-MM-DD HH:MM:SS" (the year unpadded, with a
    /// leading minus when negative).
    pub fn render(&self) -> (r: String)
        ensures
            r@ == self.spec_render(),
    {
        let year = crate::strutil::i64_to_string(self.year as i64);
        let mut s = year;
        s.append("-");
        s.append(Self::two_digits(self.month).as_str());
        s.append("-");
        s.append(Self::two_digits(self.day).as_str());
        s.append(" ");
        s.append(Self::two_digits(self.hour).as_str());
        s.append(":");
        s.append(Self::two_digits(self.minute).as_str());
        s.append(":");
        s.append(Self::two_digits(self.second).as_str());
        proof {
            assert(s@ =~= self.spec_render());
        }
        s
    }

    pub open spec fn spec_render(&self) -> Seq<char> {
        crate::strutil::spec_i64_dec(self.year as int) + "-"@ + spec_two_digits(
            self.month as nat,
        ) + "-"@ + spec_two_digits(self.day as nat) + " "@ + spec_two_digits(
            self.hour as nat,
        ) + ":"@ + spec_two_digits(self.minute as nat) + ":"@ + spec_two_digits(
            self.second as nat,
        )
    }

    /// The date alone, as "YYYY-MM-DD".
    pub fn render_date(&self) -> (r: String)
        ensures
            r@ == self.spec_render_date(),
    {
        let year = crate::strutil::i64_to_string(self.year as i64);
        let mut s = year;
        s.append("-");
        s.append(Self::two_digits(self.month).as_str());
        s.append("-");
        s.append(Self::two_digits(self.day).as_str());
        proof {
            assert(s@ =~= self.spec_render_date());
        }
        s
    }

    pub open spec fn spec_render_date(&self) -> Seq<char> {
        crate::strutil::spec_i64_dec(self.year as int) + "-"@ + spec_two_digits(
            self.month as nat,
        ) + "-"@ + spec_two_digits(self.day as nat)
    }

    /// Whether the time of day is the default due time, 23:59:59.
    pub fn has_default_due_time(&self) -> (r: bool)
        ensures
            r == (self.hour == 23 && self.minute == 59 && self.second == 59),
    {
        self.hour == DEFAULT_DUE_HOUR && self.minute == DEFAULT_DUE_MINUTE && self.second
            == DEFAULT_DUE_SECOND
    }
}

pub open spec fn spec_two_digits(n: nat) -> Seq<char> {
    if n < 10 {
        "0"@ + spec_u64_dec(n)
    } else {
        spec_u64_dec(n)
    }
}

/// An optional date shifted by a signed number of calendar days: nothing
/// stays nothing, and a shift that leaves the representable calendar is a
/// hard error naming the date, never a clamped one.
pub fn offset_date(date: &Option<LocalDatetime>, offset: i64) -> (r: Result<
    Option<LocalDatetime>,
    Error,
>)
    ensures
        match (date, r) {
            (None, Ok(d)) => d is None,
            (Some(d0), Ok(d)) => d matches Some(shifted) && (
                if offset >= 0 {
                    naive_plus_days(d0.year as int, d0.month as int, d0.day as int, offset as int)
                } else {
                    naive_minus_days(
                        d0.year as int,
                        d0.month as int,
                        d0.day as int,
                        -(offset as int),
                    )
                }) == Some((shifted.year as int, shifted.month as int, shifted.day as int)) && (
            shifted.hour, shifted.minute, shifted.second) == (d0.hour, d0.minute, d0.second),
            (Some(d0), Err(e)) => (if offset >= 0 {
                naive_plus_days(d0.year as int, d0.month as int, d0.day as int, offset as int)
            } else {
                naive_minus_days(d0.year as int, d0.month as int, d0.day as int, -(offset as int))
            }) is None && e.description@ == "Date out of range: "@ + d0.spec_render(),
            (None, Err(_)) => false,
        },
{
    match date {
        None => Ok(None),
        Some(d) => match d.shift_days(offset) {
            Some(shifted) => Ok(Some(shifted)),
            None => Err(Error::date_out_of_range(d.render().as_str())),
        },
    }
}

/// Parses a date the way assignment dates are written: any TOML datetime
/// with a date part; a missing time part means 23:59:59. Texts without a
/// date part, like a bare time, are invalid dates.
pub fn parse_date(s: &str) -> (r: Result<LocalDatetime, Error>)
    ensures
        match r {
            Ok(d) => exists|time: Option<(int, int, int)>, date: (int, int, int)|
                toml_datetime_of(s@) == Some((Some(date), time)) && d
                    == LocalDatetime::spec_of_parts(date, time),
            Err(e) => {
                &&& (toml_datetime_of(s@) is None || (toml_datetime_of(s@) matches Some(p)
                    && p.0 is None))
                &&& e.description@ == "Invalid date: "@ + s@
            },
        },
{
    match parse_toml_datetime_raw(s) {
        Some((Some(date), time)) => {
            let d = LocalDatetime {
                year: date.0,
                month: date.1,
                day: date.2,
                hour: match time {
                    Some(t) => t.0,
                    None => DEFAULT_DUE_HOUR,
                },
                minute: match time {
                    Some(t) => t.1,
                    None => DEFAULT_DUE_MINUTE,
                },
                second: match time {
                    Some(t) => t.2,
                    None => DEFAULT_DUE_SECOND,
                },
            };
            proof {
                let ghost rawv = raw_datetime_view((Some(date), time));
                assert(d == LocalDatetime::spec_of_parts(rawv.0->0, rawv.1));
            }
            Ok(d)
        },
        Some((None, _)) => Err(Error::invalid_date(s)),
        None => Err(Error::invalid_date(s)),
    }
}

} // verus!
