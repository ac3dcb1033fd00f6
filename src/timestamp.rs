//! Windows FILETIME values (100-nanosecond intervals since 1601-01-01 UTC),
//! their calendar time, and its `YYYY-MM-DD HH:MM:SS.ffffff` rendering.

use crate::error::{ErrorKind, UsnError};
use crate::fmt::{padded_digits, zero_padded};
use crate::le::{le64, read_u64};
use chrono::{Datelike, Timelike};
use vstd::prelude::*;
use vstd::string::*;

verus! {

/// Microseconds from 1601-01-01 to 1970-01-01.
pub const EPOCH_DIFFERENCE_MICROS: u64 = 11_644_473_600_000_000;

/// Days from 1970-01-01 to the given proleptic Gregorian date.
pub open spec fn days_from_civil(y: int, m: int, d: int) -> int {
    let yy = if m <= 2 {
        y - 1
    } else {
        y
    };
    let era = yy / 400;
    let yoe = yy - era * 400;
    let mp = if m > 2 {
        m - 3
    } else {
        m + 9
    };
    let doy = (153 * mp + 2) / 5 + d - 1;
    let doe = yoe * 365 + yoe / 4 - yoe / 100 + doy;
    era * 146097 + doe - 719468
}

pub open spec fn is_leap_year(y: int) -> bool {
    (y % 4 == 0 && y % 100 != 0) || y % 400 == 0
}

pub open spec fn days_in_month(y: int, m: int) -> int {
    if m == 2 {
        if is_leap_year(y) {
            29
        } else {
            28
        }
    } else if m == 4 || m == 6 || m == 9 || m == 11 {
        30
    } else {
        31
    }
}

/// A UTC calendar time to the microsecond.
#[derive(Clone, Copy, Debug, PartialEq, Eq, Structural)]
pub struct DateTime {
    pub year: i32,
    pub month: u32,
    pub day: u32,
    pub hour: u32,
    pub minute: u32,
    pub second: u32,
    pub microsecond: u32,
}

impl DateTime {
    /// Every field is in its range.
    pub open spec fn wf(&self) -> bool {
        &&& 1 <= self.month <= 12
        &&& 1 <= self.day <= days_in_month(self.year as int, self.month as int)
        &&& self.hour < 24
        &&& self.minute < 60
        &&& self.second < 60
        &&& self.microsecond < 1_000_000
    }

    /// Microseconds since 1970-01-01 00:00:00 UTC.
    pub open spec fn unix_micros(&self) -> int {
        days_from_civil(self.year as int, self.month as int, self.day as int) * 86_400_000_000
            + self.hour * 3_600_000_000 + self.minute * 60_000_000 + self.second * 1_000_000
            + self.microsecond
    }

    /// `YYYY-MM-DD HH:MM:SS.ffffff`.
    pub open spec fn spec_format(&self) -> Seq<char> {
        padded_digits(self.year as nat, 4) + seq!['-'] + padded_digits(self.month as nat, 2)
            + seq!['-'] + padded_digits(self.day as nat, 2) + seq![' '] + padded_digits(
            self.hour as nat,
            2,
        ) + seq![':'] + padded_digits(self.minute as nat, 2) + seq![':'] + padded_digits(
            self.second as nat,
            2,
        ) + seq!['.'] + padded_digits(self.microsecond as nat, 6)
    }

    /// The time as `YYYY-MM-DD HH:MM:SS.ffffff`.
    pub fn to_string(&self) -> (r: String)
        requires
            self.year >= 0,
        ensures
            r@ == self.spec_format(),
    {
        proof {
            reveal_strlit("-");
            reveal_strlit(" ");
            reveal_strlit(":");
            reveal_strlit(".");
        }
        let mut s = zero_padded(self.year as u64, 4);
        s.append("-");
        s.append(zero_padded(self.month as u64, 2).as_str());
        s.append("-");
        s.append(zero_padded(self.day as u64, 2).as_str());
        s.append(" ");
        s.append(zero_padded(self.hour as u64, 2).as_str());
        s.append(":");
        s.append(zero_padded(self.minute as u64, 2).as_str());
        s.append(":");
        s.append(zero_padded(self.second as u64, 2).as_str());
        s.append(".");
        s.append(zero_padded(self.microsecond as u64, 6).as_str());
        s
    }
}

/// Relies on chrono's `DateTime::<Utc>::from_timestamp_micros`: the UTC
/// calendar time `micros` microseconds after 1970-01-01, or `None` only more
/// than about 262,000 years from the common era, so never for a time from
/// 1601 to the year 60056 (the range of a FILETIME), whose year is then at
/// least 1601; the fields are read with `Datelike`, `Timelike` and
/// `timestamp_subsec_micros`.
#[verifier::external_body]
fn utc_from_unix_micros(micros: i64) -> (r: Option<DateTime>)
    ensures
        r is Some ==> r->Some_0.wf() && r->Some_0.unix_micros() == micros,
        -11_644_473_600_000_000 <= micros <= 1_833_029_933_770_955_161 ==> r is Some
            && r->Some_0.year >= 1601,
{
    chrono::DateTime::from_timestamp_micros(micros).map(
        |t| DateTime {
            year: t.year(),
            month: t.month(),
            day: t.day(),
            hour: t.hour(),
            minute: t.minute(),
            second: t.second(),
            microsecond: t.timestamp_subsec_micros(),
        },
    )
}

/// Reads a FILETIME from its eight little-endian bytes.
pub fn raw_to_wintimestamp(raw: &[u8]) -> (r: Result<WinTimestamp, UsnError>)
    ensures
        match r {
            Ok(t) => raw@.len() >= 8 && t.0 == le64(raw@, 0),
            Err(e) => raw@.len() < 8 && e.kind == ErrorKind::IoError,
        },
{
    if raw.len() < 8 {
        Err(UsnError::io_error(String::from_str("failed to fill whole buffer")))
    } else {
        Ok(WinTimestamp(read_u64(raw, 0)))
    }
}

/// A raw FILETIME.
#[derive(Clone, Copy, Debug, PartialEq, Eq, Structural)]
pub struct WinTimestamp(pub u64);

impl WinTimestamp {
    pub fn new(u64_int: u64) -> (r: WinTimestamp)
        ensures
            r.0 == u64_int,
    {
        WinTimestamp(u64_int)
    }

    /// Whole microseconds since 1601-01-01 00:00:00 UTC.
    pub fn micros_since_epoch(&self) -> (r: u64)
        ensures
            r == self.0 / 10,
    {
        self.0 / 10
    }

    /// Whole microseconds since 1970-01-01 00:00:00 UTC (negative before it).
    pub fn unix_micros(&self) -> (r: i64)
        ensures
            r == self.0 / 10 - EPOCH_DIFFERENCE_MICROS,
    {
        (self.0 / 10) as i64 - EPOCH_DIFFERENCE_MICROS as i64
    }

    /// The calendar time, truncated to the microsecond.
    pub fn to_datetime(&self) -> (r: DateTime)
        ensures
            r.wf(),
            r.unix_micros() == self.0 / 10 - EPOCH_DIFFERENCE_MICROS,
            r.year >= 1601,
    {
        utc_from_unix_micros(self.unix_micros()).unwrap()
    }

    /// The time as `YYYY-MM-DD HH:MM:SS.ffffff`: the rendering of the valid
    /// calendar time that lies `self.0 / 10 - EPOCH_DIFFERENCE_MICROS`
    /// microseconds from 1970-01-01.
    pub fn to_string(&self) -> (r: String)
        ensures
            exists|dt: DateTime|
                dt.wf() && dt.unix_micros() == self.0 / 10 - EPOCH_DIFFERENCE_MICROS && dt.year
                    >= 1601 && r@ == #[trigger] dt.spec_format(),
    {
        let dt = self.to_datetime();
        dt.to_string()
    }
}

} // verus!
