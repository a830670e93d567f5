//! Bridge to the timezone database: recognizing IANA zone names, resolving a
//! local civil time in a zone to a UNIX timestamp, and projecting a UNIX
//! timestamp into a zone to read its local calendar year.
//!
//! The timezone database is compiled into `chrono_tz`, so each of these is a
//! fixed function of its arguments.

use vstd::prelude::*;
use chrono::{Datelike, TimeZone};

verus! {

/// Whether `chrono_tz` recognizes a string as a zone name in its table.
pub uninterp spec fn tz_recognized(name: Seq<char>) -> bool;

/// The UNIX timestamp that a civil time (year, month, day, hour, minute,
/// second) in the named zone resolves to, or `None` when the civil time is
/// invalid, falls in a transition gap, or is ambiguous in that zone.
pub uninterp spec fn civil_timestamp_of(
    name: Seq<char>,
    year: int,
    month: int,
    day: int,
    hour: int,
    minute: int,
    second: int,
) -> Option<int>;

/// The calendar year of a UNIX timestamp projected into the named zone.
pub uninterp spec fn local_year_of(name: Seq<char>, timestamp: int) -> int;

/// Timestamps this far from the epoch stay inside the range the timezone
/// library can project (about 260,000 years either way).
pub open spec fn timestamp_in_range(timestamp: int) -> bool {
    -8000000000000 <= timestamp <= 8000000000000
}

/// Relies on `chrono_tz::Tz::from_str`, which looks the name up in the
/// compiled-in table of IANA zone names.
#[verifier::external_body]
pub(crate) fn timezone_recognized(name: &str) -> (b: bool)
    ensures
        b == tz_recognized(name@),
{
    name.parse::<chrono_tz::Tz>().is_ok()
}

/// Relies on chrono's `TimeZone::with_ymd_and_hms` on a `chrono_tz::Tz`: it
/// returns the unique instant with that civil time in the zone, and nothing
/// when the civil time is invalid, in a gap, or ambiguous; `.single()` and
/// `DateTime::timestamp` convert the outcome to a plain value.
#[verifier::external_body]
pub(crate) fn civil_to_timestamp(
    name: &str,
    year: i32,
    month: u32,
    day: u32,
    hour: u32,
    minute: u32,
    second: u32,
) -> (r: Option<i64>)
    requires
        tz_recognized(name@),
    ensures
        r is Some <==> civil_timestamp_of(
            name@,
            year as int,
            month as int,
            day as int,
            hour as int,
            minute as int,
            second as int,
        ) is Some,
        r matches Some(t) ==> civil_timestamp_of(
            name@,
            year as int,
            month as int,
            day as int,
            hour as int,
            minute as int,
            second as int,
        ) == Some(t as int),
{
    let tz: chrono_tz::Tz = match name.parse() {
        Ok(tz) => tz,
        Err(_) => return None,
    };
    tz.with_ymd_and_hms(year, month, day, hour, minute, second).single().map(|d| d.timestamp())
}

/// Relies on chrono's `TimeZone::timestamp_opt` on a `chrono_tz::Tz`, which
/// maps an in-range UNIX timestamp to the unique local datetime in the zone,
/// and `Datelike::year`, which reads that datetime's calendar year.
#[verifier::external_body]
pub(crate) fn local_year(name: &str, timestamp: i64) -> (y: i32)
    requires
        tz_recognized(name@),
        timestamp_in_range(timestamp as int),
    ensures
        y as int == local_year_of(name@, timestamp as int),
{
    let tz: chrono_tz::Tz = name.parse().unwrap();
    tz.timestamp_opt(timestamp, 0).unwrap().year()
}

} // verus!
