//! The quarter calendar: the fixed table of four calendar quarters, their
//! resolution against a year and a timezone into concrete intervals of UNIX
//! timestamps, and the lookup of the quarter containing a given instant.
//!
//! Quarter boundaries are civil times in the chosen zone, so the same absolute
//! instant can fall in different quarters in different zones. A resolved
//! quarter's stored `end` is the last second inside it: the interval is
//! `[start, end]` at second granularity, and durations use the exclusive end
//! `end + 1`.

use vstd::prelude::*;
use vstd::arithmetic::div_mod::lemma_multiply_divide_lt;
use crate::tz::{
    tz_recognized, civil_timestamp_of, local_year_of, timestamp_in_range, timezone_recognized,
    civil_to_timestamp, local_year,
};
use crate::duration::{QuarterDuration, spec_weeks, spec_days, spec_hours, spec_minutes,
    spec_seconds};
use crate::text::{ascii_view, spec_decimal, spec_int_str, push_decimal, ascii_string,
    lemma_ascii_view_push};

verus! {

/// A recurring civil point in the year: month, day, hour, minute and second,
/// with no year bound yet.
#[derive(Clone, Copy)]
pub struct Date {
    pub month: u32,
    pub day: u32,
    pub hour: u32,
    pub min: u32,
    pub sec: u32,
}

/// Why a quarter computation failed.
#[derive(Clone, Copy, PartialEq, Eq, Structural, Debug)]
pub enum QuarterError {
    /// The timezone identifier is not a recognized IANA zone name.
    InvalidTimezone,
    /// A civil-time boundary failed to resolve to an instant in the zone, or
    /// the resolved boundaries do not chain into a well-formed year.
    InvalidCivilTime,
    /// The four quarters of the derived year do not cover the instant.
    NotFound,
}

/// The timestamp the given civil-time template resolves to in a year and zone.
pub open spec fn spec_civil_of(tz: Seq<char>, year: int, d: Date) -> Option<int> {
    civil_timestamp_of(tz, year, d.month as int, d.day as int, d.hour as int, d.min as int,
        d.sec as int)
}

impl Date {
    /// Resolves this civil time in the given year and zone.
    fn to_timestamp(self, year: i32, timezone: &str) -> (r: Option<i64>)
        requires
            tz_recognized(timezone@),
        ensures
            r is Some <==> spec_civil_of(timezone@, year as int, self) is Some,
            r matches Some(t) ==> spec_civil_of(timezone@, year as int, self) == Some(t as int),
    {
        civil_to_timestamp(timezone, year, self.month, self.day, self.hour, self.min, self.sec)
    }
}

/// A quarter template: its number and its civil start and end, not yet bound
/// to a year.
#[derive(Clone, Copy)]
pub struct IncompleteQuarter {
    pub number: u8,
    pub start: Date,
    pub end: Date,
}

/// The fixed table of the four calendar quarters, by index 0 to 3.
pub open spec fn spec_template(i: int) -> IncompleteQuarter {
    if i == 0 {
        IncompleteQuarter {
            number: 1,
            start: Date { month: 1, day: 1, hour: 0, min: 0, sec: 0 },
            end: Date { month: 3, day: 31, hour: 23, min: 59, sec: 59 },
        }
    } else if i == 1 {
        IncompleteQuarter {
            number: 2,
            start: Date { month: 4, day: 1, hour: 0, min: 0, sec: 0 },
            end: Date { month: 6, day: 30, hour: 23, min: 59, sec: 59 },
        }
    } else if i == 2 {
        IncompleteQuarter {
            number: 3,
            start: Date { month: 7, day: 1, hour: 0, min: 0, sec: 0 },
            end: Date { month: 9, day: 30, hour: 23, min: 59, sec: 59 },
        }
    } else {
        IncompleteQuarter {
            number: 4,
            start: Date { month: 10, day: 1, hour: 0, min: 0, sec: 0 },
            end: Date { month: 12, day: 31, hour: 23, min: 59, sec: 59 },
        }
    }
}

/// The static lookup table of the four quarters, in order.
pub fn quarter_templates() -> (qs: Vec<IncompleteQuarter>)
    ensures
        qs@.len() == 4,
        forall|i: int| 0 <= i < 4 ==> qs@[i] == spec_template(i),
{
    let mut qs: Vec<IncompleteQuarter> = Vec::new();
    qs.push(
        IncompleteQuarter {
            number: 1,
            start: Date { month: 1, day: 1, hour: 0, min: 0, sec: 0 },
            end: Date { month: 3, day: 31, hour: 23, min: 59, sec: 59 },
        },
    );
    qs.push(
        IncompleteQuarter {
            number: 2,
            start: Date { month: 4, day: 1, hour: 0, min: 0, sec: 0 },
            end: Date { month: 6, day: 30, hour: 23, min: 59, sec: 59 },
        },
    );
    qs.push(
        IncompleteQuarter {
            number: 3,
            start: Date { month: 7, day: 1, hour: 0, min: 0, sec: 0 },
            end: Date { month: 9, day: 30, hour: 23, min: 59, sec: 59 },
        },
    );
    qs.push(
        IncompleteQuarter {
            number: 4,
            start: Date { month: 10, day: 1, hour: 0, min: 0, sec: 0 },
            end: Date { month: 12, day: 31, hour: 23, min: 59, sec: 59 },
        },
    );
    qs
}

/// A quarter bound to a year and zone: its number and the UNIX timestamps of
/// its first and last contained second.
#[derive(Clone, Copy, Debug)]
pub struct Quarter {
    pub number: u8,
    pub start: i64,
    pub end: i64,
}

impl Quarter {
    /// A well-formed quarter: numbered 1 to 4, at least one second long, and
    /// short enough that its length fits an `i64`.
    pub open spec fn wf(self) -> bool {
        &&& 1 <= self.number <= 4
        &&& self.start <= self.end
        &&& self.end - self.start + 1 <= i64::MAX
    }

    /// Containment at second granularity: `start <= ts < end + 1`.
    pub open spec fn spec_contains(self, ts: int) -> bool {
        self.start <= ts <= self.end
    }

    /// Whether the instant falls inside this quarter's interval.
    pub fn is_timestamp_in_quarter(&self, timestamp: i64) -> (b: bool)
        ensures
            b == self.spec_contains(timestamp as int),
    {
        self.start <= timestamp && timestamp <= self.end
    }

    /// The quarter's length in seconds, from its start to its exclusive end.
    pub fn duration(&self) -> (d: i64)
        requires
            self.wf(),
        ensures
            d == self.end - self.start + 1,
            1 <= d,
    {
        self.end - self.start + 1
    }
}

/// The pair of timestamps a template resolves to, when both of its boundaries
/// resolve in the year and zone.
pub open spec fn spec_resolution(tz: Seq<char>, year: int, t: IncompleteQuarter) -> Option<
    (int, int),
> {
    match (spec_civil_of(tz, year, t.start), spec_civil_of(tz, year, t.end)) {
        (Some(s), Some(e)) => Some((s, e)),
        _ => None,
    }
}

/// The resolved start of quarter `i` (meaningful when it resolves).
pub open spec fn spec_start(tz: Seq<char>, year: int, i: int) -> int {
    spec_resolution(tz, year, spec_template(i))->Some_0.0
}

/// The resolved end of quarter `i` (meaningful when it resolves).
pub open spec fn spec_end(tz: Seq<char>, year: int, i: int) -> int {
    spec_resolution(tz, year, spec_template(i))->Some_0.1
}

/// All four templates resolve in the year and zone, each quarter is well
/// formed, and consecutive quarters abut exactly: each one's exclusive end is
/// the next one's start.
pub open spec fn spec_chain_ok(tz: Seq<char>, year: int) -> bool {
    &&& spec_resolution(tz, year, spec_template(0)) is Some
    &&& spec_resolution(tz, year, spec_template(1)) is Some
    &&& spec_resolution(tz, year, spec_template(2)) is Some
    &&& spec_resolution(tz, year, spec_template(3)) is Some
    &&& spec_start(tz, year, 0) <= spec_end(tz, year, 0)
    &&& spec_start(tz, year, 1) <= spec_end(tz, year, 1)
    &&& spec_start(tz, year, 2) <= spec_end(tz, year, 2)
    &&& spec_start(tz, year, 3) <= spec_end(tz, year, 3)
    &&& spec_end(tz, year, 0) - spec_start(tz, year, 0) + 1 <= i64::MAX
    &&& spec_end(tz, year, 1) - spec_start(tz, year, 1) + 1 <= i64::MAX
    &&& spec_end(tz, year, 2) - spec_start(tz, year, 2) + 1 <= i64::MAX
    &&& spec_end(tz, year, 3) - spec_start(tz, year, 3) + 1 <= i64::MAX
    &&& spec_end(tz, year, 0) + 1 == spec_start(tz, year, 1)
    &&& spec_end(tz, year, 1) + 1 == spec_start(tz, year, 2)
    &&& spec_end(tz, year, 2) + 1 == spec_start(tz, year, 3)
}

/// A well-formed resolved set: four well-formed quarters numbered in order
/// whose intervals abut exactly.
pub open spec fn spec_quarter_set_wf(qs: Seq<Quarter>) -> bool {
    &&& qs.len() == 4
    &&& (forall|i: int| 0 <= i < 4 ==> (#[trigger] qs[i]).wf())
    &&& (forall|i: int| 0 <= i < 4 ==> (#[trigger] qs[i]).number == i + 1)
    &&& (forall|i: int| 0 <= i < 3 ==> (#[trigger] qs[i]).end + 1 == qs[i + 1].start)
}

impl IncompleteQuarter {
    /// Binds this template to a year in the named zone.
    pub fn to_quarter(self, year: i32, timezone: &str) -> (r: Result<Quarter, QuarterError>)
        ensures
            (r == Err::<Quarter, QuarterError>(QuarterError::InvalidTimezone)) <==> !tz_recognized(
                timezone@,
            ),
            tz_recognized(timezone@) ==> ((r == Err::<Quarter, QuarterError>(
                QuarterError::InvalidCivilTime,
            )) <==> spec_resolution(timezone@, year as int, self) is None),
            r matches Ok(q) ==> q.number == self.number && spec_resolution(
                timezone@,
                year as int,
                self,
            ) == Some((q.start as int, q.end as int)),
            r is Ok <==> tz_recognized(timezone@) && spec_resolution(
                timezone@,
                year as int,
                self,
            ) is Some,
    {
        if !timezone_recognized(timezone) {
            return Err(QuarterError::InvalidTimezone);
        }
        let s = match self.start.to_timestamp(year, timezone) {
            Some(s) => s,
            None => return Err(QuarterError::InvalidCivilTime),
        };
        let e = match self.end.to_timestamp(year, timezone) {
            Some(e) => e,
            None => return Err(QuarterError::InvalidCivilTime),
        };
        Ok(Quarter { number: self.number, start: s, end: e })
    }
}

/// Binds each of the four templates to `year` in the named zone, and checks
/// that the results form a well-formed, abutting set.
pub fn resolve_quarters(year: i32, timezone: &str) -> (r: Result<Vec<Quarter>, QuarterError>)
    ensures
        (r == Err::<Vec<Quarter>, QuarterError>(QuarterError::InvalidTimezone)) <==> !tz_recognized(
            timezone@,
        ),
        tz_recognized(timezone@) ==> ((r == Err::<Vec<Quarter>, QuarterError>(
            QuarterError::InvalidCivilTime,
        )) <==> !spec_chain_ok(timezone@, year as int)),
        r is Ok <==> tz_recognized(timezone@) && spec_chain_ok(timezone@, year as int),
        r matches Ok(qs) ==> ({
            &&& spec_quarter_set_wf(qs@)
            &&& (forall|i: int| 0 <= i < 4 ==> Some(
                ((#[trigger] qs@[i]).start as int, qs@[i].end as int),
            ) == spec_resolution(timezone@, year as int, spec_template(i)))
        }),
{
    let templates = quarter_templates();
    let q1 = match templates[0].to_quarter(year, timezone) {
        Ok(q) => q,
        Err(e) => return Err(e),
    };
    let q2 = match templates[1].to_quarter(year, timezone) {
        Ok(q) => q,
        Err(e) => return Err(e),
    };
    let q3 = match templates[2].to_quarter(year, timezone) {
        Ok(q) => q,
        Err(e) => return Err(e),
    };
    let q4 = match templates[3].to_quarter(year, timezone) {
        Ok(q) => q,
        Err(e) => return Err(e),
    };
    let chained = q1.start <= q1.end && q2.start <= q2.end && q3.start <= q3.end && q4.start
        <= q4.end && (q1.end as i128) - (q1.start as i128) < i64::MAX as i128 && (q2.end as i128)
        - (q2.start as i128) < i64::MAX as i128 && (q3.end as i128) - (q3.start as i128)
        < i64::MAX as i128 && (q4.end as i128) - (q4.start as i128) < i64::MAX as i128
        && (q2.start as i128) == (q1.end as i128) + 1 && (q3.start as i128) == (q2.end as i128) + 1
        && (q4.start as i128) == (q3.end as i128) + 1;
    if !chained {
        return Err(QuarterError::InvalidCivilTime);
    }
    let mut qs: Vec<Quarter> = Vec::new();
    qs.push(q1);
    qs.push(q2);
    qs.push(q3);
    qs.push(q4);
    proof {
        assert(qs@ =~= seq![q1, q2, q3, q4]);
    }
    Ok(qs)
}

/// The quarter that contains a reference instant, together with that instant
/// and the local calendar year it was resolved in.
#[derive(Clone, Copy, Debug)]
pub struct CurrentQuarter {
    pub quarter: Quarter,
    pub timestamp: i64,
    pub year: i32,
}

impl CurrentQuarter {
    /// A well-formed view: the quarter is well formed and contains the
    /// reference instant.
    pub open spec fn wf(self) -> bool {
        &&& self.quarter.wf()
        &&& self.quarter.spec_contains(self.timestamp as int)
    }

    /// Seconds elapsed from the quarter's start to the reference instant.
    pub open spec fn spec_elapsed(self) -> int {
        self.timestamp - self.quarter.start
    }

    /// Seconds from the reference instant to the quarter's exclusive end.
    pub open spec fn spec_remaining(self) -> int {
        self.quarter.end + 1 - self.timestamp
    }

    /// The quarter's full length in seconds.
    pub open spec fn spec_total(self) -> int {
        self.quarter.end - self.quarter.start + 1
    }

    /// Finds the quarter containing `timestamp`: derives the calendar year of
    /// `timestamp` in the named zone, resolves that year's four quarters, and
    /// returns the one whose interval contains the instant.
    pub fn new(timestamp: i64, timezone: &str) -> (r: Result<CurrentQuarter, QuarterError>)
        requires
            timestamp_in_range(timestamp as int),
        ensures
            (r == Err::<CurrentQuarter, QuarterError>(QuarterError::InvalidTimezone))
                <==> !tz_recognized(timezone@),
            tz_recognized(timezone@) ==> ((r == Err::<CurrentQuarter, QuarterError>(
                QuarterError::InvalidCivilTime,
            )) <==> !spec_chain_ok(timezone@, local_year_of(timezone@, timestamp as int))),
            tz_recognized(timezone@) && spec_chain_ok(
                timezone@,
                local_year_of(timezone@, timestamp as int),
            ) ==> ({
                let y = local_year_of(timezone@, timestamp as int);
                &&& (r is Ok <==> spec_start(timezone@, y, 0) <= timestamp as int <= spec_end(
                    timezone@,
                    y,
                    3,
                ))
                &&& ((r == Err::<CurrentQuarter, QuarterError>(QuarterError::NotFound)) <==> !(
                spec_start(timezone@, y, 0) <= timestamp as int <= spec_end(timezone@, y, 3)))
            }),
            r matches Ok(cq) ==> ({
                let y = local_year_of(timezone@, timestamp as int);
                &&& cq.wf()
                &&& cq.timestamp == timestamp
                &&& cq.year as int == y
                &&& exists|i: int|
                    0 <= i < 4 && cq.quarter.number == i + 1 && Some(
                        (cq.quarter.start as int, cq.quarter.end as int),
                    ) == spec_resolution(timezone@, y, spec_template(i))
                        && cq.quarter.spec_contains(timestamp as int)
            }),
    {
        if !timezone_recognized(timezone) {
            return Err(QuarterError::InvalidTimezone);
        }
        let year = local_year(timezone, timestamp);
        let qs = match resolve_quarters(year, timezone) {
            Ok(qs) => qs,
            Err(e) => return Err(e),
        };
        let q0 = qs[0];
        let q1 = qs[1];
        let q2 = qs[2];
        let q3 = qs[3];
        if q0.is_timestamp_in_quarter(timestamp) {
            Ok(CurrentQuarter { quarter: q0, timestamp, year })
        } else if q1.is_timestamp_in_quarter(timestamp) {
            Ok(CurrentQuarter { quarter: q1, timestamp, year })
        } else if q2.is_timestamp_in_quarter(timestamp) {
            Ok(CurrentQuarter { quarter: q2, timestamp, year })
        } else if q3.is_timestamp_in_quarter(timestamp) {
            Ok(CurrentQuarter { quarter: q3, timestamp, year })
        } else {
            Err(QuarterError::NotFound)
        }
    }

    /// Seconds elapsed since the quarter's start.
    fn duration_since_start(&self) -> (d: i64)
        requires
            self.wf(),
        ensures
            d == self.spec_elapsed(),
            0 <= d < self.spec_total(),
    {
        self.timestamp - self.quarter.start
    }

    /// Seconds left until the quarter's exclusive end.
    fn duration_left(&self) -> (d: i64)
        requires
            self.wf(),
        ensures
            d == self.spec_remaining(),
            1 <= d <= self.spec_total(),
    {
        (self.quarter.end - self.timestamp) + 1
    }

    /// The elapsed part of the quarter, broken down into calendar units.
    pub fn pretty_duration_since_start(&self) -> (r: QuarterDuration)
        requires
            self.wf(),
        ensures
            r.weeks == spec_weeks(self.spec_elapsed()),
            r.days == spec_days(self.spec_elapsed()),
            r.hours == spec_hours(self.spec_elapsed()),
            r.minutes == spec_minutes(self.spec_elapsed()),
            r.seconds == spec_seconds(self.spec_elapsed()),
    {
        let d = self.duration_since_start();
        QuarterDuration::from_seconds(d as u64)
    }

    /// The remaining part of the quarter, broken down into calendar units.
    pub fn pretty_duration_left(&self) -> (r: QuarterDuration)
        requires
            self.wf(),
        ensures
            r.weeks == spec_weeks(self.spec_remaining()),
            r.days == spec_days(self.spec_remaining()),
            r.hours == spec_hours(self.spec_remaining()),
            r.minutes == spec_minutes(self.spec_remaining()),
            r.seconds == spec_seconds(self.spec_remaining()),
    {
        let d = self.duration_left();
        QuarterDuration::from_seconds(d as u64)
    }

    /// Progress through the quarter in millionths of a percent, rounded down:
    /// `100_000_000 * elapsed / total`. Always below one hundred percent,
    /// since the reference instant lies strictly before the exclusive end.
    pub open spec fn spec_percentage(self) -> int {
        (100000000 * self.spec_elapsed()) / self.spec_total()
    }

    /// Completed fraction of the quarter, in millionths of a percent.
    pub fn percentage_completed(&self) -> (p: u64)
        requires
            self.wf(),
        ensures
            p == self.spec_percentage(),
            0 <= p < 100000000,
    {
        let elapsed = self.duration_since_start();
        let total = self.quarter.end - self.quarter.start + 1;
        let num: u128 = 100000000u128 * (elapsed as u128);
        let p128: u128 = num / (total as u128);
        proof {
            assert(100000000 * self.spec_elapsed() < self.spec_total() * 100000000)
                by (nonlinear_arith)
                requires
                    0 <= self.spec_elapsed() < self.spec_total(),
            ;
            lemma_multiply_divide_lt(100000000 * self.spec_elapsed(), self.spec_total(), 100000000);
        }
        p128 as u64
    }

    /// The display name: `"Q{number} {year}"`.
    pub open spec fn spec_name(self) -> Seq<char> {
        seq!['Q'] + spec_decimal(self.quarter.number as int) + seq![' '] + spec_int_str(
            self.year as int,
        )
    }

    /// Renders the display name of the quarter, `"Q{number} {year}"`.
    pub fn name(&self) -> (r: String)
        ensures
            r@ == self.spec_name(),
    {
        let mut out: Vec<u8> = Vec::new();
        out.push(81);
        proof {
            assert(ascii_view(out@) =~= seq!['Q']);
        }
        push_decimal(&mut out, self.quarter.number as u64);
        let ghost before_space = out@;
        out.push(32);
        proof {
            lemma_ascii_view_push(before_space, 32);
        }
        let y: i64 = self.year as i64;
        if y < 0 {
            let ghost before_sign = out@;
            out.push(45);
            proof {
                lemma_ascii_view_push(before_sign, 45);
            }
            push_decimal(&mut out, (-y) as u64);
        } else {
            push_decimal(&mut out, y as u64);
        }
        proof {
            assert(ascii_view(out@) =~= self.spec_name());
        }
        ascii_string(out)
    }
}

/// The four resolved quarters of a year partition their span: no instant lies
/// in two of them, and every instant from the first quarter's start to the
/// last quarter's end lies in one of them.
pub proof fn lemma_quarters_partition(qs: Seq<Quarter>, ts: int)
    requires
        spec_quarter_set_wf(qs),
    ensures
        forall|i: int, j: int|
            0 <= i < 4 && 0 <= j < 4 && i != j ==> !((#[trigger] qs[i]).spec_contains(ts) && (
            #[trigger] qs[j]).spec_contains(ts)),
        qs[0].start <= ts <= qs[3].end ==> exists|i: int|
            0 <= i < 4 && (#[trigger] qs[i]).spec_contains(ts),
{
    assert(qs[0].wf() && qs[1].wf() && qs[2].wf() && qs[3].wf());
    assert(qs[0].end + 1 == qs[1].start);
    assert(qs[1].end + 1 == qs[2].start);
    assert(qs[2].end + 1 == qs[3].start);
    if qs[0].start <= ts <= qs[3].end {
        if ts <= qs[0].end {
            assert(qs[0].spec_contains(ts));
        } else if ts <= qs[1].end {
            assert(qs[1].spec_contains(ts));
        } else if ts <= qs[2].end {
            assert(qs[2].spec_contains(ts));
        } else {
            assert(qs[3].spec_contains(ts));
        }
    }
}

} // verus!
