use quarter_progress::quarters::CurrentQuarter;
use quarter_progress::quarters::Date;
use quarter_progress::quarters::IncompleteQuarter;
use quarter_progress::quarters::Quarter;
use quarter_progress::quarters::QuarterError;
use quarter_progress::quarters::quarter_templates;
use quarter_progress::quarters::resolve_quarters;

const Q1_2024_START: i64 = 1704067200; // 2024-01-01T00:00:00 UTC
const Q2_2024_START: i64 = 1711929600; // 2024-04-01T00:00:00 UTC
const Q3_2024_START: i64 = 1719792000; // 2024-07-01T00:00:00 UTC
const Q4_2024_START: i64 = 1727740800; // 2024-10-01T00:00:00 UTC
const Q1_2025_START: i64 = 1735689600; // 2025-01-01T00:00:00 UTC

#[test]
fn templates_cover_the_year_in_order() {
    let ts = quarter_templates();
    assert_eq!(ts.len(), 4);
    for (i, t) in ts.iter().enumerate() {
        assert_eq!(t.number as usize, i + 1);
        assert_eq!(t.start.hour, 0);
        assert_eq!(t.start.min, 0);
        assert_eq!(t.start.sec, 0);
        assert_eq!(t.end.hour, 23);
        assert_eq!(t.end.min, 59);
        assert_eq!(t.end.sec, 59);
    }
    assert_eq!(ts[0].start.month, 1);
    assert_eq!(ts[3].end.month, 12);
    assert_eq!(ts[3].end.day, 31);
}

#[test]
fn resolve_utc_2024() {
    let qs = resolve_quarters(2024, "UTC").unwrap();
    assert_eq!(qs.len(), 4);
    let starts = [Q1_2024_START, Q2_2024_START, Q3_2024_START, Q4_2024_START];
    let ends = [Q2_2024_START - 1, Q3_2024_START - 1, Q4_2024_START - 1, Q1_2025_START - 1];
    for i in 0..4 {
        assert_eq!(qs[i].number as usize, i + 1);
        assert_eq!(qs[i].start, starts[i]);
        assert_eq!(qs[i].end, ends[i]);
    }
    for i in 0..3 {
        assert_eq!(qs[i].end + 1, qs[i + 1].start);
    }
}

#[test]
fn resolve_unknown_zone_fails() {
    assert_eq!(resolve_quarters(2024, "Not/AZone").unwrap_err(), QuarterError::InvalidTimezone);
    assert_eq!(
        CurrentQuarter::new(Q1_2024_START, "utc").unwrap_err(),
        QuarterError::InvalidTimezone
    );
}

#[test]
fn invalid_civil_time_is_rejected() {
    // February 30th does not exist.
    let t = IncompleteQuarter {
        number: 1,
        start: Date { month: 2, day: 30, hour: 0, min: 0, sec: 0 },
        end: Date { month: 3, day: 1, hour: 0, min: 0, sec: 0 },
    };
    assert_eq!(t.to_quarter(2024, "UTC").unwrap_err(), QuarterError::InvalidCivilTime);
}

#[test]
fn dst_gap_and_ambiguity_are_rejected() {
    // 2024-03-10 02:30 never happens in New York (spring forward skips it).
    let gap = IncompleteQuarter {
        number: 1,
        start: Date { month: 3, day: 10, hour: 2, min: 30, sec: 0 },
        end: Date { month: 6, day: 1, hour: 0, min: 0, sec: 0 },
    };
    assert_eq!(
        gap.to_quarter(2024, "America/New_York").unwrap_err(),
        QuarterError::InvalidCivilTime
    );
    // 2024-11-03 01:30 happens twice in New York (fall back repeats it).
    let ambiguous = IncompleteQuarter {
        number: 1,
        start: Date { month: 11, day: 3, hour: 1, min: 30, sec: 0 },
        end: Date { month: 12, day: 1, hour: 0, min: 0, sec: 0 },
    };
    assert_eq!(
        ambiguous.to_quarter(2024, "America/New_York").unwrap_err(),
        QuarterError::InvalidCivilTime
    );
}

#[test]
fn containment_is_inclusive_of_both_stored_bounds() {
    let q = Quarter { number: 1, start: 100, end: 199 };
    assert!(!q.is_timestamp_in_quarter(99));
    assert!(q.is_timestamp_in_quarter(100));
    assert!(q.is_timestamp_in_quarter(199));
    assert!(!q.is_timestamp_in_quarter(200));
    assert_eq!(q.duration(), 100);
}

#[test]
fn start_of_q1_utc() {
    let cq = CurrentQuarter::new(Q1_2024_START, "UTC").unwrap();
    assert_eq!(cq.quarter.number, 1);
    assert_eq!(cq.year, 2024);
    assert_eq!(cq.name(), "Q1 2024");
    assert_eq!(cq.percentage_completed(), 0);
    assert_eq!(cq.pretty_duration_since_start().render(), "");
    // Q1 2024 is exactly 91 days, which is exactly 13 weeks.
    assert_eq!(cq.pretty_duration_left().render(), "13 weeks");
}

#[test]
fn last_second_of_q4_utc() {
    let cq = CurrentQuarter::new(Q1_2025_START - 1, "UTC").unwrap();
    assert_eq!(cq.quarter.number, 4);
    assert_eq!(cq.year, 2024);
    assert_eq!(cq.name(), "Q4 2024");
    // One second short of the full 92-day quarter: just under 100%.
    assert_eq!(cq.percentage_completed(), 99999987);
    assert!(cq.percentage_completed() < 100000000);
    assert_eq!(cq.pretty_duration_left().render(), "1 second");
    assert_eq!(
        cq.pretty_duration_since_start().render(),
        "13 weeks, 23 hours, 59 minutes, 59 seconds"
    );
}

#[test]
fn quarter_follows_local_civil_date() {
    // 2024-01-01T00:30:00 UTC is already Jan 1 afternoon in Kiritimati
    // (UTC+14): Q1 of 2024 there.
    let ts: i64 = Q1_2024_START + 1800;
    let ahead = CurrentQuarter::new(ts, "Pacific/Kiritimati").unwrap();
    assert_eq!(ahead.quarter.number, 1);
    assert_eq!(ahead.year, 2024);
    assert_eq!(ahead.name(), "Q1 2024");
    // The same instant is still Dec 31 evening in New York: Q4 of 2023 there.
    let behind = CurrentQuarter::new(ts, "America/New_York").unwrap();
    assert_eq!(behind.quarter.number, 4);
    assert_eq!(behind.year, 2023);
    assert_eq!(behind.name(), "Q4 2023");
}

#[test]
fn midyear_percentage_is_in_range() {
    // 2024-05-15T12:00:00 UTC, inside Q2.
    let ts: i64 = Q2_2024_START + 44 * 86400 + 12 * 3600;
    let cq = CurrentQuarter::new(ts, "UTC").unwrap();
    assert_eq!(cq.quarter.number, 2);
    let p = cq.percentage_completed();
    assert!(p > 0 && p < 100000000);
    // elapsed 44.5 days of 91: 48.9010989...%
    assert_eq!(p, 48901098);
}

#[test]
fn name_renders_negative_years() {
    let cq = CurrentQuarter { quarter: Quarter { number: 2, start: 0, end: 99 }, timestamp: 10, year: -44 };
    assert_eq!(cq.name(), "Q2 -44");
}

#[test]
fn boundary_between_quarters_has_no_gap_or_overlap() {
    let last_q1 = CurrentQuarter::new(Q2_2024_START - 1, "UTC").unwrap();
    assert_eq!(last_q1.quarter.number, 1);
    let first_q2 = CurrentQuarter::new(Q2_2024_START, "UTC").unwrap();
    assert_eq!(first_q2.quarter.number, 2);
    assert_eq!(first_q2.percentage_completed(), 0);
}
