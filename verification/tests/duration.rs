use quarter_progress::duration::QuarterDuration;

#[test]
fn format_zero_is_empty() {
    assert_eq!(QuarterDuration::from_seconds(0).render(), "");
}

#[test]
fn format_one_second() {
    assert_eq!(QuarterDuration::from_seconds(1).render(), "1 second");
}

#[test]
fn format_sixty_one_seconds() {
    assert_eq!(QuarterDuration::from_seconds(61).render(), "1 minute, 1 second");
}

#[test]
fn format_hour_minute_second() {
    assert_eq!(QuarterDuration::from_seconds(3661).render(), "1 hour, 1 minute, 1 second");
}

#[test]
fn format_one_week() {
    assert_eq!(QuarterDuration::from_seconds(604800).render(), "1 week");
}

#[test]
fn format_all_units() {
    assert_eq!(
        QuarterDuration::from_seconds(604800 + 86400 + 3600 + 60 + 1).render(),
        "1 week, 1 day, 1 hour, 1 minute, 1 second"
    );
}

#[test]
fn format_plural_units() {
    assert_eq!(QuarterDuration::from_seconds(2 * 604800).render(), "2 weeks");
    assert_eq!(QuarterDuration::from_seconds(120).render(), "2 minutes");
    assert_eq!(
        QuarterDuration::from_seconds(2 * 604800 + 2 * 60 + 5).render(),
        "2 weeks, 2 minutes, 5 seconds"
    );
}

#[test]
fn decompose_cascades_weeks_first() {
    let d = QuarterDuration::from_seconds(123456789);
    assert_eq!(d.weeks, 204);
    assert_eq!(d.days, 0);
    assert_eq!(d.hours, 21);
    assert_eq!(d.minutes, 33);
    assert_eq!(d.seconds, 9);
}

#[test]
fn decompose_roundtrip() {
    for n in [0u64, 1, 59, 60, 61, 3599, 3600, 3661, 86399, 86400, 604799, 604800, 123456789] {
        let d = QuarterDuration::from_seconds(n);
        assert_eq!(
            604800 * d.weeks + 86400 * d.days + 3600 * d.hours + 60 * d.minutes + d.seconds,
            n
        );
    }
}
