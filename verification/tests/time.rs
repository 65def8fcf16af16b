use gal::time::{format_duration, format_relative_time, format_relative_time_at, Timestamp};

// 2024-03-15 12:00:00
const NOW: i64 = 1710504000;

fn at(secs: i64) -> Timestamp {
    Timestamp::new(secs, 0).unwrap()
}

fn age(then: i64) -> String {
    format_relative_time_at(at(NOW), at(then))
}

#[test]
fn points_in_time_are_those_of_the_calendar() {
    assert!(Timestamp::new(-8334601228800, 0).is_some());
    assert!(Timestamp::new(-8334601228801, 0).is_none());
    assert!(Timestamp::new(8210266876799, 999_999_999).is_some());
    assert!(Timestamp::new(8210266876800, 0).is_none());
    assert!(Timestamp::new(1483228799, 1_500_000_000).is_some());
    assert!(Timestamp::new(-1, 1_500_000_000).is_some());
    assert!(Timestamp::new(1483228798, 1_500_000_000).is_none());
    assert!(Timestamp::new(1483228799, 2_000_000_000).is_none());
}

#[test]
fn every_point_in_time_can_be_told_of() {
    let first = Timestamp::new(-8334601228800, 0).unwrap();
    let last = Timestamp::new(8210266876799, 1_999_999_999).unwrap();
    assert_eq!(format_duration(first, last), "275747801760m 0s");
    assert_eq!(format_relative_time_at(last, first), "524285y ago");
    assert_eq!(format_relative_time_at(first, last), "-524286y ago");
}

#[test]
fn durations_are_minutes_and_seconds() {
    assert_eq!(format_duration(at(0), at(0)), "0s");
    assert_eq!(format_duration(at(0), at(59)), "59s");
    assert_eq!(format_duration(at(0), at(60)), "1m 0s");
    assert_eq!(format_duration(at(1000), at(1090)), "1m 30s");
    assert_eq!(format_duration(at(0), at(7265)), "121m 5s");
}

#[test]
fn durations_read_the_same_in_both_directions() {
    assert_eq!(format_duration(at(1090), at(1000)), "1m 30s");
    assert_eq!(format_duration(at(-5), at(5)), format_duration(at(5), at(-5)));
}

#[test]
fn fractions_of_seconds_are_cut_off() {
    let start = Timestamp::new(10, 900_000_000).unwrap();
    let end = Timestamp::new(12, 100_000_000).unwrap();
    assert_eq!(format_duration(start, end), "1s");
    assert_eq!(format_duration(end, start), "1s");
}

#[test]
fn leap_seconds_count_within_a_day() {
    let leap = Timestamp::new(119, 1_000_000_000).unwrap();
    assert_eq!(format_duration(leap, at(121)), "2s");
    assert_eq!(format_duration(at(121), leap), "2s");
    let new_year = Timestamp::new(1483228799, 1_500_000_000).unwrap();
    assert_eq!(format_duration(new_year, at(1483228800)), "0s");
    assert_eq!(format_duration(new_year, at(1483228802)), "1s");
}

#[test]
fn young_ages_are_told_by_the_clock() {
    assert_eq!(age(NOW), "0s ago");
    assert_eq!(age(NOW - 59), "59s ago");
    assert_eq!(age(NOW - 60), "1m ago");
    assert_eq!(age(NOW - 3599), "59m ago");
    assert_eq!(age(NOW - 3600), "1h ago");
    assert_eq!(age(NOW - 86399), "23h ago");
}

#[test]
fn ages_of_days_and_weeks() {
    assert_eq!(age(NOW - 86400), "yesterday");
    assert_eq!(age(NOW - 172799), "yesterday");
    assert_eq!(age(NOW - 172800), "2d ago");
    assert_eq!(age(NOW - 604799), "6d ago");
    assert_eq!(age(NOW - 604800), "1w ago");
    assert_eq!(age(NOW - 1209600), "2w ago");
    assert_eq!(age(NOW - 3023999), "4w ago");
}

#[test]
fn old_ages_are_told_by_the_calendar() {
    // 2024-02-09 and 2024-01-31
    assert_eq!(age(1707436800), "1m ago");
    assert_eq!(age(1706659200), "1m ago");
    // 2023-12-20
    assert_eq!(age(1703030400), "2mo ago");
    // 2023-03-14, 2022-03-16, 2022-03-15 and 2021-01-01
    assert_eq!(age(1678752000), "last year");
    assert_eq!(age(1647388800), "last year");
    assert_eq!(age(1647302400), "2y ago");
    assert_eq!(age(1609459200), "3y ago");
}

#[test]
fn the_future_is_told_by_the_calendar() {
    assert_eq!(age(NOW + 3600), "0mo ago");
    // 2025-03-16
    assert_eq!(age(1742083200), "-2y ago");
}

#[test]
fn ages_are_short_texts() {
    for then in [NOW, NOW - 100, NOW - 5000000, -8334601228800, 8210266876799] {
        assert!(age(then).len() <= 17);
        assert!(age(then).is_ascii());
    }
}

#[test]
fn ages_go_by_the_system_clock() {
    let epoch = format_relative_time(at(0));
    assert!(epoch.ends_with("y ago"));
    let years: i64 = epoch.trim_end_matches("y ago").parse().unwrap();
    assert!(years >= 54);
    // The last day of the calendar lies far ahead.
    assert!(format_relative_time(at(8210266876799)).starts_with('-'));
}

#[test]
fn five_weeks_are_a_month() {
    for days in 0..400 {
        let now = at(NOW + days * 86400);
        assert_eq!(format_relative_time_at(now, at(NOW + days * 86400 - 3024000)), "1m ago");
    }
}
