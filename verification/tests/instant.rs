use rustytime::instant::{
    Instant, FIRST_CALENDAR_SECOND, LAST_CALENDAR_SECOND, MAX_OFFSET_SECONDS, MAX_UNIX_SECONDS,
    MIN_UNIX_SECONDS, NANOS_PER_SECOND, SECONDS_PER_DAY,
};
use time::{Date, Month, Time};

fn at(unix_seconds: i64, nanosecond: u32) -> Instant {
    Instant::new(unix_seconds, nanosecond, 0).unwrap()
}

#[test]
fn instant_new_keeps_the_parts() {
    let t = Instant::new(1_718_003_730, 5, 7_200).unwrap();
    assert_eq!(t.unix_seconds(), 1_718_003_730);
    assert_eq!(t.nanosecond(), 5);
    assert_eq!(t.offset_seconds(), 7_200);
    assert!(t.check());
}

#[test]
fn instant_new_refuses_parts_out_of_range() {
    assert!(Instant::new(MIN_UNIX_SECONDS, 0, 0).is_some());
    assert!(Instant::new(MIN_UNIX_SECONDS - 1, 0, 0).is_none());
    assert!(Instant::new(MAX_UNIX_SECONDS, 0, 0).is_some());
    assert!(Instant::new(MAX_UNIX_SECONDS + 1, 0, 0).is_none());
    assert!(Instant::new(0, NANOS_PER_SECOND - 1, 0).is_some());
    assert!(Instant::new(0, NANOS_PER_SECOND, 0).is_none());
    assert!(Instant::new(0, 0, MAX_OFFSET_SECONDS).is_some());
    assert!(Instant::new(0, 0, -MAX_OFFSET_SECONDS).is_some());
    assert!(Instant::new(0, 0, MAX_OFFSET_SECONDS + 60).is_none());
    assert!(Instant::new(0, 0, -MAX_OFFSET_SECONDS - 60).is_none());
    assert!(Instant::new(0, 0, 61).is_none());
    assert!(Instant::new(0, 0, -1).is_none());
}

#[test]
fn the_supported_years_are_the_four_digit_years_less_two_days() {
    let first = Date::from_calendar_date(0, Month::January, 1)
        .unwrap()
        .with_time(Time::MIDNIGHT)
        .assume_utc();
    assert_eq!(first.unix_timestamp(), FIRST_CALENDAR_SECOND);
    let last = Date::from_calendar_date(9999, Month::December, 31)
        .unwrap()
        .with_time(Time::from_hms(23, 59, 59).unwrap())
        .assume_utc();
    assert_eq!(last.unix_timestamp(), LAST_CALENDAR_SECOND);
    assert_eq!(MIN_UNIX_SECONDS, FIRST_CALENDAR_SECOND + 2 * SECONDS_PER_DAY);
    assert_eq!(MAX_UNIX_SECONDS, LAST_CALENDAR_SECOND - 2 * SECONDS_PER_DAY);
}

#[test]
fn seconds_since_rounds_down() {
    let start = at(100, 0);
    assert_eq!(at(100, 0).seconds_since(&start), 0);
    assert_eq!(at(100, 999_999_999).seconds_since(&start), 0);
    assert_eq!(at(101, 0).seconds_since(&start), 1);
    assert_eq!(at(3_700, 0).seconds_since(&start), 3_600);
    let start = at(100, 500_000_000);
    assert_eq!(at(101, 499_999_999).seconds_since(&start), 0);
    assert_eq!(at(101, 500_000_000).seconds_since(&start), 1);
    assert_eq!(at(102, 0).seconds_since(&start), 1);
}

#[test]
fn seconds_since_is_never_negative() {
    let start = at(1_000, 0);
    assert_eq!(at(999, 0).seconds_since(&start), 0);
    assert_eq!(at(999, 999_999_999).seconds_since(&start), 0);
    assert_eq!(at(0, 0).seconds_since(&start), 0);
    assert_eq!(at(MIN_UNIX_SECONDS, 0).seconds_since(&at(MAX_UNIX_SECONDS, 0)), 0);
}

#[test]
fn seconds_since_spans_the_whole_range() {
    assert_eq!(
        at(MAX_UNIX_SECONDS, 999_999_999).seconds_since(&at(MIN_UNIX_SECONDS, 0)),
        MAX_UNIX_SECONDS - MIN_UNIX_SECONDS
    );
}

#[test]
fn seconds_since_ignores_the_offsets() {
    // 09:15:30+02:00 and 07:15:30Z are the same instant.
    let east = Instant::new(1_718_003_730, 0, 7_200).unwrap();
    let west = Instant::new(1_718_003_730 + 90, 0, -18_000).unwrap();
    assert_eq!(west.seconds_since(&east), 90);
    assert_eq!(east.seconds_since(&west), 0);
}

#[test]
fn precedes_compares_seconds_then_nanoseconds() {
    assert!(at(1, 0).precedes(&at(2, 0)));
    assert!(at(1, 5).precedes(&at(1, 6)));
    assert!(!at(1, 5).precedes(&at(1, 5)));
    assert!(!at(2, 0).precedes(&at(1, 999_999_999)));
    assert!(at(-5, 999_999_999).precedes(&at(-4, 0)));
}
