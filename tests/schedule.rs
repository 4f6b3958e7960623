use clockwork_engine::cron::{calendar, matches_at, CronSchedule};

#[test]
fn every_minute_at_second_zero() {
    let s = "0 * * * * *";
    for k in 0..500i64 {
        assert!(matches_at(s, k * 60));
        assert!(!matches_at(s, k * 60 + 1));
        assert!(!matches_at(s, k * 60 + 59));
    }
    assert!(matches_at(s, 1_700_000_040));
    assert!(!matches_at(s, 1_700_000_000));
}

#[test]
fn calendar_fields() {
    let c = calendar(0);
    assert_eq!((c.year, c.month, c.day, c.hour, c.minute, c.second, c.weekday), (1970, 1, 1, 0, 0, 0, 4));
    let c = calendar(951_782_400);
    assert_eq!((c.year, c.month, c.day, c.weekday), (2000, 2, 29, 2));
    let c = calendar(1_700_000_000);
    assert_eq!((c.year, c.month, c.day, c.hour, c.minute, c.second, c.weekday), (2023, 11, 14, 22, 13, 20, 2));
    let c = calendar(4_102_444_799);
    assert_eq!((c.year, c.month, c.day, c.hour, c.minute, c.second, c.weekday), (2099, 12, 31, 23, 59, 59, 4));
}

#[test]
fn parse_ranges_steps_lists() {
    let s = CronSchedule::parse("*/15 5-10 1,2,3 * 1-12/2 * 2023").unwrap();
    assert_eq!(s.fields.len(), 7);
    let first = s.fields[0][0];
    assert_eq!((first.lo, first.hi, first.step), (0, 59, 15));
    let minute = s.fields[1][0];
    assert_eq!((minute.lo, minute.hi, minute.step), (5, 10, 1));
    assert_eq!(s.fields[2].len(), 3);
    let month = s.fields[4][0];
    assert_eq!((month.lo, month.hi, month.step), (1, 12, 2));
    let year = s.fields[6][0];
    assert_eq!((year.lo, year.hi), (2023, 2023));
}

#[test]
fn parse_rejects_malformed() {
    for bad in [
        "", "* * * * *", "* * * * * * * *", "60 * * * * *", "* * 24 * * *", "* * * 0 * *",
        "* * * * 13 *", "* * * * * 7", "*/0 * * * * *", "5-3 * * * * *", "a * * * * *",
        "1,,2 * * * * *", "1-2-3 * * * * *", "*/2/3 * * * * *", "99999 * * * * *",
    ] {
        assert!(CronSchedule::parse(bad).is_none(), "{}", bad);
        assert!(!matches_at(bad, 0));
    }
    assert!(CronSchedule::parse("  0   *  * * * *  ").is_some());
}

#[test]
fn weekday_and_year_fields() {
    // 1970-01-01 was a Thursday.
    assert!(matches_at("0 0 0 * * 4", 0));
    assert!(!matches_at("0 0 0 * * 3", 0));
    assert!(matches_at("* * * 29 2 * 2000", 951_782_400));
    assert!(!matches_at("* * * 29 2 * 2001-2099", 951_782_400));
    assert!(!matches_at("* * * * * *", -1));
}

#[test]
fn step_from_start_value() {
    assert!(matches_at("10/20 * * * * *", 10));
    assert!(matches_at("10/20 * * * * *", 30));
    assert!(matches_at("10/20 * * * * *", 50));
    assert!(!matches_at("10/20 * * * * *", 40));
}
