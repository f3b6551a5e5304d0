//! The calendar and the clock.

use os101::rtc::calendar::{civil_from_days, days_from_civil, days_in_month, is_leap_year};
use os101::rtc::{
    clock_text, decode, decode_hour, from_bcd, from_unix_millis, now, selftest, unix_millis,
    unix_millis_from_parts, update_is_over, weekday, Clock, DateTime, Readings, Registers,
};

fn at(year: u16, month: u8, day: u8, hour: u8, minute: u8, second: u8) -> DateTime {
    DateTime { year, month, day, hour, minute, second }
}

#[test]
fn leap_years_follow_the_rule() {
    assert!(is_leap_year(2000));
    assert!(!is_leap_year(1900));
    assert!(is_leap_year(2024));
    assert!(!is_leap_year(2023));
    assert_eq!(days_in_month(2024, 2), 29);
    assert_eq!(days_in_month(2023, 2), 28);
    assert_eq!(days_in_month(2023, 12), 31);
}

#[test]
fn days_are_counted_from_the_epoch() {
    assert_eq!(days_from_civil(1970, 1, 1), 0);
    assert_eq!(days_from_civil(2000, 3, 1), 11_017);
    assert_eq!(days_from_civil(1969, 12, 31), -1);
    for d in [-800_000i64, -1, 0, 1, 59, 60, 11_016, 11_017, 19_999, 2_000_000] {
        let (y, m, day) = civil_from_days(d);
        assert_eq!(days_from_civil(y, m, day), d);
    }
    assert_eq!(civil_from_days(19_782), (2024, 2, 29));
}

#[test]
fn moments_survive_the_way_there_and_back() {
    let t = at(2026, 11, 16, 13, 37, 59);
    let m = unix_millis_from_parts(2026, 11, 16, 13, 37, 59, 0);
    assert_eq!(m, 1_794_836_279_000);
    assert_eq!(from_unix_millis(m + 999), t);
    assert_eq!(from_unix_millis(-1), at(1969, 12, 31, 23, 59, 59));
    assert_eq!(weekday(0), 4);
    assert_eq!(weekday(m), 1);
    assert_eq!(clock_text(t), "13:37");
}

#[test]
fn registers_are_decoded() {
    assert_eq!(from_bcd(0x59, false), 59);
    assert_eq!(from_bcd(0x3b, true), 59);
    // 12-hour mode: 12 AM is midnight, and the top bit is PM.
    assert_eq!(decode_hour(0x12, 0x00), 0);
    assert_eq!(decode_hour(0x92, 0x00), 12);
    assert_eq!(decode_hour(0x81, 0x00), 13);
    assert_eq!(decode_hour(0x23, 0x02), 23);
    let r = Registers { second: 0x30, minute: 0x15, hour: 0x09, day: 0x07, month: 0x06, year: 0x25 };
    assert_eq!(decode(r, 0x02), at(2025, 6, 7, 9, 15, 30));
    let old = Registers { year: 0x85, ..r };
    assert_eq!(decode(old, 0x02).year, 1985);
    assert!(update_is_over(0x26));
    assert!(!update_is_over(0xa6));
}

#[test]
fn two_equal_readings_are_believed() {
    let r = Registers { second: 1, minute: 2, hour: 3, day: 4, month: 5, year: 6 };
    let mut v = Readings::new();
    assert!(!v.offer(r));
    assert!(!v.offer(Registers { second: 2, ..r }));
    assert!(v.offer(Registers { second: 2, ..r }));
}

#[test]
fn the_clock_runs_between_readings() {
    let mut c = Clock::new();
    assert!(c.needs_sync(0));
    let t = at(2025, 1, 1, 0, 0, 0);
    let m = unix_millis(&mut c, 1_000, t);
    assert!(!c.needs_sync(1_001));
    assert!(c.needs_sync(1_000 + 1_092));
    // 182 ticks are a little under ten seconds.
    let later = unix_millis(&mut c, 1_182, t);
    assert_eq!(later - m, 182 * 65_536_000 / 1_193_182);
    assert_eq!(now(&mut c, 1_182, t), at(2025, 1, 1, 0, 0, 9));
    // A tick count below the base has the chip read again; the time already
    // told is kept, and no later one is made up.
    assert!(c.needs_sync(999));
    assert_eq!(unix_millis(&mut c, 999, at(2024, 12, 31, 0, 0, 0)), m);
    assert_eq!(c.base_ticks, 999);
    assert_eq!(unix_millis(&mut c, 5, at(2025, 1, 1, 0, 1, 0)), m + 60_000);
}

#[test]
fn the_clock_checks_itself() {
    let t = at(2026, 5, 4, 3, 2, 1);
    let m = unix_millis_from_parts(2026, 5, 4, 3, 2, 1, 0);
    let r = selftest(m, m, m + 1, m + 1, t);
    assert_eq!(r.failed, 0, "{}", r.failure_summary());
}
