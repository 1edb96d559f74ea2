use athena_led::clock::{
    clock_text, clock_time, get_seconds_until_wake, in_window, is_sleep_time, ClockFormat, Moment,
    Stamp,
};
use athena_led::timezone::{iana_to_posix, parse_uci_option, Timezone, TimezoneConfig};
use chrono::{Datelike, NaiveDate, NaiveTime, Timelike};

fn at(hours: u32, minutes: u32) -> (u32, u32) {
    (hours * 3600 + minutes * 60, 0)
}

#[test]
fn settings_are_read_as_times() {
    assert_eq!(clock_time("07:05"), Some(at(7, 5)));
    assert_eq!(clock_time("00:00"), Some((0, 0)));
    assert_eq!(clock_time("23:59"), Some((86_340, 0)));
    for s in ["24:00", "12:60", "", "noon", "12", "12:3x", "12:30:00", "12-30"] {
        assert_eq!(clock_time(s), None, "{:?}", s);
    }
    for h in 0..30u32 {
        for m in 0..70u32 {
            let s = format!("{:02}:{:02}", h, m);
            let by_chrono = NaiveTime::parse_from_str(&s, "%H:%M")
                .ok()
                .map(|t| (t.num_seconds_from_midnight(), t.nanosecond()));
            assert_eq!(clock_time(&s), by_chrono);
            assert_eq!(by_chrono.is_some(), h < 24 && m < 60);
        }
    }
}

#[test]
fn sleep_within_a_day() {
    assert!(is_sleep_time("13:00", "15:30", at(13, 0)));
    assert!(is_sleep_time("13:00", "15:30", (at(15, 29).0 + 59, 999_999_999)));
    assert!(!is_sleep_time("13:00", "15:30", at(15, 30)));
    assert!(!is_sleep_time("13:00", "15:30", at(12, 59)));
}

#[test]
fn sleep_over_midnight() {
    assert!(is_sleep_time("23:00", "07:00", at(23, 0)));
    assert!(is_sleep_time("23:00", "07:00", at(0, 0)));
    assert!(is_sleep_time("23:00", "07:00", at(6, 59)));
    assert!(!is_sleep_time("23:00", "07:00", at(7, 0)));
    assert!(!is_sleep_time("23:00", "07:00", at(22, 59)));
}

#[test]
fn no_sleep_without_both_hours() {
    assert!(!is_sleep_time("", "07:00", at(3, 0)));
    assert!(!is_sleep_time("23:00", "", at(3, 0)));
    assert!(!is_sleep_time("23:00", "7 o'clock", at(3, 0)));
    assert!(!is_sleep_time("late", "07:00", at(3, 0)));
}

#[test]
fn the_same_hour_twice_is_all_day() {
    for h in 0..24 {
        assert!(is_sleep_time("08:00", "08:00", at(h, 0)));
    }
}

#[test]
fn waking_hours_are_the_other_hours() {
    for h in 0..24 {
        assert_eq!(in_window(at(23, 0), at(7, 0), at(h, 0)), !in_window(at(7, 0), at(23, 0), at(h, 0)));
    }
}

#[test]
fn wakes_two_seconds_behind_the_hour() {
    let now = Stamp { secs: 1_000_000, nanos: 500_000_000 };
    let ahead = Stamp { secs: 1_003_600, nanos: 0 };
    assert_eq!(get_seconds_until_wake(Some(ahead), now), 3599 + 2);
    let past = Stamp { secs: 1_000_000, nanos: 0 };
    assert_eq!(get_seconds_until_wake(Some(past), now), 86_399 + 2);
    assert_eq!(get_seconds_until_wake(Some(now), now), 86_400 + 2);
    let soon = Stamp { secs: 1_000_001, nanos: 0 };
    assert_eq!(get_seconds_until_wake(Some(soon), now), 60);
    let exactly = Stamp { secs: 1_000_001, nanos: 500_000_000 };
    assert_eq!(get_seconds_until_wake(Some(exactly), now), 1 + 2);
    assert_eq!(get_seconds_until_wake(None, now), 60);
    let yesterday = Stamp { secs: 900_000, nanos: 0 };
    assert_eq!(get_seconds_until_wake(Some(yesterday), now), 60);
}

#[test]
fn times_are_shown_as_by_chrono() {
    let first = NaiveDate::from_ymd_opt(1999, 12, 30).unwrap();
    for i in 0..1500u64 {
        let d = first + chrono::Days::new(i);
        let (hour, minute) = ((i % 24) as u32, (i % 60) as u32);
        let t = d.and_hms_opt(hour, minute, 0).unwrap();
        let m = Moment { year: d.year(), month: d.month(), day: d.day(), hour, minute };
        assert_eq!(clock_text(m, ClockFormat::Year), Some(t.format("%Y").to_string()));
        assert_eq!(clock_text(m, ClockFormat::Date), Some(t.format("%m-%d").to_string()));
        assert_eq!(clock_text(m, ClockFormat::Time), Some(t.format("%H:%M").to_string()));
    }
}

#[test]
fn times_have_two_digits_each() {
    let m = Moment { year: 2024, month: 2, day: 29, hour: 7, minute: 5 };
    assert_eq!(clock_text(m, ClockFormat::Year).as_deref(), Some("2024"));
    assert_eq!(clock_text(m, ClockFormat::Date).as_deref(), Some("02-29"));
    assert_eq!(clock_text(m, ClockFormat::Time).as_deref(), Some("07:05"));
    for (year, text) in
        [(7, "0007"), (-7, "-0007"), (0, "0000"), (9999, "9999"), (10_000, "+10000"), (-12_345, "-12345")]
    {
        let old = Moment { year, month: 1, day: 1, hour: 0, minute: 0 };
        assert_eq!(clock_text(old, ClockFormat::Year).as_deref(), Some(text));
    }
}

#[test]
fn minutes_that_do_not_exist_have_no_text() {
    let m = Moment { year: 2023, month: 2, day: 28, hour: 23, minute: 59 };
    assert!(clock_text(m, ClockFormat::Time).is_some());
    for bad in [
        Moment { day: 29, ..m },
        Moment { day: 0, ..m },
        Moment { month: 0, ..m },
        Moment { month: 13, ..m },
        Moment { month: 4, day: 31, ..m },
        Moment { hour: 24, ..m },
        Moment { minute: 60, ..m },
        Moment { year: 262_143, ..m },
        Moment { year: -262_144, ..m },
        Moment { year: 1900, day: 29, ..m },
    ] {
        assert_eq!(clock_text(bad, ClockFormat::Year), None, "{:?}", bad);
    }
    for good in [
        Moment { year: 262_142, ..m },
        Moment { year: -262_143, ..m },
        Moment { year: 2000, day: 29, ..m },
        Moment { year: -4, day: 29, ..m },
    ] {
        assert!(clock_text(good, ClockFormat::Year).is_some(), "{:?}", good);
    }
}

#[test]
fn time_that_is_shown_is_the_time_as_a_setting() {
    for hour in 0..24 {
        for minute in 0..60 {
            let m = Moment { year: 2025, month: 6, day: 1, hour, minute };
            let shown = clock_text(m, ClockFormat::Time).unwrap();
            assert_eq!(clock_time(&shown), Some(at(hour, minute)));
        }
    }
}

#[test]
fn options_are_read_without_their_quotes() {
    assert_eq!(parse_uci_option("option timezone 'CST-8'", "timezone").as_deref(), Some("CST-8"));
    assert_eq!(parse_uci_option("\toption zonename \"Asia/Tokyo\" ", "zonename").as_deref(), Some("Asia/Tokyo"));
    assert_eq!(parse_uci_option("option timezone ''", "timezone"), None);
    assert_eq!(parse_uci_option("option timezone", "timezone"), None);
    assert_eq!(parse_uci_option("option hostname 'x'", "timezone"), None);
    assert_eq!(parse_uci_option("list timezone 'x'", "timezone"), None);
}

#[test]
fn zones_have_their_posix_names() {
    for (zone, posix) in [
        ("Asia/Shanghai", "CST-8"),
        ("Asia/Hong_Kong", "HKT-8"),
        ("Asia/Kolkata", "IST-5:30"),
        ("Asia/Jerusalem", "IST-2"),
        ("Europe/Zurich", "CET-1"),
        ("Europe/London", "GMT0"),
        ("America/New_York", "EST5"),
        ("America/Chicago", "CST6"),
        ("America/St_Johns", "NST3:30"),
        ("Australia/Darwin", "ACST-9:30"),
        ("Pacific/Fiji", "FJT-12"),
        ("Africa/Nairobi", "EAT-3"),
    ] {
        assert_eq!(iana_to_posix(zone).as_deref(), Some(posix), "{}", zone);
    }
    assert_eq!(iana_to_posix("Mars/Olympus"), None);
    assert_eq!(iana_to_posix("asia/shanghai"), None);
    assert_eq!(iana_to_posix(""), None);
}

#[test]
fn posix_zone_of_the_configuration_goes_first() {
    let c = TimezoneConfig::parse(
        "config system\n\toption zonename 'Asia/Tokyo'\n\toption timezone 'CST-8'\n",
    );
    assert_eq!(c.posix.as_deref(), Some("CST-8"));
    assert_eq!(c.zone.as_deref(), Some("Asia/Tokyo"));
    assert_eq!(c.zoneinfo_path(), None);
    let tz = c.resolve(false);
    assert!(matches!(tz, Timezone::Posix(_)));
    assert_eq!(tz.tz(), "CST-8");
}

#[test]
fn utc_gives_way_to_the_name_of_a_zone() {
    let c = TimezoneConfig::parse("option timezone 'UTC'\noption zonename 'Asia/Tokyo'");
    assert_eq!(c.zoneinfo_path().as_deref(), Some("/usr/share/zoneinfo/Asia/Tokyo"));
    let here = c.resolve(true);
    assert!(matches!(here, Timezone::Installed(_)));
    assert_eq!(here.tz(), "Asia/Tokyo");
    let away = c.resolve(false);
    assert!(matches!(away, Timezone::Converted(_)));
    assert_eq!(away.tz(), "JST-9");
}

#[test]
fn what_is_left_is_utc() {
    let unknown = TimezoneConfig::parse("option zonename 'Mars/Olympus'").resolve(false);
    assert!(matches!(unknown, Timezone::Unknown));
    assert_eq!(unknown.tz(), "UTC");
    let missing = TimezoneConfig::parse("").resolve(true);
    assert!(matches!(missing, Timezone::Missing));
    assert_eq!(missing.tz(), "UTC");
}

#[test]
fn last_line_of_an_option_counts() {
    let c = TimezoneConfig::parse("option timezone 'CST-8'\noption timezone 'JST-9'");
    assert_eq!(c.resolve(false).tz(), "JST-9");
}
