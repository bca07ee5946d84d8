use neis_proxy::date::{format_yyyymmdd, parse_yyyymmdd, month_length, Date, Weekday};
use neis_proxy::numeric::{parse_u32, parse_u8, u32_to_string};

#[test]
fn parse_valid_dates() {
    let d = parse_yyyymmdd("20230306").unwrap();
    assert_eq!(d, Date { year: 2023, month: 3, day: 6 });
    let d = parse_yyyymmdd("20200229").unwrap();
    assert_eq!(d, Date { year: 2020, month: 2, day: 29 });
    let d = parse_yyyymmdd("00010101").unwrap();
    assert_eq!(d, Date { year: 1, month: 1, day: 1 });
    let d = parse_yyyymmdd("99991231").unwrap();
    assert_eq!(d, Date { year: 9999, month: 12, day: 31 });
}

#[test]
fn parse_rejects_bad_dates() {
    assert!(parse_yyyymmdd("2023030").is_none());
    assert!(parse_yyyymmdd("202303061").is_none());
    assert!(parse_yyyymmdd("2023-3-06").is_none());
    assert!(parse_yyyymmdd("abcdefgh").is_none());
    assert!(parse_yyyymmdd("20230230").is_none());
    assert!(parse_yyyymmdd("20230006").is_none());
    assert!(parse_yyyymmdd("20231306").is_none());
    assert!(parse_yyyymmdd("20230300").is_none());
    assert!(parse_yyyymmdd("00000101").is_none());
    assert!(parse_yyyymmdd("19000229").is_none());
    assert!(parse_yyyymmdd("").is_none());
}

#[test]
fn format_dates() {
    assert_eq!(format_yyyymmdd(&Date { year: 2023, month: 3, day: 6 }), "20230306");
    assert_eq!(format_yyyymmdd(&Date { year: 1, month: 1, day: 1 }), "00010101");
    assert_eq!(format_yyyymmdd(&Date { year: 987, month: 11, day: 30 }), "09871130");
}

#[test]
fn weekdays_of_known_dates() {
    let mon = parse_yyyymmdd("20230306").unwrap();
    assert_eq!(mon.weekday(), Weekday::Mon);
    let tue = parse_yyyymmdd("20230307").unwrap();
    assert_eq!(tue.weekday(), Weekday::Tue);
    let wed = parse_yyyymmdd("20230308").unwrap();
    assert_eq!(wed.weekday(), Weekday::Wed);
    let sat = parse_yyyymmdd("20000101").unwrap();
    assert_eq!(sat.weekday(), Weekday::Sat);
    let first = parse_yyyymmdd("00010101").unwrap();
    assert_eq!(first.weekday(), Weekday::Mon);
}

#[test]
fn weekday_names() {
    assert_eq!(Weekday::Mon.name(), "Mon");
    assert_eq!(Weekday::Tue.name(), "Tue");
    assert_eq!(Weekday::Wed.name(), "Wed");
    assert_eq!(Weekday::Thu.name(), "Thu");
    assert_eq!(Weekday::Fri.name(), "Fri");
    assert_eq!(Weekday::Sat.name(), "Sat");
    assert_eq!(Weekday::Sun.name(), "Sun");
}

#[test]
fn week_window_of_a_wednesday() {
    let wed = parse_yyyymmdd("20230308").unwrap();
    let (start, end) = wed.week_window().unwrap();
    assert_eq!(format_yyyymmdd(&start), "20230306");
    assert_eq!(format_yyyymmdd(&end), "20230310");
    assert_eq!(start.weekday(), Weekday::Mon);
    assert_eq!(end.weekday(), Weekday::Fri);
}

#[test]
fn week_window_crossing_month_and_year() {
    let sun = parse_yyyymmdd("20230101").unwrap();
    assert_eq!(sun.weekday(), Weekday::Sun);
    let (start, end) = sun.week_window().unwrap();
    assert_eq!(format_yyyymmdd(&start), "20221226");
    assert_eq!(format_yyyymmdd(&end), "20221230");

    let mon = parse_yyyymmdd("20230306").unwrap();
    let (start, end) = mon.week_window().unwrap();
    assert_eq!(format_yyyymmdd(&start), "20230306");
    assert_eq!(format_yyyymmdd(&end), "20230310");
}

#[test]
fn month_lengths_and_leap_years() {
    assert_eq!(month_length(2020, 2), 29);
    assert_eq!(month_length(1900, 2), 28);
    assert_eq!(month_length(2000, 2), 29);
    assert_eq!(month_length(2023, 2), 28);
    assert_eq!(month_length(2023, 4), 30);
    assert_eq!(month_length(2023, 12), 31);
}

#[test]
fn parse_u32_values() {
    assert_eq!(parse_u32("0"), Some(0));
    assert_eq!(parse_u32("123"), Some(123));
    assert_eq!(parse_u32("007"), Some(7));
    assert_eq!(parse_u32("+7"), Some(7));
    assert_eq!(parse_u32("4294967295"), Some(u32::MAX));
    assert_eq!(parse_u32("4294967296"), None);
    assert_eq!(parse_u32(""), None);
    assert_eq!(parse_u32("+"), None);
    assert_eq!(parse_u32("12a"), None);
    assert_eq!(parse_u32("-1"), None);
    assert_eq!(parse_u32("1 2"), None);
}

#[test]
fn parse_u8_values() {
    assert_eq!(parse_u8("1"), Some(1));
    assert_eq!(parse_u8("255"), Some(255));
    assert_eq!(parse_u8("256"), None);
    assert_eq!(parse_u8("99999999999999999999"), None);
    assert_eq!(parse_u8("x"), None);
}

#[test]
fn format_u32_values() {
    assert_eq!(u32_to_string(0), "0");
    assert_eq!(u32_to_string(7), "7");
    assert_eq!(u32_to_string(2023), "2023");
    assert_eq!(u32_to_string(u32::MAX), "4294967295");
}
