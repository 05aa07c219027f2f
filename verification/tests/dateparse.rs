use chrono::TimeZone;
use chrono::Utc;
use timesheettool::calendar::Date;
use timesheettool::parse::dateparse::{parse_date, parse_date_utc};
use tzfile::Tz;

fn today() -> Date {
    Date { year: 2024, month: 4, day: 5 }
}

fn utc() -> Tz {
    Tz::named("Etc/UTC").unwrap()
}

fn ts(y: i32, mo: u32, d: u32, h: u32, mi: u32, s: u32) -> i64 {
    Utc.with_ymd_and_hms(y, mo, d, h, mi, s).unwrap().timestamp()
}

#[test]
fn parses_simplified_iso_format() {
    let parsed = parse_date("2022-01-05 01:05:07", &utc(), today()).unwrap();
    assert_eq!(parsed, ts(2022, 1, 5, 1, 5, 7));
}

#[test]
fn parses_simplified_iso_format_with_excess_whitespace() {
    let parsed = parse_date("    2022-01-05    01:05:07    ", &utc(), today()).unwrap();
    assert_eq!(parsed, ts(2022, 1, 5, 1, 5, 7));
}

#[test]
fn parses_simplified_iso_format_with_lowercase_t() {
    let parsed = parse_date("2022-01-05 t 01:05:07", &utc(), today()).unwrap();
    assert_eq!(parsed, ts(2022, 1, 5, 1, 5, 7));
}

#[test]
fn parses_simplified_iso_format_with_uppercase_t() {
    let parsed = parse_date("2022-01-05T01:05:07", &utc(), today()).unwrap();
    assert_eq!(parsed, ts(2022, 1, 5, 1, 5, 7));
}

#[test]
fn parses_simplified_iso_format_from_given_timezone() {
    let parsed = parse_date(
        "2022-01-05 01:05:00",
        &Tz::named("Europe/Berlin").unwrap(),
        today(),
    )
    .unwrap();
    assert_eq!(parsed, ts(2022, 1, 5, 0, 5, 0));
}

#[test]
fn seconds_defaults_to_zero_if_not_provided() {
    let parsed = parse_date("2022-01-05 01:05", &utc(), today()).unwrap();
    assert_eq!(parsed, ts(2022, 1, 5, 1, 5, 0));
}

#[test]
fn can_leave_aside_date_part_to_get_current_date() {
    let parsed = parse_date("01:05:00", &utc(), today()).unwrap();
    assert_eq!(parsed, ts(2024, 4, 5, 1, 5, 0));
}

#[test]
fn today_represents_the_current_date() {
    let parsed = parse_date("today 01:05:00", &utc(), today()).unwrap();
    assert_eq!(parsed, ts(2024, 4, 5, 1, 5, 0));
}

#[test]
fn yesterday_represents_the_day_before_today() {
    let parsed = parse_date("yesterday 01:05:00", &utc(), today()).unwrap();
    assert_eq!(parsed, ts(2024, 4, 4, 1, 5, 0));
}

#[test]
fn parsing_relative_is_case_insensitive() {
    let parsed = parse_date("YEstERdaY 01:05:00", &utc(), today()).unwrap();
    assert_eq!(parsed, ts(2024, 4, 4, 1, 5, 0));
}

#[test]
fn allows_relative_parse_with_weekdays() {
    let parsed = parse_date("tuesday 01:05:00", &utc(), today()).unwrap();
    assert_eq!(parsed, ts(2024, 4, 2, 1, 5, 0));
}

#[test]
fn doesnt_allow_parsing_relative_date_with_current_day_of_week() {
    // 2024-04-05 is a Friday: naming today's own weekday is ambiguous.
    let parsed = parse_date("friday 01:05:00", &utc(), today());
    assert_eq!(parsed, None);
}

#[test]
fn utc_variant_agrees_with_utc_time_zone() {
    for expr in [
        "2022-01-05 01:05:07",
        "2022-01-05T01:05",
        "yesterday 23:59:59",
        "monday 00:00",
        "01:05",
    ] {
        assert_eq!(parse_date(expr, &utc(), today()), parse_date_utc(expr, today()));
    }
}

#[test]
fn rejects_text_outside_the_grammar() {
    assert_eq!(parse_date_utc("", today()), None);
    assert_eq!(parse_date_utc("hello", today()), None);
    assert_eq!(parse_date_utc("2022-01-05", today()), None);
    assert_eq!(parse_date_utc("01:05:00 extra", today()), None);
    assert_eq!(parse_date_utc("2022-01-05 01:05:00x", today()), None);
    assert_eq!(parse_date_utc("todays 01:05:00", today()), None);
}

#[test]
fn rejects_times_that_do_not_exist() {
    assert_eq!(parse_date_utc("24:00", today()), None);
    assert_eq!(parse_date_utc("12:60", today()), None);
    assert_eq!(parse_date_utc("12:00:61", today()), None);
}

#[test]
fn rejects_dates_that_do_not_exist() {
    assert_eq!(parse_date_utc("2022-13-05 01:05", today()), None);
    assert_eq!(parse_date_utc("2022-02-29 01:05", today()), None);
    assert_eq!(parse_date_utc("2024-02-29 01:05", today()), Some(ts(2024, 2, 29, 1, 5, 0)));
}

#[test]
fn fails_on_local_times_skipped_by_a_clock_jump() {
    // Berlin jumped from 02:00 to 03:00 on 2023-03-26.
    let berlin = Tz::named("Europe/Berlin").unwrap();
    assert_eq!(parse_date("2023-03-26 02:30", &berlin, today()), None);
}

#[test]
fn takes_the_latest_instant_of_an_ambiguous_local_time() {
    // Berlin repeated 02:00..03:00 on 2023-10-29; the absolute grammar
    // keeps the later reading (UTC+1).
    let berlin = Tz::named("Europe/Berlin").unwrap();
    let parsed = parse_date("2023-10-29 02:30", &berlin, today()).unwrap();
    assert_eq!(parsed, ts(2023, 10, 29, 1, 30, 0));
}
