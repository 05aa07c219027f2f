use chrono::Datelike;
use chrono::TimeZone;
use chrono::Utc;
use chrono::Weekday;
use timesheettool::calendar::Date;
use timesheettool::parse::reldateparse::{parse_relative_date, parse_relative_date_utc};
use tzfile::Tz;

fn today() -> Date {
    Date { year: 2024, month: 4, day: 5 }
}

fn ts(y: i32, mo: u32, d: u32, h: u32, mi: u32, s: u32) -> i64 {
    Utc.with_ymd_and_hms(y, mo, d, h, mi, s).unwrap().timestamp()
}

#[test]
fn parse_relative_date_returns_start_of_next_day_if_passed_now() {
    let result = parse_relative_date("now", &Tz::named("Etc/UTC").unwrap(), today()).unwrap();
    assert_eq!(result, ts(2024, 4, 6, 0, 0, 0));
}

#[test]
fn parse_relative_date_returns_start_of_next_day_in_other_timezone_if_passed_now() {
    let result =
        parse_relative_date("now", &Tz::named("Europe/Berlin").unwrap(), today()).unwrap();
    assert_eq!(result, ts(2024, 4, 5, 22, 0, 0));
}

#[test]
fn parse_relative_date_returns_start_of_day_when_passed_1_day() {
    let result = parse_relative_date("1 day", &Tz::named("Etc/UTC").unwrap(), today()).unwrap();
    assert_eq!(result, ts(2024, 4, 5, 0, 0, 0));
}

#[test]
fn parse_relative_date_returns_start_of_day_when_passed_0_day() {
    let result = parse_relative_date("0 day", &Tz::named("Etc/UTC").unwrap(), today()).unwrap();
    assert_eq!(result, ts(2024, 4, 5, 0, 0, 0));
}

#[test]
fn parse_relative_date_returns_start_of_prev_day_when_passed_2_days() {
    let result = parse_relative_date("2 day", &Tz::named("Etc/UTC").unwrap(), today()).unwrap();
    assert_eq!(result, ts(2024, 4, 4, 0, 0, 0));
}

#[test]
fn parse_relative_date_returns_start_of_month_when_passed_1m() {
    let result = parse_relative_date("1m", &Tz::named("Etc/UTC").unwrap(), today()).unwrap();
    assert_eq!(result, ts(2024, 4, 1, 0, 0, 0));
}

#[test]
fn parse_relative_date_returns_start_of_month_when_passed_4m() {
    let result = parse_relative_date("4m", &Tz::named("Etc/UTC").unwrap(), today()).unwrap();
    assert_eq!(result, ts(2024, 1, 1, 0, 0, 0));
}

#[test]
fn parse_relative_date_returns_start_of_year_when_passed_1y() {
    let result = parse_relative_date("1y", &Tz::named("Etc/UTC").unwrap(), today()).unwrap();
    assert_eq!(result, ts(2024, 1, 1, 0, 0, 0));
}

#[test]
fn parse_relative_date_returns_start_of_year_when_passed_5y() {
    let result = parse_relative_date("5y", &Tz::named("Etc/UTC").unwrap(), today()).unwrap();
    assert_eq!(result, ts(2020, 1, 1, 0, 0, 0));
}

#[test]
fn cannot_parse_combinations_of_multiple_units() {
    let result = parse_relative_date("5y 4m", &Tz::named("Etc/UTC").unwrap(), today());
    assert_eq!(result, None);
}

#[test]
fn parses_week_to_start_of_current_week() {
    let result = parse_relative_date("1w", &Tz::named("Etc/UTC").unwrap(), today()).unwrap();
    assert_eq!(result, ts(2024, 4, 1, 0, 0, 0));
    assert_eq!(
        Utc.timestamp_opt(result, 0).unwrap().weekday(),
        Weekday::Mon
    );
}

#[test]
fn parses_weeks_to_start_of_current_week() {
    let result = parse_relative_date("3w", &Tz::named("Etc/UTC").unwrap(), today()).unwrap();
    assert_eq!(result, ts(2024, 3, 18, 0, 0, 0));
    assert_eq!(
        Utc.timestamp_opt(result, 0).unwrap().weekday(),
        Weekday::Mon
    );
}

#[test]
fn relative_utc_variant_agrees_with_utc_time_zone() {
    let utc = Tz::named("Etc/UTC").unwrap();
    for expr in ["now", "1 day", "2 days", "1w", "3 weeks", "1m", "4 months", "5 yr"] {
        assert_eq!(
            parse_relative_date(expr, &utc, today()),
            parse_relative_date_utc(expr, today())
        );
    }
}

#[test]
fn accepts_every_unit_spelling() {
    let start_of_today = ts(2024, 4, 5, 0, 0, 0);
    for expr in ["1d", "1 day", "1 days", "1 D", "1DAYS"] {
        assert_eq!(parse_relative_date_utc(expr, today()), Some(start_of_today));
    }
    let start_of_week = ts(2024, 4, 1, 0, 0, 0);
    for expr in ["1w", "1 wk", "1 week", "1 wks", "1 weeks"] {
        assert_eq!(parse_relative_date_utc(expr, today()), Some(start_of_week));
    }
    let start_of_month = ts(2024, 4, 1, 0, 0, 0);
    for expr in ["1m", "1 mo", "1 month", "1 mos", "1 months"] {
        assert_eq!(parse_relative_date_utc(expr, today()), Some(start_of_month));
    }
    let start_of_year = ts(2024, 1, 1, 0, 0, 0);
    for expr in ["1y", "1 yr", "1 ye", "1 year", "1 yrs", "1 yes", "1 years"] {
        assert_eq!(parse_relative_date_utc(expr, today()), Some(start_of_year));
    }
}

#[test]
fn rejects_text_outside_the_relative_grammar() {
    assert_eq!(parse_relative_date_utc("", today()), None);
    assert_eq!(parse_relative_date_utc("week", today()), None);
    assert_eq!(parse_relative_date_utc("2", today()), None);
    assert_eq!(parse_relative_date_utc("2 fortnights", today()), None);
    assert_eq!(parse_relative_date_utc("nowhere", today()), None);
    assert_eq!(parse_relative_date_utc("-1 day", today()), None);
}

#[test]
fn rejects_counts_that_do_not_fit_32_bits() {
    assert_eq!(parse_relative_date_utc("4294967295 days", today()), None);
    assert_eq!(parse_relative_date_utc("99999999999999999999 days", today()), None);
}

#[test]
fn now_is_case_insensitive_and_trimmed() {
    assert_eq!(
        parse_relative_date_utc("  NOW  ", today()),
        Some(ts(2024, 4, 6, 0, 0, 0))
    );
}
