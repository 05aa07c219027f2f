use chrono::Datelike;
use chrono::NaiveDate;
use chrono::TimeZone;
use timesheettool::calendar::{checked_date, from_day_index, sub_days, utc_timestamp, Date};

#[test]
fn weekday_counts_from_monday() {
    // 2024-04-05 is a Friday.
    assert_eq!(Date { year: 2024, month: 4, day: 5 }.weekday(), 4);
    // 1970-01-01 is a Thursday.
    assert_eq!(Date { year: 1970, month: 1, day: 1 }.weekday(), 3);
    // 2000-02-29 is a Tuesday.
    assert_eq!(Date { year: 2000, month: 2, day: 29 }.weekday(), 1);
}

#[test]
fn day_index_round_trips_through_from_day_index() {
    for d in [
        Date { year: 0, month: 1, day: 1 },
        Date { year: 1969, month: 12, day: 31 },
        Date { year: 2024, month: 2, day: 29 },
        Date { year: 9999, month: 12, day: 31 },
    ] {
        let back = from_day_index(d.to_day_index());
        assert_eq!(back, d);
    }
}

#[test]
fn checked_date_accepts_exactly_the_existing_days() {
    assert!(checked_date(2024, 2, 29).is_some());
    assert!(checked_date(2023, 2, 29).is_none());
    assert!(checked_date(1900, 2, 29).is_none());
    assert!(checked_date(2000, 2, 29).is_some());
    assert!(checked_date(2024, 4, 31).is_none());
    assert!(checked_date(2024, 13, 1).is_none());
    assert!(checked_date(2024, 0, 1).is_none());
    assert!(checked_date(2024, 1, 0).is_none());
    assert!(checked_date(10000, 1, 1).is_none());
    assert!(checked_date(-1, 1, 1).is_none());
}

#[test]
fn sub_days_agrees_with_the_civil_calendar() {
    let start = Date { year: 2024, month: 3, day: 1 };
    let back = sub_days(&start, 1).unwrap();
    assert_eq!(back, Date { year: 2024, month: 2, day: 29 });
    let far = sub_days(&start, 1000).unwrap();
    let expected = NaiveDate::from_ymd_opt(2024, 3, 1)
        .unwrap()
        .checked_sub_days(chrono::Days::new(1000))
        .unwrap();
    assert_eq!(far.year, expected.year());
    assert_eq!(far.month as u32, expected.month());
    assert_eq!(far.day as u32, expected.day());
}

#[test]
fn utc_timestamps_agree_with_chrono() {
    let d = Date { year: 2022, month: 1, day: 5 };
    let expected = chrono::Utc
        .with_ymd_and_hms(2022, 1, 5, 1, 5, 7)
        .unwrap()
        .timestamp();
    assert_eq!(utc_timestamp(&d, 1, 5, 7), expected);
    let before_epoch = Date { year: 1969, month: 12, day: 31 };
    let expected = chrono::Utc
        .with_ymd_and_hms(1969, 12, 31, 23, 59, 59)
        .unwrap()
        .timestamp();
    assert_eq!(utc_timestamp(&before_epoch, 23, 59, 59), expected);
}
