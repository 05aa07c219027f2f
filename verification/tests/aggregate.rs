use timesheettool::aggregate::{
    expected_for_day, overtime_day, project_totals, round_to_next, rounded_total, split_days,
    DaySpan, TaskSpan,
};
use timesheettool::calendar::Date;
use timesheettool::commands::{effective_granularity, Granularity};

fn span(project: Option<&str>, seconds: i64) -> TaskSpan {
    TaskSpan { project: project.map(|p| p.to_string()), seconds }
}

#[test]
fn round_to_next_returns_the_next_multiple() {
    assert_eq!(round_to_next(0, 1800), 0);
    assert_eq!(round_to_next(1, 1800), 1800);
    assert_eq!(round_to_next(1800, 1800), 1800);
    assert_eq!(round_to_next(1801, 1800), 3600);
    assert_eq!(round_to_next(3600, 1800), 3600);
    assert_eq!(round_to_next(59, 60), 60);
}

#[test]
fn same_project_spans_share_a_single_rounding_step() {
    // Two same-day spans of 10 and 20 minutes, rounded per project with
    // a 30-minute unit: the sums combine first, so the day holds one
    // 30-minute bucket, not two.
    let spans = vec![span(Some("proj"), 10 * 60), span(Some("proj"), 20 * 60)];
    let buckets = project_totals(&spans);
    assert_eq!(buckets.len(), 1);
    assert_eq!(buckets[0].project.as_deref(), Some("proj"));
    assert_eq!(buckets[0].seconds, 30 * 60);
    assert_eq!(rounded_total(&buckets, 30), 30 * 60);
}

#[test]
fn different_projects_round_independently() {
    let spans = vec![span(Some("a"), 10 * 60), span(Some("b"), 20 * 60)];
    let buckets = project_totals(&spans);
    assert_eq!(buckets.len(), 2);
    assert_eq!(rounded_total(&buckets, 30), 60 * 60);
}

#[test]
fn buckets_keep_first_appearance_order_and_exact_sums() {
    let spans = vec![
        span(Some("b"), 100),
        span(None, 50),
        span(Some("a"), 10),
        span(Some("b"), 1),
    ];
    let buckets = project_totals(&spans);
    assert_eq!(buckets.len(), 3);
    assert_eq!(buckets[0].project.as_deref(), Some("b"));
    assert_eq!(buckets[0].seconds, 101);
    assert_eq!(buckets[1].project, None);
    assert_eq!(buckets[1].seconds, 50);
    assert_eq!(buckets[2].project.as_deref(), Some("a"));
    assert_eq!(buckets[2].seconds, 10);
}

#[test]
fn split_days_groups_runs_of_equal_consecutive_days() {
    let d1 = Date { year: 2024, month: 5, day: 12 };
    let d2 = Date { year: 2024, month: 5, day: 13 };
    let entries = vec![
        DaySpan { day: d1, project: Some("a".to_string()), seconds: 10 },
        DaySpan { day: d1, project: Some("b".to_string()), seconds: 20 },
        DaySpan { day: d2, project: Some("a".to_string()), seconds: 30 },
    ];
    let groups = split_days(&entries);
    assert_eq!(groups.len(), 2);
    assert_eq!(groups[0].day, d1);
    assert_eq!(groups[0].spans.len(), 2);
    assert_eq!(groups[0].spans[0].project.as_deref(), Some("a"));
    assert_eq!(groups[0].spans[0].seconds, 10);
    assert_eq!(groups[0].spans[1].project.as_deref(), Some("b"));
    assert_eq!(groups[1].day, d2);
    assert_eq!(groups[1].spans.len(), 1);
    assert_eq!(groups[1].spans[0].seconds, 30);
}

#[test]
fn weekends_expect_no_working_time() {
    // 2024-05-11 is a Saturday, 2024-05-12 a Sunday, 2024-05-13 a Monday.
    let sat = Date { year: 2024, month: 5, day: 11 };
    let sun = Date { year: 2024, month: 5, day: 12 };
    let mon = Date { year: 2024, month: 5, day: 13 };
    assert_eq!(expected_for_day(sat.weekday(), 8 * 3600), 0);
    assert_eq!(expected_for_day(sun.weekday(), 8 * 3600), 0);
    assert_eq!(expected_for_day(mon.weekday(), 8 * 3600), 8 * 3600);
}

#[test]
fn the_balance_accumulates_day_differences_in_order() {
    let (diff1, balance) = overtime_day(9 * 3600, 8 * 3600, 0);
    assert_eq!(diff1, 3600);
    assert_eq!(balance, 3600);
    let (diff2, balance) = overtime_day(6 * 3600, 8 * 3600, balance);
    assert_eq!(diff2, -2 * 3600);
    assert_eq!(balance, -3600);
}

#[test]
fn granularity_follows_the_width_of_the_range() {
    let day = 86400;
    assert_eq!(effective_granularity(Granularity::Auto, 0, 6 * day), Granularity::All);
    assert_eq!(effective_granularity(Granularity::Auto, 0, 7 * day), Granularity::Daily);
    assert_eq!(effective_granularity(Granularity::Auto, 0, 28 * day), Granularity::Daily);
    assert_eq!(effective_granularity(Granularity::Auto, 0, 29 * day), Granularity::Weekly);
    assert_eq!(effective_granularity(Granularity::Auto, 0, 60 * day), Granularity::Weekly);
    assert_eq!(effective_granularity(Granularity::Auto, 0, 61 * day), Granularity::Monthly);
    assert_eq!(effective_granularity(Granularity::All, 0, 61 * day), Granularity::All);
    assert_eq!(effective_granularity(Granularity::Monthly, 0, 0), Granularity::Monthly);
}
