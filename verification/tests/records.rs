use chrono::TimeZone;
use chrono::Utc;
use timesheettool::records::{reconcile, Interval, IntervalChange};

fn dt(time: &str) -> i64 {
    let mut parts = time.split(":");
    let hour = parts.next().unwrap().parse().unwrap();
    let min = parts.next().unwrap().parse().unwrap();
    let sec = parts.next().unwrap().parse().unwrap();
    Utc.with_ymd_and_hms(2024, 5, 12, hour, min, sec)
        .unwrap()
        .timestamp()
}

fn interval(started_at: i64, ended_at: Option<i64>) -> Interval {
    Interval {
        task: "abc".to_string(),
        project: None,
        started_at,
        ended_at,
    }
}

#[test]
fn duration_returns_duration_of_two_records() {
    let record = Interval {
        task: "task".into(),
        project: Some("project".into()),
        started_at: dt("10:00:00"),
        ended_at: Some(dt("12:00:00")),
    };

    assert_eq!(record.duration(dt("15:00:00")), 2 * 60 * 60);
}

#[test]
fn duration_uses_current_time_if_task_has_not_ended() {
    let record = Interval {
        task: "task".into(),
        project: Some("project".into()),
        started_at: dt("10:00:00"),
        ended_at: None,
    };

    assert_eq!(record.duration(dt("15:00:00")), 5 * 60 * 60);
}

#[test]
fn reconcile_without_previous_interval_changes_nothing() {
    let changes = reconcile(None, dt("11:00:00"), Some(dt("12:00:00")));
    assert!(changes.is_empty());
}

#[test]
fn reconcile_closes_an_open_interval_at_the_end_time() {
    let changes = reconcile(Some(interval(dt("10:00:00"), None)), dt("11:00:00"), None);
    assert_eq!(changes.len(), 1);
    match &changes[0] {
        IntervalChange::Closed(i) => {
            assert_eq!(i.task, "abc");
            assert_eq!(i.started_at, dt("10:00:00"));
            assert_eq!(i.ended_at, Some(dt("11:00:00")));
        }
        IntervalChange::Opened(_) => panic!("expected a closing change"),
    }
}

#[test]
fn reconcile_is_idempotent_once_closed_at_an_earlier_bound() {
    // Closing an open interval at `a`, then reconciling again at any
    // `b >= a`, changes nothing the second time.
    let a = dt("11:00:00");
    let b = dt("13:00:00");
    let changes = reconcile(Some(interval(dt("10:00:00"), None)), a, None);
    assert_eq!(changes.len(), 1);
    let closed = match &changes[0] {
        IntervalChange::Closed(i) => interval(i.started_at, i.ended_at),
        IntervalChange::Opened(_) => panic!("expected a closing change"),
    };
    let again = reconcile(Some(closed), b, None);
    assert!(again.is_empty());
}

#[test]
fn reconcile_ignores_intervals_that_ended_before_the_given_date() {
    let changes = reconcile(
        Some(interval(dt("10:00:00"), Some(dt("11:00:00")))),
        dt("11:30:00"),
        None,
    );
    assert!(changes.is_empty());
}

#[test]
fn reconcile_truncates_intervals_that_finish_after_the_given_date() {
    let changes = reconcile(
        Some(interval(dt("10:00:00"), Some(dt("11:30:00")))),
        dt("11:00:00"),
        None,
    );
    assert_eq!(changes.len(), 1);
    match &changes[0] {
        IntervalChange::Closed(i) => {
            assert_eq!(i.started_at, dt("10:00:00"));
            assert_eq!(i.ended_at, Some(dt("11:00:00")));
        }
        IntervalChange::Opened(_) => panic!("expected a closing change"),
    }
}

#[test]
fn reconcile_splits_a_closed_interval_around_the_new_event() {
    let changes = reconcile(
        Some(interval(dt("10:00:00"), Some(dt("15:00:00")))),
        dt("11:00:00"),
        Some(dt("12:00:00")),
    );
    assert_eq!(changes.len(), 2);
    match &changes[0] {
        IntervalChange::Closed(i) => {
            assert_eq!(i.task, "abc");
            assert_eq!(i.started_at, dt("10:00:00"));
            assert_eq!(i.ended_at, Some(dt("11:00:00")));
        }
        IntervalChange::Opened(_) => panic!("expected the closing change first"),
    }
    match &changes[1] {
        IntervalChange::Opened(i) => {
            assert_eq!(i.task, "abc");
            assert_eq!(i.started_at, dt("12:00:00"));
            assert_eq!(i.ended_at, Some(dt("15:00:00")));
        }
        IntervalChange::Closed(_) => panic!("expected the splitting change second"),
    }
}

#[test]
fn reconcile_splits_an_open_interval_and_keeps_it_open() {
    let changes = reconcile(
        Some(interval(dt("10:00:00"), None)),
        dt("11:00:00"),
        Some(dt("12:00:00")),
    );
    assert_eq!(changes.len(), 2);
    match &changes[0] {
        IntervalChange::Closed(i) => {
            assert_eq!(i.started_at, dt("10:00:00"));
            assert_eq!(i.ended_at, Some(dt("11:00:00")));
        }
        IntervalChange::Opened(_) => panic!("expected the closing change first"),
    }
    match &changes[1] {
        IntervalChange::Opened(i) => {
            assert_eq!(i.started_at, dt("12:00:00"));
            assert_eq!(i.ended_at, None);
        }
        IntervalChange::Closed(_) => panic!("expected the splitting change second"),
    }
}

#[test]
fn reconcile_does_not_reopen_when_the_interval_ended_before_the_start_time() {
    // The previous interval ended at 11:00; an event stopping at 10:00
    // and restarting at 11:30 truncates it but inserts nothing.
    let changes = reconcile(
        Some(interval(dt("09:00:00"), Some(dt("11:00:00")))),
        dt("10:00:00"),
        Some(dt("11:30:00")),
    );
    assert_eq!(changes.len(), 1);
    assert!(matches!(changes[0], IntervalChange::Closed(_)));
}
