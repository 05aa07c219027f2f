//! Interval reconciliation.
//!
//! When a new event ("stop at `end_time`", optionally "and resume at
//! `start_time`") arrives, the most recent stored interval that started
//! before `end_time` may have to be truncated, or split in two, so that
//! no two records silently overlap.  [`reconcile`] decides which
//! mutations to apply and reports every interval that was touched; the
//! caller persists them.

use vstd::prelude::*;

verus! {

/// Instants are UTC timestamps in whole seconds since the Unix epoch.
pub type Instant = i64;

/// One time-sheet record: a task (optionally grouped under a project)
/// worked on from `started_at` until `ended_at`; an absent `ended_at`
/// means the interval is still open.
pub struct Interval {
    pub task: String,
    pub project: Option<String>,
    pub started_at: Instant,
    pub ended_at: Option<Instant>,
}

impl Interval {
    /// An interval is well formed when its end, if present, is not
    /// before its start.
    pub open spec fn wf(self) -> bool {
        self.ended_at matches Some(e) ==> self.started_at <= e
    }

    /// The effective duration in seconds: a still-open interval is
    /// measured up to `now`.
    pub open spec fn spec_duration(self, now: Instant) -> int {
        (match self.ended_at {
            Some(e) => e,
            None => now,
        }) - self.started_at
    }

    /// The effective duration in seconds, measuring a still-open
    /// interval up to `now`.
    pub fn duration(&self, now: Instant) -> (r: i64)
        requires
            i64::MIN <= self.spec_duration(now) <= i64::MAX,
        ensures
            r == self.spec_duration(now),
    {
        match self.ended_at {
            Some(e) => e - self.started_at,
            None => now - self.started_at,
        }
    }
}

/// A mutation the reconciler asks the store to perform, carrying the
/// interval as it looks after the mutation.
pub enum IntervalChange {
    /// The previous interval's end was set to the new boundary.
    Closed(Interval),
    /// A new interval was inserted: the same task resumes after a gap,
    /// keeping the previous interval's original end.
    Opened(Interval),
}

/// Whether the previous interval must be closed at `end_time`: it is
/// still open, or it runs past `end_time`.
pub open spec fn closes(prev: Interval, end_time: Instant) -> bool {
    match prev.ended_at {
        None => true,
        Some(e) => e > end_time,
    }
}

/// Whether a new interval must be inserted to resume the task at
/// `start_time`: the previous interval's original end is absent or
/// strictly after `start_time`.
pub open spec fn reopens(prev: Interval, start_time: Instant) -> bool {
    match prev.ended_at {
        None => true,
        Some(e) => e > start_time,
    }
}

/// The closing change: the previous interval truncated to `end_time`.
pub open spec fn closed_change(prev: Interval, end_time: Instant) -> IntervalChange {
    IntervalChange::Closed(
        Interval {
            task: prev.task,
            project: prev.project,
            started_at: prev.started_at,
            ended_at: Some(end_time),
        },
    )
}

/// The splitting change: a new interval for the same task, starting at
/// `start_time` and keeping the previous interval's original end.
pub open spec fn opened_change(prev: Interval, start_time: Instant) -> IntervalChange {
    IntervalChange::Opened(
        Interval {
            task: prev.task,
            project: prev.project,
            started_at: start_time,
            ended_at: prev.ended_at,
        },
    )
}

/// The exact list of changes [`reconcile`] produces: the closing change
/// first, if any, then the splitting change, if any.
pub open spec fn spec_reconcile(
    previous: Option<Interval>,
    end_time: Instant,
    start_time: Option<Instant>,
) -> Seq<IntervalChange> {
    match previous {
        None => Seq::empty(),
        Some(prev) => {
            let close = if closes(prev, end_time) {
                seq![closed_change(prev, end_time)]
            } else {
                Seq::empty()
            };
            let open = match start_time {
                Some(st) => if reopens(prev, st) {
                    seq![opened_change(prev, st)]
                } else {
                    Seq::empty()
                },
                None => Seq::empty(),
            };
            close + open
        },
    }
}

/// Reconcile a new event against the most recent prior interval.
///
/// `previous` is the most recently started interval with
/// `started_at < end_time`, if one exists.  The returned changes are
/// the mutations the store must apply: first, if the previous interval
/// is open or runs past `end_time`, it is closed at `end_time`; then,
/// if a `start_time` is supplied and the previous interval's original
/// end is absent or after `start_time`, a new interval for the same
/// task is inserted from `start_time` to that original end.  History
/// that already ended at or before both boundaries is never touched.
pub fn reconcile(
    previous: Option<Interval>,
    end_time: Instant,
    start_time: Option<Instant>,
) -> (changes: Vec<IntervalChange>)
    ensures
        changes@ == spec_reconcile(previous, end_time, start_time),
{
    let mut changes: Vec<IntervalChange> = Vec::new();
    match previous {
        None => {},
        Some(prev) => {
            let must_close = match prev.ended_at {
                None => true,
                Some(e) => e > end_time,
            };
            if must_close {
                changes.push(IntervalChange::Closed(
                    Interval {
                        task: clone_string(&prev.task),
                        project: clone_opt_string(&prev.project),
                        started_at: prev.started_at,
                        ended_at: Some(end_time),
                    },
                ));
            }
            if let Some(st) = start_time {
                let must_open = match prev.ended_at {
                    None => true,
                    Some(e) => e > st,
                };
                if must_open {
                    changes.push(IntervalChange::Opened(
                        Interval {
                            task: prev.task,
                            project: prev.project,
                            started_at: st,
                            ended_at: prev.ended_at,
                        },
                    ));
                }
            }
        },
    }
    assert(changes@ =~= spec_reconcile(previous, end_time, start_time));
    changes
}

/// Copy a string; the copy has the same characters.
pub(crate) fn clone_string(s: &String) -> (r: String)
    ensures
        r == s,
{
    s.clone()
}

/// Copy an optional string; the copy is equal to the original.
pub(crate) fn clone_opt_string(s: &Option<String>) -> (r: Option<String>)
    ensures
        r == s,
{
    match s {
        Some(v) => Some(v.clone()),
        None => None,
    }
}

/// The interval a change carries.
pub open spec fn change_interval(c: IntervalChange) -> Interval {
    match c {
        IntervalChange::Closed(i) => i,
        IntervalChange::Opened(i) => i,
    }
}

/// Reconciliation never produces a malformed interval: as long as the
/// previous interval started before the new boundary — which the store
/// guarantees by fetching the most recent interval started strictly
/// before it — every reported interval ends at or after its start.
pub proof fn lemma_reconcile_well_formed(
    prev: Interval,
    end_time: Instant,
    start_time: Option<Instant>,
)
    requires
        prev.started_at <= end_time,
    ensures
        forall|k: int|
            0 <= k < spec_reconcile(Some(prev), end_time, start_time).len() ==> change_interval(
                spec_reconcile(Some(prev), end_time, start_time)[k],
            ).wf(),
{
}

/// Closing is idempotent once truncated: for any instants `a <= b`,
/// reconciling an open interval against `end_time = a` yields exactly
/// the one closing change that truncates it to `a`, and reconciling the
/// now-closed interval against any later `end_time = b` yields no
/// change at all.
pub proof fn lemma_close_then_settled(prev: Interval, a: Instant, b: Instant)
    requires
        prev.ended_at is None,
        a <= b,
    ensures
        spec_reconcile(Some(prev), a, None) =~= seq![closed_change(prev, a)],
        spec_reconcile(
            Some(Interval { ended_at: Some(a), ..prev }),
            b,
            None,
        ) =~= Seq::<IntervalChange>::empty(),
{
}

} // verus!
