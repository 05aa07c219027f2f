//! Duration aggregation for display.
//!
//! Listed records are grouped per calendar day and per project, their
//! effective durations are summed, and each per-project sum is rounded
//! up to the next multiple of a configurable unit — the minimum
//! billable increment.  Rounding is applied per (day, project) bucket,
//! after summing within the bucket and never to a grand total, so two
//! short spans of one project share a single rounding step.  A daily
//! overtime balance accumulates the difference between the rounded day
//! total and the expected working time, which is zero on weekends.

use vstd::prelude::*;
use vstd::arithmetic::div_mod::{
    lemma_fundamental_div_mod,
    lemma_mod_division_less_than_divisor,
    lemma_mod_multiples_basic,
};
use vstd::arithmetic::mul::lemma_mul_inequality;
use crate::calendar::Date;
use crate::records::clone_opt_string;

verus! {

/// One record's contribution to a day: its project and its effective
/// duration in seconds.
pub struct TaskSpan {
    pub project: Option<String>,
    pub seconds: i64,
}

/// The summed duration of one project within one day.
pub struct ProjectBucket {
    pub project: Option<String>,
    pub seconds: i64,
}

/// A project name as compared by the aggregation: records without a
/// project form a bucket of their own.
pub open spec fn opt_view(p: Option<String>) -> Option<Seq<char>> {
    match p {
        None => None,
        Some(s) => Some(s@),
    }
}

/// `value` rounded up to the next multiple of `unit`.
pub open spec fn spec_round_to_next(value: int, unit: int) -> int {
    if value % unit == 0 {
        value
    } else {
        value + unit - value % unit
    }
}

/// Round `value` up to the next multiple of `unit`.
pub fn round_to_next(value: i64, unit: i64) -> (r: i64)
    requires
        0 <= value,
        0 < unit,
        value + unit <= i64::MAX,
    ensures
        r == spec_round_to_next(value as int, unit as int),
        value <= r < value + unit,
        (r as int) % (unit as int) == 0,
{
    let rem = ((value as u64) % (unit as u64)) as i64;
    proof {
        let q = (value as int) / (unit as int);
        lemma_fundamental_div_mod(value as int, unit as int);
        lemma_mod_division_less_than_divisor(value as int, unit as int);
        assert(rem == (value as int) % (unit as int));
        if rem == 0 {
            lemma_mod_multiples_basic(q, unit as int);
            assert(value as int == q * (unit as int));
        } else {
            lemma_mod_multiples_basic(q + 1, unit as int);
            assert((value as int) + (unit as int) - rem == (q + 1) * (unit as int))
                by (nonlinear_arith)
                requires
                    value as int == (unit as int) * q + rem,
            ;
        }
    }
    if rem == 0 {
        value
    } else {
        value + unit - rem
    }
}

/// The summed seconds of the spans that belong to project `p`.
pub open spec fn sum_for(spans: Seq<TaskSpan>, p: Option<Seq<char>>) -> int
    decreases spans.len(),
{
    if spans.len() == 0 {
        0
    } else {
        sum_for(spans.drop_last(), p) + if opt_view(spans.last().project) == p {
            spans.last().seconds as int
        } else {
            0
        }
    }
}

/// The summed seconds of all spans.
pub open spec fn span_total(spans: Seq<TaskSpan>) -> int
    decreases spans.len(),
{
    if spans.len() == 0 {
        0
    } else {
        span_total(spans.drop_last()) + spans.last().seconds
    }
}

/// The distinct projects of the spans, in order of first appearance.
pub open spec fn distinct_projects(spans: Seq<TaskSpan>) -> Seq<Option<Seq<char>>>
    decreases spans.len(),
{
    if spans.len() == 0 {
        Seq::empty()
    } else {
        let rest = distinct_projects(spans.drop_last());
        if rest.contains(opt_view(spans.last().project)) {
            rest
        } else {
            rest.push(opt_view(spans.last().project))
        }
    }
}

/// A project that appears in no span sums to zero, and every project's
/// sum is bounded by the total of nonnegative spans.
proof fn lemma_sum_for_bounds(spans: Seq<TaskSpan>, p: Option<Seq<char>>)
    requires
        forall|i: int| 0 <= i < spans.len() ==> spans[i].seconds >= 0,
    ensures
        0 <= sum_for(spans, p) <= span_total(spans),
        !distinct_projects(spans).contains(p) ==> sum_for(spans, p) == 0,
    decreases spans.len(),
{
    if spans.len() > 0 {
        assert(forall|i: int|
            0 <= i < spans.drop_last().len() ==> spans.drop_last()[i].seconds >= 0);
        lemma_sum_for_bounds(spans.drop_last(), p);
        if !distinct_projects(spans).contains(p) {
            let rest = distinct_projects(spans.drop_last());
            if opt_view(spans.last().project) == p {
                if rest.contains(p) {
                    assert(distinct_projects(spans).contains(p));
                } else {
                    assert(rest.push(p)[rest.len() as int] == p);
                    assert(distinct_projects(spans).contains(p));
                }
            }
            if rest.contains(p) {
                let k = choose|k: int| 0 <= k < rest.len() && rest[k] == p;
                if distinct_projects(spans) == rest {
                    assert(distinct_projects(spans)[k] == p);
                } else {
                    assert(distinct_projects(spans)[k] == p);
                }
                assert(distinct_projects(spans).contains(p));
            }
        }
    }
}

/// The total of a prefix never exceeds the total of nonnegative spans.
proof fn lemma_span_total_take(spans: Seq<TaskSpan>, k: int)
    requires
        forall|i: int| 0 <= i < spans.len() ==> spans[i].seconds >= 0,
        0 <= k <= spans.len(),
    ensures
        span_total(spans.take(k)) <= span_total(spans),
    decreases spans.len() - k,
{
    if k < spans.len() {
        assert(spans.take(k + 1).drop_last() =~= spans.take(k));
        assert(spans.take(k + 1).last() == spans[k]);
        lemma_span_total_take(spans, k + 1);
    } else {
        assert(spans.take(k) =~= spans);
    }
}

/// Whether two optional project names are the same bucket key.
fn opt_str_eq(a: &Option<String>, b: &Option<String>) -> (r: bool)
    ensures
        r == (opt_view(*a) == opt_view(*b)),
{
    match (a, b) {
        (None, None) => true,
        (Some(x), Some(y)) => *x == *y,
        _ => false,
    }
}

/// The position of the bucket for project `p`, if one exists.
fn find_bucket(buckets: &Vec<ProjectBucket>, p: &Option<String>) -> (r: Option<usize>)
    ensures
        r matches Some(k) ==> k < buckets@.len() && opt_view(buckets@[k as int].project)
            == opt_view(*p),
        r is None ==> forall|k: int|
            0 <= k < buckets@.len() ==> opt_view(buckets@[k].project) != opt_view(*p),
{
    let mut j: usize = 0;
    while j < buckets.len()
        invariant
            j <= buckets@.len(),
            forall|k: int| 0 <= k < j ==> opt_view(buckets@[k].project) != opt_view(*p),
        decreases buckets@.len() - j,
    {
        if opt_str_eq(&buckets[j].project, p) {
            return Some(j);
        }
        j = j + 1;
    }
    None
}

/// Sum the spans of one day per project.  The buckets stand in order
/// of each project's first appearance and hold the exact sum of that
/// project's spans — not yet rounded.
pub fn project_totals(spans: &Vec<TaskSpan>) -> (r: Vec<ProjectBucket>)
    requires
        forall|i: int| 0 <= i < spans@.len() ==> spans@[i].seconds >= 0,
        span_total(spans@) <= i64::MAX,
    ensures
        r@.len() == distinct_projects(spans@).len(),
        forall|k: int|
            0 <= k < r@.len() ==> opt_view(r@[k].project) == distinct_projects(spans@)[k],
        forall|k: int|
            0 <= k < r@.len() ==> r@[k].seconds == sum_for(spans@, opt_view(r@[k].project)),
        forall|k: int| 0 <= k < r@.len() ==> r@[k].seconds >= 0,
{
    let ghost all = spans@;
    let mut buckets: Vec<ProjectBucket> = Vec::new();
    let mut i: usize = 0;
    while i < spans.len()
        invariant
            i <= all.len(),
            all == spans@,
            forall|k: int| 0 <= k < all.len() ==> all[k].seconds >= 0,
            span_total(all) <= i64::MAX,
            buckets@.len() == distinct_projects(all.take(i as int)).len(),
            forall|k: int|
                0 <= k < buckets@.len() ==> opt_view(buckets@[k].project) == distinct_projects(
                    all.take(i as int),
                )[k],
            forall|k: int|
                0 <= k < buckets@.len() ==> buckets@[k].seconds == sum_for(
                    all.take(i as int),
                    opt_view(buckets@[k].project),
                ),
            forall|k1: int, k2: int|
                0 <= k1 < k2 < buckets@.len() ==> opt_view(buckets@[k1].project) != opt_view(
                    buckets@[k2].project,
                ),
        decreases all.len() - i,
    {
        let ghost prefix = all.take(i as int);
        let ghost next = all.take(i + 1);
        proof {
            assert(next.drop_last() =~= prefix);
            assert(next.last() == all[i as int]);
            assert(forall|k: int| 0 <= k < next.len() ==> next[k].seconds >= 0);
            assert(forall|k: int| 0 <= k < prefix.len() ==> prefix[k].seconds >= 0);
        }
        let span = &spans[i];
        match find_bucket(&buckets, &span.project) {
            Some(k) => {
                proof {
                    assert(distinct_projects(prefix)[k as int] == opt_view(span.project));
                    assert(distinct_projects(prefix).contains(opt_view(span.project)));
                    assert(distinct_projects(next) == distinct_projects(prefix));
                    lemma_sum_for_bounds(next, opt_view(span.project));
                    lemma_span_total_take(all, i + 1);
                }
                let total = buckets[k].seconds + span.seconds;
                let project = clone_opt_string(&buckets[k].project);
                buckets.set(k, ProjectBucket { project, seconds: total });
            },
            None => {
                proof {
                    let rest = distinct_projects(prefix);
                    if rest.contains(opt_view(span.project)) {
                        let w = choose|w: int|
                            0 <= w < rest.len() && rest[w] == opt_view(span.project);
                        assert(opt_view(buckets@[w].project) == opt_view(span.project));
                        assert(false);
                    }
                    lemma_sum_for_bounds(prefix, opt_view(span.project));
                    lemma_sum_for_bounds(next, opt_view(span.project));
                    lemma_span_total_take(all, i + 1);
                }
                let project = clone_opt_string(&span.project);
                buckets.push(ProjectBucket { project, seconds: span.seconds });
            },
        }
        i = i + 1;
    }
    proof {
        assert(all.take(all.len() as int) =~= all);
        assert(forall|k: int|
            0 <= k < buckets@.len() ==> buckets@[k].seconds == sum_for(
                all,
                opt_view(buckets@[k].project),
            ));
        assert(forall|k: int| 0 <= k < buckets@.len() ==> buckets@[k].seconds >= 0) by {
            assert forall|k: int| 0 <= k < buckets@.len() implies buckets@[k].seconds >= 0 by {
                lemma_sum_for_bounds(all, opt_view(buckets@[k].project));
            }
        }
    }
    buckets
}

/// The day's rounded total: the sum of every bucket's sum rounded up
/// to the next multiple of `unit`.
pub open spec fn spec_rounded_total(buckets: Seq<ProjectBucket>, unit: int) -> int
    decreases buckets.len(),
{
    if buckets.len() == 0 {
        0
    } else {
        spec_rounded_total(buckets.drop_last(), unit) + spec_round_to_next(
            buckets.last().seconds as int,
            unit,
        )
    }
}

/// The summed seconds of all buckets.
pub open spec fn bucket_total(buckets: Seq<ProjectBucket>) -> int
    decreases buckets.len(),
{
    if buckets.len() == 0 {
        0
    } else {
        bucket_total(buckets.drop_last()) + buckets.last().seconds
    }
}

/// The total of nonnegative buckets is nonnegative.
proof fn lemma_bucket_total_nonneg(buckets: Seq<ProjectBucket>)
    requires
        forall|i: int| 0 <= i < buckets.len() ==> buckets[i].seconds >= 0,
    ensures
        bucket_total(buckets) >= 0,
    decreases buckets.len(),
{
    if buckets.len() > 0 {
        assert(forall|i: int|
            0 <= i < buckets.drop_last().len() ==> buckets.drop_last()[i].seconds >= 0);
        lemma_bucket_total_nonneg(buckets.drop_last());
    }
}

/// The total of a prefix never exceeds the total of nonnegative
/// buckets.
proof fn lemma_bucket_total_take(buckets: Seq<ProjectBucket>, k: int)
    requires
        forall|i: int| 0 <= i < buckets.len() ==> buckets[i].seconds >= 0,
        0 <= k <= buckets.len(),
    ensures
        bucket_total(buckets.take(k)) <= bucket_total(buckets),
    decreases buckets.len() - k,
{
    if k < buckets.len() {
        assert(buckets.take(k + 1).drop_last() =~= buckets.take(k));
        assert(buckets.take(k + 1).last() == buckets[k]);
        lemma_bucket_total_take(buckets, k + 1);
    } else {
        assert(buckets.take(k) =~= buckets);
    }
}

/// Sum the buckets of one day, rounding each bucket up to the next
/// multiple of `rounding_minutes` minutes first.
pub fn rounded_total(buckets: &Vec<ProjectBucket>, rounding_minutes: u32) -> (r: i64)
    requires
        1 <= rounding_minutes,
        forall|i: int| 0 <= i < buckets@.len() ==> buckets@[i].seconds >= 0,
        bucket_total(buckets@) + buckets@.len() * (rounding_minutes * 60) <= i64::MAX,
    ensures
        r == spec_rounded_total(buckets@, rounding_minutes as int * 60),
        r >= 0,
{
    let unit: i64 = (rounding_minutes as i64) * 60;
    let ghost all = buckets@;
    let mut acc: i64 = 0;
    let mut k: usize = 0;
    while k < buckets.len()
        invariant
            k <= all.len(),
            all == buckets@,
            unit == rounding_minutes as int * 60,
            1 <= unit,
            forall|i: int| 0 <= i < all.len() ==> all[i].seconds >= 0,
            bucket_total(all) + all.len() * unit <= i64::MAX,
            acc == spec_rounded_total(all.take(k as int), unit as int),
            0 <= acc <= bucket_total(all.take(k as int)) + k * unit,
        decreases all.len() - k,
    {
        proof {
            assert(all.take(k + 1).drop_last() =~= all.take(k as int));
            assert(all.take(k + 1).last() == all[k as int]);
            lemma_bucket_total_take(all, k + 1);
            assert(forall|i: int|
                0 <= i < all.take(k as int).len() ==> all.take(k as int)[i].seconds >= 0);
            lemma_bucket_total_nonneg(all.take(k as int));
            lemma_mul_inequality(k + 1, all.len() as int, unit as int);
            assert((k + 1) * (unit as int) == k * (unit as int) + unit) by (nonlinear_arith);
            lemma_mul_inequality(1, all.len() as int, unit as int);
            assert(1 * (unit as int) == unit);
        }
        let s = buckets[k].seconds;
        let rounded = round_to_next(s, unit);
        acc = acc + rounded;
        k = k + 1;
    }
    proof {
        assert(all.take(all.len() as int) =~= all);
    }
    acc
}

/// One record's contribution, placed on its local calendar day.
pub struct DaySpan {
    pub day: Date,
    pub project: Option<String>,
    pub seconds: i64,
}

/// The spans of one calendar day.
pub struct DayGroup {
    pub day: Date,
    pub spans: Vec<TaskSpan>,
}

/// The span of a day entry, without its day.
pub open spec fn span_of(e: DaySpan) -> TaskSpan {
    TaskSpan { project: e.project, seconds: e.seconds }
}

/// Entries grouped into runs of equal consecutive days: each entry
/// joins the last group when it continues that group's day and opens a
/// new group otherwise.
pub open spec fn spec_split_days(entries: Seq<DaySpan>) -> Seq<(Date, Seq<TaskSpan>)>
    decreases entries.len(),
{
    if entries.len() == 0 {
        Seq::empty()
    } else {
        let rest = spec_split_days(entries.drop_last());
        let e = entries.last();
        if rest.len() > 0 && rest.last().0 == e.day {
            rest.update(rest.len() - 1, (e.day, rest.last().1.push(span_of(e))))
        } else {
            rest.push((e.day, seq![span_of(e)]))
        }
    }
}

/// Group a day-ordered list of entries into runs of equal consecutive
/// days, keeping the entries' order within each day.
pub fn split_days(entries: &Vec<DaySpan>) -> (r: Vec<DayGroup>)
    ensures
        r@.len() == spec_split_days(entries@).len(),
        forall|k: int|
            0 <= k < r@.len() ==> r@[k].day == spec_split_days(entries@)[k].0 && r@[k].spans@
                == spec_split_days(entries@)[k].1,
{
    let ghost all = entries@;
    let mut groups: Vec<DayGroup> = Vec::new();
    let mut i: usize = 0;
    while i < entries.len()
        invariant
            i <= all.len(),
            all == entries@,
            groups@.len() == spec_split_days(all.take(i as int)).len(),
            forall|k: int|
                0 <= k < groups@.len() ==> groups@[k].day == spec_split_days(all.take(i as int))[k].0
                    && groups@[k].spans@ == spec_split_days(all.take(i as int))[k].1,
        decreases all.len() - i,
    {
        proof {
            assert(all.take(i + 1).drop_last() =~= all.take(i as int));
            assert(all.take(i + 1).last() == all[i as int]);
        }
        let entry = &entries[i];
        let span = TaskSpan {
            project: clone_opt_string(&entry.project),
            seconds: entry.seconds,
        };
        let open_new = if groups.len() == 0 {
            true
        } else {
            groups[groups.len() - 1].day != entry.day
        };
        if open_new {
            let mut spans: Vec<TaskSpan> = Vec::new();
            spans.push(span);
            proof {
                assert(spans@ =~= seq![span_of(all[i as int])]);
            }
            groups.push(DayGroup { day: entry.day, spans });
        } else {
            let mut group = groups.pop().unwrap();
            group.spans.push(span);
            groups.push(group);
            proof {
                let ghost cur = spec_split_days(all.take(i + 1));
                let ghost prev = spec_split_days(all.take(i as int));
                assert(cur == prev.update(prev.len() - 1, (
                    all[i as int].day,
                    prev.last().1.push(span_of(all[i as int])),
                )));
                assert(groups@.len() == cur.len());
                assert(forall|k: int|
                    0 <= k < groups@.len() - 1 ==> groups@[k].day == cur[k].0 && groups@[k].spans@
                        == cur[k].1);
                assert(groups@.last().spans@ =~= cur.last().1);
            }
        }
        i = i + 1;
    }
    proof {
        assert(all.take(all.len() as int) =~= all);
    }
    groups
}

/// The working time expected of a day: zero on Saturday and Sunday
/// (weekdays 5 and 6, counted from Monday), the configured time
/// otherwise.
pub fn expected_for_day(weekday: u8, expected_seconds: i64) -> (r: i64)
    ensures
        r == if weekday >= 5 {
            0int
        } else {
            expected_seconds as int
        },
{
    if weekday >= 5 {
        0
    } else {
        expected_seconds
    }
}

/// Advance the running overtime balance by one day: the difference
/// between the day's rounded total and the expected working time is
/// added to the balance.  Returns the difference and the new balance.
pub fn overtime_day(day_seconds: i64, expected_seconds: i64, balance_seconds: i64) -> (r: (
    i64,
    i64,
))
    requires
        i64::MIN <= day_seconds - expected_seconds <= i64::MAX,
        i64::MIN <= balance_seconds + (day_seconds - expected_seconds) <= i64::MAX,
    ensures
        r.0 == day_seconds - expected_seconds,
        r.1 == balance_seconds + r.0,
{
    let difference = day_seconds - expected_seconds;
    (difference, balance_seconds + difference)
}

} // verus!
