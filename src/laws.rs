//! Properties that hold across the engine's functions, proved over their
//! specifications.

use vstd::prelude::*;
use crate::args::Period;
use crate::collector::{
    Entry, bucket_view, daily_view, entries, has_key, key_label,
    lemma_daily_sum, lemma_regroup_totals, merge_view, period_key, period_view, regroup, sum_days,
    CommitInfo,
};
use crate::date::DateRange;
use crate::diff::{FileChange, matched_counts, sum_additions, sum_deletions};
use crate::stats::{Counts, PeriodView, add_counts, counts_of, sum_counts};

verus! {

/// Merging bucket counts is commutative and associative.
pub proof fn law_merge_commutative_associative(a: Counts, b: Counts, c: Counts)
    ensures
        add_counts(a, b) == add_counts(b, a),
        add_counts(add_counts(a, b), c) == add_counts(a, add_counts(b, c)),
{
}

/// Every bucket of a regrouped list has `net_lines == additions - deletions`.
proof fn lemma_regroup_net(s: Seq<PeriodView>, p: Period)
    ensures
        forall|k: int| 0 <= k < regroup(s, p).len() ==> (#[trigger] regroup(s, p)[k]).net_lines
            == regroup(s, p)[k].additions - regroup(s, p)[k].deletions,
    decreases s.len(),
{
    if s.len() > 0 {
        lemma_regroup_net(s.drop_last(), p);
        let r = regroup(s.drop_last(), p);
        let x = s.last();
        let key = period_key(p, x.date);
        if has_key(r, p, key) {
            let j = choose|j: int| 0 <= j < r.len() && period_key(p, r[j].date) == key;
            assert(regroup(s, p) == r.update(j, merge_view(r[j], x)));
        } else {
            assert(regroup(s, p) == r.push(merge_view(bucket_view(key_label(p, key), x.date, (0, 0, 0, 0)), x)));
        }
    }
}

/// In every analysis, daily or coarser, each bucket's net line change is
/// exactly its additions minus its deletions, negative results included.
pub proof fn law_net_lines(es: Seq<Entry>, range: DateRange, p: Period)
    ensures
        forall|k: int| 0 <= k < period_view(es, range, p).len() ==> (#[trigger] period_view(es, range, p)[k]).net_lines
            == period_view(es, range, p)[k].additions - period_view(es, range, p)[k].deletions,
{
    lemma_regroup_net(daily_view(es, range.from.day as int, range.day_count() as nat), p);
}

/// With no allow-list, or an empty one, a consistent diff's files give its own totals.
proof fn lemma_empty_list_matches_all(files: Seq<FileChange>)
    ensures
        matched_counts(files, Seq::empty()) == (sum_additions(files), sum_deletions(files), files.len() as int),
    decreases files.len(),
{
    if files.len() > 0 {
        lemma_empty_list_matches_all(files.drop_last());
    }
}

/// Extension filtering never changes how many commits a bucket counts; and
/// on commits whose diff totals are the sums over their files, an empty
/// allow-list gives the same buckets as no allow-list.
pub proof fn law_filter_keeps_commits(
    commits: Seq<CommitInfo>,
    offsets: Seq<i32>,
    allowed: Seq<Seq<char>>,
    lo: int,
    hi: int,
)
    requires
        offsets.len() == commits.len(),
    ensures
        sum_days(entries(commits, offsets, Some(allowed)), lo, hi).0 == sum_days(entries(commits, offsets, None), lo, hi).0,
        (forall|i: int| 0 <= i < commits.len() ==> (#[trigger] commits[i]).diff.is_consistent())
            ==> sum_days(entries(commits, offsets, Some(Seq::empty())), lo, hi) == sum_days(
            entries(commits, offsets, None),
            lo,
            hi,
        ),
    decreases commits.len(),
{
    if commits.len() > 0 {
        let n = commits.len() - 1;
        law_filter_keeps_commits(commits.drop_last(), offsets.drop_last(), allowed, lo, hi);
        assert(entries(commits.drop_last(), offsets.drop_last(), Some(allowed)) =~= entries(commits, offsets, Some(allowed)).drop_last());
        assert(entries(commits.drop_last(), offsets.drop_last(), None) =~= entries(commits, offsets, None).drop_last());
        assert(entries(commits.drop_last(), offsets.drop_last(), Some(Seq::empty())) =~= entries(commits, offsets, Some(Seq::empty())).drop_last());
        lemma_empty_list_matches_all(commits[n].diff.files@);
        if forall|i: int| 0 <= i < commits.len() ==> (#[trigger] commits[i]).diff.is_consistent() {
            assert forall|i: int| 0 <= i < commits.drop_last().len() implies (#[trigger] commits.drop_last()[i]).diff.is_consistent() by {
                assert(commits.drop_last()[i] == commits[i]);
            }
            assert(commits[n].diff.is_consistent());
        }
    }
}

/// Regrouping buckets that all share one key gives one bucket, anchored on
/// the first, holding their sum.
proof fn lemma_regroup_one_key(s: Seq<PeriodView>, p: Period)
    requires
        s.len() > 0,
        forall|k: int| 0 <= k < s.len() ==> period_key(p, #[trigger] s[k].date) == period_key(p, s[0].date),
    ensures
        regroup(s, p).len() == 1,
        regroup(s, p)[0].date == s[0].date,
        counts_of(regroup(s, p)[0]) == sum_counts(s),
    decreases s.len(),
{
    if s.len() == 1 {
        assert(s.drop_last().len() == 0);
        assert(regroup(s.drop_last(), p).len() == 0);
        assert(!has_key(regroup(s.drop_last(), p), p, period_key(p, s.last().date)));
        assert(sum_counts(s.drop_last()) == (0int, 0int, 0int, 0int));
    } else {
        let t = s.drop_last();
        assert forall|k: int| 0 <= k < t.len() implies period_key(p, #[trigger] t[k].date) == period_key(p, t[0].date) by {
            assert(t[k] == s[k]);
            assert(t[0] == s[0]);
        }
        lemma_regroup_one_key(t, p);
        let r = regroup(t, p);
        assert(period_key(p, r[0].date) == period_key(p, s.last().date)) by {
            assert(s[s.len() - 1] == s.last());
        }
        assert(has_key(r, p, period_key(p, s.last().date)));
        lemma_regroup_totals(t, p);
    }
}

/// When every day of a non-empty range falls in one period bucket (one
/// month, say), the coarser analysis is a single bucket holding exactly the
/// daily series' totals, and so every commit of the range, however the
/// commits are spread over its days.
pub proof fn law_one_period_partition(es: Seq<Entry>, range: DateRange, p: Period)
    requires
        !(p is Daily),
        range.from.day <= range.to.day,
        forall|d: int| range.from.day <= d <= range.to.day ==> #[trigger] period_key(p, d) == period_key(p, range.from.day as int),
    ensures
        period_view(es, range, p).len() == 1,
        counts_of(period_view(es, range, p)[0]) == sum_counts(daily_view(es, range.from.day as int, range.day_count() as nat)),
        counts_of(period_view(es, range, p)[0]) == sum_days(es, range.from.day as int, range.to.day as int),
{
    let d = daily_view(es, range.from.day as int, range.day_count() as nat);
    assert forall|k: int| 0 <= k < d.len() implies period_key(p, #[trigger] d[k].date) == period_key(p, d[0].date) by {
        assert(d[k].date == range.from.day + k);
    }
    lemma_regroup_one_key(d, p);
    lemma_daily_sum(es, range.from.day as int, range.day_count() as nat);
}

/// Regrouping a list whose anchor dates ascend strictly keeps them ascending,
/// and no anchor comes after the list's last date.
pub proof fn lemma_regroup_ascending(s: Seq<PeriodView>, p: Period)
    requires
        forall|a: int, b: int| 0 <= a < b < s.len() ==> #[trigger] s[a].date < #[trigger] s[b].date,
    ensures
        forall|a: int, b: int| 0 <= a < b < regroup(s, p).len() ==> #[trigger] regroup(s, p)[a].date < #[trigger] regroup(s, p)[b].date,
        s.len() > 0 ==> forall|j: int| 0 <= j < regroup(s, p).len() ==> #[trigger] regroup(s, p)[j].date <= s.last().date,
    decreases s.len(),
{
    if s.len() > 0 {
        let t = s.drop_last();
        assert forall|a: int, b: int| 0 <= a < b < t.len() implies #[trigger] t[a].date < #[trigger] t[b].date by {
            assert(t[a] == s[a] && t[b] == s[b]);
        }
        lemma_regroup_ascending(t, p);
        let r = regroup(t, p);
        let x = s.last();
        if t.len() > 0 {
            assert(t.last().date < x.date) by {
                assert(t.last() == s[s.len() - 2]);
            }
        }
        let key = period_key(p, x.date);
        if has_key(r, p, key) {
            let j = choose|j: int| 0 <= j < r.len() && period_key(p, r[j].date) == key;
            assert(regroup(s, p) == r.update(j, merge_view(r[j], x)));
        } else {
            assert(regroup(s, p) == r.push(merge_view(bucket_view(key_label(p, key), x.date, (0, 0, 0, 0)), x)));
        }
    }
}

/// Every analysis lists its buckets in strictly ascending order of anchor
/// date: days in calendar order, and coarser buckets by their first day.
pub proof fn law_buckets_ascending(es: Seq<Entry>, range: DateRange, p: Period)
    ensures
        forall|a: int, b: int| 0 <= a < b < period_view(es, range, p).len() ==> #[trigger] period_view(es, range, p)[a].date
            < #[trigger] period_view(es, range, p)[b].date,
{
    let d = daily_view(es, range.from.day as int, range.day_count() as nat);
    assert forall|a: int, b: int| 0 <= a < b < d.len() implies #[trigger] d[a].date < #[trigger] d[b].date by {}
    lemma_regroup_ascending(d, p);
}

/// Regrouping gives each key one bucket: no two buckets share a key.
proof fn lemma_regroup_keys_distinct(s: Seq<PeriodView>, p: Period)
    ensures
        forall|a: int, b: int| 0 <= a < b < regroup(s, p).len() ==> period_key(p, #[trigger] regroup(s, p)[a].date)
            != period_key(p, #[trigger] regroup(s, p)[b].date),
    decreases s.len(),
{
    if s.len() > 0 {
        lemma_regroup_keys_distinct(s.drop_last(), p);
        let r = regroup(s.drop_last(), p);
        let x = s.last();
        let key = period_key(p, x.date);
        if has_key(r, p, key) {
            let j = choose|j: int| 0 <= j < r.len() && period_key(p, r[j].date) == key;
            assert(regroup(s, p) == r.update(j, merge_view(r[j], x)));
        } else {
            let t = r.push(merge_view(bucket_view(key_label(p, key), x.date, (0, 0, 0, 0)), x));
            assert(regroup(s, p) == t);
            assert forall|a: int, b: int| 0 <= a < b < t.len() implies period_key(p, #[trigger] t[a].date)
                != period_key(p, #[trigger] t[b].date) by {
                if b == t.len() - 1 {
                    assert(t[a] == r[a]);
                    if period_key(p, r[a].date) == key {
                        assert(has_key(r, p, key));
                    }
                } else {
                    assert(t[a] == r[a] && t[b] == r[b]);
                }
            }
        }
    }
}

/// Two lists with the same dates, labels and commit counts, bucket by
/// bucket, regroup into lists that again agree on dates, labels and commits.
proof fn lemma_regroup_same_shape(s1: Seq<PeriodView>, s2: Seq<PeriodView>, p: Period)
    requires
        s1.len() == s2.len(),
        forall|k: int| 0 <= k < s1.len() ==> (#[trigger] s1[k]).date == s2[k].date && s1[k].label == s2[k].label
            && s1[k].commits == s2[k].commits,
    ensures
        regroup(s1, p).len() == regroup(s2, p).len(),
        forall|k: int| 0 <= k < regroup(s1, p).len() ==> (#[trigger] regroup(s1, p)[k]).date == regroup(s2, p)[k].date
            && regroup(s1, p)[k].label == regroup(s2, p)[k].label && regroup(s1, p)[k].commits
            == regroup(s2, p)[k].commits,
    decreases s1.len(),
{
    if s1.len() > 0 {
        let t1 = s1.drop_last();
        let t2 = s2.drop_last();
        assert forall|k: int| 0 <= k < t1.len() implies (#[trigger] t1[k]).date == t2[k].date && t1[k].label == t2[k].label
            && t1[k].commits == t2[k].commits by {
            assert(t1[k] == s1[k] && t2[k] == s2[k]);
        }
        lemma_regroup_same_shape(t1, t2, p);
        lemma_regroup_keys_distinct(t2, p);
        let r1 = regroup(t1, p);
        let r2 = regroup(t2, p);
        let x1 = s1.last();
        let x2 = s2.last();
        assert(x1 == s1[s1.len() - 1] && x2 == s2[s2.len() - 1]);
        let key = period_key(p, x1.date);
        if has_key(r1, p, key) {
            let j1 = choose|j: int| 0 <= j < r1.len() && period_key(p, r1[j].date) == key;
            assert(period_key(p, r2[j1].date) == key);
            assert(has_key(r2, p, key));
            let j2 = choose|j: int| 0 <= j < r2.len() && period_key(p, r2[j].date) == key;
            if j1 != j2 {
                if j1 < j2 {
                    assert(period_key(p, r2[j1].date) != period_key(p, r2[j2].date));
                } else {
                    assert(period_key(p, r2[j2].date) != period_key(p, r2[j1].date));
                }
            }
            assert(regroup(s1, p) == r1.update(j1, merge_view(r1[j1], x1)));
            assert(regroup(s2, p) == r2.update(j2, merge_view(r2[j2], x2)));
        } else {
            assert(!has_key(r2, p, key)) by {
                if has_key(r2, p, key) {
                    let j = choose|j: int| 0 <= j < r2.len() && period_key(p, r2[j].date) == key;
                    assert(period_key(p, r1[j].date) == key);
                }
            }
            assert(regroup(s1, p) == r1.push(merge_view(bucket_view(key_label(p, key), x1.date, (0, 0, 0, 0)), x1)));
            assert(regroup(s2, p) == r2.push(merge_view(bucket_view(key_label(p, key), x2.date, (0, 0, 0, 0)), x2)));
        }
    }
}

/// Extension filtering leaves every analysis with the same buckets, in the
/// same order, with the same dates, labels and commit counts as no
/// filtering: a commit whose files all fail the filter still counts, with
/// no lines or files.
pub proof fn law_filter_keeps_bucket_commits(
    commits: Seq<CommitInfo>,
    offsets: Seq<i32>,
    allowed: Seq<Seq<char>>,
    range: DateRange,
    p: Period,
)
    requires
        offsets.len() == commits.len(),
    ensures
        ({
            let v1 = period_view(entries(commits, offsets, Some(allowed)), range, p);
            let v0 = period_view(entries(commits, offsets, None), range, p);
            &&& v1.len() == v0.len()
            &&& forall|k: int| 0 <= k < v1.len() ==> (#[trigger] v1[k]).date == v0[k].date && v1[k].label == v0[k].label
                && v1[k].commits == v0[k].commits
        }),
{
    let n = range.day_count() as nat;
    let from = range.from.day as int;
    let d1 = daily_view(entries(commits, offsets, Some(allowed)), from, n);
    let d0 = daily_view(entries(commits, offsets, None), from, n);
    assert forall|k: int| 0 <= k < d1.len() implies (#[trigger] d1[k]).date == d0[k].date && d1[k].label == d0[k].label
        && d1[k].commits == d0[k].commits by {
        law_filter_keeps_commits(commits, offsets, allowed, from + k, from + k);
    }
    if !(p is Daily) {
        lemma_regroup_same_shape(d1, d0, p);
    }
}

/// On commits whose diff totals are the sums over their files, an empty
/// allow-list gives exactly the entries, and so exactly the analysis, that
/// no allow-list gives.
pub proof fn law_empty_list_is_no_filter(commits: Seq<CommitInfo>, offsets: Seq<i32>)
    requires
        offsets.len() == commits.len(),
        forall|i: int| 0 <= i < commits.len() ==> (#[trigger] commits[i]).diff.is_consistent(),
    ensures
        entries(commits, offsets, Some(Seq::empty())) == entries(commits, offsets, None),
{
    assert forall|i: int| 0 <= i < commits.len() implies #[trigger] entries(commits, offsets, Some(Seq::empty()))[i]
        == entries(commits, offsets, None)[i] by {
        lemma_empty_list_matches_all(commits[i].diff.files@);
    }
    assert(entries(commits, offsets, Some(Seq::empty())) =~= entries(commits, offsets, None));
}

} // verus!
