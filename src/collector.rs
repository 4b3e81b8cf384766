//! The aggregation engine: buckets commits by calendar day, fills the days
//! without commits, and regroups the days into weeks, months or years.

use vstd::prelude::*;
use crate::args::{Period, period_name};
use crate::date::{
    Date, DateRange, Timestamp, date_text, iso_week_of, local_day, local_hour, month_of, weekday_index,
    year_of,
};
use crate::diff::{DiffStats, ext_views, lemma_matched_nonneg, matched_counts};
use crate::stats::{
    ActivityStats, AnalysisResult, Counts, PeriodStats, PeriodView, add_counts, counts_fit, counts_le, counts_of,
    lemma_sum_prefix_le, sum_counts, views,
};
use crate::text::{int_text, pad2_text, push_int, push_pad2};
use crate::timezone::{TimeZoneMode, clock_offset_ok};

verus! {

/// One traversed commit.
#[derive(Debug)]
pub struct CommitInfo {
    /// Short commit id
    pub id: String,
    /// When the commit was authored
    pub timestamp: Timestamp,
    /// Whether the commit has more than one parent
    pub is_merge: bool,
    /// Its diff summary
    pub diff: DiffStats,
}

impl CommitInfo {
    /// Create a commit record.
    pub fn new(id: String, timestamp: Timestamp, is_merge: bool, diff: DiffStats) -> (r: Self)
        ensures
            r.id == id,
            r.timestamp == timestamp,
            r.is_merge == is_merge,
            r.diff == diff,
    {
        CommitInfo { id, timestamp, is_merge, diff }
    }

    /// The UTC date of the commit.
    pub fn date(&self) -> (r: Date)
        requires
            self.timestamp.wf(),
        ensures
            r.wf(),
            r.day == local_day(self.timestamp.secs as int, 0),
    {
        self.timestamp.local_date(0)
    }
}

/// The allow-list as values, if there is one.
pub open spec fn allowed_of(extensions: Option<&[String]>) -> Option<Seq<Seq<char>>> {
    match extensions {
        Some(e) => Some(ext_views(e@)),
        None => None,
    }
}

/// What a commit adds to its bucket: one commit, and its lines and files,
/// over the files that pass the allow-list when there is one, else its own
/// totals.
pub open spec fn contribution(c: CommitInfo, allowed: Option<Seq<Seq<char>>>) -> Counts {
    match allowed {
        None => (1, c.diff.additions as int, c.diff.deletions as int, c.diff.files_changed as int),
        Some(a) => {
            let m = matched_counts(c.diff.files@, a);
            (1, m.0, m.1, m.2)
        },
    }
}

/// The sum of the contributions of all commits.
pub open spec fn contribution_total(commits: Seq<CommitInfo>, allowed: Option<Seq<Seq<char>>>) -> Counts
    decreases commits.len(),
{
    if commits.len() == 0 {
        (0, 0, 0, 0)
    } else {
        add_counts(contribution_total(commits.drop_last(), allowed), contribution(commits.last(), allowed))
    }
}

/// A commit's bucket day and contribution.
pub type Entry = (int, Counts);

/// The entries of the commits, the `i`-th commit read at a UTC offset of `offsets[i]`.
pub open spec fn entries(commits: Seq<CommitInfo>, offsets: Seq<i32>, allowed: Option<Seq<Seq<char>>>) -> Seq<Entry> {
    Seq::new(
        commits.len(),
        |i: int| (local_day(commits[i].timestamp.secs as int, offsets[i] as int), contribution(commits[i], allowed)),
    )
}

/// The sum of the contributions of the entries whose day lies in `[lo, hi]`.
pub open spec fn sum_days(es: Seq<Entry>, lo: int, hi: int) -> Counts
    decreases es.len(),
{
    if es.len() == 0 {
        (0, 0, 0, 0)
    } else {
        let t = sum_days(es.drop_last(), lo, hi);
        if lo <= es.last().0 && es.last().0 <= hi {
            add_counts(t, es.last().1)
        } else {
            t
        }
    }
}

/// Every entry contributes non-negative counts.
pub open spec fn entries_nonneg(es: Seq<Entry>) -> bool {
    forall|i: int| 0 <= i < es.len() ==> counts_le((0int, 0int, 0int, 0int), #[trigger] es[i].1)
}

/// A bucket with these counts; its net line change is recomputed from them.
pub open spec fn bucket_view(label: Seq<char>, date: int, c: Counts) -> PeriodView {
    PeriodView {
        label,
        date,
        commits: c.0,
        additions: c.1,
        deletions: c.2,
        net_lines: c.1 - c.2,
        files_changed: c.3,
    }
}

/// The daily series: one bucket for each of the `n` days from `from`, each
/// holding the entries of its day.
pub open spec fn daily_view(es: Seq<Entry>, from: int, n: nat) -> Seq<PeriodView> {
    Seq::new(n, |k: int| bucket_view(date_text(from + k), from + k, sum_days(es, from + k, from + k)))
}

/// Sums over a narrower window are no larger, and never negative.
pub proof fn lemma_sum_days_mono(es: Seq<Entry>, lo: int, hi: int, lo2: int, hi2: int)
    requires
        entries_nonneg(es),
        lo2 <= lo,
        hi <= hi2,
    ensures
        counts_le((0int, 0int, 0int, 0int), sum_days(es, lo, hi)),
        counts_le(sum_days(es, lo, hi), sum_days(es, lo2, hi2)),
    decreases es.len(),
{
    if es.len() > 0 {
        assert(entries_nonneg(es.drop_last())) by {
            assert forall|i: int| 0 <= i < es.drop_last().len() implies counts_le(
                (0int, 0int, 0int, 0int),
                #[trigger] es.drop_last()[i].1,
            ) by {
                assert(es.drop_last()[i] == es[i]);
            }
        }
        assert(counts_le((0int, 0int, 0int, 0int), es[es.len() - 1].1));
        lemma_sum_days_mono(es.drop_last(), lo, hi, lo2, hi2);
    }
}

/// A prefix of the entries sums to no more than all of them.
pub proof fn lemma_sum_days_prefix(es: Seq<Entry>, i: int, lo: int, hi: int)
    requires
        entries_nonneg(es),
        0 <= i <= es.len(),
    ensures
        counts_le(sum_days(es.take(i), lo, hi), sum_days(es, lo, hi)),
    decreases es.len() - i,
{
    if i < es.len() {
        lemma_sum_days_prefix(es, i + 1, lo, hi);
        assert(es.take(i + 1).drop_last() =~= es.take(i));
        assert(counts_le((0int, 0int, 0int, 0int), es[i].1));
    } else {
        assert(es.take(i) =~= es);
    }
}

/// Extending the window by the next day adds that day's sum.
pub proof fn lemma_sum_days_extend(es: Seq<Entry>, lo: int, hi: int)
    requires
        lo <= hi + 1,
    ensures
        sum_days(es, lo, hi + 1) == add_counts(sum_days(es, lo, hi), sum_days(es, hi + 1, hi + 1)),
    decreases es.len(),
{
    if es.len() > 0 {
        lemma_sum_days_extend(es.drop_last(), lo, hi);
    }
}

/// An empty window sums to nothing.
pub proof fn lemma_sum_days_empty(es: Seq<Entry>, lo: int, hi: int)
    requires
        hi < lo,
    ensures
        sum_days(es, lo, hi) == (0int, 0int, 0int, 0int),
    decreases es.len(),
{
    if es.len() > 0 {
        lemma_sum_days_empty(es.drop_last(), lo, hi);
    }
}

/// The daily series sums to the entries that fall within its days.
pub proof fn lemma_daily_sum(es: Seq<Entry>, from: int, n: nat)
    ensures
        sum_counts(daily_view(es, from, n)) == sum_days(es, from, from + n - 1),
    decreases n,
{
    if n == 0 {
        lemma_sum_days_empty(es, from, from - 1);
    } else {
        lemma_daily_sum(es, from, (n - 1) as nat);
        assert(daily_view(es, from, n).drop_last() =~= daily_view(es, from, (n - 1) as nat));
        lemma_sum_days_extend(es, from, from + n - 2);
    }
}

/// Whatever the offsets, the entries in any window sum to no more than the
/// contributions of all commits.
pub proof fn lemma_window_le_total(
    commits: Seq<CommitInfo>,
    offsets: Seq<i32>,
    allowed: Option<Seq<Seq<char>>>,
    lo: int,
    hi: int,
)
    requires
        offsets.len() == commits.len(),
    ensures
        entries_nonneg(entries(commits, offsets, allowed)),
        counts_le(sum_days(entries(commits, offsets, allowed), lo, hi), contribution_total(commits, allowed)),
    decreases commits.len(),
{
    let es = entries(commits, offsets, allowed);
    assert forall|i: int| 0 <= i < es.len() implies counts_le((0int, 0int, 0int, 0int), #[trigger] es[i].1) by {
        if let Some(a) = allowed {
            lemma_matched_nonneg(commits[i].diff.files@, a);
        }
    }
    if commits.len() > 0 {
        lemma_window_le_total(commits.drop_last(), offsets.drop_last(), allowed, lo, hi);
        assert(entries(commits.drop_last(), offsets.drop_last(), allowed) =~= es.drop_last());
        assert(counts_le((0int, 0int, 0int, 0int), es[es.len() - 1].1));
    }
}

/// A commit's contribution as machine values: one commit, then its lines
/// and files over the allow-list, or its own totals.
fn commit_counts(c: &CommitInfo, extensions: Option<&[String]>) -> (r: (u128, u128, u128))
    ensures
        (1int, r.0 as int, r.1 as int, r.2 as int) == contribution(*c, allowed_of(extensions)),
{
    match extensions {
        Some(e) => c.diff.filtered_counts(e),
        None => (c.diff.additions as u128, c.diff.deletions as u128, c.diff.files_changed as u128),
    }
}

/// The daily series over `range`: one bucket per calendar day, ascending,
/// each holding the commits that fall on it; commits outside the range are
/// left out.
///
/// The days of the range are contiguous, so the map from day to bucket is a
/// vector indexed by the day's distance from `from`: lookup is an index,
/// every day has its bucket from the start, and the buckets come out in
/// date order with no walk over a hash map (whose order is unspecified)
/// and no sort.
fn daily_stats(
    commits: &Vec<CommitInfo>,
    offsets: &Vec<i32>,
    range: DateRange,
    extensions: Option<&[String]>,
) -> (r: Vec<PeriodStats>)
    requires
        range.wf(),
        offsets@.len() == commits@.len(),
        forall|i: int| 0 <= i < commits@.len() ==> (#[trigger] commits@[i]).timestamp.wf(),
        forall|i: int| 0 <= i < offsets@.len() ==> -86400 < #[trigger] offsets@[i] < 86400,
        entries_nonneg(entries(commits@, offsets@, allowed_of(extensions))),
        counts_fit(
            sum_days(entries(commits@, offsets@, allowed_of(extensions)), range.from.day as int, range.to.day as int),
        ),
    ensures
        views(r@) == daily_view(
            entries(commits@, offsets@, allowed_of(extensions)),
            range.from.day as int,
            range.day_count() as nat,
        ),
        forall|k: int| 0 <= k < r@.len() ==> (#[trigger] r@[k]).date.wf(),
{
    let ghost es = entries(commits@, offsets@, allowed_of(extensions));
    let ghost from = range.from.day as int;
    let ghost to = range.to.day as int;
    let days = range.iter_days();
    let n = days.len();
    let mut acc: Vec<(u32, u64, u64, u32)> = Vec::new();
    let mut k: usize = 0;
    while k < n
        invariant
            0 <= k <= n,
            acc@.len() == k,
            forall|j: int| 0 <= j < k ==> #[trigger] acc@[j] == (0u32, 0u64, 0u64, 0u32),
        decreases n - k,
    {
        acc.push((0, 0, 0, 0));
        k = k + 1;
    }
    proof {
        assert forall|j: int| 0 <= j < n implies
            (#[trigger] acc@[j].0 as int, acc@[j].1 as int, acc@[j].2 as int, acc@[j].3 as int)
                == sum_days(es.take(0), from + j, from + j) by {
            assert(es.take(0).len() == 0);
        }
    }
    let mut i: usize = 0;
    while i < commits.len()
        invariant
            0 <= i <= commits@.len(),
            acc@.len() == n,
            n == range.day_count(),
            es == entries(commits@, offsets@, allowed_of(extensions)),
            from == range.from.day,
            to == range.to.day,
            range.wf(),
            offsets@.len() == commits@.len(),
            forall|i: int| 0 <= i < commits@.len() ==> (#[trigger] commits@[i]).timestamp.wf(),
            forall|i: int| 0 <= i < offsets@.len() ==> -86400 < #[trigger] offsets@[i] < 86400,
            entries_nonneg(es),
            counts_fit(sum_days(es, from, to)),
            forall|j: int|
                0 <= j < n ==> (#[trigger] acc@[j].0 as int, acc@[j].1 as int, acc@[j].2 as int, acc@[j].3 as int)
                    == sum_days(es.take(i as int), from + j, from + j),
        decreases commits@.len() - i,
    {
        let c = &commits[i];
        let day = c.timestamp.local_date(offsets[i]);
        proof {
            assert(es.take(i as int + 1).drop_last() =~= es.take(i as int));
            assert(es[i as int].0 == day.day);
        }
        if range.contains(day) {
            let j = (day.day - range.from.day) as usize;
            let (a, d, f) = commit_counts(c, extensions);
            proof {
                assert(es[i as int].1 == (1int, a as int, d as int, f as int));
                assert(entries_nonneg(es.take(i as int + 1))) by {
                    assert forall|q: int| 0 <= q < es.take(i as int + 1).len() implies counts_le(
                        (0int, 0int, 0int, 0int),
                        #[trigger] es.take(i as int + 1)[q].1,
                    ) by {
                        assert(es.take(i as int + 1)[q] == es[q]);
                    }
                }
                lemma_sum_days_prefix(es, i as int + 1, from + j, from + j);
                lemma_sum_days_mono(es, from + j, from + j, from, to);
                lemma_sum_days_mono(es.take(i as int + 1), from + j, from + j, from + j, from + j);
            }
            let old = acc[j];
            acc.set(j, (old.0 + 1, old.1 + a as u64, old.2 + d as u64, old.3 + f as u32));
        }
        i = i + 1;
    }
    proof {
        assert(es.take(commits@.len() as int) =~= es);
    }
    let mut out: Vec<PeriodStats> = Vec::new();
    let mut k: usize = 0;
    while k < n
        invariant
            0 <= k <= n,
            n == days@.len(),
            acc@.len() == n,
            n == range.day_count(),
            from == range.from.day,
            to == range.to.day,
            range.wf(),
            forall|j: int| 0 <= j < days@.len() ==> #[trigger] days@[j].day == from + j,
            counts_fit(sum_days(es, from, to)),
            entries_nonneg(es),
            forall|j: int|
                0 <= j < n ==> (#[trigger] acc@[j].0 as int, acc@[j].1 as int, acc@[j].2 as int, acc@[j].3 as int)
                    == sum_days(es, from + j, from + j),
            out@.len() == k,
            forall|j: int| 0 <= j < k ==> (#[trigger] out@[j]).date.wf(),
            forall|j: int| 0 <= j < k ==> #[trigger] views(out@)[j] == daily_view(es, from, n as nat)[j],
        decreases n - k,
    {
        let day = days[k];
        proof {
            lemma_sum_days_mono(es, from + k, from + k, from, to);
        }
        let mut b = PeriodStats::new(day);
        let t = acc[k];
        b.commits = t.0;
        b.additions = t.1;
        b.deletions = t.2;
        b.files_changed = t.3;
        b.net_lines = t.1 as i64 - t.2 as i64;
        let ghost before = out@;
        out.push(b);
        proof {
            assert(b@ == bucket_view(date_text(from + k), from + k, sum_days(es, from + k, from + k)));
            assert(views(out@)[k as int] == b@);
            assert forall|j: int| 0 <= j < k + 1 implies #[trigger] views(out@)[j] == daily_view(
                es,
                from,
                n as nat,
            )[j] by {
                if j < k {
                    assert(out@[j] == before[j]);
                    assert(views(before)[j] == views(out@)[j]);
                }
            }
        }
        k = k + 1;
    }
    proof {
        assert(views(out@) =~= daily_view(es, from, n as nat));
    }
    out
}

/// The bucket key of a day: its ISO week, its month, or its year.
pub open spec fn period_key(p: Period, day: int) -> (int, int) {
    match p {
        Period::Daily => (day, 0),
        Period::Weekly => iso_week_of(day),
        Period::Monthly => (year_of(day), month_of(day)),
        Period::Yearly => (year_of(day), 0),
    }
}

/// The label of a bucket key: `{year}-W{week:02}`, `{year}-{month:02}` or `{year}`.
pub open spec fn key_label(p: Period, key: (int, int)) -> Seq<char> {
    match p {
        Period::Daily => date_text(key.0),
        Period::Weekly => int_text(key.0) + "-W"@ + pad2_text(key.1 as nat),
        Period::Monthly => int_text(key.0) + "-"@ + pad2_text(key.1 as nat),
        Period::Yearly => int_text(key.0),
    }
}

/// `b`'s counts added to bucket `a`, which keeps its label and anchor date.
pub open spec fn merge_view(a: PeriodView, b: PeriodView) -> PeriodView {
    bucket_view(a.label, a.date, add_counts(counts_of(a), counts_of(b)))
}

/// Whether some bucket of `r` has the key `k`; a bucket's key is that of its anchor date.
pub open spec fn has_key(r: Seq<PeriodView>, p: Period, k: (int, int)) -> bool {
    exists|j: int| 0 <= j < r.len() && period_key(p, r[j].date) == k
}

/// Buckets regrouped by period key, in order of first appearance: each
/// bucket is merged into the one already holding its key, or starts a new
/// one anchored on its own date and labelled by the key.
pub open spec fn regroup(s: Seq<PeriodView>, p: Period) -> Seq<PeriodView>
    decreases s.len(),
{
    if s.len() == 0 {
        Seq::empty()
    } else {
        let r = regroup(s.drop_last(), p);
        let x = s.last();
        let k = period_key(p, x.date);
        if has_key(r, p, k) {
            let j = choose|j: int| 0 <= j < r.len() && period_key(p, r[j].date) == k;
            r.update(j, merge_view(r[j], x))
        } else {
            r.push(merge_view(bucket_view(key_label(p, k), x.date, (0, 0, 0, 0)), x))
        }
    }
}

/// Replacing one bucket changes the sum by the difference.
pub proof fn lemma_sum_update(s: Seq<PeriodView>, j: int, v: PeriodView)
    requires
        0 <= j < s.len(),
    ensures
        add_counts(sum_counts(s.update(j, v)), counts_of(s[j])) == add_counts(sum_counts(s), counts_of(v)),
    decreases s.len(),
{
    if j < s.len() - 1 {
        lemma_sum_update(s.drop_last(), j, v);
        assert(s.update(j, v).drop_last() =~= s.drop_last().update(j, v));
    } else {
        assert(s.update(j, v).drop_last() =~= s.drop_last());
    }
}

/// Regrouping keeps the grand totals: merging into coarser buckets neither
/// loses nor double-counts a commit, a line or a file.
pub proof fn lemma_regroup_totals(s: Seq<PeriodView>, p: Period)
    ensures
        sum_counts(regroup(s, p)) == sum_counts(s),
    decreases s.len(),
{
    if s.len() > 0 {
        lemma_regroup_totals(s.drop_last(), p);
        let r = regroup(s.drop_last(), p);
        let x = s.last();
        let k = period_key(p, x.date);
        if has_key(r, p, k) {
            let j = choose|j: int| 0 <= j < r.len() && period_key(p, r[j].date) == k;
            lemma_sum_update(r, j, merge_view(r[j], x));
        } else {
            let nb = merge_view(bucket_view(key_label(p, k), x.date, (0, 0, 0, 0)), x);
            assert(r.push(nb).drop_last() =~= r);
        }
    }
}

/// The key of `date` for period `p`.
fn key_of(p: Period, date: Date) -> (r: (i32, u32))
    requires
        date.wf(),
    ensures
        (r.0 as int, r.1 as int) == period_key(p, date.day as int),
        p is Weekly || p is Monthly ==> 1 <= r.1 <= 53,
{
    match p {
        Period::Daily => (date.day, 0),
        Period::Weekly => date.iso_week(),
        Period::Monthly => (date.year(), date.month()),
        Period::Yearly => (date.year(), 0),
    }
}

/// The label of the key `key` of period `p` (not daily).
fn label_of(p: Period, key: (i32, u32)) -> (r: String)
    requires
        !(p is Daily),
    ensures
        r@ == key_label(p, (key.0 as int, key.1 as int)),
{
    let mut s = String::new();
    push_int(&mut s, key.0 as i64);
    match p {
        Period::Weekly => {
            proof {
                reveal_strlit("-W");
            }
            s.append("-W");
            push_pad2(&mut s, key.1 as u64);
        },
        Period::Monthly => {
            proof {
                reveal_strlit("-");
            }
            s.append("-");
            push_pad2(&mut s, key.1 as u64);
        },
        _ => {},
    }
    proof {
        assert(s@ =~= key_label(p, (key.0 as int, key.1 as int)));
    }
    s
}

/// Each bucket's counts are at most the sum of the list.
proof fn lemma_elem_le_sum(s: Seq<PeriodView>, j: int)
    requires
        0 <= j < s.len(),
        forall|k: int| 0 <= k < s.len() ==> counts_le((0int, 0int, 0int, 0int), counts_of(#[trigger] s[k])),
    ensures
        counts_le(counts_of(s[j]), sum_counts(s)),
{
    lemma_sum_prefix_le(s, j);
    lemma_sum_prefix_le(s, j + 1);
    assert(s.take(j + 1).drop_last() =~= s.take(j));
}

/// Daily buckets regrouped into weeks, months or years, in order of first
/// appearance.
///
/// The keys are kept in a vector beside the buckets, in the order they
/// first appear. Since the daily buckets arrive in date order, that is the
/// order of the buckets' anchor dates, which is the order of the output;
/// a hash map would need a walk in unspecified order and then a sort.
fn aggregate(daily: &Vec<PeriodStats>, p: Period) -> (r: Vec<PeriodStats>)
    requires
        !(p is Daily),
        forall|k: int| 0 <= k < daily@.len() ==> (#[trigger] daily@[k]).date.wf(),
        counts_fit(sum_counts(views(daily@))),
    ensures
        views(r@) == regroup(views(daily@), p),
{
    let ghost all = views(daily@);
    let mut out: Vec<PeriodStats> = Vec::new();
    let mut keys: Vec<(i32, u32)> = Vec::new();
    let mut i: usize = 0;
    while i < daily.len()
        invariant
            0 <= i <= daily@.len(),
            !(p is Daily),
            all == views(daily@),
            forall|k: int| 0 <= k < daily@.len() ==> (#[trigger] daily@[k]).date.wf(),
            counts_fit(sum_counts(all)),
            views(out@) == regroup(all.take(i as int), p),
            keys@.len() == out@.len(),
            forall|j: int| 0 <= j < keys@.len() ==> (#[trigger] keys@[j].0 as int, keys@[j].1 as int)
                == period_key(p, views(out@)[j].date),
            forall|a: int, b: int| 0 <= a < b < keys@.len() ==> #[trigger] keys@[a] != #[trigger] keys@[b],
        decreases daily@.len() - i,
    {
        let ghost r = views(out@);
        let ghost x = all[i as int];
        proof {
            assert(all.take(i as int + 1).drop_last() =~= all.take(i as int));
            assert(all.take(i as int + 1).last() == x);
            lemma_regroup_totals(all.take(i as int), p);
            lemma_sum_prefix_le(all, i as int + 1);
            lemma_sum_prefix_le(all, i as int);
        }
        let stat = &daily[i];
        let key = key_of(p, stat.date);
        proof {
            assert(x == daily@[i as int]@);
            assert((key.0 as int, key.1 as int) == period_key(p, x.date));
        }
        let mut j: usize = 0;
        let mut found = false;
        while j < keys.len() && !found
            invariant
                0 <= j <= keys@.len(),
                !found ==> forall|q: int| 0 <= q < j ==> #[trigger] keys@[q] != key,
                found ==> j < keys@.len() && keys@[j as int] == key,
            decreases keys@.len() - j + (if found { 0int } else { 1int }),
        {
            if keys[j].0 == key.0 && keys[j].1 == key.1 {
                found = true;
            } else {
                j = j + 1;
            }
        }
        if found {
            proof {
                assert(period_key(p, r[j as int].date) == period_key(p, x.date));
                assert(has_key(r, p, period_key(p, x.date)));
                let jj = choose|jj: int| 0 <= jj < r.len() && period_key(p, r[jj].date) == period_key(p, x.date);
                if jj != j as int {
                    if jj < j {
                        assert(keys@[jj] != keys@[j as int]);
                    } else {
                        assert(keys@[j as int] != keys@[jj]);
                    }
                }
                assert((keys@[jj].0 as int, keys@[jj].1 as int) == period_key(p, r[jj].date));
                assert(keys@[jj] == key);
                assert(jj == j);
                assert forall|q: int| 0 <= q < r.len() implies counts_le(
                    (0int, 0int, 0int, 0int),
                    counts_of(#[trigger] r[q]),
                ) by {
                    assert(r[q] == out@[q]@);
                }
                lemma_elem_le_sum(r, j as int);
            }
            let mut b = out[j].clone();
            b.merge(stat);
            let ghost before = out@;
            out.set(j, b);
            proof {
                assert(views(out@) =~= r.update(j as int, merge_view(r[j as int], x)));
                assert forall|q: int| 0 <= q < keys@.len() implies (#[trigger] keys@[q].0 as int, keys@[q].1 as int)
                    == period_key(p, views(out@)[q].date) by {
                    assert(views(out@)[q].date == r[q].date);
                }
            }
        } else {
            proof {
                assert(!has_key(r, p, period_key(p, x.date))) by {
                    if has_key(r, p, period_key(p, x.date)) {
                        let jj = choose|jj: int| 0 <= jj < r.len() && period_key(p, r[jj].date) == period_key(p, x.date);
                        assert((keys@[jj].0 as int, keys@[jj].1 as int) == period_key(p, r[jj].date));
                        assert(keys@[jj] == key);
                        assert(keys@[jj] != key);
                    }
                }
            }
            let mut b = PeriodStats::with_label(stat.date, label_of(p, key));
            b.merge(stat);
            out.push(b);
            keys.push(key);
            proof {
                assert(views(out@) =~= r.push(merge_view(bucket_view(key_label(p, period_key(p, x.date)), x.date, (0, 0, 0, 0)), x)));
            }
        }
        i = i + 1;
    }
    proof {
        assert(all.take(i as int) =~= all);
    }
    out
}

/// Regrouping buckets whose dates ascend gives buckets whose anchors ascend.
proof fn lemma_anchors_ascending(daily: Seq<PeriodStats>, r: Seq<PeriodStats>, p: Period)
    requires
        forall|a: int, b: int| 0 <= a < b < daily.len() ==> #[trigger] daily[a].date.day < #[trigger] daily[b].date.day,
        views(r) == regroup(views(daily), p),
    ensures
        forall|a: int, b: int| 0 <= a < b < r.len() ==> #[trigger] r[a].date.day < #[trigger] r[b].date.day,
{
    let v = views(daily);
    assert forall|a: int, b: int| 0 <= a < b < v.len() implies #[trigger] v[a].date < #[trigger] v[b].date by {
        assert(v[a] == daily[a]@ && v[b] == daily[b]@);
    }
    crate::laws::lemma_regroup_ascending(v, p);
    assert forall|a: int, b: int| 0 <= a < b < r.len() implies #[trigger] r[a].date.day < #[trigger] r[b].date.day by {
        assert(views(r).len() == r.len());
        assert(views(r)[a] == r[a]@ && views(r)[b] == r[b]@);
        assert(regroup(v, p)[a].date < regroup(v, p)[b].date);
    }
}

/// Daily buckets regrouped by ISO week (`{week-year}-W{week:02}`), in order of first
/// appearance, each anchored on the first date that fell into it.
pub fn aggregate_by_week(daily: Vec<PeriodStats>) -> (r: Vec<PeriodStats>)
    requires
        forall|k: int| 0 <= k < daily@.len() ==> (#[trigger] daily@[k]).date.wf(),
        counts_fit(sum_counts(views(daily@))),
        forall|a: int, b: int| 0 <= a < b < daily@.len() ==> #[trigger] daily@[a].date.day < #[trigger] daily@[b].date.day,
    ensures
        views(r@) == regroup(views(daily@), Period::Weekly),
        forall|a: int, b: int| 0 <= a < b < r@.len() ==> #[trigger] r@[a].date.day < #[trigger] r@[b].date.day,
{
    let r = aggregate(&daily, Period::Weekly);
    proof {
        lemma_anchors_ascending(daily@, r@, Period::Weekly);
    }
    r
}

/// Daily buckets regrouped by calendar month (`{year}-{month:02}`), in order of first
/// appearance, each anchored on the first date that fell into it.
pub fn aggregate_by_month(daily: Vec<PeriodStats>) -> (r: Vec<PeriodStats>)
    requires
        forall|k: int| 0 <= k < daily@.len() ==> (#[trigger] daily@[k]).date.wf(),
        counts_fit(sum_counts(views(daily@))),
        forall|a: int, b: int| 0 <= a < b < daily@.len() ==> #[trigger] daily@[a].date.day < #[trigger] daily@[b].date.day,
    ensures
        views(r@) == regroup(views(daily@), Period::Monthly),
        forall|a: int, b: int| 0 <= a < b < r@.len() ==> #[trigger] r@[a].date.day < #[trigger] r@[b].date.day,
{
    let r = aggregate(&daily, Period::Monthly);
    proof {
        lemma_anchors_ascending(daily@, r@, Period::Monthly);
    }
    r
}

/// Daily buckets regrouped by calendar year (`{year}`), in order of first
/// appearance, each anchored on the first date that fell into it.
pub fn aggregate_by_year(daily: Vec<PeriodStats>) -> (r: Vec<PeriodStats>)
    requires
        forall|k: int| 0 <= k < daily@.len() ==> (#[trigger] daily@[k]).date.wf(),
        counts_fit(sum_counts(views(daily@))),
        forall|a: int, b: int| 0 <= a < b < daily@.len() ==> #[trigger] daily@[a].date.day < #[trigger] daily@[b].date.day,
    ensures
        views(r@) == regroup(views(daily@), Period::Yearly),
        forall|a: int, b: int| 0 <= a < b < r@.len() ==> #[trigger] r@[a].date.day < #[trigger] r@[b].date.day,
{
    let r = aggregate(&daily, Period::Yearly);
    proof {
        lemma_anchors_ascending(daily@, r@, Period::Yearly);
    }
    r
}

/// The buckets of an analysis: the daily series over the range, regrouped
/// when the period is coarser than a day.
pub open spec fn period_view(es: Seq<Entry>, range: DateRange, p: Period) -> Seq<PeriodView> {
    let d = daily_view(es, range.from.day as int, range.day_count() as nat);
    if p is Daily {
        d
    } else {
        regroup(d, p)
    }
}

/// `r` is the analysis of the entries `es` over `range` by period `p`, for
/// the repository named `name`; its totals are those of the entries whose
/// day lies in the range.
pub open spec fn analysis_matches(r: AnalysisResult, name: Seq<char>, es: Seq<Entry>, range: DateRange, p: Period) -> bool {
    &&& r.repository@ == name
    &&& r.period@ == period_name(p)
    &&& r.from == range.from
    &&& r.to == range.to
    &&& views(r.stats@) == period_view(es, range, p)
    &&& r.total.counts() == sum_days(es, range.from.day as int, range.to.day as int)
    &&& r.total.net_lines == r.total.additions - r.total.deletions
    &&& forall|k: int| 0 <= k < r.stats@.len() ==> (#[trigger] r.stats@[k]).net_lines == r.stats@[k].additions - r.stats@[k].deletions
    &&& forall|a: int, b: int| 0 <= a < b < r.stats@.len() ==> #[trigger] r.stats@[a].date.day < #[trigger] r.stats@[b].date.day
}

/// `offsets` are what the clock `zone` gives at the commits' instants.
pub open spec fn offsets_read(offsets: Seq<i32>, commits: Seq<CommitInfo>, zone: TimeZoneMode) -> bool {
    &&& offsets.len() == commits.len()
    &&& forall|i: int|
        0 <= i < commits.len() ==> clock_offset_ok(zone, commits[i].timestamp.secs as int, #[trigger] offsets[i] as int)
}

/// The UTC offsets of the commits' instants on the clock `zone`.
fn clock_offsets(commits: &[CommitInfo], zone: &TimeZoneMode) -> (r: Vec<i32>)
    requires
        forall|i: int| 0 <= i < commits@.len() ==> (#[trigger] commits@[i]).timestamp.wf(),
    ensures
        offsets_read(r@, commits@, *zone),
        forall|i: int| 0 <= i < r@.len() ==> -86400 < #[trigger] r@[i] < 86400,
{
    let mut offsets: Vec<i32> = Vec::new();
    let mut i: usize = 0;
    while i < commits.len()
        invariant
            0 <= i <= commits@.len(),
            offsets@.len() == i,
            forall|i: int| 0 <= i < commits@.len() ==> (#[trigger] commits@[i]).timestamp.wf(),
            forall|k: int|
                0 <= k < i ==> clock_offset_ok(*zone, commits@[k].timestamp.secs as int, #[trigger] offsets@[k] as int),
        decreases commits@.len() - i,
    {
        let off = zone.offset_at(commits[i].timestamp);
        offsets.push(off);
        i = i + 1;
    }
    proof {
        assert forall|k: int| 0 <= k < offsets@.len() implies -86400 < #[trigger] offsets@[k] < 86400 by {
            assert(clock_offset_ok(*zone, commits@[k].timestamp.secs as int, offsets@[k] as int));
        }
    }
    offsets
}

/// Statistics of `commits` over `range` by `period`, the `i`-th commit read
/// on the calendar at a UTC offset of `offsets[i]`: commits are bucketed by
/// day, every day of the range gets a bucket, days are regrouped for a
/// coarser period, and the totals are summed from the buckets.
pub fn collect_stats_with_offsets(
    repo_name: &str,
    commits: &Vec<CommitInfo>,
    offsets: &Vec<i32>,
    range: DateRange,
    period: Period,
    extensions: Option<&[String]>,
) -> (r: AnalysisResult)
    requires
        range.wf(),
        offsets@.len() == commits@.len(),
        forall|i: int| 0 <= i < commits@.len() ==> (#[trigger] commits@[i]).timestamp.wf(),
        forall|i: int| 0 <= i < offsets@.len() ==> -86400 < #[trigger] offsets@[i] < 86400,
        counts_fit(
            sum_days(entries(commits@, offsets@, allowed_of(extensions)), range.from.day as int, range.to.day as int),
        ),
    ensures
        analysis_matches(r, repo_name@, entries(commits@, offsets@, allowed_of(extensions)), range, period),
{
    let ghost es = entries(commits@, offsets@, allowed_of(extensions));
    let ghost from = range.from.day as int;
    let ghost n = range.day_count() as nat;
    proof {
        lemma_window_le_total(commits@, offsets@, allowed_of(extensions), from, range.to.day as int);
        lemma_daily_sum(es, from, n);
        if range.from.day > range.to.day {
            lemma_sum_days_empty(es, from, from - 1);
            lemma_sum_days_empty(es, from, range.to.day as int);
        }
    }
    let daily = daily_stats(commits, offsets, range, extensions);
    let stats = match period {
        Period::Daily => daily,
        _ => {
            let grouped = aggregate(&daily, period);
            proof {
                lemma_regroup_totals(views(daily@), period);
            }
            grouped
        },
    };
    let r = AnalysisResult::new(String::from_str(repo_name), period.to_string(), range.from, range.to, stats);
    proof {
        crate::laws::law_net_lines(es, range, period);
        crate::laws::law_buckets_ascending(es, range, period);
        assert(views(r.stats@) == period_view(es, range, period));
        assert forall|a: int, b: int| 0 <= a < b < r.stats@.len() implies #[trigger] r.stats@[a].date.day
            < #[trigger] r.stats@[b].date.day by {
            assert(views(r.stats@)[a] == r.stats@[a]@ && views(r.stats@)[b] == r.stats@[b]@);
            assert(period_view(es, range, period)[a].date < period_view(es, range, period)[b].date);
        }
        assert forall|k: int| 0 <= k < r.stats@.len() implies (#[trigger] r.stats@[k]).net_lines
            == r.stats@[k].additions - r.stats@[k].deletions by {
            assert(views(r.stats@)[k] == r.stats@[k]@);
            assert(period_view(es, range, period)[k].net_lines == period_view(es, range, period)[k].additions
                - period_view(es, range, period)[k].deletions);
        }
    }
    r
}

/// Statistics of `commits` over `range` by `period`, each commit dated on
/// the clock `zone` (see `collect_stats_with_offsets` for what is computed
/// from the offsets that the clock gives).
pub fn collect_stats(
    repo_name: &str,
    commits: Vec<CommitInfo>,
    range: DateRange,
    period: Period,
    extensions: Option<&[String]>,
    zone: &TimeZoneMode,
) -> (r: AnalysisResult)
    requires
        range.wf(),
        forall|i: int| 0 <= i < commits@.len() ==> (#[trigger] commits@[i]).timestamp.wf(),
        counts_fit(contribution_total(commits@, allowed_of(extensions))),
    ensures
        exists|offsets: Seq<i32>|
            offsets_read(offsets, commits@, *zone) && analysis_matches(
                r,
                repo_name@,
                entries(commits@, offsets, allowed_of(extensions)),
                range,
                period,
            ),
{
    let offsets = clock_offsets(commits.as_slice(), zone);
    proof {
        lemma_window_le_total(
            commits@,
            offsets@,
            allowed_of(extensions),
            range.from.day as int,
            range.to.day as int,
        );
        lemma_sum_days_mono(
            entries(commits@, offsets@, allowed_of(extensions)),
            range.from.day as int,
            range.to.day as int,
            range.from.day as int,
            range.to.day as int,
        );
    }
    collect_stats_with_offsets(repo_name, &commits, &offsets, range, period, extensions)
}

/// A prefix of the commits contributes no more than all of them.
proof fn lemma_contribution_prefix(commits: Seq<CommitInfo>, allowed: Option<Seq<Seq<char>>>, i: int)
    requires
        0 <= i <= commits.len(),
    ensures
        counts_le(contribution_total(commits.take(i), allowed), contribution_total(commits, allowed)),
    decreases commits.len() - i,
{
    if i < commits.len() {
        lemma_contribution_prefix(commits, allowed, i + 1);
        assert(commits.take(i + 1).drop_last() =~= commits.take(i));
        if let Some(a) = allowed {
            lemma_matched_nonneg(commits[i].diff.files@, a);
        }
    } else {
        assert(commits.take(i) =~= commits);
    }
}

/// Like `collect_stats`, after checking that the commits' contributions fit
/// the counters: `None` when they do not.
pub fn try_collect_stats(
    repo_name: &str,
    commits: Vec<CommitInfo>,
    range: DateRange,
    period: Period,
    extensions: Option<&[String]>,
    zone: &TimeZoneMode,
) -> (r: Option<AnalysisResult>)
    requires
        range.wf(),
        forall|i: int| 0 <= i < commits@.len() ==> (#[trigger] commits@[i]).timestamp.wf(),
    ensures
        r is Some <==> counts_fit(contribution_total(commits@, allowed_of(extensions))),
        r matches Some(a) ==> exists|offsets: Seq<i32>|
            offsets_read(offsets, commits@, *zone) && analysis_matches(
                a,
                repo_name@,
                entries(commits@, offsets, allowed_of(extensions)),
                range,
                period,
            ),
{
    if contributions_fit(&commits, extensions) {
        Some(collect_stats(repo_name, commits, range, period, extensions, zone))
    } else {
        None
    }
}

/// Whether the commits' contributions fit the counters.
fn contributions_fit(commits: &Vec<CommitInfo>, extensions: Option<&[String]>) -> (r: bool)
    ensures
        r == counts_fit(contribution_total(commits@, allowed_of(extensions))),
{
    let ghost allowed = allowed_of(extensions);
    let limit_count: u128 = 4294967295;
    let limit_lines: u128 = 9223372036854775807;
    let mut t: (u128, u128, u128, u128) = (0, 0, 0, 0);
    let mut i: usize = 0;
    while i < commits.len()
        invariant
            0 <= i <= commits@.len(),
            allowed == allowed_of(extensions),
            limit_count == u32::MAX,
            limit_lines == i64::MAX,
            (t.0 as int, t.1 as int, t.2 as int, t.3 as int) == contribution_total(commits@.take(i as int), allowed),
            counts_fit((t.0 as int, t.1 as int, t.2 as int, t.3 as int)),
        decreases commits@.len() - i,
    {
        proof {
            assert(commits@.take(i as int + 1).drop_last() =~= commits@.take(i as int));
            lemma_contribution_prefix(commits@, allowed, i as int + 1);
        }
        let (a, d, f) = commit_counts(&commits[i], extensions);
        if t.0 >= limit_count || a > limit_lines - t.1 || d > limit_lines - t.2 || f > limit_count - t.3 {
            proof {
                lemma_contribution_prefix(commits@, allowed, i as int + 1);
            }
            return false;
        }
        t = (t.0 + 1, t.1 + a, t.2 + d, t.3 + f);
        i = i + 1;
    }
    proof {
        assert(commits@.take(i as int) =~= commits@);
    }
    true
}

/// How many of the first `n` commits fall on weekday `w` (Monday 0), the
/// `i`-th read at a UTC offset of `offsets[i]`.
pub open spec fn weekday_count(commits: Seq<CommitInfo>, offsets: Seq<i32>, w: int, n: int) -> int
    decreases n,
{
    if n <= 0 {
        0
    } else {
        weekday_count(commits, offsets, w, n - 1) + if weekday_index(
            local_day(commits[n - 1].timestamp.secs as int, offsets[n - 1] as int),
        ) == w {
            1int
        } else {
            0int
        }
    }
}

/// How many of the first `n` commits fall in hour `h` of the day, the
/// `i`-th read at a UTC offset of `offsets[i]`.
pub open spec fn hour_count(commits: Seq<CommitInfo>, offsets: Seq<i32>, h: int, n: int) -> int
    decreases n,
{
    if n <= 0 {
        0
    } else {
        hour_count(commits, offsets, h, n - 1) + if local_hour(
            commits[n - 1].timestamp.secs as int,
            offsets[n - 1] as int,
        ) == h {
            1int
        } else {
            0int
        }
    }
}

/// `a` counts, for each weekday and each hour, the commits that fall there
/// at the given offsets.
pub open spec fn activity_matches(a: ActivityStats, commits: Seq<CommitInfo>, offsets: Seq<i32>) -> bool {
    &&& forall|w: int| 0 <= w < 7 ==> #[trigger] a.weekday@[w] == weekday_count(commits, offsets, w, commits.len() as int)
    &&& forall|h: int| 0 <= h < 24 ==> #[trigger] a.hourly@[h] == hour_count(commits, offsets, h, commits.len() as int)
}

/// A count over a prefix never exceeds the prefix's length.
proof fn lemma_counts_bounded(commits: Seq<CommitInfo>, offsets: Seq<i32>, w: int, h: int, n: int)
    requires
        0 <= n,
    ensures
        0 <= weekday_count(commits, offsets, w, n) <= n,
        0 <= hour_count(commits, offsets, h, n) <= n,
    decreases n,
{
    if n > 0 {
        lemma_counts_bounded(commits, offsets, w, h, n - 1);
    }
}

/// Commits per weekday and per hour, the `i`-th commit read at a UTC offset
/// of `offsets[i]`.
pub fn collect_activity_stats_with_offsets(commits: &[CommitInfo], offsets: &[i32]) -> (r: ActivityStats)
    requires
        offsets@.len() == commits@.len(),
        commits@.len() <= u32::MAX,
        forall|i: int| 0 <= i < commits@.len() ==> (#[trigger] commits@[i]).timestamp.wf(),
        forall|i: int| 0 <= i < offsets@.len() ==> -86400 < #[trigger] offsets@[i] < 86400,
    ensures
        activity_matches(r, commits@, offsets@),
{
    let mut stats = ActivityStats::default();
    let mut i: usize = 0;
    while i < commits.len()
        invariant
            0 <= i <= commits@.len(),
            offsets@.len() == commits@.len(),
            commits@.len() <= u32::MAX,
            forall|i: int| 0 <= i < commits@.len() ==> (#[trigger] commits@[i]).timestamp.wf(),
            forall|i: int| 0 <= i < offsets@.len() ==> -86400 < #[trigger] offsets@[i] < 86400,
            forall|w: int| 0 <= w < 7 ==> #[trigger] stats.weekday@[w] == weekday_count(commits@, offsets@, w, i as int),
            forall|h: int| 0 <= h < 24 ==> #[trigger] stats.hourly@[h] == hour_count(commits@, offsets@, h, i as int),
        decreases commits@.len() - i,
    {
        let t = commits[i].timestamp;
        let w = t.local_date(offsets[i]).weekday_from_monday() as usize;
        let h = t.local_hour(offsets[i]) as usize;
        proof {
            lemma_counts_bounded(commits@, offsets@, w as int, h as int, i as int);
        }
        let cw = stats.weekday[w];
        stats.weekday[w] = cw + 1;
        let ch = stats.hourly[h];
        stats.hourly[h] = ch + 1;
        i = i + 1;
    }
    stats
}

/// Commits per weekday and per hour on the clock `zone`: the same clock,
/// and so the same offsets, as `collect_stats` dates them by.
pub fn collect_activity_stats(commits: &[CommitInfo], zone: &TimeZoneMode) -> (r: ActivityStats)
    requires
        commits@.len() <= u32::MAX,
        forall|i: int| 0 <= i < commits@.len() ==> (#[trigger] commits@[i]).timestamp.wf(),
    ensures
        exists|offsets: Seq<i32>| offsets_read(offsets, commits@, *zone) && activity_matches(
            r,
            commits@,
            offsets,
        ),
{
    let offsets = clock_offsets(commits, zone);
    collect_activity_stats_with_offsets(commits, offsets.as_slice())
}

/// Each commit contributes one to the commit count.
proof fn lemma_commit_count(commits: Seq<CommitInfo>, allowed: Option<Seq<Seq<char>>>)
    ensures
        contribution_total(commits, allowed).0 == commits.len(),
    decreases commits.len(),
{
    if commits.len() > 0 {
        lemma_commit_count(commits.drop_last(), allowed);
    }
}

/// Statistics and activity histograms of `commits`, both read on the clock
/// `zone` at the same offsets, after checking that the contributions fit
/// the counters: `None` when they do not.
pub fn try_collect_stats_with_activity(
    repo_name: &str,
    commits: Vec<CommitInfo>,
    range: DateRange,
    period: Period,
    extensions: Option<&[String]>,
    zone: &TimeZoneMode,
) -> (r: Option<(AnalysisResult, ActivityStats)>)
    requires
        range.wf(),
        forall|i: int| 0 <= i < commits@.len() ==> (#[trigger] commits@[i]).timestamp.wf(),
    ensures
        r is Some <==> counts_fit(contribution_total(commits@, allowed_of(extensions))),
        r matches Some((a, act)) ==> exists|offsets: Seq<i32>|
            offsets_read(offsets, commits@, *zone) && analysis_matches(
                a,
                repo_name@,
                entries(commits@, offsets, allowed_of(extensions)),
                range,
                period,
            ) && activity_matches(act, commits@, offsets),
{
    if !contributions_fit(&commits, extensions) {
        return None;
    }
    let offsets = clock_offsets(commits.as_slice(), zone);
    proof {
        lemma_commit_count(commits@, allowed_of(extensions));
        lemma_window_le_total(commits@, offsets@, allowed_of(extensions), range.from.day as int, range.to.day as int);
        lemma_sum_days_mono(
            entries(commits@, offsets@, allowed_of(extensions)),
            range.from.day as int,
            range.to.day as int,
            range.from.day as int,
            range.to.day as int,
        );
    }
    let activity = collect_activity_stats_with_offsets(commits.as_slice(), offsets.as_slice());
    let result = collect_stats_with_offsets(repo_name, &commits, &offsets, range, period, extensions);
    Some((result, activity))
}

} // verus!
