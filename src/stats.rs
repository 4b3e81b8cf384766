//! Period buckets, grand totals, analysis results and activity histograms.

use vstd::prelude::*;
use crate::date::{Date, date_text, EPOCH_DAY};
use crate::text::{nat_text, push_nat};

verus! {

/// Commit count, lines added, lines deleted and files changed.
pub type Counts = (int, int, int, int);

/// Field-wise sum of two `Counts`.
pub open spec fn add_counts(a: Counts, b: Counts) -> Counts {
    (a.0 + b.0, a.1 + b.1, a.2 + b.2, a.3 + b.3)
}

/// The counts fit their machine fields, with room for a signed net line change.
pub open spec fn counts_fit(c: Counts) -> bool {
    &&& 0 <= c.0 <= u32::MAX
    &&& 0 <= c.1 <= i64::MAX
    &&& 0 <= c.2 <= i64::MAX
    &&& 0 <= c.3 <= u32::MAX
}

/// Componentwise `a <= b`.
pub open spec fn counts_le(a: Counts, b: Counts) -> bool {
    a.0 <= b.0 && a.1 <= b.1 && a.2 <= b.2 && a.3 <= b.3
}

/// A bucket as mathematical values.
pub struct PeriodView {
    pub label: Seq<char>,
    pub date: int,
    pub commits: int,
    pub additions: int,
    pub deletions: int,
    pub net_lines: int,
    pub files_changed: int,
}

/// The counts of a bucket.
pub open spec fn counts_of(v: PeriodView) -> Counts {
    (v.commits, v.additions, v.deletions, v.files_changed)
}

/// The sum of the counts of a list of buckets.
pub open spec fn sum_counts(s: Seq<PeriodView>) -> Counts
    decreases s.len(),
{
    if s.len() == 0 {
        (0, 0, 0, 0)
    } else {
        add_counts(sum_counts(s.drop_last()), counts_of(s.last()))
    }
}

/// The views of a list of buckets.
pub open spec fn views(s: Seq<PeriodStats>) -> Seq<PeriodView> {
    s.map_values(|p: PeriodStats| p@)
}

/// Statistics for a single time period.
#[derive(Debug)]
pub struct PeriodStats {
    /// Period identifier (date, week, month, or year label)
    pub label: String,
    /// Anchor date of the period: its first day seen, used for display and
    /// ordering only; the period's key comes from the label's calendar unit
    pub date: Date,
    /// Number of commits
    pub commits: u32,
    /// Lines added
    pub additions: u64,
    /// Lines deleted
    pub deletions: u64,
    /// Net line change (additions - deletions)
    pub net_lines: i64,
    /// Number of files changed
    pub files_changed: u32,
}

impl View for PeriodStats {
    type V = PeriodView;

    open spec fn view(&self) -> PeriodView {
        PeriodView {
            label: self.label@,
            date: self.date.day as int,
            commits: self.commits as int,
            additions: self.additions as int,
            deletions: self.deletions as int,
            net_lines: self.net_lines as int,
            files_changed: self.files_changed as int,
        }
    }
}

impl Clone for PeriodStats {
    fn clone(&self) -> (r: Self)
        ensures
            r@ == self@,
    {
        PeriodStats {
            label: self.label.clone(),
            date: self.date,
            commits: self.commits,
            additions: self.additions,
            deletions: self.deletions,
            net_lines: self.net_lines,
            files_changed: self.files_changed,
        }
    }
}

impl Default for PeriodStats {
    /// An empty bucket with an empty label, anchored on 1970-01-01.
    fn default() -> (r: Self)
        ensures
            r@.label.len() == 0,
            r@.date == EPOCH_DAY,
            counts_of(r@) == (0int, 0int, 0int, 0int),
            r@.net_lines == 0,
    {
        PeriodStats::with_label(Date { day: EPOCH_DAY }, String::new())
    }
}

impl PeriodStats {
    /// `net_lines` is `additions - deletions`.
    pub open spec fn net_consistent(&self) -> bool {
        self.net_lines == self.additions - self.deletions
    }

    /// An empty bucket for `date`, labelled `YYYY-MM-DD`.
    pub fn new(date: Date) -> (r: Self)
        requires
            date.wf(),
        ensures
            r@.label == date_text(date.day as int),
            r.date == date,
            counts_of(r@) == (0int, 0int, 0int, 0int),
            r@.net_lines == 0,
    {
        PeriodStats::with_label(date, date.format_ymd())
    }

    /// An empty bucket anchored on `date` with a custom label.
    pub fn with_label(date: Date, label: String) -> (r: Self)
        ensures
            r.label == label,
            r.date == date,
            counts_of(r@) == (0int, 0int, 0int, 0int),
            r@.net_lines == 0,
    {
        PeriodStats { label, date, commits: 0, additions: 0, deletions: 0, net_lines: 0, files_changed: 0 }
    }

    /// `additions - deletions`, which may be negative.
    pub fn calculate_net_lines(&self) -> (r: i64)
        requires
            self.additions <= i64::MAX,
            self.deletions <= i64::MAX,
        ensures
            r == self.additions - self.deletions,
    {
        self.additions as i64 - self.deletions as i64
    }

    /// Add `other`'s counts to this bucket and recompute `net_lines`; the
    /// label and anchor date stay.
    pub fn merge(&mut self, other: &Self)
        requires
            counts_fit(add_counts(counts_of(old(self)@), counts_of(other@))),
        ensures
            counts_of(final(self)@) == add_counts(counts_of(old(self)@), counts_of(other@)),
            final(self)@.net_lines == final(self)@.additions - final(self)@.deletions,
            final(self).label == old(self).label,
            final(self).date == old(self).date,
    {
        self.commits = self.commits + other.commits;
        self.additions = self.additions + other.additions;
        self.deletions = self.deletions + other.deletions;
        self.files_changed = self.files_changed + other.files_changed;
        self.net_lines = self.calculate_net_lines();
    }

    /// Recompute `net_lines` from the current additions and deletions.
    pub fn update_net_lines(&mut self)
        requires
            old(self).additions <= i64::MAX,
            old(self).deletions <= i64::MAX,
        ensures
            final(self)@ == (PeriodView { net_lines: old(self)@.additions - old(self)@.deletions, ..old(self)@ }),
            final(self).label == old(self).label,
            final(self).date == old(self).date,
    {
        self.net_lines = self.calculate_net_lines();
    }
}

/// A prefix of a list of buckets sums to no more than the whole list.
pub proof fn lemma_sum_prefix_le(s: Seq<PeriodView>, i: int)
    requires
        0 <= i <= s.len(),
        forall|k: int| 0 <= k < s.len() ==> counts_le((0int, 0int, 0int, 0int), counts_of(#[trigger] s[k])),
    ensures
        counts_le(sum_counts(s.take(i)), sum_counts(s)),
        counts_le((0int, 0int, 0int, 0int), sum_counts(s.take(i))),
    decreases s.len(),
{
    if i == s.len() {
        assert(s.take(i) =~= s);
        if s.len() > 0 {
            lemma_sum_prefix_le(s.drop_last(), i - 1);
            assert(s.drop_last().take(i - 1) =~= s.drop_last());
        }
    } else {
        lemma_sum_prefix_le(s.drop_last(), i);
        assert(s.drop_last().take(i) =~= s.take(i));
        lemma_sum_prefix_le(s.drop_last(), s.len() - 1);
        assert(s.drop_last().take(s.len() - 1) =~= s.drop_last());
    }
}

/// Aggregated total statistics.
#[derive(Clone, Copy, Debug)]
pub struct TotalStats {
    /// Total commits
    pub commits: u32,
    /// Total lines added
    pub additions: u64,
    /// Total lines deleted
    pub deletions: u64,
    /// Total net line change
    pub net_lines: i64,
    /// Total files changed
    pub files_changed: u32,
}

impl TotalStats {
    /// The counts of the totals.
    pub open spec fn counts(&self) -> Counts {
        (self.commits as int, self.additions as int, self.deletions as int, self.files_changed as int)
    }

    /// Field-wise sums over `periods`, with `net_lines` recomputed from them.
    pub fn from_periods(periods: &[PeriodStats]) -> (r: Self)
        requires
            counts_fit(sum_counts(views(periods@))),
        ensures
            r.counts() == sum_counts(views(periods@)),
            r.net_lines == r.additions - r.deletions,
    {
        let ghost all = views(periods@);
        let mut commits: u32 = 0;
        let mut additions: u64 = 0;
        let mut deletions: u64 = 0;
        let mut files_changed: u32 = 0;
        let mut i: usize = 0;
        while i < periods.len()
            invariant
                0 <= i <= periods.len(),
                all == views(periods@),
                counts_fit(sum_counts(all)),
                (commits as int, additions as int, deletions as int, files_changed as int)
                    == sum_counts(all.take(i as int)),
            decreases periods.len() - i,
        {
            proof {
                assert(all.take(i as int + 1).drop_last() =~= all.take(i as int));
                lemma_sum_prefix_le(all, i as int + 1);
            }
            commits = commits + periods[i].commits;
            additions = additions + periods[i].additions;
            deletions = deletions + periods[i].deletions;
            files_changed = files_changed + periods[i].files_changed;
            i = i + 1;
        }
        proof {
            assert(all.take(i as int) =~= all);
        }
        TotalStats {
            commits,
            additions,
            deletions,
            net_lines: additions as i64 - deletions as i64,
            files_changed,
        }
    }
}

impl Default for TotalStats {
    /// All zero.
    fn default() -> (r: Self)
        ensures
            r.counts() == (0int, 0int, 0int, 0int),
            r.net_lines == 0,
    {
        TotalStats { commits: 0, additions: 0, deletions: 0, net_lines: 0, files_changed: 0 }
    }
}

/// Complete analysis result.
#[derive(Debug)]
pub struct AnalysisResult {
    /// Repository name
    pub repository: String,
    /// Aggregation period (daily, weekly, monthly, yearly)
    pub period: String,
    /// Start date of analysis
    pub from: Date,
    /// End date of analysis
    pub to: Date,
    /// Statistics per period
    pub stats: Vec<PeriodStats>,
    /// Total statistics across all periods
    pub total: TotalStats,
}

impl AnalysisResult {
    /// Wrap the buckets with their totals.
    pub fn new(repository: String, period: String, from: Date, to: Date, stats: Vec<PeriodStats>) -> (r: Self)
        requires
            counts_fit(sum_counts(views(stats@))),
        ensures
            r.repository == repository,
            r.period == period,
            r.from == from,
            r.to == to,
            r.stats@ == stats@,
            r.total.counts() == sum_counts(views(stats@)),
            r.total.net_lines == r.total.additions - r.total.deletions,
    {
        let total = TotalStats::from_periods(stats.as_slice());
        AnalysisResult { repository, period, from, to, stats, total }
    }
}

/// Commits per weekday and per hour of day.
#[derive(Clone, Copy, Debug)]
pub struct ActivityStats {
    /// Commits per weekday (0 = Monday, ..., 6 = Sunday)
    pub weekday: [u32; 7],
    /// Commits per hour (0 to 23)
    pub hourly: [u32; 24],
}

/// The three-letter weekday names, Monday first.
pub open spec fn weekday_names() -> Seq<Seq<char>> {
    seq!["Mon"@, "Tue"@, "Wed"@, "Thu"@, "Fri"@, "Sat"@, "Sun"@]
}

impl ActivityStats {
    /// Weekday labels, Monday first.
    pub fn weekday_labels() -> (r: [&'static str; 7])
        ensures
            r@.map_values(|s: &str| s@) == weekday_names(),
    {
        let r = ["Mon", "Tue", "Wed", "Thu", "Fri", "Sat", "Sun"];
        proof {
            reveal_strlit("Mon");
            reveal_strlit("Tue");
            reveal_strlit("Wed");
            reveal_strlit("Thu");
            reveal_strlit("Fri");
            reveal_strlit("Sat");
            reveal_strlit("Sun");
            assert(r@.map_values(|s: &str| s@) =~= weekday_names());
        }
        r
    }

    /// Hour labels, `"0"` to `"23"`.
    pub fn hour_labels() -> (r: [String; 24])
        ensures
            forall|i: int| 0 <= i < 24 ==> (#[trigger] r@[i])@ == nat_text(i as nat),
    {
        let mut r: [String; 24] = [String::new(), String::new(), String::new(), String::new(), String::new(), String::new(), String::new(), String::new(), String::new(), String::new(), String::new(), String::new(), String::new(), String::new(), String::new(), String::new(), String::new(), String::new(), String::new(), String::new(), String::new(), String::new(), String::new(), String::new()];
        let mut i: usize = 0;
        while i < 24
            invariant
                0 <= i <= 24,
                forall|k: int| 0 <= k < i ==> (#[trigger] r@[k])@ == nat_text(k as nat),
            decreases 24 - i,
        {
            let mut s = String::new();
            push_nat(&mut s, i as u64);
            r[i] = s;
            i = i + 1;
        }
        r
    }
}

impl Default for ActivityStats {
    /// No commits anywhere.
    fn default() -> (r: Self)
        ensures
            forall|i: int| 0 <= i < 7 ==> #[trigger] r.weekday@[i] == 0,
            forall|i: int| 0 <= i < 24 ==> #[trigger] r.hourly@[i] == 0,
    {
        ActivityStats { weekday: [0u32; 7], hourly: [0u32; 24] }
    }
}

} // verus!
