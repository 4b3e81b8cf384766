//! The dashboard's state: the analysis on show, the selected metric and the
//! scroll position, and the series it plots.

use vstd::prelude::*;
use crate::mvu::Action;
use crate::stats::{ActivityStats, AnalysisResult};

verus! {

/// Data point for the additions/deletions diverging bar chart.
#[derive(Debug)]
pub struct AddDelDataPoint {
    pub label: String,
    pub additions: u64,
    pub deletions: u64,
}

/// Metric to display in charts.
#[derive(Clone, Copy, Debug, PartialEq, Eq, Structural)]
pub enum Metric {
    Commits,
    AdditionsAndDeletions,
    FilesChanged,
}

/// Position of a metric in the cycle.
pub open spec fn metric_index(m: Metric) -> int {
    match m {
        Metric::Commits => 0,
        Metric::AdditionsAndDeletions => 1,
        Metric::FilesChanged => 2,
    }
}

impl Metric {
    /// The next metric in the cycle.
    pub fn next(self) -> (r: Self)
        ensures
            metric_index(r) == (metric_index(self) + 1) % 3,
    {
        match self {
            Metric::Commits => Metric::AdditionsAndDeletions,
            Metric::AdditionsAndDeletions => Metric::FilesChanged,
            Metric::FilesChanged => Metric::Commits,
        }
    }

    /// The previous metric in the cycle.
    pub fn prev(self) -> (r: Self)
        ensures
            metric_index(r) == (metric_index(self) + 2) % 3,
    {
        match self {
            Metric::Commits => Metric::FilesChanged,
            Metric::AdditionsAndDeletions => Metric::Commits,
            Metric::FilesChanged => Metric::AdditionsAndDeletions,
        }
    }

    /// Display name.
    pub fn name(self) -> (r: &'static str)
        ensures
            r@ == match self {
                Metric::Commits => "Commits"@,
                Metric::AdditionsAndDeletions => "Additions / Deletions"@,
                Metric::FilesChanged => "Files Changed"@,
            },
    {
        match self {
            Metric::Commits => "Commits",
            Metric::AdditionsAndDeletions => "Additions / Deletions",
            Metric::FilesChanged => "Files Changed",
        }
    }
}

impl Default for Metric {
    /// Commits.
    fn default() -> (r: Self)
        ensures
            r == Metric::Commits,
    {
        Metric::Commits
    }
}

/// The value of `metric` for a bucket: its commits, net lines or files changed.
pub open spec fn metric_value(metric: Metric, commits: u32, net_lines: i64, files_changed: u32) -> i64 {
    match metric {
        Metric::Commits => commits as i64,
        Metric::AdditionsAndDeletions => net_lines,
        Metric::FilesChanged => files_changed as i64,
    }
}

/// Application state.
#[derive(Debug)]
pub struct App {
    /// Analysis result to display
    pub result: AnalysisResult,
    /// Activity statistics (commits by weekday and hour)
    pub activity_stats: ActivityStats,
    /// Currently selected metric
    pub metric: Metric,
    /// Whether the app should quit
    pub should_quit: bool,
    /// Show single metric instead of all metrics
    pub single_metric: bool,
    /// Scroll offset for the diverging bar chart (0 = show latest)
    pub scroll_offset: usize,
}

impl App {
    /// A new dashboard on the commits metric, unscrolled.
    pub fn new(result: AnalysisResult, activity_stats: ActivityStats, single_metric: bool) -> (r: Self)
        ensures
            r.result == result,
            r.activity_stats == activity_stats,
            r.metric == Metric::Commits,
            !r.should_quit,
            r.single_metric == single_metric,
            r.scroll_offset == 0,
    {
        App { result, activity_stats, metric: Metric::Commits, should_quit: false, single_metric, scroll_offset: 0 }
    }

    /// Scroll towards older data, up to the oldest bucket.
    pub fn scroll_up(&mut self)
        ensures
            final(self).result == old(self).result,
            final(self).metric == old(self).metric,
            final(self).single_metric == old(self).single_metric,
            final(self).should_quit == old(self).should_quit,
            final(self).scroll_offset == if old(self).result.stats@.len() == 0 {
                old(self).scroll_offset as int
            } else if old(self).scroll_offset + 1 <= old(self).result.stats@.len() - 1 {
                old(self).scroll_offset + 1
            } else {
                old(self).result.stats@.len() - 1
            },
    {
        let data_len = self.result.stats.len();
        if data_len > 0 {
            let max_offset = data_len - 1;
            self.scroll_offset = if self.scroll_offset >= max_offset {
                max_offset
            } else {
                self.scroll_offset + 1
            };
        }
    }

    /// Scroll towards the latest data, stopping at zero.
    pub fn scroll_down(&mut self)
        ensures
            final(self).result == old(self).result,
            final(self).metric == old(self).metric,
            final(self).single_metric == old(self).single_metric,
            final(self).should_quit == old(self).should_quit,
            final(self).scroll_offset == if old(self).scroll_offset > 0 {
                old(self).scroll_offset - 1
            } else {
                0
            },
    {
        if self.scroll_offset > 0 {
            self.scroll_offset = self.scroll_offset - 1;
        }
    }

    /// Apply a user action: quit; cycle the metric in single view; scroll
    /// in split view; toggle the view, which resets the scroll offset.
    pub fn handle_action(&mut self, action: Action)
        ensures
            final(self).result == old(self).result,
            final(self).should_quit == (old(self).should_quit || action is Quit || action is ForceQuit),
            final(self).metric == if old(self).single_metric && action is NextChart {
                old(self).metric.spec_next()
            } else if old(self).single_metric && action is PrevChart {
                old(self).metric.spec_prev()
            } else {
                old(self).metric
            },
            final(self).single_metric == (old(self).single_metric != (action is ToggleMetricView)),
            action is ToggleMetricView ==> final(self).scroll_offset == 0,
            !(action is ToggleMetricView || action is ScrollUp || action is ScrollDown)
                ==> final(self).scroll_offset == old(self).scroll_offset,
            old(self).single_metric && !(action is ToggleMetricView) ==> final(self).scroll_offset
                == old(self).scroll_offset,
            !old(self).single_metric && action is ScrollUp ==> final(self).scroll_offset == if old(
                self,
            ).result.stats@.len() == 0 {
                old(self).scroll_offset as int
            } else if old(self).scroll_offset + 1 <= old(self).result.stats@.len() - 1 {
                old(self).scroll_offset + 1
            } else {
                old(self).result.stats@.len() - 1
            },
            !old(self).single_metric && action is ScrollDown ==> final(self).scroll_offset == if old(
                self,
            ).scroll_offset > 0 {
                old(self).scroll_offset - 1
            } else {
                0
            },
    {
        match action {
            Action::Quit | Action::ForceQuit => {
                self.should_quit = true;
            },
            Action::NextChart => {
                if self.single_metric {
                    self.metric = self.metric.next();
                }
            },
            Action::PrevChart => {
                if self.single_metric {
                    self.metric = self.metric.prev();
                }
            },
            Action::ScrollUp => {
                if !self.single_metric {
                    self.scroll_up();
                }
            },
            Action::ScrollDown => {
                if !self.single_metric {
                    self.scroll_down();
                }
            },
            Action::ToggleMetricView => {
                self.single_metric = !self.single_metric;
                self.scroll_offset = 0;
            },
            Action::Tick | Action::Noop => {},
        }
    }

    /// Label and value of the selected metric for each bucket.
    pub fn metric_values(&self) -> (r: Vec<(String, i64)>)
        ensures
            r@.len() == self.result.stats@.len(),
            forall|k: int| 0 <= k < r@.len() ==> (#[trigger] r@[k]).0@ == self.result.stats@[k].label@
                && r@[k].1 == metric_value(
                self.metric,
                self.result.stats@[k].commits,
                self.result.stats@[k].net_lines,
                self.result.stats@[k].files_changed,
            ),
    {
        self.values_for_metric(self.metric)
    }

    /// Label and value of `metric` for each bucket.
    pub fn values_for_metric(&self, metric: Metric) -> (r: Vec<(String, i64)>)
        ensures
            r@.len() == self.result.stats@.len(),
            forall|k: int| 0 <= k < r@.len() ==> (#[trigger] r@[k]).0@ == self.result.stats@[k].label@
                && r@[k].1 == metric_value(
                metric,
                self.result.stats@[k].commits,
                self.result.stats@[k].net_lines,
                self.result.stats@[k].files_changed,
            ),
    {
        let stats = &self.result.stats;
        let mut out: Vec<(String, i64)> = Vec::new();
        let mut i: usize = 0;
        while i < stats.len()
            invariant
                0 <= i <= stats@.len(),
                out@.len() == i,
                forall|k: int| 0 <= k < i ==> (#[trigger] out@[k]).0@ == stats@[k].label@ && out@[k].1 == metric_value(
                    metric,
                    stats@[k].commits,
                    stats@[k].net_lines,
                    stats@[k].files_changed,
                ),
            decreases stats@.len() - i,
        {
            let s = &stats[i];
            let value: i64 = match metric {
                Metric::Commits => s.commits as i64,
                Metric::AdditionsAndDeletions => s.net_lines,
                Metric::FilesChanged => s.files_changed as i64,
            };
            out.push((s.label.clone(), value));
            i = i + 1;
        }
        out
    }

    /// All metrics, in cycle order.
    pub fn all_metrics() -> (r: [Metric; 3])
        ensures
            r@ == seq![Metric::Commits, Metric::AdditionsAndDeletions, Metric::FilesChanged],
    {
        let r = [Metric::Commits, Metric::AdditionsAndDeletions, Metric::FilesChanged];
        proof {
            assert(r@ =~= seq![Metric::Commits, Metric::AdditionsAndDeletions, Metric::FilesChanged]);
        }
        r
    }

    /// Label, additions and deletions of each bucket.
    pub fn additions_deletions_data(&self) -> (r: Vec<AddDelDataPoint>)
        ensures
            r@.len() == self.result.stats@.len(),
            forall|k: int| 0 <= k < r@.len() ==> (#[trigger] r@[k]).label@ == self.result.stats@[k].label@
                && r@[k].additions == self.result.stats@[k].additions && r@[k].deletions
                == self.result.stats@[k].deletions,
    {
        let stats = &self.result.stats;
        let mut out: Vec<AddDelDataPoint> = Vec::new();
        let mut i: usize = 0;
        while i < stats.len()
            invariant
                0 <= i <= stats@.len(),
                out@.len() == i,
                forall|k: int| 0 <= k < i ==> (#[trigger] out@[k]).label@ == stats@[k].label@ && out@[k].additions
                    == stats@[k].additions && out@[k].deletions == stats@[k].deletions,
            decreases stats@.len() - i,
        {
            let s = &stats[i];
            out.push(AddDelDataPoint { label: s.label.clone(), additions: s.additions, deletions: s.deletions });
            i = i + 1;
        }
        out
    }
}

impl Metric {
    /// The metric after this one in the cycle.
    pub open spec fn spec_next(self) -> Metric {
        match self {
            Metric::Commits => Metric::AdditionsAndDeletions,
            Metric::AdditionsAndDeletions => Metric::FilesChanged,
            Metric::FilesChanged => Metric::Commits,
        }
    }

    /// The metric before this one in the cycle.
    pub open spec fn spec_prev(self) -> Metric {
        match self {
            Metric::Commits => Metric::FilesChanged,
            Metric::AdditionsAndDeletions => Metric::Commits,
            Metric::FilesChanged => Metric::AdditionsAndDeletions,
        }
    }
}

} // verus!
