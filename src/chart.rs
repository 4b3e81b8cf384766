//! Which chart the dashboard shows in single-chart mode.

use vstd::prelude::*;

verus! {

/// Chart type to display in single mode.
#[derive(Clone, Copy, Debug, PartialEq, Eq, Structural)]
pub enum ChartType {
    Commits,
    FilesChanged,
    AddDel,
    Weekday,
    Hour,
}

/// Position of a chart type in the cycle.
pub open spec fn chart_index(c: ChartType) -> int {
    match c {
        ChartType::Commits => 0,
        ChartType::FilesChanged => 1,
        ChartType::AddDel => 2,
        ChartType::Weekday => 3,
        ChartType::Hour => 4,
    }
}

impl ChartType {
    /// The next chart type in the cycle, wrapping from the last to the first.
    pub fn next(self) -> (r: Self)
        ensures
            chart_index(r) == (chart_index(self) + 1) % 5,
    {
        match self {
            ChartType::Commits => ChartType::FilesChanged,
            ChartType::FilesChanged => ChartType::AddDel,
            ChartType::AddDel => ChartType::Weekday,
            ChartType::Weekday => ChartType::Hour,
            ChartType::Hour => ChartType::Commits,
        }
    }

    /// The previous chart type in the cycle, wrapping from the first to the last.
    pub fn prev(self) -> (r: Self)
        ensures
            chart_index(r) == (chart_index(self) + 4) % 5,
    {
        match self {
            ChartType::Commits => ChartType::Hour,
            ChartType::FilesChanged => ChartType::Commits,
            ChartType::AddDel => ChartType::FilesChanged,
            ChartType::Weekday => ChartType::AddDel,
            ChartType::Hour => ChartType::Weekday,
        }
    }

    /// Display name.
    pub fn name(self) -> (r: &'static str)
        ensures
            r@ == match self {
                ChartType::Commits => "Commits"@,
                ChartType::FilesChanged => "Files Changed"@,
                ChartType::AddDel => "Add/Del"@,
                ChartType::Weekday => "Weekday"@,
                ChartType::Hour => "Hour"@,
            },
    {
        match self {
            ChartType::Commits => "Commits",
            ChartType::FilesChanged => "Files Changed",
            ChartType::AddDel => "Add/Del",
            ChartType::Weekday => "Weekday",
            ChartType::Hour => "Hour",
        }
    }
}

impl Default for ChartType {
    /// The commits chart.
    fn default() -> (r: Self)
        ensures
            r == ChartType::Commits,
    {
        ChartType::Commits
    }
}

} // verus!
