//! The options of an analysis run, as plain values.

use vstd::prelude::*;

verus! {

/// Output format options.
#[derive(Clone, Copy, Debug, PartialEq, Eq, Structural)]
pub enum OutputFormat {
    /// Terminal UI with charts
    Tui,
    /// Table output
    Table,
    /// JSON output
    Json,
    /// CSV output
    Csv,
}

/// The lower-case name of an output format.
pub open spec fn output_format_name(f: OutputFormat) -> Seq<char> {
    match f {
        OutputFormat::Tui => "tui"@,
        OutputFormat::Table => "table"@,
        OutputFormat::Json => "json"@,
        OutputFormat::Csv => "csv"@,
    }
}

impl OutputFormat {
    /// The lower-case name, as written on the command line.
    pub fn to_string(&self) -> (r: String)
        ensures
            r@ == output_format_name(*self),
    {
        match self {
            OutputFormat::Tui => String::from_str("tui"),
            OutputFormat::Table => String::from_str("table"),
            OutputFormat::Json => String::from_str("json"),
            OutputFormat::Csv => String::from_str("csv"),
        }
    }
}

impl Default for OutputFormat {
    /// Table output.
    fn default() -> (r: Self)
        ensures
            r == OutputFormat::Table,
    {
        OutputFormat::Table
    }
}

/// Time period for aggregation.
#[derive(Clone, Copy, Debug, PartialEq, Eq, Structural)]
pub enum Period {
    /// Aggregate by day
    Daily,
    /// Aggregate by ISO week
    Weekly,
    /// Aggregate by month
    Monthly,
    /// Aggregate by year
    Yearly,
}

/// The lower-case name of a period.
pub open spec fn period_name(p: Period) -> Seq<char> {
    match p {
        Period::Daily => "daily"@,
        Period::Weekly => "weekly"@,
        Period::Monthly => "monthly"@,
        Period::Yearly => "yearly"@,
    }
}

impl Period {
    /// The lower-case name, as written on the command line.
    pub fn to_string(&self) -> (r: String)
        ensures
            r@ == period_name(*self),
    {
        match self {
            Period::Daily => String::from_str("daily"),
            Period::Weekly => String::from_str("weekly"),
            Period::Monthly => String::from_str("monthly"),
            Period::Yearly => String::from_str("yearly"),
        }
    }
}

impl Default for Period {
    /// Daily.
    fn default() -> (r: Self)
        ensures
            r == Period::Daily,
    {
        Period::Daily
    }
}

/// The options of a run.
#[derive(Debug)]
pub struct Args {
    /// Subcommand, if any
    pub command: Option<Command>,
    /// Path to config file
    pub config: Option<String>,
    /// Repository path (overrides config)
    pub repo: Option<String>,
    /// Number of days to analyze
    pub days: u32,
    /// Include merge commits
    pub include_merges: bool,
    /// Output format
    pub output: OutputFormat,
    /// Aggregation period
    pub period: Period,
    /// Branch to analyze
    pub branch: Option<String>,
    /// File extensions to include
    pub ext: Option<Vec<String>>,
    /// Show single metric instead of all metrics
    pub single_metric: bool,
    /// Clock for dates: local, utc, or an IANA zone name
    pub timezone: String,
    /// Filter repositories by name
    pub repo_name: Option<Vec<String>>,
}

/// Subcommands.
#[derive(Debug)]
pub enum Command {
    /// Add a repository to the configuration
    Add(AddArgs),
    /// Remove a repository from the configuration
    Remove(RemoveArgs),
    /// List registered repositories
    List(ListArgs),
}

/// Arguments of `add`.
#[derive(Debug)]
pub struct AddArgs {
    /// Path to the repository to add
    pub path: String,
    /// Display name (defaults to the directory name)
    pub name: Option<String>,
    /// Default branch to analyze
    pub branch: Option<String>,
}

/// Arguments of `remove`.
#[derive(Debug)]
pub struct RemoveArgs {
    /// Repository path or name to remove
    pub identifier: String,
}

/// Arguments of `list`.
#[derive(Debug)]
pub struct ListArgs {
    /// Output in JSON format
    pub json: bool,
}

} // verus!
