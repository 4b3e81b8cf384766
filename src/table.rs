//! Number formatting for the table report.

use vstd::prelude::*;
use crate::error::Error;
use crate::stats::AnalysisResult;
use crate::text::{digit_char, digit_str, nat_text, push_nat};

verus! {

/// The three digits of `n % 1000`, zero-padded.
pub open spec fn pad3_text(n: nat) -> Seq<char> {
    let m = n % 1000;
    seq![digit_char((m / 100) as int), digit_char(((m / 10) % 10) as int), digit_char((m % 10) as int)]
}

/// Decimal text of `n` with a comma between each group of three digits.
pub open spec fn comma_text(n: nat) -> Seq<char>
    decreases n,
{
    if n < 1000 {
        nat_text(n)
    } else {
        comma_text(n / 1000) + seq![','] + pad3_text(n)
    }
}

/// Signed decimal text with thousands separators.
pub open spec fn signed_comma_text(n: int) -> Seq<char> {
    if n < 0 {
        seq!['-'] + comma_text((-n) as nat)
    } else {
        comma_text(n as nat)
    }
}

/// Append the digits of `n` grouped by threes with commas.
fn push_commas(s: &mut String, n: u64)
    ensures
        final(s)@ == old(s)@ + comma_text(n as nat),
    decreases n,
{
    if n >= 1000 {
        push_commas(s, n / 1000);
        proof {
            reveal_strlit(",");
        }
        s.append(",");
        let m = n % 1000;
        s.append(digit_str(m / 100));
        s.append(digit_str((m / 10) % 10));
        s.append(digit_str(m % 10));
        proof {
            assert(final(s)@ =~= old(s)@ + comma_text(n as nat));
        }
    } else {
        push_nat(s, n);
    }
}

/// `value` in decimal with thousands separators, such as `1,234,567`.
pub fn format_with_commas_u64(value: u64) -> (r: String)
    ensures
        r@ == comma_text(value as nat),
{
    let mut s = String::new();
    push_commas(&mut s, value);
    s
}

/// `value` in decimal with thousands separators and a leading `-` when negative.
pub fn format_with_commas_i64(value: i64) -> (r: String)
    ensures
        r@ == signed_comma_text(value as int),
{
    let mut s = String::new();
    if value < 0 {
        proof {
            reveal_strlit("-");
        }
        s.append("-");
        let m: u64 = if value == i64::MIN {
            9223372036854775808u64
        } else {
            (-value) as u64
        };
        push_commas(&mut s, m);
    } else {
        push_commas(&mut s, value as u64);
    }
    s
}

/// The text that comfy-table draws for this header and these rows.
pub uninterp spec fn table_text(header: Seq<Seq<char>>, rows: Seq<Seq<Seq<char>>>) -> Seq<char>;

/// Relies on comfy-table's `Table` with the `UTF8_FULL` preset (`set_header`,
/// `add_rows`, then its `Display`): the table drawn from the header and rows.
#[verifier::external_body]
fn render_table(header: Vec<String>, rows: Vec<Vec<String>>) -> (r: String)
    ensures
        r@ == table_text(header.deep_view(), rows.deep_view()),
{
    let mut table = comfy_table::Table::new();
    table.load_preset(comfy_table::presets::UTF8_FULL).set_header(header).add_rows(rows);
    table.to_string()
}

/// The column titles of the report.
pub open spec fn table_header() -> Seq<Seq<char>> {
    seq!["Period"@, "Commits"@, "+Lines"@, "-Lines"@, "Net"@, "Files"@]
}

/// One row of the report: label, commits, lines added, lines deleted, net
/// change and files, the numbers with thousands separators.
pub open spec fn row_text(label: Seq<char>, commits: int, additions: int, deletions: int, net: int, files: int) -> Seq<Seq<char>> {
    seq![
        label,
        comma_text(commits as nat),
        comma_text(additions as nat),
        comma_text(deletions as nat),
        signed_comma_text(net),
        comma_text(files as nat),
    ]
}

/// The rows of the report: one per bucket, then the totals labelled `TOTAL`.
pub open spec fn table_rows(result: AnalysisResult) -> Seq<Seq<Seq<char>>> {
    Seq::new(
        result.stats@.len(),
        |k: int|
            row_text(
                result.stats@[k].label@,
                result.stats@[k].commits as int,
                result.stats@[k].additions as int,
                result.stats@[k].deletions as int,
                result.stats@[k].net_lines as int,
                result.stats@[k].files_changed as int,
            ),
    ).push(
        row_text(
            "TOTAL"@,
            result.total.commits as int,
            result.total.additions as int,
            result.total.deletions as int,
            result.total.net_lines as int,
            result.total.files_changed as int,
        ),
    )
}

/// One report row.
fn make_row(label: String, commits: u32, additions: u64, deletions: u64, net: i64, files: u32) -> (r: Vec<String>)
    ensures
        r.deep_view() == row_text(label@, commits as int, additions as int, deletions as int, net as int, files as int),
{
    let mut row: Vec<String> = Vec::new();
    row.push(label);
    row.push(format_with_commas_u64(commits as u64));
    row.push(format_with_commas_u64(additions));
    row.push(format_with_commas_u64(deletions));
    row.push(format_with_commas_i64(net));
    row.push(format_with_commas_u64(files as u64));
    proof {
        assert(row.deep_view() =~= row_text(label@, commits as int, additions as int, deletions as int, net as int, files as int));
    }
    row
}

/// The table report's formatter.
#[derive(Clone, Copy, Debug)]
pub struct TableFormatter;

impl TableFormatter {
    /// Create a new table formatter.
    pub fn new() -> (r: Self) {
        TableFormatter
    }

    /// The analysis drawn as a table: a row per bucket and a `TOTAL` row,
    /// numbers with thousands separators.
    pub fn format(&self, result: &AnalysisResult) -> (r: Result<String, Error>)
        ensures
            r matches Ok(t) && t@ == table_text(table_header(), table_rows(*result)),
    {
        let mut header: Vec<String> = Vec::new();
        header.push(String::from_str("Period"));
        header.push(String::from_str("Commits"));
        header.push(String::from_str("+Lines"));
        header.push(String::from_str("-Lines"));
        header.push(String::from_str("Net"));
        header.push(String::from_str("Files"));
        proof {
            assert(header.deep_view() =~= table_header());
        }
        let mut rows: Vec<Vec<String>> = Vec::new();
        let mut i: usize = 0;
        while i < result.stats.len()
            invariant
                0 <= i <= result.stats@.len(),
                rows@.len() == i,
                rows.deep_view() =~= table_rows(*result).take(i as int),
            decreases result.stats@.len() - i,
        {
            let s = &result.stats[i];
            let row = make_row(s.label.clone(), s.commits, s.additions, s.deletions, s.net_lines, s.files_changed);
            let ghost before = rows@;
            rows.push(row);
            proof {
                assert(rows@ == before.push(row));
                assert forall|k: int| 0 <= k < i + 1 implies #[trigger] rows.deep_view()[k] == table_rows(*result).take(
                    i as int + 1,
                )[k] by {
                    if k < i {
                        assert(rows@[k] == before[k]);
                    } else {
                        assert(rows@[k] == row);
                    }
                }
                assert(rows.deep_view() =~= table_rows(*result).take(i as int + 1));
            }
            i = i + 1;
        }
        let t = &result.total;
        let last = make_row(String::from_str("TOTAL"), t.commits, t.additions, t.deletions, t.net_lines, t.files_changed);
        let ghost before = rows@;
        rows.push(last);
        proof {
            assert(rows@ == before.push(last));
            let n = result.stats@.len() as int;
            assert forall|k: int| 0 <= k < n + 1 implies #[trigger] rows.deep_view()[k] == table_rows(*result)[k] by {
                if k < n {
                    assert(rows@[k] == before[k]);
                    assert(table_rows(*result).take(n)[k] == table_rows(*result)[k]);
                } else {
                    assert(rows@[k] == last);
                }
            }
            assert(rows.deep_view() =~= table_rows(*result));
        }
        Ok(render_table(header, rows))
    }
}

impl Default for TableFormatter {
    /// Same as `new`.
    fn default() -> (r: Self) {
        TableFormatter
    }
}

} // verus!
