//! Layout helpers of the dashboard's charts.

use vstd::prelude::*;
use crate::text::nat_text;

verus! {

/// Bar width in characters.
pub const BAR_WIDTH: u16 = 3;

/// Gap between bars in characters.
pub const BAR_GAP: u16 = 1;

/// Border width (left + right).
pub const BORDER_WIDTH: u16 = 2;

/// The last `max_chars` characters of `label`, or all of it when it is no longer.
pub fn truncate_tail(label: &str, max_chars: usize) -> (r: String)
    ensures
        r@ == if label@.len() <= max_chars {
            label@
        } else {
            label@.subrange(label@.len() - max_chars, label@.len() as int)
        },
{
    let count = label.unicode_len();
    if count <= max_chars {
        return String::from_str(label);
    }
    String::from_str(label.substring_char(count - max_chars, count))
}

/// Minimum width of a vertical bar chart with `bar_count` bars: the bars and
/// the gaps between them, plus the border.
pub fn chart_width(bar_count: u16) -> (r: u16)
    requires
        bar_count <= 16383,
    ensures
        r == if bar_count == 0 {
            BORDER_WIDTH as int
        } else {
            (BAR_WIDTH + BAR_GAP) * bar_count - BAR_GAP + BORDER_WIDTH
        },
{
    if bar_count == 0 {
        return BORDER_WIDTH;
    }
    (BAR_WIDTH + BAR_GAP) * bar_count - BAR_GAP + BORDER_WIDTH
}

/// The label of an hour of the day, `"0"` to `"23"`; empty past the day.
pub fn hour_label(hour: usize) -> (r: &'static str)
    ensures
        hour < 24 ==> r@ == nat_text(hour as nat),
        hour >= 24 ==> r@.len() == 0,
{
    proof {
        reveal_strlit("0");
        reveal_strlit("1");
        reveal_strlit("2");
        reveal_strlit("3");
        reveal_strlit("4");
        reveal_strlit("5");
        reveal_strlit("6");
        reveal_strlit("7");
        reveal_strlit("8");
        reveal_strlit("9");
        reveal_strlit("10");
        reveal_strlit("11");
        reveal_strlit("12");
        reveal_strlit("13");
        reveal_strlit("14");
        reveal_strlit("15");
        reveal_strlit("16");
        reveal_strlit("17");
        reveal_strlit("18");
        reveal_strlit("19");
        reveal_strlit("20");
        reveal_strlit("21");
        reveal_strlit("22");
        reveal_strlit("23");
        reveal_strlit("");
        reveal_with_fuel(nat_text, 2);
    }
    match hour {
        0 => "0",
        1 => "1",
        2 => "2",
        3 => "3",
        4 => "4",
        5 => "5",
        6 => "6",
        7 => "7",
        8 => "8",
        9 => "9",
        10 => "10",
        11 => "11",
        12 => "12",
        13 => "13",
        14 => "14",
        15 => "15",
        16 => "16",
        17 => "17",
        18 => "18",
        19 => "19",
        20 => "20",
        21 => "21",
        22 => "22",
        23 => "23",
        _ => "",
    }
}

/// The caption of a date range, `from → to`.
pub fn format_date_range(from: &str, to: &str) -> (r: String)
    ensures
        r@ == from@ + " → "@ + to@,
{
    let mut s = String::from_str(from);
    s.append(" → ");
    s.append(to);
    s
}

/// Data point for the horizontal bar chart.
#[derive(Debug)]
pub struct BarDataPoint {
    pub label: String,
    pub value: u32,
}

impl BarDataPoint {
    /// A bar with this label and value.
    pub fn new(label: impl Into<String>, value: u32) -> (r: Self)
        ensures
            r.value == value,
    {
        BarDataPoint { label: label.into(), value }
    }
}

/// The rows `[start, end)` of `total` rows that a chart of `rows` lines
/// shows when scrolled `scroll_offset` rows back from the latest: the
/// offset is capped at the oldest row.
pub fn visible_window(total: usize, scroll_offset: usize, rows: usize) -> (r: (usize, usize))
    ensures
        ({
            let off = if total == 0 {
                0
            } else if scroll_offset <= total - 1 {
                scroll_offset as int
            } else {
                total - 1
            };
            &&& r.1 == total - off
            &&& r.0 == if r.1 >= rows { r.1 - rows } else { 0 }
        }),
{
    let max_offset = if total == 0 { 0 } else { total - 1 };
    let off = if scroll_offset <= max_offset { scroll_offset } else { max_offset };
    let end = total - off;
    let start = if end >= rows { end - rows } else { 0 };
    (start, end)
}

} // verus!
