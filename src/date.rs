//! Calendar dates as day numbers, instants as Unix seconds, day counts and
//! inclusive date ranges.

use vstd::prelude::*;
use chrono::Datelike;

verus! {

/// Day number of chrono's earliest date (year -262143, January 1); day 1 is 0001-01-01.
pub const MIN_DAY: i32 = -95746129;

/// Day number of chrono's latest date (year 262142, December 31).
pub const MAX_DAY: i32 = 95745399;

/// Day number of 1970-01-01.
pub const EPOCH_DAY: i32 = 719163;

/// Seconds in a day.
pub const SECS_PER_DAY: i64 = 86400;

/// Earliest supported instant: a day after chrono's earliest date begins.
pub const MIN_SECS: i64 = -8334601142400;

/// Latest supported instant: the last second before chrono's latest date begins.
pub const MAX_SECS: i64 = 8210266790399;

/// The day number of the date `year-month-day`, as chrono's
/// `NaiveDate::from_ymd_opt` and `num_days_from_ce` give it.
pub uninterp spec fn ymd_day(year: int, month: int, day: int) -> Option<int>;

/// The calendar year of a day number, as chrono's `Datelike::year` gives it.
pub uninterp spec fn year_of(day: int) -> int;

/// The month (1 to 12) of a day number, as chrono's `Datelike::month` gives it.
pub uninterp spec fn month_of(day: int) -> int;

/// The ISO week-year and week number of a day number, as chrono's
/// `Datelike::iso_week` gives them.
pub uninterp spec fn iso_week_of(day: int) -> (int, int);

/// The `%Y-%m-%d` text of a day number, as chrono's `NaiveDate::format` gives it.
pub uninterp spec fn date_text(day: int) -> Seq<char>;

/// Relies on chrono's `NaiveDate::from_ymd_opt` (then `num_days_from_ce`):
/// `None` for a month or day that does not exist or a year out of chrono's
/// range, else a day number within that range.
#[verifier::external_body]
fn ymd_to_day(year: i32, month: u32, day: u32) -> (r: Option<i32>)
    ensures
        r matches Some(n) ==> MIN_DAY <= n <= MAX_DAY,
        r matches Some(n) ==> ymd_day(year as int, month as int, day as int) == Some(n as int),
        r is None ==> ymd_day(year as int, month as int, day as int) is None,
        r is Some ==> 1 <= month <= 12 && 1 <= day <= 31,
{
    chrono::NaiveDate::from_ymd_opt(year, month, day).map(|d| d.num_days_from_ce())
}

/// Relies on chrono's `Datelike::year` of the date with this day number.
#[verifier::external_body]
fn day_year(day: i32) -> (r: i32)
    requires
        MIN_DAY <= day <= MAX_DAY,
    ensures
        r == year_of(day as int),
{
    chrono::NaiveDate::from_num_days_from_ce_opt(day).expect("day number within chrono's range").year()
}

/// Relies on chrono's `Datelike::month` of the date with this day number:
/// a month from 1 to 12.
#[verifier::external_body]
fn day_month(day: i32) -> (r: u32)
    requires
        MIN_DAY <= day <= MAX_DAY,
    ensures
        r == month_of(day as int),
        1 <= r <= 12,
{
    chrono::NaiveDate::from_num_days_from_ce_opt(day).expect("day number within chrono's range").month()
}

/// Relies on chrono's `Datelike::iso_week` of the date with this day number:
/// the ISO week-year and a week from 1 to 53.
#[verifier::external_body]
fn day_iso_week(day: i32) -> (r: (i32, u32))
    requires
        MIN_DAY <= day <= MAX_DAY,
    ensures
        (r.0 as int, r.1 as int) == iso_week_of(day as int),
        1 <= r.1 <= 53,
{
    let w = chrono::NaiveDate::from_num_days_from_ce_opt(day).expect("day number within chrono's range").iso_week();
    (w.year(), w.week())
}

/// Relies on chrono's `NaiveDate::format("%Y-%m-%d")` of the date with this day number.
#[verifier::external_body]
fn day_text(day: i32) -> (r: String)
    requires
        MIN_DAY <= day <= MAX_DAY,
    ensures
        r@ == date_text(day as int),
{
    chrono::NaiveDate::from_num_days_from_ce_opt(day).expect("day number within chrono's range").format("%Y-%m-%d").to_string()
}

/// A calendar date, as its day number in the proleptic Gregorian calendar
/// (0001-01-01 is day 1).
#[derive(Clone, Copy, Debug, PartialEq, Eq, Structural, Hash, PartialOrd, Ord)]
pub struct Date {
    /// Day number
    pub day: i32,
}

impl Date {
    /// The day number lies within chrono's range of dates.
    pub open spec fn wf(&self) -> bool {
        MIN_DAY <= self.day <= MAX_DAY
    }

    /// The date `year-month-day`, or `None` if there is no such date in range.
    pub fn from_ymd(year: i32, month: u32, day: u32) -> (r: Option<Date>)
        ensures
            r matches Some(d) ==> d.wf() && ymd_day(year as int, month as int, day as int) == Some(
                d.day as int,
            ),
            r is None ==> ymd_day(year as int, month as int, day as int) is None,
    {
        match ymd_to_day(year, month, day) {
            Some(n) => Some(Date { day: n }),
            None => None,
        }
    }

    /// The date with the given day number, or `None` if it is out of range.
    pub fn from_day_number(day: i32) -> (r: Option<Date>)
        ensures
            r matches Some(d) ==> d.day == day,
            r is Some <==> MIN_DAY <= day <= MAX_DAY,
    {
        if MIN_DAY <= day && day <= MAX_DAY {
            Some(Date { day })
        } else {
            None
        }
    }

    /// Calendar year.
    pub fn year(&self) -> (r: i32)
        requires
            self.wf(),
        ensures
            r == year_of(self.day as int),
    {
        day_year(self.day)
    }

    /// Month, 1 to 12.
    pub fn month(&self) -> (r: u32)
        requires
            self.wf(),
        ensures
            r == month_of(self.day as int),
            1 <= r <= 12,
    {
        day_month(self.day)
    }

    /// ISO week-year and week number (1 to 53).
    pub fn iso_week(&self) -> (r: (i32, u32))
        requires
            self.wf(),
        ensures
            (r.0 as int, r.1 as int) == iso_week_of(self.day as int),
            1 <= r.1 <= 53,
    {
        day_iso_week(self.day)
    }

    /// The date as `YYYY-MM-DD`.
    pub fn format_ymd(&self) -> (r: String)
        requires
            self.wf(),
        ensures
            r@ == date_text(self.day as int),
    {
        day_text(self.day)
    }

    /// Weekday counted from Monday (0) to Sunday (6).
    pub fn weekday_from_monday(&self) -> (r: u32)
        ensures
            r == weekday_index(self.day as int),
            r < 7,
    {
        let v: i64 = (self.day as i64 - 1) % 7;
        let w: i64 = if v < 0 { v + 7 } else { v };
        w as u32
    }
}

/// Weekday of a day number counted from Monday (0); day 1 was a Monday.
pub open spec fn weekday_index(day: int) -> int {
    (day - 1) % 7
}

/// Day number that an instant falls on, seen at a UTC offset of `offset` seconds.
pub open spec fn local_day(secs: int, offset: int) -> int {
    (secs + offset) / (SECS_PER_DAY as int) + EPOCH_DAY
}

/// Hour of day (0 to 23) of an instant, seen at a UTC offset of `offset` seconds.
pub open spec fn local_hour(secs: int, offset: int) -> int {
    ((secs + offset) % (SECS_PER_DAY as int)) / 3600
}

/// An absolute instant, as whole seconds since 1970-01-01T00:00:00Z.
#[derive(Clone, Copy, Debug, PartialEq, Eq, Structural, Hash)]
pub struct Timestamp {
    /// Seconds since the Unix epoch
    pub secs: i64,
}

impl Timestamp {
    /// The instant is far enough inside chrono's range that its date at any
    /// UTC offset is a valid `Date`.
    pub open spec fn wf(&self) -> bool {
        MIN_SECS <= self.secs <= MAX_SECS
    }

    /// The instant with these seconds since the epoch, or `None` if it is out of range.
    pub fn from_secs(secs: i64) -> (r: Option<Timestamp>)
        ensures
            r matches Some(t) ==> t.secs == secs,
            r is Some <==> MIN_SECS <= secs <= MAX_SECS,
    {
        if MIN_SECS <= secs && secs <= MAX_SECS {
            Some(Timestamp { secs })
        } else {
            None
        }
    }

    /// The instant at `hour:minute:second` UTC on `date`, or `None` if a
    /// field is out of bounds or the instant is out of range.
    pub fn from_date_hms(date: Date, hour: u32, minute: u32, second: u32) -> (r: Option<Timestamp>)
        requires
            date.wf(),
        ensures
            r matches Some(t) ==> t.wf() && t.secs == (date.day - EPOCH_DAY) * SECS_PER_DAY + hour
                * 3600 + minute * 60 + second,
            r is Some <==> hour < 24 && minute < 60 && second < 60 && MIN_SECS <= (date.day
                - EPOCH_DAY) * SECS_PER_DAY + hour * 3600 + minute * 60 + second <= MAX_SECS,
    {
        if hour >= 24 || minute >= 60 || second >= 60 {
            return None;
        }
        let secs: i64 = (date.day as i64 - EPOCH_DAY as i64) * SECS_PER_DAY + hour as i64 * 3600
            + minute as i64 * 60 + second as i64;
        Timestamp::from_secs(secs)
    }

    /// The date on which this instant falls at a UTC offset of `offset` seconds.
    pub fn local_date(&self, offset: i32) -> (r: Date)
        requires
            self.wf(),
            -86400 < offset < 86400,
        ensures
            r.wf(),
            r.day == local_day(self.secs as int, offset as int),
    {
        let (q, _rem) = split_day(self.secs + offset as i64);
        proof {
            lemma_day_bounds(self.secs + offset, q as int);
        }
        Date { day: (q + EPOCH_DAY as i64) as i32 }
    }

    /// The hour of day (0 to 23) of this instant at a UTC offset of `offset` seconds.
    pub fn local_hour(&self, offset: i32) -> (r: u32)
        requires
            self.wf(),
            -86400 < offset < 86400,
        ensures
            r == local_hour(self.secs as int, offset as int),
            r < 24,
    {
        let (_q, rem) = split_day(self.secs + offset as i64);
        (rem / 3600) as u32
    }
}

/// Whole days and the second within the day of an instant near the supported range.
fn split_day(s: i64) -> (r: (i64, i64))
    requires
        MIN_SECS - SECS_PER_DAY < s < MAX_SECS + SECS_PER_DAY,
    ensures
        r.0 == s as int / (SECS_PER_DAY as int),
        r.1 == s as int % (SECS_PER_DAY as int),
        0 <= r.1 < SECS_PER_DAY,
{
    let shift: i64 = 100000000;
    let t: i64 = s + shift * SECS_PER_DAY;
    let q: i64 = t / SECS_PER_DAY;
    let rem: i64 = t % SECS_PER_DAY;
    proof {
        assert(t == q * 86400 + rem);
        assert(s == (q - shift) * 86400 + rem) by (nonlinear_arith)
            requires
                t == q * 86400 + rem,
                t == s + shift * 86400,
        ;
        vstd::arithmetic::div_mod::lemma_fundamental_div_mod_converse(
            s as int,
            86400,
            (q - shift) as int,
            rem as int,
        );
    }
    (q - shift, rem)
}

/// The day of an instant within one day of the supported range is a valid date.
proof fn lemma_day_bounds(s: int, q: int)
    requires
        MIN_SECS - SECS_PER_DAY < s < MAX_SECS + SECS_PER_DAY,
        q == s / 86400,
    ensures
        MIN_DAY <= q + EPOCH_DAY <= MAX_DAY,
{
    let rem = s % 86400;
    vstd::arithmetic::div_mod::lemma_fundamental_div_mod(s, 86400);
    vstd::arithmetic::div_mod::lemma_mod_bound(s, 86400);
    assert(s == 86400 * q + rem);
    assert(0 <= rem < 86400);
    assert(s > -8334601228800);
    assert(s < 8210266876799);
    assert(q >= -96465292) by (nonlinear_arith)
        requires
            s == 86400 * q + rem,
            rem < 86400,
            s > -8334601228800,
    ;
    assert(q <= 95026236) by (nonlinear_arith)
        requires
            s == 86400 * q + rem,
            0 <= rem,
            s < 8210266876799,
    ;
}

/// A non-negative count of days.
#[derive(Clone, Copy, Debug, PartialEq, Eq, Structural)]
pub struct Days(pub u32);

impl Days {
    /// Create a new `Days` value.
    pub fn new(days: u32) -> (r: Self)
        ensures
            r.0 == days,
    {
        Days(days)
    }

    /// The inner count.
    pub fn value(self) -> (r: u32)
        ensures
            r == self.0,
    {
        self.0
    }
}

impl From<u32> for Days {
    fn from(days: u32) -> (r: Self)
        ensures
            r.0 == days,
    {
        Days(days)
    }
}

impl vstd::std_specs::convert::FromSpecImpl<u32> for Days {
    open spec fn obeys_from_spec() -> bool {
        true
    }

    open spec fn from_spec(v: u32) -> Self {
        Days(v)
    }
}

/// An inclusive range of dates, `from` through `to`; empty when `from` is after `to`.
#[derive(Clone, Copy, Debug, PartialEq, Eq, Structural)]
pub struct DateRange {
    /// Start date (inclusive)
    pub from: Date,
    /// End date (inclusive)
    pub to: Date,
}

impl DateRange {
    /// Both ends are valid dates.
    pub open spec fn wf(&self) -> bool {
        self.from.wf() && self.to.wf()
    }

    /// Number of calendar days in the range: none when it is inverted.
    pub open spec fn day_count(&self) -> int {
        if self.from.day <= self.to.day {
            self.to.day - self.from.day + 1
        } else {
            0
        }
    }

    /// The range that ends on `today` and starts `days` days earlier, so that
    /// it spans `days + 1` calendar days.
    pub fn last_n_days(days: Days, today: Date) -> (r: Self)
        requires
            today.wf(),
            today.day - days.0 >= MIN_DAY,
        ensures
            r.to == today,
            r.from.day == today.day - days.0,
            r.wf(),
            r.day_count() == days.0 + 1,
    {
        DateRange { from: Date { day: today.day - days.0 as i32 }, to: today }
    }

    /// Create a date range from explicit dates.
    pub fn new(from: Date, to: Date) -> (r: Self)
        ensures
            r.from == from,
            r.to == to,
    {
        DateRange { from, to }
    }

    /// Whether `date` lies in the closed interval `[from, to]`.
    pub fn contains(&self, date: Date) -> (r: bool)
        ensures
            r == (self.from.day <= date.day && date.day <= self.to.day),
    {
        date.day >= self.from.day && date.day <= self.to.day
    }

    /// Every date of the range, one per calendar day, in ascending order;
    /// none when the range is inverted.
    pub fn iter_days(&self) -> (r: Vec<Date>)
        ensures
            r@.len() == self.day_count(),
            forall|k: int| 0 <= k < r@.len() ==> #[trigger] r@[k].day == self.from.day + k,
            forall|a: int, b: int| 0 <= a < b < r@.len() ==> #[trigger] r@[a].day < #[trigger] r@[b].day,
    {
        let mut out: Vec<Date> = Vec::new();
        if self.from.day > self.to.day {
            return out;
        }
        let mut d: i32 = self.from.day;
        loop
            invariant
                self.from.day <= d <= self.to.day,
                out@.len() == d - self.from.day,
                forall|k: int| 0 <= k < out@.len() ==> #[trigger] out@[k].day == self.from.day + k,
            decreases self.to.day - d,
        {
            out.push(Date { day: d });
            if d == self.to.day {
                return out;
            }
            d = d + 1;
        }
    }
}

} // verus!
