//! Which clock dates are read on: the host's zone, UTC, or a named IANA zone.

use vstd::prelude::*;
use chrono::{Offset, TimeZone};
use crate::date::{Date, Timestamp, local_day, local_hour, weekday_index, MIN_SECS, MAX_SECS};

verus! {

/// Whether chrono-tz knows an IANA zone by exactly this name.
pub uninterp spec fn zone_known(name: Seq<char>) -> bool;

/// Whether `c` has Unicode's White_Space property, which `char::is_whitespace`
/// tests.
pub open spec fn is_white_space(c: char) -> bool {
    let u = c as u32;
    (0x9 <= u && u <= 0xd) || u == 0x20 || u == 0x85 || u == 0xa0 || u == 0x1680 || (0x2000 <= u && u
        <= 0x200a) || u == 0x2028 || u == 0x2029 || u == 0x202f || u == 0x205f || u == 0x3000
}

/// The text without its leading White_Space characters.
pub open spec fn trim_start_text(s: Seq<char>) -> Seq<char>
    decreases s.len(),
{
    if s.len() > 0 && is_white_space(s[0]) {
        trim_start_text(s.drop_first())
    } else {
        s
    }
}

/// The text without its trailing White_Space characters.
pub open spec fn trim_end_text(s: Seq<char>) -> Seq<char>
    decreases s.len(),
{
    if s.len() > 0 && is_white_space(s.last()) {
        trim_end_text(s.drop_last())
    } else {
        s
    }
}

/// The text without leading and trailing White_Space characters.
pub open spec fn trim_text(s: Seq<char>) -> Seq<char> {
    trim_end_text(trim_start_text(s))
}

/// Relies on `str::trim`: the text without leading and trailing characters
/// of Unicode's White_Space property.
#[verifier::external_body]
fn trimmed(s: &str) -> (r: &str)
    ensures
        r@ == trim_text(s@),
{
    s.trim()
}

/// Relies on chrono-tz's `FromStr for Tz`: whether a zone has exactly that name.
#[verifier::external_body]
fn is_zone_name(name: &str) -> (r: bool)
    ensures
        r == zone_known(name@),
{
    name.parse::<chrono_tz::Tz>().is_ok()
}

/// The UTC offset, in seconds east, that chrono-tz gives the IANA zone of
/// this name at this instant.
pub uninterp spec fn tz_offset(zone: Seq<char>, secs: int) -> int;

/// Relies on chrono-tz's `TimeZone::offset_from_utc_datetime` for the zone of
/// this name (then `Offset::fix` and `FixedOffset::local_minus_utc`): the UTC
/// offset in effect at that instant, which a `FixedOffset` keeps within a day.
#[verifier::external_body]
fn named_offset(name: &str, secs: i64) -> (r: i32)
    requires
        zone_known(name@),
        MIN_SECS <= secs <= MAX_SECS,
    ensures
        r == tz_offset(name@, secs as int),
        -86400 < r < 86400,
{
    let tz: chrono_tz::Tz = name.parse().expect("a known zone name");
    let utc = chrono::DateTime::from_timestamp(secs, 0).expect("instant within chrono's range");
    tz.offset_from_utc_datetime(&utc.naive_utc()).fix().local_minus_utc()
}

/// Relies on chrono's `TimeZone::offset_from_utc_datetime` for `Local` (then
/// `FixedOffset::local_minus_utc`): the host zone's UTC offset at that
/// instant, within a day.
#[verifier::external_body]
fn host_offset(secs: i64) -> (r: i32)
    requires
        MIN_SECS <= secs <= MAX_SECS,
    ensures
        -86400 < r < 86400,
{
    let utc = chrono::DateTime::from_timestamp(secs, 0).expect("instant within chrono's range");
    chrono::Local.offset_from_utc_datetime(&utc.naive_utc()).local_minus_utc()
}

#[verifier::external_type_specification]
#[verifier::external_body]
pub struct ExSystemTime(std::time::SystemTime);

/// Relies on `std::time::SystemTime::now`: the host clock's reading, of
/// which nothing is known.
#[verifier::external_body]
fn clock_now() -> (r: std::time::SystemTime) {
    std::time::SystemTime::now()
}

/// Relies on `std::time::SystemTime::duration_since(UNIX_EPOCH)` (then
/// `Duration::as_secs`, on the duration or on the error's): whole seconds
/// after 1970 as `Ok`, or whole seconds before 1970 as `Err`.
#[verifier::external_body]
fn epoch_distance(t: &std::time::SystemTime) -> (r: Result<u64, u64>) {
    match t.duration_since(std::time::UNIX_EPOCH) {
        Ok(d) => Ok(d.as_secs()),
        Err(e) => Err(e.duration().as_secs()),
    }
}

/// ASCII lower case of a character; other characters are kept.
pub open spec fn ascii_lower(c: char) -> char {
    if 'A' <= c && c <= 'Z' {
        ((c as u32) + 32) as char
    } else {
        c
    }
}

/// Equality of two texts up to ASCII case.
pub open spec fn eq_ignoring_ascii_case(a: Seq<char>, b: Seq<char>) -> bool {
    a.len() == b.len() && forall|i: int| 0 <= i < a.len() ==> ascii_lower(#[trigger] a[i]) == ascii_lower(b[i])
}

/// Whether `s` equals `word` up to ASCII case.
fn same_ignoring_ascii_case(s: &str, word: &str) -> (r: bool)
    ensures
        r == eq_ignoring_ascii_case(s@, word@),
{
    let n = s.unicode_len();
    if n != word.unicode_len() {
        return false;
    }
    let mut i: usize = 0;
    while i < n
        invariant
            n == s@.len(),
            n == word@.len(),
            0 <= i <= n,
            forall|k: int| 0 <= k < i ==> ascii_lower(#[trigger] s@[k]) == ascii_lower(word@[k]),
        decreases n - i,
    {
        let a = s.get_char(i);
        let b = word.get_char(i);
        let la = if 'A' <= a && a <= 'Z' { ((a as u32) + 32) as u8 as char } else { a };
        let lb = if 'A' <= b && b <= 'Z' { ((b as u32) + 32) as u8 as char } else { b };
        if la != lb {
            return false;
        }
        i = i + 1;
    }
    true
}

/// The message of a rejected zone name: it names the value and the three
/// accepted forms.
pub open spec fn invalid_zone_message(input: Seq<char>) -> Seq<char> {
    "invalid timezone: "@ + input + ". Use local, utc, or an IANA name like Asia/Tokyo"@
}

/// The clock on which instants are read as dates and times.
#[derive(Debug)]
pub enum TimeZoneMode {
    /// The host's configured zone
    Local,
    /// Coordinated Universal Time
    Utc,
    /// A named IANA zone
    Named(NamedZone),
}

/// An IANA time zone that chrono-tz knows, by its name.
#[derive(Debug)]
pub struct NamedZone {
    name: String,
}

impl NamedZone {
    /// chrono-tz knows the zone by this name.
    #[verifier::type_invariant]
    spec fn known(self) -> bool {
        zone_known(self.name@)
    }

    /// The zone's IANA name.
    pub fn name(&self) -> (r: &str)
        ensures
            r@ == self@,
            zone_known(r@),
    {
        proof {
            use_type_invariant(self);
        }
        self.name.as_str()
    }
}

impl View for NamedZone {
    type V = Seq<char>;

    closed spec fn view(&self) -> Seq<char> {
        self.name@
    }
}

/// An instant together with the UTC offset in effect there, in seconds east of UTC.
#[derive(Clone, Copy, Debug, PartialEq, Eq, Structural)]
pub struct ZonedTime {
    /// The instant
    pub instant: Timestamp,
    /// Seconds to add to UTC to get the wall-clock time
    pub offset: i32,
}

impl ZonedTime {
    /// The offset is within a day and the instant in range.
    pub open spec fn wf(&self) -> bool {
        self.instant.wf() && -86400 < self.offset < 86400
    }

    /// Seconds to add to UTC to get the wall-clock time.
    pub fn local_minus_utc(&self) -> (r: i32)
        ensures
            r == self.offset,
    {
        self.offset
    }

    /// The wall-clock date.
    pub fn date(&self) -> (r: Date)
        requires
            self.wf(),
        ensures
            r.wf(),
            r.day == local_day(self.instant.secs as int, self.offset as int),
    {
        self.instant.local_date(self.offset)
    }

    /// The wall-clock hour, 0 to 23.
    pub fn hour(&self) -> (r: u32)
        requires
            self.wf(),
        ensures
            r == local_hour(self.instant.secs as int, self.offset as int),
            r < 24,
    {
        self.instant.local_hour(self.offset)
    }

    /// The wall-clock weekday, Monday 0 to Sunday 6.
    pub fn weekday_from_monday(&self) -> (r: u32)
        requires
            self.wf(),
        ensures
            r == weekday_index(local_day(self.instant.secs as int, self.offset as int)),
            r < 7,
    {
        self.date().weekday_from_monday()
    }
}

impl TimeZoneMode {
    /// Read `local` or `utc` (in any ASCII case), else an IANA zone name, after
    /// trimming whitespace. A name that is not known gives an error message
    /// that names the input.
    pub fn parse(input: &str) -> (r: Result<Self, String>)
        ensures
            eq_ignoring_ascii_case(trim_text(input@), "local"@) ==> r matches Ok(TimeZoneMode::Local),
            !eq_ignoring_ascii_case(trim_text(input@), "local"@) && eq_ignoring_ascii_case(
                trim_text(input@),
                "utc"@,
            ) ==> r matches Ok(TimeZoneMode::Utc),
            !eq_ignoring_ascii_case(trim_text(input@), "local"@) && !eq_ignoring_ascii_case(
                trim_text(input@),
                "utc"@,
            ) ==> (zone_known(trim_text(input@)) <==> r matches Ok(TimeZoneMode::Named(_))),
            r matches Ok(TimeZoneMode::Named(z)) ==> z@ == trim_text(input@),
            r is Err <==> (!eq_ignoring_ascii_case(trim_text(input@), "local"@) && !eq_ignoring_ascii_case(
                trim_text(input@),
                "utc"@,
            ) && !zone_known(trim_text(input@))),
            r matches Err(msg) ==> msg@ == invalid_zone_message(input@),
    {
        let normalized = trimmed(input);
        if same_ignoring_ascii_case(normalized, "local") {
            return Ok(TimeZoneMode::Local);
        }
        if same_ignoring_ascii_case(normalized, "utc") {
            return Ok(TimeZoneMode::Utc);
        }
        if is_zone_name(normalized) {
            Ok(TimeZoneMode::Named(NamedZone { name: String::from_str(normalized) }))
        } else {
            let mut msg = String::from_str("invalid timezone: ");
            msg.append(input);
            msg.append(". Use local, utc, or an IANA name like Asia/Tokyo");
            Err(msg)
        }
    }

    /// The UTC offset in effect at `t` on this clock: zero for UTC, the named
    /// zone's own offset there, and within a day for the host's zone.
    pub fn offset_at(&self, t: Timestamp) -> (r: i32)
        requires
            t.wf(),
        ensures
            clock_offset_ok(*self, t.secs as int, r as int),
    {
        match self {
            TimeZoneMode::Local => host_offset(t.secs),
            TimeZoneMode::Utc => 0,
            TimeZoneMode::Named(zone) => named_offset(zone.name(), t.secs),
        }
    }

    /// The instant `t` with the offset in effect there on this clock.
    pub fn datetime(&self, t: Timestamp) -> (r: ZonedTime)
        requires
            t.wf(),
        ensures
            r.wf(),
            r.instant == t,
            clock_offset_ok(*self, t.secs as int, r.offset as int),
    {
        ZonedTime { instant: t, offset: self.offset_at(t) }
    }

    /// The date on which `t` falls on this clock.
    pub fn date_naive(&self, t: Timestamp) -> (r: Date)
        requires
            t.wf(),
        ensures
            r.wf(),
            exists|off: int| clock_offset_ok(*self, t.secs as int, off) && r.day == local_day(t.secs as int, off),
            !(self is Local) ==> r.day == local_day(t.secs as int, clock_offset(*self, t.secs as int)),
    {
        let off = self.offset_at(t);
        t.local_date(off)
    }

    /// Today's date on this clock: the date of the host clock's reading, in
    /// whole seconds rounded toward 1970; `None` if that reading lies out of
    /// the supported range.
    pub fn now_date_naive(&self) -> (r: Option<Date>)
        ensures
            r matches Some(d) ==> d.wf() && exists|secs: int, off: int|
                MIN_SECS <= secs <= MAX_SECS && clock_offset_ok(*self, secs, off) && d.day == local_day(secs, off),
    {
        let now = clock_now();
        let secs: i64 = match epoch_distance(&now) {
            Ok(after) => {
                if after > MAX_SECS as u64 {
                    return None;
                }
                after as i64
            },
            Err(before) => {
                if before > 9223372036854775807u64 {
                    return None;
                }
                -(before as i64)
            },
        };
        match Timestamp::from_secs(secs) {
            Some(t) => Some(self.date_naive(t)),
            None => None,
        }
    }
}

/// The offset a clock whose offsets are known has at `secs`: zero on UTC,
/// the named zone's own offset on a named clock.
pub open spec fn clock_offset(clock: TimeZoneMode, secs: int) -> int {
    match clock {
        TimeZoneMode::Named(z) => tz_offset(z@, secs),
        _ => 0,
    }
}

/// Whether `off` is the offset that `clock` has at `secs`: within a day in
/// any case, and `clock_offset` on UTC and on a named clock (the host's
/// zone being known only to the host).
pub open spec fn clock_offset_ok(clock: TimeZoneMode, secs: int, off: int) -> bool {
    &&& -86400 < off < 86400
    &&& !(clock is Local) ==> off == clock_offset(clock, secs)
}

} // verus!
