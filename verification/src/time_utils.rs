//! Calendar and clock arithmetic: proleptic Gregorian day numbers counted
//! from 1970-01-01, the `"DD.MM.YYYY"` date keys of the prayer-time table,
//! `"HH:MM"` clock times, and Europe/Amsterdam local time (CET/CEST under the
//! EU daylight-saving rule), all without the C library.

use vstd::prelude::*;
use vstd::string::*;

use crate::language::{WEEKDAY_NAMES_TR};
use crate::unicode::{decimal, push_char, push_decimal, push_two_digits, two_digits};

verus! {

/// Seconds in one day.
pub const SECS_PER_DAY: i64 = 86400;

/// Largest year the calendar functions accept.
pub const MAX_YEAR: i32 = 1_000_000;

/// Gregorian leap year: divisible by 4, except centuries not divisible by
/// 400.
pub open spec fn leap(y: int) -> bool {
    (y % 4 == 0 && y % 100 != 0) || y % 400 == 0
}

/// The number of leap years among the years `1..=n` (for `n >= 0`).
pub open spec fn leaps_through(n: int) -> int {
    n / 4 - n / 100 + n / 400
}

/// The day number (days since 1970-01-01) of January 1st of year `y`.
pub open spec fn year_start(y: int) -> int {
    365 * (y - 1970) + leaps_through(y - 1) - leaps_through(1969)
}

/// The number of days of month `m` of year `y`.
pub open spec fn month_len(y: int, m: int) -> int {
    if m == 2 {
        if leap(y) { 29 } else { 28 }
    } else if m == 4 || m == 6 || m == 9 || m == 11 {
        30
    } else {
        31
    }
}

/// Days of the year before the first of month `m` (1..=13; 13 gives the
/// length of the year).
pub open spec fn month_start(y: int, m: int) -> int
    decreases m,
{
    if m <= 1 {
        0
    } else {
        month_start(y, m - 1) + month_len(y, m - 1)
    }
}

/// A calendar date the functions here accept.
pub open spec fn valid_date(y: int, m: int, d: int) -> bool {
    1 <= y <= MAX_YEAR && 1 <= m <= 12 && 1 <= d <= month_len(y, m)
}

/// The day number (days since 1970-01-01) of a date.
pub open spec fn civil_days(y: int, m: int, d: int) -> int {
    year_start(y) + month_start(y, m) + d - 1
}

/// The day numbers that have a date here: from 0001-01-01 to the last day of
/// [`MAX_YEAR`].
pub open spec fn day_in_range(z: int) -> bool {
    year_start(1) <= z < year_start(MAX_YEAR + 1)
}

/// Each year is 365 days long, 366 in a leap year.
pub proof fn lemma_year_length(y: int)
    requires
        y >= 1,
    ensures
        year_start(y + 1) == year_start(y) + if leap(y) { 366int } else { 365int },
{
}

/// The months of a year fill it exactly.
pub proof fn lemma_months_fill_year(y: int)
    ensures
        month_start(y, 13) == if leap(y) { 366int } else { 365int },
{
    reveal_with_fuel(month_start, 13);
}

/// Year starts grow with the year.
proof fn lemma_year_start_monotone(a: int, b: int)
    requires
        1 <= a <= b,
    ensures
        year_start(a) + 365 * (b - a) <= year_start(b),
    decreases b - a,
{
    if a < b {
        lemma_year_start_monotone(a, b - 1);
        lemma_year_length(b - 1);
    }
}

/// Month starts grow with the month, and every month is 28 to 31 days long.
proof fn lemma_month_start_monotone(y: int, a: int, b: int)
    requires
        1 <= a <= b <= 13,
    ensures
        month_start(y, a) + 28 * (b - a) <= month_start(y, b),
        month_start(y, b) <= month_start(y, a) + 31 * (b - a),
    decreases b - a,
{
    if a < b {
        lemma_month_start_monotone(y, a, b - 1);
    }
}

/// A date's day number lies within its year and within its month.
proof fn lemma_date_bounds(y: int, m: int, d: int)
    requires
        valid_date(y, m, d),
    ensures
        year_start(y) + month_start(y, m) <= civil_days(y, m, d) < year_start(y) + month_start(y, m + 1),
        year_start(y) <= civil_days(y, m, d) < year_start(y + 1),
{
    lemma_month_start_monotone(y, m + 1, 13);
    lemma_months_fill_year(y);
    lemma_year_length(y);
}

/// Different valid dates have different day numbers, so a day number names
/// at most one date.
pub proof fn lemma_civil_days_injective(y1: int, m1: int, d1: int, y2: int, m2: int, d2: int)
    requires
        valid_date(y1, m1, d1),
        valid_date(y2, m2, d2),
        civil_days(y1, m1, d1) == civil_days(y2, m2, d2),
    ensures
        y1 == y2 && m1 == m2 && d1 == d2,
{
    lemma_date_bounds(y1, m1, d1);
    lemma_date_bounds(y2, m2, d2);
    if y1 < y2 {
        lemma_year_start_monotone(y1 + 1, y2);
    } else if y2 < y1 {
        lemma_year_start_monotone(y2 + 1, y1);
    }
    assert(y1 == y2);
    if m1 < m2 {
        lemma_month_start_monotone(y1, m1 + 1, m2);
    } else if m2 < m1 {
        lemma_month_start_monotone(y1, m2 + 1, m1);
    }
}

/// The day numbers that have a date here run from -719162 (0001-01-01) to
/// 364523337 (the last day of [`MAX_YEAR`]).
pub proof fn lemma_day_range()
    ensures
        year_start(1) == -719162,
        year_start(MAX_YEAR as int + 1) == 364523338,
{
}

/// Every valid date has a day number in range.
pub proof fn lemma_valid_date_in_range(y: int, m: int, d: int)
    requires
        valid_date(y, m, d),
    ensures
        day_in_range(civil_days(y, m, d)),
{
    lemma_date_bounds(y, m, d);
    lemma_year_start_monotone(1, y);
    lemma_year_start_monotone(y + 1, MAX_YEAR as int + 1);
}

/// The date of a day number: the one valid date whose day number it is.
pub open spec fn date_of(z: int) -> (int, int, int) {
    choose|y: int, m: int, d: int| #![trigger civil_days(y, m, d)] valid_date(y, m, d) && civil_days(y, m, d) == z
}

/// A valid date is the date of its day number.
pub proof fn lemma_date_of(y: int, m: int, d: int)
    requires
        valid_date(y, m, d),
    ensures
        date_of(civil_days(y, m, d)) == (y, m, d),
{
    let z = civil_days(y, m, d);
    assert(valid_date(y, m, d) && civil_days(y, m, d) == z);
    let (a, b, c) = date_of(z);
    lemma_civil_days_injective(a, b, c, y, m, d);
}

/// Day number of January 1st of year `y`.
fn year_start_exec(y: i64) -> (z: i64)
    requires
        1 <= y <= MAX_YEAR + 1,
    ensures
        z == year_start(y as int),
{
    let n = y - 1;
    365 * (y - 1970) + (n / 4 - n / 100 + n / 400) - (1969 / 4 - 1969 / 100 + 1969 / 400)
}

/// Days in month `m` of year `y`.
pub fn days_in_month(y: i32, m: u32) -> (n: u32)
    requires
        1 <= m <= 12,
    ensures
        n == month_len(y as int, m as int),
{
    if m == 2 {
        if (y % 4 == 0 && y % 100 != 0) || y % 400 == 0 { 29 } else { 28 }
    } else if m == 4 || m == 6 || m == 9 || m == 11 {
        30
    } else {
        31
    }
}

/// Days of year `y` before the first of month `m`.
fn month_start_exec(y: i32, m: u32) -> (n: u32)
    requires
        1 <= m <= 13,
    ensures
        n == month_start(y as int, m as int),
{
    let mut acc: u32 = 0;
    let mut k: u32 = 1;
    while k < m
        invariant
            1 <= k <= m <= 13,
            acc == month_start(y as int, k as int),
            acc <= 31 * (k - 1),
        decreases m - k,
    {
        acc = acc + days_in_month(y, k);
        k = k + 1;
    }
    acc
}

/// Days since 1970-01-01 of the given date (negative before 1970).
pub fn days_from_civil(y: i32, m: u32, d: u32) -> (z: i64)
    requires
        valid_date(y as int, m as int, d as int),
    ensures
        z == civil_days(y as int, m as int, d as int),
{
    proof {
        lemma_month_start_monotone(y as int, 1, m as int);
    }
    year_start_exec(y as i64) + month_start_exec(y, m) as i64 + d as i64 - 1
}

/// The date of a day number (days since 1970-01-01).
pub fn civil_from_days(z: i64) -> (r: (i32, u32, u32))
    requires
        day_in_range(z as int),
    ensures
        valid_date(r.0 as int, r.1 as int, r.2 as int),
        civil_days(r.0 as int, r.1 as int, r.2 as int) == z,
{
    // Start from an estimate of the year and walk to the one holding `z`.
    let mut y: i64 = 1970 + z / 366;
    if y < 1 {
        y = 1;
    }
    if y > MAX_YEAR as i64 {
        y = MAX_YEAR as i64;
    }
    proof {
        lemma_year_start_monotone(1, y as int);
    }
    while year_start_exec(y) > z
        invariant
            1 <= y <= MAX_YEAR,
            day_in_range(z as int),
        decreases y,
    {
        proof {
            if y == 1 {
                assert(false);
            }
        }
        y = y - 1;
    }
    while year_start_exec(y + 1) <= z
        invariant
            1 <= y <= MAX_YEAR,
            day_in_range(z as int),
            year_start(y as int) <= z,
        decreases MAX_YEAR - y,
    {
        proof {
            if y == MAX_YEAR {
                assert(false);
            }
        }
        y = y + 1;
    }
    let yy = y as i32;
    let doy = (z - year_start_exec(y)) as u32;
    proof {
        lemma_year_length(y as int);
        lemma_months_fill_year(y as int);
    }
    let mut m: u32 = 1;
    while m < 12 && month_start_exec(yy, m + 1) <= doy
        invariant
            1 <= m <= 12,
            yy == y,
            1 <= y <= MAX_YEAR,
            year_start(y as int) <= z < year_start(y as int + 1),
            doy == z - year_start(y as int),
            month_start(y as int, m as int) <= doy,
            month_start(y as int, 13) == year_start(y as int + 1) - year_start(y as int),
        decreases 12 - m,
    {
        m = m + 1;
    }
    proof {
        assert(doy < month_start(y as int, m as int + 1)) by {
            if m == 12 {
            }
        }
    }
    let d = doy - month_start_exec(yy, m) + 1;
    (yy, m, d)
}

/// The weekday of a day number, 0 = Sunday .. 6 = Saturday (1970-01-01 was
/// a Thursday).
pub open spec fn weekday_of(z: int) -> int {
    (z + 4) % 7
}

/// The weekday of a day number, 0 = Sunday .. 6 = Saturday.
pub fn weekday_from_days(z: i64) -> (w: u32)
    requires
        day_in_range(z as int),
    ensures
        w == weekday_of(z as int),
{
    let r = z % 7;
    let r = if r < 0 { r + 7 } else { r };
    ((r + 4) % 7) as u32
}

/// Latest epoch second [`LocalTime::from_epoch`] accepts.
pub const MAX_EPOCH: i64 = 10_000_000_000_000;

/// The year holding day number `z`.
pub open spec fn year_of_day(z: int) -> int {
    choose|y: int| #![trigger year_start(y)] 1 <= y <= MAX_YEAR && year_start(y) <= z < year_start(y + 1)
}

/// Only one year holds a given day number.
proof fn lemma_year_of_day(z: int, y: int)
    requires
        1 <= y <= MAX_YEAR,
        year_start(y) <= z < year_start(y + 1),
    ensures
        year_of_day(z) == y,
{
    let c = year_of_day(z);
    assert(1 <= c <= MAX_YEAR && year_start(c) <= z < year_start(c + 1));
    if c < y {
        lemma_year_start_monotone(c + 1, y);
    } else if y < c {
        lemma_year_start_monotone(y + 1, c);
    }
}

/// The day number of the last Sunday of a 31-day month.
pub open spec fn last_sunday(y: int, m: int) -> int {
    civil_days(y, m, 31) - weekday_of(civil_days(y, m, 31))
}

/// The last Sunday of a 31-day month is a Sunday within the month's last
/// seven days.
pub proof fn lemma_last_sunday(y: int, m: int)
    ensures
        weekday_of(last_sunday(y, m)) == 0,
        civil_days(y, m, 25) <= last_sunday(y, m) <= civil_days(y, m, 31),
{
    let z = civil_days(y, m, 31);
    let w = weekday_of(z);
    assert(0 <= w < 7);
    assert((z - w + 4) % 7 == 0);
}

/// Central European Summer Time (UTC+2) begins on the last Sunday of March
/// at 01:00 UTC.
pub open spec fn cest_start(y: int) -> int {
    last_sunday(y, 3) * SECS_PER_DAY + 3600
}

/// Central European Summer Time ends on the last Sunday of October at 01:00
/// UTC.
pub open spec fn cest_end(y: int) -> int {
    last_sunday(y, 10) * SECS_PER_DAY + 3600
}

/// The Europe/Amsterdam offset from UTC at `epoch`, in seconds: two hours
/// during summer time of the UTC year, one hour otherwise.
pub open spec fn amsterdam_offset(epoch: int) -> int {
    let y = year_of_day(epoch / (SECS_PER_DAY as int));
    if cest_start(y) <= epoch < cest_end(y) { 7200 } else { 3600 }
}

/// A moment in Europe/Amsterdam local time.
#[derive(Clone, Copy, Debug, PartialEq, Eq)]
pub struct LocalTime {
    pub year: i32,
    pub month: u32,
    pub day: u32,
    pub hour: u32,
    pub minute: u32,
    pub second: u32,
    /// 0 = Sunday .. 6 = Saturday.
    pub weekday: u32,
}

/// What [`LocalTime::from_epoch`] gives for `epoch`: the date and time of
/// day of the local seconds `epoch + offset`.
pub open spec fn is_local_time_of(t: LocalTime, epoch: int) -> bool {
    let l = epoch + amsterdam_offset(epoch);
    let z = l / (SECS_PER_DAY as int);
    let secs = l % (SECS_PER_DAY as int);
    &&& valid_date(t.year as int, t.month as int, t.day as int)
    &&& civil_days(t.year as int, t.month as int, t.day as int) == z
    &&& t.hour == secs / 3600
    &&& t.minute == (secs % 3600) / 60
    &&& t.second == secs % 60
    &&& t.weekday == weekday_of(z)
}

/// The day number of the last Sunday of month `m` (31 days long) of `y`.
fn last_sunday_exec(y: i32, m: u32) -> (z: i64)
    requires
        1 <= y <= MAX_YEAR,
        m == 3 || m == 10,
    ensures
        z == last_sunday(y as int, m as int),
        -1_000_000 <= z <= 400_000_000,
{
    let z31 = days_from_civil(y, m, 31);
    proof {
        lemma_date_bounds(y as int, m as int, 31);
        lemma_year_start_monotone(1, y as int);
        lemma_year_start_monotone(y as int + 1, MAX_YEAR as int + 1);
    }
    z31 - weekday_from_days(z31) as i64
}

impl LocalTime {
    /// Converts seconds since the Unix epoch (UTC) to Europe/Amsterdam local
    /// time, following the EU rule: CEST (UTC+2) from the last Sunday of March
    /// 01:00 UTC to the last Sunday of October 01:00 UTC, CET (UTC+1)
    /// otherwise.
    pub fn from_epoch(epoch: i64) -> (t: Self)
        requires
            0 <= epoch <= MAX_EPOCH,
        ensures
            is_local_time_of(t, epoch as int),
    {
        proof {
            lemma_year_start_monotone(1, 1970);
            lemma_year_start_monotone(1970, MAX_YEAR as int + 1);
        }
        let utc_day = epoch / SECS_PER_DAY;
        let (uy, um, ud) = civil_from_days(utc_day);
        proof {
            lemma_date_bounds(uy as int, um as int, ud as int);
            lemma_year_of_day(utc_day as int, uy as int);
        }
        let start = last_sunday_exec(uy, 3) * SECS_PER_DAY + 3600;
        let end = last_sunday_exec(uy, 10) * SECS_PER_DAY + 3600;
        let offset: i64 = if start <= epoch && epoch < end { 7200 } else { 3600 };
        let local = epoch + offset;
        let z = local / SECS_PER_DAY;
        let secs = local % SECS_PER_DAY;
        let (year, month, day) = civil_from_days(z);
        LocalTime {
            year,
            month,
            day,
            hour: (secs / 3600) as u32,
            minute: ((secs % 3600) / 60) as u32,
            second: (secs % 60) as u32,
            weekday: weekday_from_days(z),
        }
    }

    /// This moment's date as the prayer-time table's `"DD.MM.YYYY"` key.
    pub fn date_key(&self) -> (s: String)
        ensures
            s@ == date_key_text(self.year as int, self.month as int, self.day as int),
    {
        format_date_key(self.year, self.month, self.day)
    }

    /// Seconds since local midnight.
    pub fn seconds_of_day(&self) -> (s: u32)
        requires
            self.hour < 24,
            self.minute < 60,
            self.second < 60,
        ensures
            s == self.hour * 3600 + self.minute * 60 + self.second,
    {
        self.hour * 3600 + self.minute * 60 + self.second
    }

    /// The Turkish name of this moment's weekday (the stable key that the
    /// dashboard localizes for display).
    pub fn weekday_name(&self) -> (s: &'static str)
        requires
            self.weekday < 7,
        ensures
            s == WEEKDAY_NAMES_TR[self.weekday as int],
    {
        WEEKDAY_NAMES_TR[self.weekday as usize]
    }
}

/// Local time is one hour ahead of UTC in winter and two in summer, and the
/// fields of a local time are in their ranges.
pub proof fn lemma_local_time_ranges(t: LocalTime, epoch: int)
    requires
        is_local_time_of(t, epoch),
        epoch >= 0,
    ensures
        amsterdam_offset(epoch) == 3600 || amsterdam_offset(epoch) == 7200,
        t.hour < 24,
        t.minute < 60,
        t.second < 60,
        t.weekday < 7,
{
}

/// The date key of the prayer-time table: `"DD.MM.YYYY"`, day and month
/// zero-padded to two digits.
pub open spec fn date_key_text(y: int, m: int, d: int) -> Seq<char> {
    two_digits(d as nat) + seq!['.'] + two_digits(m as nat) + seq!['.'] + signed_decimal(y)
}

/// The decimal digits of `v`, after a minus sign when it is negative.
pub open spec fn signed_decimal(v: int) -> Seq<char> {
    if v < 0 { seq!['-'] + decimal((-v) as nat) } else { decimal(v as nat) }
}

/// Formats a date as the prayer-time table's `"DD.MM.YYYY"` key.
pub fn format_date_key(y: i32, m: u32, d: u32) -> (s: String)
    ensures
        s@ == date_key_text(y as int, m as int, d as int),
{
    let mut s = String::new();
    push_two_digits(&mut s, d as u64);
    push_char(&mut s, '.');
    push_two_digits(&mut s, m as u64);
    push_char(&mut s, '.');
    if y < 0 {
        push_char(&mut s, '-');
        push_decimal(&mut s, (-(y as i64)) as u64);
        proof {
            assert(s@ =~= date_key_text(y as int, m as int, d as int));
        }
    } else {
        push_decimal(&mut s, y as u64);
    }
    s
}

/// `c` is an ASCII decimal digit.
pub open spec fn is_digit(c: char) -> bool {
    '0' <= c && c <= '9'
}

/// The value of an ASCII decimal digit.
pub open spec fn digit_value(c: char) -> int {
    (c as u32) - ('0' as u32)
}

/// The decimal value of a run of ASCII digits.
pub open spec fn decimal_value(s: Seq<char>) -> int
    decreases s.len(),
{
    if s.len() == 0 {
        0
    } else {
        decimal_value(s.drop_last()) * 10 + digit_value(s.last())
    }
}

/// A clock field: one or two ASCII digits.
pub open spec fn is_clock_field(s: Seq<char>) -> bool {
    1 <= s.len() <= 2 && forall|i: int| 0 <= i < s.len() ==> is_digit(#[trigger] s[i])
}

/// The position of the first `':'` in `s` at or after `i`.
pub open spec fn colon_at(s: Seq<char>, i: int) -> Option<int>
    decreases s.len() - i,
{
    if i < 0 || i >= s.len() {
        None
    } else if s[i] == ':' {
        Some(i)
    } else {
        colon_at(s, i + 1)
    }
}

/// The seconds since midnight of an `"HH:MM"` clock time: the text up to the
/// first colon is the hour and the rest the minute, each one or two ASCII
/// digits, the hour at most 23 and the minute at most 59. `None` for any
/// other text.
pub open spec fn hhmm_seconds(s: Seq<char>) -> Option<u32> {
    match colon_at(s, 0) {
        None => None,
        Some(p) => {
            let h = s.take(p);
            let m = s.skip(p + 1);
            if is_clock_field(h) && is_clock_field(m) && decimal_value(h) <= 23 && decimal_value(m) <= 59 {
                Some((decimal_value(h) * 3600 + decimal_value(m) * 60) as u32)
            } else {
                None
            }
        },
    }
}

/// The value of the clock field `s[from..to]`, or `None` unless it is one or
/// two ASCII digits.
fn clock_field(s: &str, from: usize, to: usize) -> (r: Option<u32>)
    requires
        from <= to <= s@.len(),
    ensures
        r is Some <==> is_clock_field(s@.subrange(from as int, to as int)),
        r matches Some(v) ==> v as int == decimal_value(s@.subrange(from as int, to as int)) && v < 100,
{
    reveal_with_fuel(decimal_value, 3);
    let ghost f = s@.subrange(from as int, to as int);
    if to - from < 1 || to - from > 2 {
        return None;
    }
    let c0 = s.get_char(from);
    assert(f[0] == c0);
    if !('0' <= c0 && c0 <= '9') {
        return None;
    }
    let d0 = (c0 as u32) - ('0' as u32);
    if to - from == 1 {
        proof {
            assert(f.drop_last() =~= Seq::<char>::empty());
            assert(f.last() == c0);
        }
        return Some(d0);
    }
    let c1 = s.get_char(from + 1);
    assert(f[1] == c1);
    if !('0' <= c1 && c1 <= '9') {
        return None;
    }
    let d1 = (c1 as u32) - ('0' as u32);
    proof {
        assert(f.drop_last() =~= seq![c0]);
        assert(seq![c0].drop_last() =~= Seq::<char>::empty());
        assert(f.last() == c1);
        assert(decimal_value(seq![c0]) == digit_value(c0));
        assert(decimal_value(f) == digit_value(c0) * 10 + digit_value(c1));
        assert forall|i: int| 0 <= i < f.len() implies is_digit(#[trigger] f[i]) by {
            if i == 0 {
                assert(f[i] == c0);
            } else {
                assert(f[i] == c1);
            }
        }
    }
    Some(d0 * 10 + d1)
}

/// Parses an `"HH:MM"` clock time into seconds since midnight; `None` for
/// anything that is not such a time.
pub fn parse_hhmm_to_seconds(s: &str) -> (r: Option<u32>)
    ensures
        r == hhmm_seconds(s@),
{
    let n = s.unicode_len();
    let mut p: usize = 0;
    while p < n
        invariant
            n == s@.len(),
            p <= n,
            colon_at(s@, 0) == colon_at(s@, p as int),
        ensures
            p <= n,
            colon_at(s@, 0) == colon_at(s@, p as int),
            p < n ==> s@[p as int] == ':',
        decreases n - p,
    {
        if s.get_char(p) == ':' {
            break;
        }
        p = p + 1;
    }
    if p == n {
        return None;
    }
    proof {
        assert(s@.take(p as int) =~= s@.subrange(0, p as int));
        assert(s@.skip(p + 1) =~= s@.subrange(p + 1, n as int));
    }
    let h = match clock_field(s, 0, p) {
        Some(h) => h,
        None => return None,
    };
    let m = match clock_field(s, p + 1, n) {
        Some(m) => m,
        None => return None,
    };
    if h > 23 || m > 59 {
        return None;
    }
    Some(h * 3600 + m * 60)
}

/// A parsed clock time is a whole minute within one day.
pub proof fn lemma_hhmm_within_day(s: Seq<char>)
    ensures
        hhmm_seconds(s) matches Some(v) ==> v < SECS_PER_DAY && v % 60 == 0,
{
    if let Some(p) = colon_at(s, 0) {
        let h = decimal_value(s.take(p));
        let m = decimal_value(s.skip(p + 1));
        if hhmm_seconds(s) is Some {
            assert(0 <= h <= 23 && 0 <= m <= 59) by {
                lemma_decimal_nonneg(s.take(p));
                lemma_decimal_nonneg(s.skip(p + 1));
            }
            assert(h * 3600 + m * 60 <= 86340) by (nonlinear_arith)
                requires 0 <= h <= 23, 0 <= m <= 59;
            assert((h * 3600 + m * 60) % 60 == 0) by (nonlinear_arith)
                requires 0 <= h, 0 <= m;
        }
    }
}

proof fn lemma_decimal_nonneg(s: Seq<char>)
    requires
        forall|i: int| 0 <= i < s.len() ==> is_digit(#[trigger] s[i]),
    ensures
        decimal_value(s) >= 0,
    decreases s.len(),
{
    if s.len() > 0 {
        let d = s.drop_last();
        assert forall|i: int| 0 <= i < d.len() implies is_digit(#[trigger] d[i]) by {
            assert(d[i] == s[i]);
        }
        lemma_decimal_nonneg(d);
        assert(is_digit(s[s.len() - 1]));
    }
}

} // verus!
