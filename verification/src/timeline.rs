//! The prayer timeline around today: yesterday's, today's and tomorrow's
//! prayer times as absolute local seconds, so that the next prayer and the
//! elapsed share of the running interval resolve correctly across midnight,
//! right after the night prayer and right before dawn.

use vstd::prelude::*;

use crate::dashboard::same_text;
use crate::language::PRAYER_NAMES_TR;
use crate::prayer_times::{day_times, seconds_or_zero, DayTimes};
use crate::time_utils::{
    civil_days, civil_from_days, date_key_text, date_of, day_in_range, days_from_civil,
    format_date_key, lemma_date_of, lemma_day_range, lemma_hhmm_within_day, lemma_valid_date_in_range, valid_date, LocalTime,
    SECS_PER_DAY,
};

verus! {

/// The index of the first day, from `i` on, whose date is `key`.
pub open spec fn find_from(days: Seq<DayTimes>, key: Seq<char>, i: int) -> Option<int>
    decreases days.len() - i,
{
    if i < 0 || i >= days.len() {
        None
    } else if days[i].date@ == key {
        Some(i)
    } else {
        find_from(days, key, i + 1)
    }
}

/// [`find_from`] finds the first day with the date, and finds none only when
/// no day from `i` on has it.
pub proof fn lemma_find_from(days: Seq<DayTimes>, key: Seq<char>, i: int)
    requires
        0 <= i,
    ensures
        find_from(days, key, i) matches Some(j) ==> i <= j < days.len() && days[j].date@ == key
            && forall|l: int| i <= l < j ==> days[l].date@ != key,
        find_from(days, key, i) is None ==> forall|l: int| i <= l < days.len() ==> days[l].date@ != key,
    decreases days.len() - i,
{
    if i < days.len() && days[i].date@ != key {
        lemma_find_from(days, key, i + 1);
    }
}

/// The index of the first day whose date is `key`, if any.
pub fn find_day(days: &[DayTimes], key: &str) -> (r: Option<usize>)
    ensures
        match r {
            Some(i) => find_from(days@, key@, 0) == Some(i as int),
            None => find_from(days@, key@, 0) is None,
        },
{
    let mut i: usize = 0;
    while i < days.len()
        invariant
            i <= days@.len(),
            find_from(days@, key@, 0) == find_from(days@, key@, i as int),
        decreases days.len() - i,
    {
        if same_text(days[i].date.as_str(), key) {
            return Some(i);
        }
        i = i + 1;
    }
    None
}

/// Whether the table lacks the day `key`, so that it must be fetched again.
pub fn needs_refresh(days: &[DayTimes], today_key: &str) -> (r: bool)
    ensures
        r == (find_from(days@, today_key@, 0) is None),
{
    find_day(days, today_key).is_none()
}

/// A point of the timeline: a prayer's stable (Turkish) label and its moment
/// in absolute local seconds (seconds since 1970-01-01 00:00 local time).
#[derive(Clone, Copy, Debug, PartialEq, Eq)]
pub struct TimelineEntry {
    pub label: &'static str,
    pub at: i64,
}

/// A timeline entry as a pair of label and moment.
pub open spec fn entry_view(e: TimelineEntry) -> (&'static str, int) {
    (e.label, e.at as int)
}

/// The table key (`"DD.MM.YYYY"`) of day number `z`.
pub open spec fn day_key(z: int) -> Seq<char> {
    date_key_text(date_of(z).0, date_of(z).1, date_of(z).2)
}

/// The five prayers of `row`, taken as the table's entry for day number `z`.
pub open spec fn day_entries(row: DayTimes, z: int) -> Seq<(&'static str, int)> {
    Seq::new(5, |i: int| (PRAYER_NAMES_TR[i], z * SECS_PER_DAY + seconds_or_zero(day_times(row)[i]) as int))
}

/// The entries of day number `z`: those of the first row with its key, none
/// when the table lacks the day.
pub open spec fn entries_of_day(days: Seq<DayTimes>, z: int) -> Seq<(&'static str, int)> {
    match find_from(days, day_key(z), 0) {
        Some(i) => day_entries(days[i], z),
        None => Seq::empty(),
    }
}

/// The entries of the days `today - 1 .. today - 1 + k`.
pub open spec fn days_prefix(days: Seq<DayTimes>, today: int, k: int) -> Seq<(&'static str, int)>
    decreases k,
{
    if k <= 0 {
        Seq::empty()
    } else {
        days_prefix(days, today, k - 1) + entries_of_day(days, today + k - 2)
    }
}

/// The timeline around day number `today`: yesterday's, today's and
/// tomorrow's prayers, in that order.
pub open spec fn timeline_of(days: Seq<DayTimes>, today: int) -> Seq<(&'static str, int)> {
    entries_of_day(days, today - 1) + entries_of_day(days, today) + entries_of_day(days, today + 1)
}

/// The day number of a local time's date.
pub open spec fn local_day(t: LocalTime) -> int {
    civil_days(t.year as int, t.month as int, t.day as int)
}

/// Local midnight of `local`'s date, in absolute local seconds.
pub fn day_start_secs(local: &LocalTime) -> (s: i64)
    requires
        valid_date(local.year as int, local.month as int, local.day as int),
    ensures
        s == local_day(*local) * SECS_PER_DAY,
{
    proof {
        lemma_valid_date_in_range(local.year as int, local.month as int, local.day as int);
        lemma_day_range();
    }
    days_from_civil(local.year, local.month, local.day) * SECS_PER_DAY
}

/// Builds the chronological timeline of (label, absolute local seconds)
/// covering yesterday, today and tomorrow; a day missing from the table adds
/// nothing.
pub fn build_timeline(days_data: &[DayTimes], local: &LocalTime) -> (out: Vec<TimelineEntry>)
    requires
        valid_date(local.year as int, local.month as int, local.day as int),
        day_in_range(local_day(*local) - 1),
        day_in_range(local_day(*local) + 1),
    ensures
        out@.map_values(|e: TimelineEntry| entry_view(e)) == timeline_of(days_data@, local_day(*local)),
{
    proof {
        lemma_valid_date_in_range(local.year as int, local.month as int, local.day as int);
        lemma_day_range();
    }
    let today = days_from_civil(local.year, local.month, local.day);
    let mut out: Vec<TimelineEntry> = Vec::new();
    let mut k: usize = 0;
    while k < 3
        invariant
            k <= 3,
            today == local_day(*local),
            day_in_range(today - 1),
            day_in_range(today as int),
            day_in_range(today + 1),
            -719162 <= today - 1,
            today + 1 < 364523338,
            out@.map_values(|e: TimelineEntry| entry_view(e)) == days_prefix(days_data@, today as int, k as int),
        decreases 3 - k,
    {
        let z = today + k as i64 - 1;
        let (y, m, d) = civil_from_days(z);
        let key = format_date_key(y, m, d);
        proof {
            lemma_date_of(y as int, m as int, d as int);
            assert(key@ == day_key(z as int));
        }
        let ghost before = out@.map_values(|e: TimelineEntry| entry_view(e));
        match find_day(days_data, key.as_str()) {
            Some(i) => {
                proof {
                    lemma_find_from(days_data@, key@, 0);
                }
                let secs = days_data[i].prayer_seconds();
                let day_start = z * SECS_PER_DAY;
                let ghost row = days_data@[i as int];
                let mut j: usize = 0;
                while j < 5
                    invariant
                        j <= 5,
                        day_start == z * SECS_PER_DAY,
                        -719162 <= z < 364523338,
                        forall|q: int| 0 <= q < 5 ==> (#[trigger] secs[q]).0 == PRAYER_NAMES_TR[q]
                            && secs[q].1 == seconds_or_zero(day_times(row)[q]),
                        out@.map_values(|e: TimelineEntry| entry_view(e)) == before + day_entries(row, z as int).take(j as int),
                    decreases 5 - j,
                {
                    let ghost prev = out@;
                    out.push(TimelineEntry { label: secs[j].0, at: day_start + secs[j].1 as i64 });
                    proof {
                        assert(out@.map_values(|e: TimelineEntry| entry_view(e)) =~= prev.map_values(|e: TimelineEntry| entry_view(e)).push(day_entries(row, z as int)[j as int]));
                        assert(day_entries(row, z as int).take(j + 1) =~= day_entries(row, z as int).take(j as int).push(day_entries(row, z as int)[j as int]));
                    }
                    j = j + 1;
                }
                proof {
                    assert(day_entries(row, z as int).take(5) =~= day_entries(row, z as int));
                }
            },
            None => {
                proof {
                    assert(before + Seq::<(&'static str, int)>::empty() =~= before);
                }
            },
        }
        k = k + 1;
    }
    proof {
        reveal_with_fuel(days_prefix, 4);
        assert(days_prefix(days_data@, today as int, 3) =~= timeline_of(days_data@, today as int));
    }
    out
}

/// The index of the first entry, from `i` on, later than `now`.
pub open spec fn first_after(tl: Seq<(&'static str, int)>, now: int, i: int) -> Option<int>
    decreases tl.len() - i,
{
    if i < 0 || i >= tl.len() {
        None
    } else if tl[i].1 > now {
        Some(i)
    } else {
        first_after(tl, now, i + 1)
    }
}

/// [`first_after`] finds the first entry later than `now`, and finds none
/// only when no entry from `i` on is.
pub proof fn lemma_first_after(tl: Seq<(&'static str, int)>, now: int, i: int)
    requires
        0 <= i,
    ensures
        first_after(tl, now, i) matches Some(j) ==> i <= j < tl.len() && tl[j].1 > now
            && forall|l: int| i <= l < j ==> tl[l].1 <= now,
        first_after(tl, now, i) is None ==> forall|l: int| i <= l < tl.len() ==> tl[l].1 <= now,
    decreases tl.len() - i,
{
    if i < tl.len() && tl[i].1 <= now {
        lemma_first_after(tl, now, i + 1);
    }
}

/// A timeline as pairs of label and moment.
pub open spec fn timeline_view(tl: Seq<TimelineEntry>) -> Seq<(&'static str, int)> {
    tl.map_values(|e: TimelineEntry| entry_view(e))
}

/// The index of the next prayer: the first entry later than `now`.
pub fn next_index(timeline: &[TimelineEntry], now: i64) -> (r: Option<usize>)
    ensures
        match r {
            Some(i) => first_after(timeline_view(timeline@), now as int, 0) == Some(i as int),
            None => first_after(timeline_view(timeline@), now as int, 0) is None,
        },
{
    let ghost v = timeline_view(timeline@);
    let mut i: usize = 0;
    while i < timeline.len()
        invariant
            i <= timeline@.len(),
            v == timeline_view(timeline@),
            first_after(v, now as int, 0) == first_after(v, now as int, i as int),
        decreases timeline.len() - i,
    {
        if timeline[i].at > now {
            return Some(i);
        }
        i = i + 1;
    }
    None
}

/// Largest magnitude of the moments [`countdown`] accepts.
pub const MOMENT_BOUND: i64 = 0x1000_0000_0000_0000;

/// What the dashboard shows of the running prayer interval.
#[derive(Clone, Copy, Debug, PartialEq, Eq)]
pub struct Countdown {
    /// Index of the next prayer in the timeline.
    pub next: usize,
    /// The next prayer's stable label.
    pub next_label: &'static str,
    /// Seconds left until the next prayer.
    pub remaining: i64,
    /// Seconds elapsed since the previous prayer, and the length of the
    /// interval from the previous prayer to the next; none before the first
    /// entry of the timeline.
    pub elapsed: Option<(i64, i64)>,
    /// The next prayer's label when it falls today.
    pub next_today_label: Option<&'static str>,
    /// The label of the prayer time we are in (the entry before the next).
    pub current_today_label: Option<&'static str>,
}

/// Resolves the running interval at `now`: the next entry of the timeline,
/// the time left until it, the elapsed share of the interval since the
/// previous entry, and the labels the prayer cards highlight. `None` when no
/// entry is later than `now` (the table has no data around today).
pub fn countdown(timeline: &[TimelineEntry], now: i64, today_start: i64) -> (r: Option<Countdown>)
    requires
        forall|k: int| 0 <= k < timeline@.len() ==> -MOMENT_BOUND <= (#[trigger] timeline@[k]).at <= MOMENT_BOUND,
        -MOMENT_BOUND <= now <= MOMENT_BOUND,
        -MOMENT_BOUND <= today_start <= MOMENT_BOUND,
    ensures
        r is None <==> first_after(timeline_view(timeline@), now as int, 0) is None,
        r matches Some(c) ==> {
            let v = timeline_view(timeline@);
            let i = c.next as int;
            &&& first_after(v, now as int, 0) == Some(i)
            &&& c.next_label == v[i].0
            &&& c.remaining == v[i].1 - now
            &&& match c.elapsed {
                Some(p) => i > 0 && p.0 == now - v[i - 1].1 && p.1 == v[i].1 - v[i - 1].1,
                None => i == 0,
            }
            &&& c.next_today_label == if today_start <= v[i].1 < today_start + SECS_PER_DAY {
                Some(v[i].0)
            } else {
                None
            }
            &&& c.current_today_label == if i > 0 { Some(v[i - 1].0) } else { None }
        },
        r matches Some(c) ==> c.remaining > 0 && (c.elapsed matches Some(p) ==> 0 <= p.0 < p.1),
{
    let idx = match next_index(timeline, now) {
        Some(i) => i,
        None => return None,
    };
    proof {
        lemma_first_after(timeline_view(timeline@), now as int, 0);
    }
    let next = timeline[idx];
    let remaining = next.at - now;
    let elapsed = if idx > 0 {
        let prev = timeline[idx - 1];
        proof {
            assert(timeline_view(timeline@)[idx - 1] == entry_view(prev));
        }
        Some((now - prev.at, next.at - prev.at))
    } else {
        None
    };
    let next_today_label = if next.at >= today_start && next.at < today_start + SECS_PER_DAY {
        Some(next.label)
    } else {
        None
    };
    let current_today_label = if idx > 0 { Some(timeline[idx - 1].label) } else { None };
    Some(Countdown { next: idx, next_label: next.label, remaining, elapsed, next_today_label, current_today_label })
}

/// Seconds between two fetch attempts while today's row is missing.
pub const REFRESH_RETRY_SECS: i64 = 300;

/// Whether to fetch the table again now: today's row is missing and the last
/// attempt lies at least [`REFRESH_RETRY_SECS`] back.
pub fn refresh_due(need_refresh: bool, epoch: i64, last_attempt: i64) -> (r: bool)
    ensures
        r == (need_refresh && epoch - last_attempt >= REFRESH_RETRY_SECS),
{
    need_refresh && (epoch as i128) - (last_attempt as i128) >= REFRESH_RETRY_SECS as i128
}

/// The prayer times of a row come in order of the day.
pub open spec fn row_in_order(row: DayTimes) -> bool {
    forall|i: int, j: int|
        0 <= i <= j < 5 ==> seconds_or_zero(#[trigger] day_times(row)[i]) <= seconds_or_zero(#[trigger] day_times(row)[j])
}

/// Moments that never decrease along the sequence.
pub open spec fn chronological(tl: Seq<(&'static str, int)>) -> bool {
    forall|i: int, j: int| 0 <= i <= j < tl.len() ==> #[trigger] tl[i].1 <= #[trigger] tl[j].1
}

/// The entries of one day lie within that day and, for a row in order, come
/// in order.
proof fn lemma_day_entries(days: Seq<DayTimes>, z: int)
    requires
        forall|k: int| 0 <= k < days.len() ==> row_in_order(#[trigger] days[k]),
    ensures
        chronological(entries_of_day(days, z)),
        forall|i: int| 0 <= i < entries_of_day(days, z).len() ==>
            z * SECS_PER_DAY <= (#[trigger] entries_of_day(days, z)[i]).1 < (z + 1) * SECS_PER_DAY,
{
    lemma_find_from(days, day_key(z), 0);
    if let Some(k) = find_from(days, day_key(z), 0) {
        let row = days[k];
        assert(row_in_order(row));
        assert forall|i: int| 0 <= i < 5 implies seconds_or_zero(#[trigger] day_times(row)[i]) < SECS_PER_DAY by {
            lemma_hhmm_within_day(day_times(row)[i]);
        }
        let e = entries_of_day(days, z);
        assert forall|i: int, j: int| 0 <= i <= j < e.len() implies #[trigger] e[i].1 <= #[trigger] e[j].1 by {
            assert(seconds_or_zero(day_times(row)[i]) <= seconds_or_zero(day_times(row)[j]));
        }
        assert forall|i: int| 0 <= i < e.len() implies z * SECS_PER_DAY <= (#[trigger] e[i]).1 < (z + 1) * SECS_PER_DAY by {
            assert(seconds_or_zero(day_times(row)[i]) < SECS_PER_DAY);
        }
    }
}

/// When every row's prayer times are in order of the day, the timeline
/// around any day is chronological.
pub proof fn lemma_timeline_chronological(days: Seq<DayTimes>, today: int)
    requires
        forall|k: int| 0 <= k < days.len() ==> row_in_order(#[trigger] days[k]),
    ensures
        chronological(timeline_of(days, today)),
{
    let a = entries_of_day(days, today - 1);
    let b = entries_of_day(days, today);
    let c = entries_of_day(days, today + 1);
    lemma_day_entries(days, today - 1);
    lemma_day_entries(days, today);
    lemma_day_entries(days, today + 1);
    let t = timeline_of(days, today);
    assert(t == a + b + c);
    assert forall|i: int, j: int| 0 <= i <= j < t.len() implies #[trigger] t[i].1 <= #[trigger] t[j].1 by {
        if i < a.len() {
            assert(t[i] == a[i]);
        } else if i < a.len() + b.len() {
            assert(t[i] == b[i - a.len()]);
        } else {
            assert(t[i] == c[i - a.len() - b.len()]);
        }
        if j < a.len() {
            assert(t[j] == a[j]);
        } else if j < a.len() + b.len() {
            assert(t[j] == b[j - a.len()]);
        } else {
            assert(t[j] == c[j - a.len() - b.len()]);
        }
    }
}

} // verus!
