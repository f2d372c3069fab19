//! The day model of the prayer-time API and its parsing helpers.

use vstd::prelude::*;
use vstd::string::*;

use crate::language::PRAYER_NAMES_TR;
use crate::time_utils::{hhmm_seconds, parse_hhmm_to_seconds};

verus! {

/// One day of the API's prayer-time table. Only the fields the dashboard
/// uses are kept; sunrise is deliberately left out since it is not one of
/// the five daily prayers.
#[derive(Debug, Clone)]
pub struct DayTimes {
    /// Gregorian date, `"DD.MM.YYYY"`.
    pub date: String,
    /// Hijri date, e.g. `"17.1.1448"` (day.month.year).
    pub hijri_date: String,
    pub imsak: String,
    pub ogle: String,
    pub ikindi: String,
    pub aksam: String,
    pub yatsi: String,
}

/// The five prayer times of a day, in order.
pub open spec fn day_times(d: DayTimes) -> Seq<Seq<char>> {
    seq![d.imsak@, d.ogle@, d.ikindi@, d.aksam@, d.yatsi@]
}

/// The seconds since midnight of a prayer time, or 0 when it does not parse.
pub open spec fn seconds_or_zero(t: Seq<char>) -> u32 {
    match hhmm_seconds(t) {
        Some(v) => v,
        None => 0,
    }
}

impl DayTimes {
    /// The 5 daily prayers in order, as (label, "HH:MM") pairs, labelled with
    /// their stable Turkish names.
    pub fn prayers(&self) -> (r: [(&'static str, &str); 5])
        ensures
            forall|i: int| 0 <= i < 5 ==> (#[trigger] r[i]).0 == PRAYER_NAMES_TR[i] && r[i].1@ == day_times(*self)[i],
    {
        [
            (PRAYER_NAMES_TR[0], self.imsak.as_str()),
            (PRAYER_NAMES_TR[1], self.ogle.as_str()),
            (PRAYER_NAMES_TR[2], self.ikindi.as_str()),
            (PRAYER_NAMES_TR[3], self.aksam.as_str()),
            (PRAYER_NAMES_TR[4], self.yatsi.as_str()),
        ]
    }

    /// The 5 daily prayers in order, with each time as seconds since
    /// midnight; a time that does not parse counts as 0.
    pub fn prayer_seconds(&self) -> (r: [(&'static str, u32); 5])
        ensures
            forall|i: int| 0 <= i < 5 ==> (#[trigger] r[i]).0 == PRAYER_NAMES_TR[i] && r[i].1 == seconds_or_zero(day_times(*self)[i]),
    {
        let p = self.prayers();
        let s0 = match parse_hhmm_to_seconds(p[0].1) { Some(v) => v, None => 0 };
        let s1 = match parse_hhmm_to_seconds(p[1].1) { Some(v) => v, None => 0 };
        let s2 = match parse_hhmm_to_seconds(p[2].1) { Some(v) => v, None => 0 };
        let s3 = match parse_hhmm_to_seconds(p[3].1) { Some(v) => v, None => 0 };
        let s4 = match parse_hhmm_to_seconds(p[4].1) { Some(v) => v, None => 0 };
        [(p[0].0, s0), (p[1].0, s1), (p[2].0, s2), (p[3].0, s3), (p[4].0, s4)]
    }
}

/// The endpoint of a district's month of prayer times
/// (`GET /vakitler/{district_id}`).
pub fn month_url(district_id: &str) -> (s: String)
    ensures
        s@ == "https://ezanvakti.emushaf.net/vakitler/"@ + district_id@,
{
    let mut s = String::from_str("https://ezanvakti.emushaf.net/vakitler/");
    s.append(district_id);
    s
}

} // verus!
