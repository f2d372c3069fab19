//! The decisions of the location selection flow: a typed-search plus
//! bounded-picker walk over the country → city → district hierarchy, and the
//! geometry of the result picker.
//!
//! The flow is a level state machine: the current level is the deepest one
//! not yet chosen, a pick moves one level down (the district pick completes
//! the selection), and "back" moves one level up (backing out of the country
//! level cancels the flow).

use vstd::prelude::*;

use crate::location::{cities_url, countries_url, districts_url, LocationEntry, SelectedLocation};
use crate::unicode::{push_char, trim_str, trimmed};

verus! {

/// Maximum filtered matches shown at once.
pub const MAX_RESULTS: usize = 7;
/// Longest search query.
pub const MAX_QUERY_LEN: usize = 24;

/// Left edge of the result rows.
pub const ROW_X: i32 = 8;
/// Width of a result row.
pub const ROW_W: u32 = 464;
/// Height of a result row.
pub const ROW_H: u32 = 34;
/// Gap between result rows.
pub const ROW_GAP: i32 = 3;
/// Top of the first result row.
pub const LIST_TOP: i32 = 40;

/// Top edge of result row `index`.
pub open spec fn row_top(index: int) -> int {
    LIST_TOP + index * (ROW_H + ROW_GAP)
}

/// Top edge of result row `index`.
pub fn row_y(index: usize) -> (y: i32)
    requires
        row_top(index as int) <= i32::MAX,
    ensures
        y == row_top(index as int),
{
    let step: i64 = ROW_H as i64 + ROW_GAP as i64;
    assert(0 <= index * step <= i32::MAX) by (nonlinear_arith)
        requires
            step == 37,
            LIST_TOP + index * 37 <= i32::MAX,
    ;
    (LIST_TOP as i64 + (index as i64) * step) as i32
}

/// The first of the `n` result rows, from row `i` on, under the point.
pub open spec fn row_hit(x: int, y: int, n: int, i: int) -> Option<int>
    decreases n - i,
{
    if i < 0 || i >= n {
        None
    } else if row_top(i) <= y < row_top(i) + ROW_H {
        Some(i)
    } else {
        row_hit(x, y, n, i + 1)
    }
}

/// The result row under a calibrated tap, if the tap is within the rows'
/// horizontal band.
pub open spec fn picked_row(x: int, y: int, n: int) -> Option<int> {
    if x < ROW_X || x >= ROW_X + ROW_W {
        None
    } else {
        row_hit(x, y, n, 0)
    }
}

/// Maps a calibrated tap to a result row index, if any.
pub fn picker_hit(x: i32, y: i32, n: usize) -> (r: Option<usize>)
    requires
        row_top(n as int) <= i32::MAX,
    ensures
        match r {
            Some(i) => picked_row(x as int, y as int, n as int) == Some(i as int),
            None => picked_row(x as int, y as int, n as int) is None,
        },
{
    if x < ROW_X || x >= ROW_X + ROW_W as i32 {
        return None;
    }
    let mut i: usize = 0;
    while i < n
        invariant
            row_top(n as int) <= i32::MAX,
            ROW_X <= x < ROW_X + ROW_W,
            i <= n,
            row_hit(x as int, y as int, n as int, 0) == row_hit(x as int, y as int, n as int, i as int),
        decreases n - i,
    {
        assert(row_top(i as int) + ROW_H <= row_top(n as int)) by (nonlinear_arith)
            requires
                i < n,
        ;
        let ry = row_y(i);
        if y >= ry && y < ry + ROW_H as i32 {
            return Some(i);
        }
        i = i + 1;
    }
    None
}

/// The level of the hierarchy being chosen.
#[derive(Clone, Copy, PartialEq, Eq, Debug, Structural)]
pub enum Level {
    Country,
    City,
    District,
}

/// The progress of a selection: the picks made so far.
#[derive(Debug)]
pub struct LocationFlow {
    pub country: Option<LocationEntry>,
    pub city: Option<LocationEntry>,
}

/// The level being chosen: the deepest one not yet picked.
pub open spec fn flow_level(country: Option<LocationEntry>, city: Option<LocationEntry>) -> Level {
    if country is None {
        Level::Country
    } else if city is None {
        Level::City
    } else {
        Level::District
    }
}

/// The selection made of a country, a city and a district pick: the ids as
/// they are, the names trimmed.
pub open spec fn selection_of(country: LocationEntry, city: LocationEntry, district: LocationEntry) -> (
    Seq<char>,
    Seq<char>,
    Seq<char>,
    Seq<char>,
    Seq<char>,
    Seq<char>,
) {
    (
        country.id@,
        trimmed(country.name@),
        city.id@,
        trimmed(city.name@),
        district.id@,
        trimmed(district.name@),
    )
}

/// The view of a selection, field by field.
pub open spec fn selection_view(s: SelectedLocation) -> (Seq<char>, Seq<char>, Seq<char>, Seq<char>, Seq<char>, Seq<char>) {
    (s.country_id@, s.country_name@, s.city_id@, s.city_name@, s.district_id@, s.district_name@)
}

/// The breadcrumb shown beside the search prompt: nothing at the country
/// level, the country at the city level, "country / city" at the district
/// level (names trimmed).
pub open spec fn breadcrumb(country: Option<LocationEntry>, city: Option<LocationEntry>) -> Option<Seq<char>> {
    match (country, city) {
        (Some(c), None) => Some(trimmed(c.name@)),
        (Some(c), Some(s)) => Some(trimmed(c.name@) + " / "@ + trimmed(s.name@)),
        _ => None,
    }
}

/// Appends the characters of `t` to `s`.
fn append(s: &mut String, t: &str)
    ensures
        final(s)@ == old(s)@ + t@,
{
    let ghost start = s@;
    let n = t.unicode_len();
    let mut i: usize = 0;
    while i < n
        invariant
            n == t@.len(),
            i <= n,
            s@ == start + t@.take(i as int),
        decreases n - i,
    {
        proof {
            assert(t@.take(i + 1) =~= t@.take(i as int).push(t@[i as int]));
        }
        push_char(s, t.get_char(i));
        i = i + 1;
    }
    proof {
        assert(t@.take(n as int) =~= t@);
    }
}

impl LocationFlow {
    /// A flow with nothing picked yet, starting at the country level.
    pub fn new() -> (f: Self)
        ensures
            f.country is None,
            f.city is None,
    {
        LocationFlow { country: None, city: None }
    }

    /// The level currently being chosen.
    pub fn level(&self) -> (l: Level)
        ensures
            l == flow_level(self.country, self.city),
    {
        if self.country.is_none() {
            Level::Country
        } else if self.city.is_none() {
            Level::City
        } else {
            Level::District
        }
    }

    /// The breadcrumb shown beside the search prompt of the current level.
    pub fn breadcrumb(&self) -> (r: Option<String>)
        ensures
            match r {
                Some(s) => breadcrumb(self.country, self.city) == Some(s@),
                None => breadcrumb(self.country, self.city) is None,
            },
    {
        match (&self.country, &self.city) {
            (Some(c), None) => Some(trim_str(c.name.as_str()).to_string()),
            (Some(c), Some(s)) => {
                let mut crumb = trim_str(c.name.as_str()).to_string();
                append(&mut crumb, " / ");
                append(&mut crumb, trim_str(s.name.as_str()));
                Some(crumb)
            },
            _ => None,
        }
    }

    /// The list endpoint of the level being chosen: the countries, the
    /// cities of the picked country, or the districts of the picked city.
    pub fn list_url(&self) -> (u: String)
        ensures
            match flow_level(self.country, self.city) {
                Level::Country => u@ == "https://ezanvakti.emushaf.net/ulkeler"@,
                Level::City => u@ == "https://ezanvakti.emushaf.net/sehirler/"@ + self.country.unwrap().id@,
                Level::District => u@ == "https://ezanvakti.emushaf.net/ilceler/"@ + self.city.unwrap().id@,
            },
    {
        match (&self.country, &self.city) {
            (None, _) => countries_url(),
            (Some(c), None) => cities_url(c.id.as_str()),
            (Some(_), Some(s)) => districts_url(s.id.as_str()),
        }
    }

    /// Records a pick at the current level. Picking a country or a city moves
    /// one level down and returns `None`; picking a district completes the
    /// selection and returns it, leaving the flow as it was.
    pub fn pick(&mut self, entry: LocationEntry) -> (done: Option<SelectedLocation>)
        ensures
            match flow_level(old(self).country, old(self).city) {
                Level::Country => done is None && final(self).country == Some(entry) && final(self).city == old(self).city,
                Level::City => done is None && final(self).country == old(self).country && final(self).city == Some(entry),
                Level::District => final(self).country == old(self).country && final(self).city == old(self).city
                    && (done matches Some(sel)
                    && selection_view(sel) == selection_of(old(self).country.unwrap(), old(self).city.unwrap(), entry)),
            },
            done matches Some(sel) ==> {
                &&& old(self).country matches Some(c) && sel.country_id@ == c.id@ && sel.country_name@ == trimmed(c.name@)
                &&& old(self).city matches Some(t) && sel.city_id@ == t.id@ && sel.city_name@ == trimmed(t.name@)
                &&& sel.district_id@ == entry.id@ && sel.district_name@ == trimmed(entry.name@)
            },
    {
        if self.country.is_none() {
            self.country = Some(entry);
            return None;
        }
        if self.city.is_none() {
            self.city = Some(entry);
            return None;
        }
        match (&self.country, &self.city) {
            (Some(c), Some(s)) => Some(SelectedLocation {
                country_id: c.id.clone(),
                country_name: trim_str(c.name.as_str()).to_string(),
                city_id: s.id.clone(),
                city_name: trim_str(s.name.as_str()).to_string(),
                district_id: entry.id.clone(),
                district_name: trim_str(entry.name.as_str()).to_string(),
            }),
            _ => None,
        }
    }

    /// Goes back one level: from the district level to re-pick the city, from
    /// the city level to re-pick the country. Backing out of the country level
    /// cancels the flow and returns `true`.
    pub fn back(&mut self) -> (cancelled: bool)
        ensures
            match flow_level(old(self).country, old(self).city) {
                Level::Country => cancelled && final(self).country == old(self).country && final(self).city == old(self).city,
                Level::City => !cancelled && final(self).country is None && final(self).city == old(self).city,
                Level::District => !cancelled && final(self).country == old(self).country && final(self).city is None,
            },
    {
        if self.country.is_none() {
            true
        } else if self.city.is_none() {
            self.country = None;
            false
        } else {
            self.city = None;
            false
        }
    }
}

/// A pick followed by "back" returns the flow to the level it was at, with
/// the earlier picks unchanged.
pub proof fn lemma_back_undoes_pick(country: Option<LocationEntry>, city: Option<LocationEntry>, entry: LocationEntry)
    requires
        flow_level(country, city) != Level::District,
        country is None ==> city is None,
    ensures
        ({
            let (c1, s1) = if country is None { (Some(entry), city) } else { (country, Some(entry)) };
            let (c2, s2) = if flow_level(c1, s1) == Level::City { (None::<LocationEntry>, s1) } else { (c1, None::<LocationEntry>) };
            flow_level(c2, s2) == flow_level(country, city) && c2 == country && (city is None ==> s2 is None)
        }),
{
}

/// A completed selection takes each field from the level it names: the
/// country's id and trimmed name, the city's id and trimmed name, the
/// district's id and trimmed name, so no level's name ends up in another
/// level's field.
pub proof fn lemma_selection_fields_from_their_levels(country: LocationEntry, city: LocationEntry, district: LocationEntry)
    ensures
        ({
            let (cid, cname, sid, sname, did, dname) = selection_of(country, city, district);
            &&& cid == country.id@ && cname == trimmed(country.name@)
            &&& sid == city.id@ && sname == trimmed(city.name@)
            &&& did == district.id@ && dname == trimmed(district.name@)
        }),
{
}

} // verus!
