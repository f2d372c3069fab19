//! Models and helpers for the location hierarchy of the prayer-times API
//! (country → city → district): the typed-search matching and filtering, and
//! the persisted selection.
//!
//! Every level of the API returns rows with the same three logical fields (a
//! localized name, an ASCII English name and an opaque string id), so one
//! [`LocationEntry`] type stands for a country, a city or a district.

use vstd::prelude::*;
use vstd::string::*;

use crate::unicode::{
    char_to_upper, has_substring, is_white_space, push_char, str_contains, str_to_upper, trim_end,
    trim_start, trim_str, trimmed, upper_char, upper_text,
};

verus! {

broadcast use vstd::string::group_string_axioms;

/// One row from any of the three list endpoints.
#[derive(Debug, Clone, PartialEq, Eq)]
pub struct LocationEntry {
    pub name: String,
    pub name_en: String,
    pub id: String,
}

impl LocationEntry {
    /// A trimmed display name. The API leaves stray trailing spaces on some
    /// rows (e.g. `"ALBERGEN "`), so display goes through here.
    pub fn display_name(&self) -> (r: &str)
        ensures
            r@ == trimmed(self.name@),
    {
        trim_str(self.name.as_str())
    }
}

/// Folds a character to an ASCII base letter where there is an obvious fold
/// (the Turkish set and the common European diacritics of the API's names);
/// every other character is unchanged.
pub open spec fn fold(ch: char) -> char {
    match ch {
        'ı' | 'İ' | 'î' | 'Î' | 'ï' | 'Ï' => 'i',
        'ş' | 'Ş' => 's',
        'ğ' | 'Ğ' => 'g',
        'ç' | 'Ç' => 'c',
        'ö' | 'Ö' | 'ô' | 'Ô' | 'ó' | 'Ó' | 'ò' | 'Ò' | 'õ' | 'Õ' => 'o',
        'ü' | 'Ü' | 'û' | 'Û' | 'ú' | 'Ú' | 'ù' | 'Ù' => 'u',
        'â' | 'Â' | 'á' | 'Á' | 'à' | 'À' | 'ä' | 'Ä' | 'ã' | 'Ã' | 'å' | 'Å' => 'a',
        'é' | 'É' | 'è' | 'È' | 'ê' | 'Ê' | 'ë' | 'Ë' => 'e',
        'ñ' | 'Ñ' => 'n',
        _ => ch,
    }
}

/// Each character folded and then upper-cased, the results concatenated.
pub open spec fn fold_upper(s: Seq<char>) -> Seq<char>
    decreases s.len(),
{
    if s.len() == 0 {
        Seq::empty()
    } else {
        fold_upper(s.drop_last()) + upper_char(fold(s.last()))
    }
}

/// The loose-matching key of a name: trimmed, then folded and upper-cased
/// character by character.
pub open spec fn search_key(s: Seq<char>) -> Seq<char> {
    fold_upper(trimmed(s))
}

/// Whether `entry` matches the typed `query`: an empty (or all-blank) query
/// matches everything, otherwise the query's key must occur in the key of the
/// localized name or of the English name.
pub open spec fn entry_matches(entry: LocationEntry, query: Seq<char>) -> bool {
    let q = search_key(query);
    q.len() == 0 || has_substring(search_key(entry.name@), q) || has_substring(search_key(entry.name_en@), q)
}

/// The entries of `es` that match `query`, in their original order.
pub open spec fn matching(es: Seq<LocationEntry>, query: Seq<char>) -> Seq<LocationEntry>
    decreases es.len(),
{
    if es.len() == 0 {
        Seq::empty()
    } else if entry_matches(es.last(), query) {
        matching(es.drop_last(), query).push(es.last())
    } else {
        matching(es.drop_last(), query)
    }
}

/// Maps a single character to an ASCII base letter where there's an obvious
/// fold; otherwise returns it unchanged.
fn fold_char(ch: char) -> (r: char)
    ensures
        r == fold(ch),
{
    match ch {
        'ı' | 'İ' | 'î' | 'Î' | 'ï' | 'Ï' => 'i',
        'ş' | 'Ş' => 's',
        'ğ' | 'Ğ' => 'g',
        'ç' | 'Ç' => 'c',
        'ö' | 'Ö' | 'ô' | 'Ô' | 'ó' | 'Ó' | 'ò' | 'Ò' | 'õ' | 'Õ' => 'o',
        'ü' | 'Ü' | 'û' | 'Û' | 'ú' | 'Ú' | 'ù' | 'Ù' => 'u',
        'â' | 'Â' | 'á' | 'Á' | 'à' | 'À' | 'ä' | 'Ä' | 'ã' | 'Ã' | 'å' | 'Å' => 'a',
        'é' | 'É' | 'è' | 'È' | 'ê' | 'Ê' | 'ë' | 'Ë' => 'e',
        'ñ' | 'Ñ' => 'n',
        _ => ch,
    }
}

/// Folds a name to an upper-cased, ASCII-folded key for loose matching, so
/// ASCII typed on the on-screen keyboard matches localized names and case is
/// ignored. Non-letter characters are kept as they are.
fn normalize(s: &str) -> (r: String)
    ensures
        r@ == search_key(s@),
{
    let t = trim_str(s);
    let mut out = String::new();
    for ch in it: t.chars()
        invariant
            it.seq() == t@,
            out@ == fold_upper(t@.take(it.index() as int)),
    {
        let ghost before = out@;
        proof {
            let k = it.index() as int;
            assert(t@.take(k + 1).drop_last() =~= t@.take(k));
            assert(t@.take(k + 1).last() == ch);
        }
        let up = char_to_upper(fold_char(ch));
        let mut j: usize = 0;
        while j < up.len()
            invariant
                j <= up@.len(),
                out@ == before + up@.take(j as int),
            decreases up@.len() - j,
        {
            proof {
                assert(up@.take(j + 1) =~= up@.take(j as int).push(up@[j as int]));
            }
            push_char(&mut out, up[j]);
            j = j + 1;
        }
        proof {
            assert(up@.take(up@.len() as int) =~= up@);
        }
    }
    proof {
        assert(t@.take(t@.len() as int) =~= t@);
    }
    out
}

/// Case-insensitive, accent-tolerant substring match used by the typed-search
/// step.
///
/// The match is tried against both the localized name and the ASCII English
/// name, because the on-screen keyboard only produces ASCII: typing `AGRI`
/// still finds `AĞRI`.
pub fn matches(entry: &LocationEntry, query: &str) -> (r: bool)
    ensures
        r == entry_matches(*entry, query@),
        search_key(query@).len() == 0 ==> r,
        has_substring(search_key(entry.name@), search_key(query@)) ==> r,
        has_substring(search_key(entry.name_en@), search_key(query@)) ==> r,
        r ==> search_key(query@).len() == 0 || has_substring(search_key(entry.name@), search_key(query@))
            || has_substring(search_key(entry.name_en@), search_key(query@)),
{
    let q = normalize(query);
    if q.as_str().is_empty() {
        return true;
    }
    let name = normalize(entry.name.as_str());
    if str_contains(name.as_str(), q.as_str()) {
        return true;
    }
    let name_en = normalize(entry.name_en.as_str());
    str_contains(name_en.as_str(), q.as_str())
}

/// The matches among a prefix of the entries are a prefix of all matches.
proof fn lemma_matching_prefix(es: Seq<LocationEntry>, query: Seq<char>, j: int)
    requires
        0 <= j <= es.len(),
    ensures
        matching(es.take(j), query).len() <= matching(es, query).len(),
        matching(es, query).take(matching(es.take(j), query).len() as int) == matching(es.take(j), query),
    decreases es.len(),
{
    if j < es.len() {
        let d = es.drop_last();
        assert(d.take(j) =~= es.take(j));
        lemma_matching_prefix(d, query, j);
        let m = matching(es.take(j), query);
        if entry_matches(es.last(), query) {
            assert(matching(es, query).take(m.len() as int) =~= matching(d, query).take(m.len() as int));
        }
    } else {
        assert(es.take(j) =~= es);
        assert(matching(es, query).take(matching(es, query).len() as int) =~= matching(es, query));
    }
}

/// Every entry kept by `matching` matches the query.
pub proof fn lemma_matching_sound(es: Seq<LocationEntry>, query: Seq<char>)
    ensures
        forall|i: int| 0 <= i < matching(es, query).len() ==> entry_matches(#[trigger] matching(es, query)[i], query),
        matching(es, query).len() <= es.len(),
    decreases es.len(),
{
    if es.len() > 0 {
        lemma_matching_sound(es.drop_last(), query);
    }
}

/// Filters `entries` to those matching `query`, preserving the API's order and
/// capping the result at `limit` so the picker stays bounded. Returns the
/// matches and whether any were dropped by the cap.
pub fn filter<'a>(entries: &'a [LocationEntry], query: &str, limit: usize) -> (r: (Vec<&'a LocationEntry>, bool))
    ensures
        r.0@.len() == (if matching(entries@, query@).len() <= limit { matching(entries@, query@).len() } else { limit as nat }),
        forall|i: int| 0 <= i < r.0@.len() ==> *r.0@[i] == matching(entries@, query@)[i],
        r.1 == (matching(entries@, query@).len() > limit),
{
    let mut out: Vec<&'a LocationEntry> = Vec::new();
    let mut truncated = false;
    let n = entries.len();
    let mut i: usize = 0;
    while i < n
        invariant_except_break
            n == entries@.len(),
            i <= n,
            !truncated,
            out@.len() == matching(entries@.take(i as int), query@).len(),
            out@.len() <= limit,
            forall|k: int| 0 <= k < out@.len() ==> *out@[k] == matching(entries@.take(i as int), query@)[k],
        ensures
            truncated ==> (out@.len() == limit && matching(entries@, query@).len() > limit
                && forall|k: int| 0 <= k < out@.len() ==> *out@[k] == matching(entries@, query@)[k]),
            !truncated ==> (i == n && out@.len() == matching(entries@.take(i as int), query@).len()
                && forall|k: int| 0 <= k < out@.len() ==> *out@[k] == matching(entries@.take(i as int), query@)[k]),
            out@.len() <= limit,
        decreases n - i,
    {
        let e = &entries[i];
        let ghost pre = entries@.take(i as int);
        proof {
            assert(entries@.take(i + 1).drop_last() =~= pre);
            assert(entries@.take(i + 1).last() == *e);
            lemma_matching_prefix(entries@, query@, i + 1);
        }
        if matches(e, query) {
            if out.len() == limit {
                truncated = true;
                proof {
                    let m1 = matching(entries@.take(i + 1), query@);
                    assert(m1.len() == limit + 1);
                    assert forall|k: int| 0 <= k < out@.len() implies *out@[k] == matching(entries@, query@)[k] by {
                        assert(m1[k] == matching(pre, query@)[k]);
                        assert(matching(entries@, query@).take(m1.len() as int)[k] == m1[k]);
                    }
                }
                break;
            }
            out.push(e);
        }
        i = i + 1;
    }
    proof {
        if !truncated {
            assert(entries@.take(n as int) =~= entries@);
        }
    }
    (out, truncated)
}

/// A fully resolved location the user confirmed. The `district_id` is the
/// canonical key of every prayer-time fetch; the names are kept for display
/// without a re-fetch.
#[derive(Debug, Clone, PartialEq, Eq)]
pub struct SelectedLocation {
    pub country_id: String,
    pub country_name: String,
    pub city_id: String,
    pub city_name: String,
    pub district_id: String,
    pub district_name: String,
}

/// The Haarlem, Netherlands selection: country 4 (HOLLANDA), city 721
/// (HOLLANDA), district 13877 (HAARLEM).
pub open spec fn is_haarlem(sel: SelectedLocation) -> bool {
    &&& sel.country_id@ == "4"@
    &&& sel.country_name@ == "HOLLANDA"@
    &&& sel.city_id@ == "721"@
    &&& sel.city_name@ == "HOLLANDA"@
    &&& sel.district_id@ == "13877"@
    &&& sel.district_name@ == "HAARLEM"@
}

impl SelectedLocation {
    /// The Haarlem, Netherlands selection, used as the default when nothing is
    /// persisted yet.
    pub fn default_haarlem() -> (sel: Self)
        ensures
            is_haarlem(sel),
    {
        SelectedLocation {
            country_id: "4".to_string(),
            country_name: "HOLLANDA".to_string(),
            city_id: "721".to_string(),
            city_name: "HOLLANDA".to_string(),
            district_id: "13877".to_string(),
            district_name: "HAARLEM".to_string(),
        }
    }

    /// The label shown in the dashboard header: the district name, trimmed and
    /// upper-cased.
    pub fn header_label(&self) -> (r: String)
        ensures
            r@ == upper_text(trimmed(self.district_name@)),
    {
        str_to_upper(trim_str(self.district_name.as_str()))
    }

    /// A selection is only usable if it carries a district id that is not
    /// blank; a blank id from a corrupt record is treated as absent.
    pub fn is_valid(&self) -> (r: bool)
        ensures
            r == (trimmed(self.district_id@).len() > 0),
    {
        !trim_str(self.district_id.as_str()).is_empty()
    }

    /// The selection to use given what was read back from storage: a stored
    /// selection with a usable district id, otherwise the Haarlem default.
    pub fn from_stored(stored: Option<SelectedLocation>) -> (sel: Self)
        ensures
            match stored {
                Some(s) => if trimmed(s.district_id@).len() > 0 { sel == s } else { is_haarlem(sel) },
                None => is_haarlem(sel),
            },
    {
        match stored {
            Some(s) => {
                if s.is_valid() {
                    s
                } else {
                    Self::default_haarlem()
                }
            },
            None => Self::default_haarlem(),
        }
    }
}

impl Default for SelectedLocation {
    /// The Haarlem selection.
    fn default() -> (sel: Self)
        ensures
            is_haarlem(sel),
    {
        Self::default_haarlem()
    }
}

/// An entry matches a query exactly when the query's search key is empty or
/// occurs in the search key of the localized name or of the English name:
/// typing an English name finds the entry as surely as typing its local
/// name.
pub proof fn lemma_match_by_either_name(entry: LocationEntry, query: Seq<char>)
    ensures
        has_substring(search_key(entry.name@), search_key(query)) ==> entry_matches(entry, query),
        has_substring(search_key(entry.name_en@), search_key(query)) ==> entry_matches(entry, query),
        entry_matches(entry, query) ==> search_key(query).len() == 0
            || has_substring(search_key(entry.name@), search_key(query))
            || has_substring(search_key(entry.name_en@), search_key(query)),
{
}

/// A query that is empty or blank matches every entry.
pub proof fn lemma_blank_query_matches_all(entry: LocationEntry, query: Seq<char>)
    requires
        trimmed(query).len() == 0,
    ensures
        entry_matches(entry, query),
{
}

/// A trimmed text neither starts nor ends with white space.
pub proof fn lemma_trimmed_edges(s: Seq<char>)
    ensures
        trimmed(s).len() > 0 ==> !is_white_space(trimmed(s)[0]) && !is_white_space(trimmed(s).last()),
{
    lemma_trim_start_head(s);
    lemma_trim_end_edges(trim_start(s));
}

proof fn lemma_trim_start_head(s: Seq<char>)
    ensures
        trim_start(s).len() > 0 ==> !is_white_space(trim_start(s)[0]),
    decreases s.len(),
{
    if s.len() > 0 && is_white_space(s[0]) {
        lemma_trim_start_head(s.drop_first());
    }
}

proof fn lemma_trim_end_edges(s: Seq<char>)
    requires
        s.len() > 0 ==> !is_white_space(s[0]),
    ensures
        trim_end(s).len() > 0 ==> !is_white_space(trim_end(s)[0]) && !is_white_space(trim_end(s).last()),
    decreases s.len(),
{
    if s.len() > 0 && is_white_space(s.last()) {
        let d = s.drop_last();
        if d.len() > 0 {
            assert(d[0] == s[0]);
        }
        lemma_trim_end_edges(d);
    }
}

/// The default selection's header label reads "HAARLEM".
pub proof fn lemma_haarlem_header_label(sel: SelectedLocation)
    requires
        is_haarlem(sel),
    ensures
        upper_text(trimmed(sel.district_name@)) == "HAARLEM"@,
{
    reveal_strlit("HAARLEM");
    let s = sel.district_name@;
    assert(trim_start(s) == s);
    assert(trim_end(s) == s);
    reveal_with_fuel(upper_text, 8);
    assert(upper_text(s) =~= s);
}

/// The default selection is a usable one.
pub proof fn lemma_haarlem_is_valid(sel: SelectedLocation)
    requires
        is_haarlem(sel),
    ensures
        trimmed(sel.district_id@).len() > 0,
{
    reveal_strlit("13877");
    let s = sel.district_id@;
    assert(!is_white_space(s[0]));
    assert(trim_start(s) == s);
    assert(!is_white_space(s.last()));
    assert(trim_end(s) == s);
}

/// The list endpoint of the countries (`GET /ulkeler`).
pub fn countries_url() -> (s: String)
    ensures
        s@ == "https://ezanvakti.emushaf.net/ulkeler"@,
{
    String::from_str("https://ezanvakti.emushaf.net/ulkeler")
}

/// The list endpoint of the cities of a country (`GET /sehirler/{id}`).
pub fn cities_url(country_id: &str) -> (s: String)
    ensures
        s@ == "https://ezanvakti.emushaf.net/sehirler/"@ + country_id@,
{
    let mut s = String::from_str("https://ezanvakti.emushaf.net/sehirler/");
    s.append(country_id);
    s
}

/// The list endpoint of the districts of a city (`GET /ilceler/{id}`).
pub fn districts_url(city_id: &str) -> (s: String)
    ensures
        s@ == "https://ezanvakti.emushaf.net/ilceler/"@ + city_id@,
{
    let mut s = String::from_str("https://ezanvakti.emushaf.net/ilceler/");
    s.append(city_id);
    s
}

} // verus!
