//! The decisions of the WiFi provisioning screens: turning a raw scan into the
//! network list the picker shows, and hit-testing the picker rows.

use vstd::prelude::*;

use crate::wifi_credentials::{credential_check, WifiCredentials};

verus! {

/// Max scan results shown in the picker (strongest first).
pub const MAX_NETWORKS: usize = 6;

/// Left edge of the picker rows.
pub const ROW_X: i32 = 8;
/// Width of a picker row.
pub const ROW_W: u32 = 464;
/// Height of a picker row.
pub const ROW_H: u32 = 30;
/// Gap between picker rows.
pub const ROW_GAP: i32 = 3;
/// Top of the first picker row.
pub const LIST_TOP: i32 = 42;

/// One access point as the picker shows it (also the shape of one raw scan
/// sighting).
#[derive(Debug, Clone)]
pub struct ScannedAp {
    pub ssid: String,
    /// The network advertises no authentication.
    pub open: bool,
    /// Signal strength in dBm.
    pub signal: i8,
}

/// An access point as the contracts see it: SSID, open, signal.
pub type ApView = (Seq<char>, bool, i8);

/// The view of an access point.
pub open spec fn ap_view(a: ScannedAp) -> ApView {
    (a.ssid@, a.open, a.signal)
}

/// The index of the first entry of `d`, from `k` on, with SSID `ssid`.
pub open spec fn find_ssid(d: Seq<ApView>, ssid: Seq<char>, k: int) -> Option<int>
    decreases d.len() - k,
{
    if k < 0 || k >= d.len() {
        None
    } else if d[k].0 == ssid {
        Some(k)
    } else {
        find_ssid(d, ssid, k + 1)
    }
}

/// A found SSID sits at an index of `d` that holds it.
proof fn lemma_find_ssid(d: Seq<ApView>, ssid: Seq<char>, k: int)
    requires
        0 <= k,
    ensures
        find_ssid(d, ssid, k) matches Some(i) ==> k <= i < d.len() && d[i].0 == ssid,
    decreases d.len() - k,
{
    if k < d.len() && d[k].0 != ssid {
        lemma_find_ssid(d, ssid, k + 1);
    }
}

/// The deduplicated sightings, in order of first sighting: hidden (empty
/// SSID) networks are dropped, and a repeated SSID keeps its strongest
/// sighting (its signal and its open flag).
pub open spec fn dedup_networks(raw: Seq<ApView>) -> Seq<ApView>
    decreases raw.len(),
{
    if raw.len() == 0 {
        Seq::empty()
    } else {
        let d = dedup_networks(raw.drop_last());
        let a = raw.last();
        if a.0.len() == 0 {
            d
        } else {
            match find_ssid(d, a.0, 0) {
                Some(i) => if a.2 > d[i].2 { d.update(i, (d[i].0, a.1, a.2)) } else { d },
                None => d.push(a),
            }
        }
    }
}

/// Where `a` goes in a list sorted strongest first: after every entry at
/// least as strong, counting from `k`.
pub open spec fn insert_at(sorted: Seq<ApView>, a: ApView, k: int) -> int
    decreases sorted.len() - k,
{
    if k < 0 || k >= sorted.len() {
        sorted.len() as int
    } else if sorted[k].2 < a.2 {
        k
    } else {
        insert_at(sorted, a, k + 1)
    }
}

/// `s` sorted strongest first; entries of equal strength keep their order.
pub open spec fn sort_by_signal(s: Seq<ApView>) -> Seq<ApView>
    decreases s.len(),
{
    if s.len() == 0 {
        Seq::empty()
    } else {
        let sorted = sort_by_signal(s.drop_last());
        sorted.insert(insert_at(sorted, s.last(), 0), s.last())
    }
}

/// The list the picker shows for a raw scan: deduplicated, strongest first,
/// capped at [`MAX_NETWORKS`].
pub open spec fn picker_networks(raw: Seq<ApView>) -> Seq<ApView> {
    let s = sort_by_signal(dedup_networks(raw));
    if s.len() > MAX_NETWORKS { s.take(MAX_NETWORKS as int) } else { s }
}

/// The views of a list of access points.
pub open spec fn views(v: Seq<ScannedAp>) -> Seq<ApView> {
    v.map_values(|a: ScannedAp| ap_view(a))
}

/// A copy of an access point record.
fn copy_ap(a: &ScannedAp) -> (r: ScannedAp)
    ensures
        ap_view(r) == ap_view(*a),
{
    ScannedAp { ssid: a.ssid.clone(), open: a.open, signal: a.signal }
}

/// The index of the entry of `d` named `ssid`, if any.
fn find_network(d: &Vec<ScannedAp>, ssid: &String) -> (r: Option<usize>)
    ensures
        match r {
            Some(i) => find_ssid(views(d@), ssid@, 0) == Some(i as int),
            None => find_ssid(views(d@), ssid@, 0) is None,
        },
{
    let mut k: usize = 0;
    while k < d.len()
        invariant
            k <= d@.len(),
            find_ssid(views(d@), ssid@, 0) == find_ssid(views(d@), ssid@, k as int),
        decreases d@.len() - k,
    {
        if d[k].ssid == *ssid {
            return Some(k);
        }
        k = k + 1;
    }
    None
}

/// Turns a raw scan into the display-ready list: hidden (empty-SSID)
/// networks dropped, duplicates collapsed to their strongest sighting,
/// sorted by signal strength (strongest first, ties in sighting order),
/// capped at [`MAX_NETWORKS`].
pub fn collect_networks(raw: &Vec<ScannedAp>) -> (out: Vec<ScannedAp>)
    ensures
        views(out@) == picker_networks(views(raw@)),
{
    // Deduplicate.
    let mut d: Vec<ScannedAp> = Vec::new();
    let mut i: usize = 0;
    while i < raw.len()
        invariant
            i <= raw@.len(),
            views(d@) == dedup_networks(views(raw@).take(i as int)),
        decreases raw@.len() - i,
    {
        let ap = &raw[i];
        let ghost before = views(d@);
        proof {
            assert(views(raw@).take(i + 1).drop_last() =~= views(raw@).take(i as int));
            assert(views(raw@).take(i + 1).last() == ap_view(*ap));
        }
        if !ap.ssid.as_str().is_empty() {
            match find_network(&d, &ap.ssid) {
                Some(k) => {
                    proof {
                        lemma_find_ssid(before, ap.ssid@, 0);
                    }
                    if ap.signal > d[k].signal {
                        let updated = ScannedAp { ssid: d[k].ssid.clone(), open: ap.open, signal: ap.signal };
                        d.set(k, updated);
                        proof {
                            assert(views(d@) =~= before.update(k as int, (before[k as int].0, ap.open, ap.signal)));
                        }
                    }
                },
                None => {
                    d.push(copy_ap(ap));
                    proof {
                        assert(views(d@) =~= before.push(ap_view(*ap)));
                    }
                },
            }
        }
        i = i + 1;
    }
    proof {
        assert(views(raw@).take(raw@.len() as int) =~= views(raw@));
    }

    // Sort strongest first, keeping ties in order.
    let mut sorted: Vec<ScannedAp> = Vec::new();
    let mut j: usize = 0;
    while j < d.len()
        invariant
            j <= d@.len(),
            views(sorted@) == sort_by_signal(views(d@).take(j as int)),
            sorted@.len() == j,
        decreases d@.len() - j,
    {
        let a = &d[j];
        let ghost before = views(sorted@);
        proof {
            assert(views(d@).take(j + 1).drop_last() =~= views(d@).take(j as int));
            assert(views(d@).take(j + 1).last() == ap_view(*a));
        }
        let mut p: usize = 0;
        while p < sorted.len() && sorted[p].signal >= a.signal
            invariant
                p <= sorted@.len(),
                views(sorted@) == before,
                insert_at(before, ap_view(*a), 0) == insert_at(before, ap_view(*a), p as int),
            decreases sorted@.len() - p,
        {
            p = p + 1;
        }
        sorted.insert(p, copy_ap(a));
        proof {
            assert(views(sorted@) =~= before.insert(p as int, ap_view(*a)));
        }
        j = j + 1;
    }
    proof {
        assert(views(d@).take(d@.len() as int) =~= views(d@));
    }

    // Cap the list.
    if sorted.len() > MAX_NETWORKS {
        sorted.truncate(MAX_NETWORKS);
        proof {
            assert(views(sorted@) =~= sort_by_signal(views(d@)).take(MAX_NETWORKS as int));
        }
    }
    sorted
}

/// Entries are ordered strongest first.
pub open spec fn strongest_first(s: Seq<ApView>) -> bool {
    forall|i: int, j: int| 0 <= i < j < s.len() ==> s[i].2 >= s[j].2
}

/// Every entry names a visible network, and no SSID appears twice.
pub open spec fn distinct_visible(s: Seq<ApView>) -> bool {
    &&& forall|i: int| 0 <= i < s.len() ==> (#[trigger] s[i]).0.len() > 0
    &&& forall|i: int, j: int| 0 <= i < j < s.len() ==> s[i].0 != s[j].0
}

/// An SSID that is not found occurs nowhere from `k` on.
proof fn lemma_find_ssid_none(d: Seq<ApView>, ssid: Seq<char>, k: int)
    requires
        0 <= k,
        find_ssid(d, ssid, k) is None,
    ensures
        forall|i: int| k <= i < d.len() ==> (#[trigger] d[i]).0 != ssid,
    decreases d.len() - k,
{
    if k < d.len() {
        lemma_find_ssid_none(d, ssid, k + 1);
    }
}

/// Deduplication leaves only visible networks, each once.
proof fn lemma_dedup_distinct(raw: Seq<ApView>)
    ensures
        distinct_visible(dedup_networks(raw)),
    decreases raw.len(),
{
    if raw.len() > 0 {
        let d = dedup_networks(raw.drop_last());
        lemma_dedup_distinct(raw.drop_last());
        let a = raw.last();
        if a.0.len() > 0 {
            match find_ssid(d, a.0, 0) {
                Some(i) => {
                    lemma_find_ssid(d, a.0, 0);
                },
                None => {
                    lemma_find_ssid_none(d, a.0, 0);
                    let e = d.push(a);
                    assert forall|i: int, j: int| 0 <= i < j < e.len() implies e[i].0 != e[j].0 by {
                        if j == e.len() - 1 {
                            assert(d[i].0 != a.0);
                        }
                    }
                },
            }
        }
    }
}

/// The insertion point splits a strongest-first list into the entries at
/// least as strong as `a` and the weaker ones.
proof fn lemma_insert_at(sorted: Seq<ApView>, a: ApView, k: int)
    requires
        strongest_first(sorted),
        0 <= k <= sorted.len(),
        forall|i: int| 0 <= i < k ==> (#[trigger] sorted[i]).2 >= a.2,
    ensures
        k <= insert_at(sorted, a, k) <= sorted.len(),
        forall|i: int| 0 <= i < insert_at(sorted, a, k) ==> (#[trigger] sorted[i]).2 >= a.2,
        forall|i: int| insert_at(sorted, a, k) <= i < sorted.len() ==> (#[trigger] sorted[i]).2 < a.2,
    decreases sorted.len() - k,
{
    if k < sorted.len() {
        if sorted[k].2 < a.2 {
            assert forall|i: int| k <= i < sorted.len() implies (#[trigger] sorted[i]).2 < a.2 by {
                if i > k {
                    assert(sorted[k].2 >= sorted[i].2);
                }
            }
        } else {
            lemma_insert_at(sorted, a, k + 1);
        }
    }
}

/// Sorting gives a strongest-first list of the same length whose entries all
/// come from the input, and keeps SSIDs distinct and visible.
proof fn lemma_sort_by_signal(s: Seq<ApView>)
    ensures
        strongest_first(sort_by_signal(s)),
        sort_by_signal(s).len() == s.len(),
        forall|i: int| 0 <= i < s.len() ==> s.contains(#[trigger] sort_by_signal(s)[i]),
        distinct_visible(s) ==> distinct_visible(sort_by_signal(s)),
    decreases s.len(),
{
    if s.len() > 0 {
        let pre = s.drop_last();
        let a = s.last();
        let sorted = sort_by_signal(pre);
        lemma_sort_by_signal(pre);
        lemma_insert_at(sorted, a, 0);
        let p = insert_at(sorted, a, 0);
        let out = sorted.insert(p, a);
        assert forall|i: int, j: int| 0 <= i < j < out.len() implies out[i].2 >= out[j].2 by {
            if i < p && j < p {
            } else if i < p && j == p {
            } else if i < p {
                assert(out[j] == sorted[j - 1]);
            } else if i == p {
                assert(out[j] == sorted[j - 1]);
            } else {
                assert(out[i] == sorted[i - 1] && out[j] == sorted[j - 1]);
            }
        }
        assert forall|i: int| 0 <= i < s.len() implies s.contains(#[trigger] out[i]) by {
            if i == p {
                assert(s[s.len() - 1] == a);
            } else {
                let e = if i < p { sorted[i] } else { sorted[i - 1] };
                assert(out[i] == e);
                assert(pre.contains(e));
                let k = choose|k: int| 0 <= k < pre.len() && pre[k] == e;
                assert(s[k] == e);
            }
        }
        if distinct_visible(s) {
            assert(distinct_visible(pre)) by {
                assert forall|i: int| 0 <= i < pre.len() implies (#[trigger] pre[i]).0.len() > 0 by {
                    assert(pre[i] == s[i]);
                }
                assert forall|i: int, j: int| 0 <= i < j < pre.len() implies pre[i].0 != pre[j].0 by {
                    assert(pre[i] == s[i] && pre[j] == s[j]);
                }
            }
            assert forall|i: int| 0 <= i < sorted.len() implies (#[trigger] sorted[i]).0 != a.0 by {
                assert(pre.contains(sorted[i]));
                let k = choose|k: int| 0 <= k < pre.len() && pre[k] == sorted[i];
                assert(s[k] == sorted[i]);
                assert(s[s.len() - 1] == a);
            }
            assert forall|i: int| 0 <= i < out.len() implies (#[trigger] out[i]).0.len() > 0 by {
                if i == p {
                    assert(s[s.len() - 1] == a);
                } else if i < p {
                    assert(out[i] == sorted[i]);
                } else {
                    assert(out[i] == sorted[i - 1]);
                }
            }
            assert forall|i: int, j: int| 0 <= i < j < out.len() implies out[i].0 != out[j].0 by {
                if i < p && j < p {
                } else if i < p && j == p {
                } else if i < p {
                    assert(out[j] == sorted[j - 1]);
                } else if i == p {
                    assert(out[j] == sorted[j - 1]);
                } else {
                    assert(out[i] == sorted[i - 1] && out[j] == sorted[j - 1]);
                }
            }
        }
    }
}

/// The picker lists visible networks only, each once, strongest first, and
/// never more than [`MAX_NETWORKS`] of them.
pub proof fn lemma_picker_networks(raw: Seq<ApView>)
    ensures
        distinct_visible(picker_networks(raw)),
        strongest_first(picker_networks(raw)),
        picker_networks(raw).len() <= MAX_NETWORKS,
{
    let d = dedup_networks(raw);
    lemma_dedup_distinct(raw);
    lemma_sort_by_signal(d);
    let s = sort_by_signal(d);
    if s.len() > MAX_NETWORKS {
        let t = s.take(MAX_NETWORKS as int);
        assert forall|i: int| 0 <= i < t.len() implies (#[trigger] t[i]).0.len() > 0 by {
            assert(t[i] == s[i]);
        }
        assert forall|i: int, j: int| 0 <= i < j < t.len() implies t[i].0 != t[j].0 && t[i].2 >= t[j].2 by {
            assert(t[i] == s[i] && t[j] == s[j]);
        }
    }
}

/// What the user tapped on the network picker.
#[derive(Clone, Copy, PartialEq, Eq, Debug, Structural)]
pub enum PickerChoice {
    /// The Nth network in the displayed list.
    Network(usize),
    /// "Enter manually": type a (possibly hidden) SSID by hand.
    Manual,
    /// "Rescan": run the scan again.
    Rescan,
    /// The back arrow: abandon setup.
    Cancel,
}

/// Top edge of picker row `index`.
pub open spec fn row_top(index: int) -> int {
    LIST_TOP + index * (ROW_H + ROW_GAP)
}

/// Top edge of picker row `index`.
pub fn row_y(index: usize) -> (y: i32)
    requires
        row_top(index as int) <= i32::MAX,
    ensures
        y == row_top(index as int),
{
    let step: i64 = ROW_H as i64 + ROW_GAP as i64;
    assert(0 <= index * step <= i32::MAX) by (nonlinear_arith)
        requires
            step == 33,
            LIST_TOP + index * 33 <= i32::MAX,
    ;
    (LIST_TOP as i64 + (index as i64) * step) as i32
}

/// The choice behind row `i` of a picker listing `n` networks: the networks,
/// then "Enter manually", then "Rescan".
pub open spec fn row_choice(i: int, n: int) -> PickerChoice {
    if i < n {
        PickerChoice::Network(i as usize)
    } else if i == n {
        PickerChoice::Manual
    } else {
        PickerChoice::Rescan
    }
}

/// The first of the `rows` picker rows, from row `i` on, whose band holds `y`.
pub open spec fn row_hit(y: int, rows: int, i: int) -> Option<int>
    decreases rows - i,
{
    if i < 0 || i >= rows {
        None
    } else if row_top(i) <= y < row_top(i) + ROW_H {
        Some(i)
    } else {
        row_hit(y, rows, i + 1)
    }
}

/// The picker choice under a calibrated tap, for a list of `n` networks.
pub open spec fn picker_choice(x: int, y: int, n: int) -> Option<PickerChoice> {
    if x < ROW_X || x >= ROW_X + ROW_W {
        None
    } else {
        match row_hit(y, n + 2, 0) {
            Some(i) => Some(row_choice(i, n)),
            None => None,
        }
    }
}

/// Maps a calibrated tap to a picker row. Row layout: `n_aps` network rows,
/// then "Enter manually", then "Rescan".
pub fn picker_hit(x: i32, y: i32, n_aps: usize) -> (r: Option<PickerChoice>)
    requires
        row_top(n_aps + 2) <= i32::MAX,
    ensures
        r == picker_choice(x as int, y as int, n_aps as int),
{
    if x < ROW_X || x >= ROW_X + ROW_W as i32 {
        return None;
    }
    let rows = n_aps + 2;
    let mut i: usize = 0;
    while i < rows
        invariant
            row_top(rows as int) <= i32::MAX,
            rows == n_aps + 2,
            ROW_X <= x < ROW_X + ROW_W,
            i <= rows,
            row_hit(y as int, rows as int, 0) == row_hit(y as int, rows as int, i as int),
        decreases rows - i,
    {
        assert(row_top(i as int) + ROW_H <= row_top(rows as int)) by (nonlinear_arith)
            requires
                i < rows,
        ;
        let ry = row_y(i);
        if y >= ry && y < ry + ROW_H as i32 {
            return Some(if i < n_aps {
                PickerChoice::Network(i)
            } else if i == n_aps {
                PickerChoice::Manual
            } else {
                PickerChoice::Rescan
            });
        }
        i = i + 1;
    }
    None
}

/// What the setup flow does next.
#[derive(Debug)]
pub enum WifiStep {
    /// Scan again and show the picker.
    Rescan,
    /// Ask for an SSID typed by hand.
    EnterSsid,
    /// Ask for the passphrase of this network.
    EnterPassword(String),
    /// Show that the passphrase was too short, then scan again.
    RejectPassword,
    /// Leave setup with credentials to connect with, or with none when the
    /// user backed out.
    Finish(Option<WifiCredentials>),
}

/// The next step after a pick on the network list: an open network is
/// finished at once (when its SSID is acceptable), a secured one asks for its
/// passphrase; "Enter manually" asks for an SSID, "Rescan" scans again and
/// the back arrow leaves setup.
pub fn on_pick(choice: PickerChoice, aps: &[ScannedAp]) -> (r: WifiStep)
    requires
        choice matches PickerChoice::Network(i) ==> i < aps@.len(),
    ensures
        match choice {
            PickerChoice::Cancel => r matches WifiStep::Finish(None),
            PickerChoice::Rescan => r matches WifiStep::Rescan,
            PickerChoice::Manual => r matches WifiStep::EnterSsid,
            PickerChoice::Network(i) => {
                let ap = aps@[i as int];
                if !ap.open {
                    r matches WifiStep::EnterPassword(s) && s@ == ap.ssid@
                } else if credential_check(ap.ssid@, Seq::empty()) is Ok {
                    r matches WifiStep::Finish(Some(c)) && c.ssid@ == ap.ssid@ && c.psk@.len() == 0
                } else {
                    r matches WifiStep::Rescan
                }
            },
        },
        r matches WifiStep::Finish(Some(c)) ==> credential_check(c.ssid@, c.psk@) is Ok,
{
    match choice {
        PickerChoice::Cancel => WifiStep::Finish(None),
        PickerChoice::Rescan => WifiStep::Rescan,
        PickerChoice::Manual => WifiStep::EnterSsid,
        PickerChoice::Network(i) => {
            let ap = &aps[i];
            if !ap.open {
                return WifiStep::EnterPassword(ap.ssid.clone());
            }
            let creds = WifiCredentials::from_parts(ap.ssid.clone(), String::new());
            if creds.is_valid() {
                WifiStep::Finish(Some(creds))
            } else {
                WifiStep::Rescan
            }
        },
    }
}

/// The next step after the SSID entry: backing out or an empty SSID returns
/// to the picker, anything else asks for its passphrase.
pub fn on_ssid_entry(entry: Option<String>) -> (r: WifiStep)
    ensures
        match entry {
            Some(s) => if s@.len() == 0 {
                r matches WifiStep::Rescan
            } else {
                r matches WifiStep::EnterPassword(t) && t@ == s@
            },
            None => r matches WifiStep::Rescan,
        },
{
    match entry {
        Some(s) => {
            if s.as_str().is_empty() {
                WifiStep::Rescan
            } else {
                WifiStep::EnterPassword(s)
            }
        },
        None => WifiStep::Rescan,
    }
}

/// The next step after the passphrase entry for `ssid`: backing out returns
/// to the picker; credentials that pass validation finish setup, others are
/// rejected.
pub fn on_password_entry(ssid: String, entry: Option<String>) -> (r: WifiStep)
    ensures
        match entry {
            Some(p) => if credential_check(ssid@, p@) is Ok {
                r matches WifiStep::Finish(Some(c)) && c.ssid@ == ssid@ && c.psk@ == p@
            } else {
                r matches WifiStep::RejectPassword
            },
            None => r matches WifiStep::Rescan,
        },
        r matches WifiStep::Finish(Some(c)) ==> credential_check(c.ssid@, c.psk@) is Ok,
{
    match entry {
        Some(psk) => {
            let creds = WifiCredentials::from_parts(ssid, psk);
            if creds.is_valid() {
                WifiStep::Finish(Some(creds))
            } else {
                WifiStep::RejectPassword
            }
        },
        None => WifiStep::Rescan,
    }
}

} // verus!
