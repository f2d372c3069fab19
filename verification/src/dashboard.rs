//! Decisions and geometry of the main dashboard: the highlight state of each
//! prayer card, the localized labels, the countdown text, the progress bar and
//! the status-screen lines.

use vstd::prelude::*;
use vstd::string::*;

use crate::language::{prayer_names, prayer_table, text, translation, weekday_names, weekday_table, Language, Msg, PRAYER_NAMES_TR, WEEKDAY_NAMES_TR};
use crate::settings::DateMode;
use crate::time_utils::{date_key_text, decimal_value, digit_value, format_date_key, is_digit, LocalTime};
use crate::segdisplay::{rect_view, Rect};
use crate::unicode::{decimal, digit_char, push_char, push_two_digits, two_digits};
use crate::zone::Zone;

verus! {

/// Whether two strings hold the same characters.
pub fn same_text(a: &str, b: &str) -> (r: bool)
    ensures
        r == (a@ == b@),
{
    let n = a.unicode_len();
    if n != b.unicode_len() {
        return false;
    }
    let mut i: usize = 0;
    while i < n
        invariant
            n == a@.len(),
            n == b@.len(),
            i <= n,
            forall|k: int| 0 <= k < i ==> a@[k] == b@[k],
        decreases n - i,
    {
        if a.get_char(i) != b.get_char(i) {
            return false;
        }
        i = i + 1;
    }
    proof {
        assert(a@ =~= b@);
    }
    true
}

/// Whether an optional label is present and equal to `name`.
fn label_is(label: Option<&str>, name: &str) -> (r: bool)
    ensures
        r == (label matches Some(l) && l@ == name@),
{
    match label {
        Some(l) => same_text(l, name),
        None => false,
    }
}

/// Visual state of a prayer card.
#[derive(Clone, Copy, PartialEq, Eq, Debug)]
pub enum CardState<C> {
    /// Not the current or next prayer.
    Inactive,
    /// The upcoming prayer.
    Next,
    /// The prayer time we are currently in, tinted with the active zone's
    /// color.
    Current(C),
}

/// The state of the card named `name`: `Next` takes precedence when a label
/// matches both; the current card without a zone color stays inactive.
pub open spec fn card_state<C>(name: Seq<char>, next_label: Option<Seq<char>>, current_label: Option<Seq<char>>, color: Option<C>) -> CardState<C> {
    if next_label == Some(name) {
        CardState::Next
    } else if current_label == Some(name) {
        match color {
            Some(c) => CardState::Current(c),
            None => CardState::Inactive,
        }
    } else {
        CardState::Inactive
    }
}

/// The view of an optional label.
pub open spec fn opt_view(l: Option<&str>) -> Option<Seq<char>> {
    match l {
        Some(s) => Some(s@),
        None => None,
    }
}

/// Resolves a card's [`CardState`] from the current next/current labels and
/// the active zone color. `Next` takes precedence if a label matches both.
pub fn card_state_for<C: Copy>(name: &str, next_label: Option<&str>, current_label: Option<&str>, current_color: Option<C>) -> (s: CardState<C>)
    ensures
        s == card_state(name@, opt_view(next_label), opt_view(current_label), current_color),
{
    if label_is(next_label, name) {
        CardState::Next
    } else if label_is(current_label, name) {
        match current_color {
            Some(c) => CardState::Current(c),
            None => CardState::Inactive,
        }
    } else {
        CardState::Inactive
    }
}

/// The index of the first entry of `names`, from `i` on, equal to `label`;
/// index 0 when there is none.
pub open spec fn name_index<const N: usize>(names: [&'static str; N], label: Seq<char>, i: int) -> int
    decreases N - i,
{
    if i < 0 || i >= N {
        0
    } else if names[i]@ == label {
        i
    } else {
        name_index(names, label, i + 1)
    }
}

/// Maps a Turkish prayer label (the stable key used across the timeline) to
/// the active language's prayer name for display; an unknown label shows the
/// first prayer.
pub fn localize_prayer(label: &str, lang: Language) -> (s: &'static str)
    ensures
        s == prayer_table(lang)[name_index(PRAYER_NAMES_TR, label@, 0)],
{
    let tr = PRAYER_NAMES_TR;
    let mut i: usize = 0;
    while i < 5
        invariant
            i <= 5,
            tr == PRAYER_NAMES_TR,
            name_index(PRAYER_NAMES_TR, label@, 0) == name_index(PRAYER_NAMES_TR, label@, i as int),
        decreases 5 - i,
    {
        if same_text(tr[i], label) {
            return prayer_names(lang)[i];
        }
        i = i + 1;
    }
    prayer_names(lang)[0]
}

/// Maps a Turkish weekday name to the active language's weekday; an unknown
/// name shows Sunday.
pub fn localize_weekday(tr_name: &str, lang: Language) -> (s: &'static str)
    ensures
        s == weekday_table(lang)[name_index(WEEKDAY_NAMES_TR, tr_name@, 0)],
{
    let tr = WEEKDAY_NAMES_TR;
    let mut i: usize = 0;
    while i < 7
        invariant
            i <= 7,
            tr == WEEKDAY_NAMES_TR,
            name_index(WEEKDAY_NAMES_TR, tr_name@, 0) == name_index(WEEKDAY_NAMES_TR, tr_name@, i as int),
        decreases 7 - i,
    {
        if same_text(tr[i], tr_name) {
            return weekday_names(lang)[i];
        }
        i = i + 1;
    }
    weekday_names(lang)[0]
}

/// The countdown shown for `remaining` seconds: `"HH:MM:SS"`, each field at
/// least two digits, negative values shown as zero.
pub open spec fn countdown_text(remaining: int) -> Seq<char> {
    let t = if remaining > 0 { remaining } else { 0 };
    two_digits((t / 3600) as nat) + seq![':'] + two_digits(((t % 3600) / 60) as nat) + seq![':'] + two_digits((t % 60) as nat)
}

/// The countdown text (`"HH:MM:SS"`) for the seconds left until the next
/// prayer; a negative count shows as `"00:00:00"`.
pub fn format_countdown(remaining_secs: i64) -> (s: String)
    ensures
        s@ == countdown_text(remaining_secs as int),
{
    let total: i64 = if remaining_secs > 0 { remaining_secs } else { 0 };
    let h = total / 3600;
    let m = (total % 3600) / 60;
    let sec = total % 60;
    let mut s = String::new();
    push_two_digits(&mut s, h as u64);
    push_char(&mut s, ':');
    push_two_digits(&mut s, m as u64);
    push_char(&mut s, ':');
    push_two_digits(&mut s, sec as u64);
    s
}

/// Left edge of the progress bar.
pub const BAR_X: i32 = 40;
/// Top edge of the progress bar.
pub const BAR_Y: i32 = 190;
/// Width of the progress bar.
pub const BAR_W: u32 = 400;
/// Height of the progress bar.
pub const BAR_H: u32 = 10;

/// The three equal zone slices of the bar, left to right (the last absorbs
/// the rounding remainder): (left edge, width, zone).
pub open spec fn zone_slices() -> Seq<(int, int, Zone)> {
    let zw = (BAR_W / 3) as int;
    seq![
        (BAR_X as int, zw, Zone::Fazilet),
        (BAR_X + zw, zw, Zone::Cevaz),
        (BAR_X + 2 * zw, BAR_W - 2 * zw, Zone::Kerahet),
    ]
}

/// What is painted of zone slice `z` once `consumed` pixels have elapsed:
/// the part of the slice right of the consumed portion, if any.
pub open spec fn visible_slice(consumed: int, z: (int, int, Zone)) -> Option<(int, int, Zone)> {
    let fill_start = BAR_X + consumed;
    let end = z.0 + z.1;
    let start = if z.0 > fill_start { z.0 } else { fill_start };
    if start < end { Some((start, end - start, z.2)) } else { None }
}

/// The painted zone pieces of the bar, left to right.
pub open spec fn visible_slices(consumed: int) -> Seq<(int, int, Zone)> {
    let s = zone_slices();
    let a = visible_slice(consumed, s[0]);
    let b = visible_slice(consumed, s[1]);
    let c = visible_slice(consumed, s[2]);
    (if a is Some { seq![a.unwrap()] } else { Seq::empty() })
        + (if b is Some { seq![b.unwrap()] } else { Seq::empty() })
        + (if c is Some { seq![c.unwrap()] } else { Seq::empty() })
}

/// The painted pieces of the progress bar when `consumed` of its pixels have
/// elapsed: the faint track over the consumed part (when any), then the
/// visible remainder of each zone slice with its zone.
pub fn progress_bar(consumed: u32) -> (r: (Option<Rect>, Vec<(Rect, Zone)>))
    requires
        consumed <= BAR_W,
    ensures
        consumed > 0 ==> r.0 == Some(Rect { x: BAR_X, y: BAR_Y, w: consumed, h: BAR_H }),
        consumed == 0 ==> r.0 is None,
        r.1@.map_values(|p: (Rect, Zone)| (p.0.x as int, p.0.w as int, p.1)) == visible_slices(consumed as int),
        forall|i: int| 0 <= i < r.1@.len() ==> (#[trigger] r.1@[i]).0.y == BAR_Y && r.1@[i].0.h == BAR_H,
{
    let zone_w = BAR_W / 3;
    let zones = [
        (BAR_X, zone_w, Zone::Fazilet),
        (BAR_X + zone_w as i32, zone_w, Zone::Cevaz),
        (BAR_X + 2 * zone_w as i32, BAR_W - 2 * zone_w, Zone::Kerahet),
    ];
    let track = if consumed > 0 {
        Some(Rect { x: BAR_X, y: BAR_Y, w: consumed, h: BAR_H })
    } else {
        None
    };
    let fill_start = BAR_X + consumed as i32;
    let mut pieces: Vec<(Rect, Zone)> = Vec::new();
    let mut k: usize = 0;
    while k < 3
        invariant
            k <= 3,
            consumed <= BAR_W,
            fill_start == BAR_X + consumed,
            forall|j: int| 0 <= j < 3 ==> ((#[trigger] zones[j]).0 as int, zones[j].1 as int, zones[j].2) == zone_slices()[j],
            forall|i: int| 0 <= i < pieces@.len() ==> (#[trigger] pieces@[i]).0.y == BAR_Y && pieces@[i].0.h == BAR_H,
            pieces@.map_values(|p: (Rect, Zone)| (p.0.x as int, p.0.w as int, p.1))
                == visible_prefix(consumed as int, k as int),
        decreases 3 - k,
    {
        let (zx, zw, zone) = zones[k];
        let zone_end = zx + zw as i32;
        let vis_start = if zx > fill_start { zx } else { fill_start };
        let ghost before = pieces@;
        if vis_start < zone_end {
            pieces.push((Rect { x: vis_start, y: BAR_Y, w: (zone_end - vis_start) as u32, h: BAR_H }, zone));
            proof {
                assert(pieces@.map_values(|p: (Rect, Zone)| (p.0.x as int, p.0.w as int, p.1))
                    =~= before.map_values(|p: (Rect, Zone)| (p.0.x as int, p.0.w as int, p.1)).push(visible_slice(consumed as int, zone_slices()[k as int]).unwrap()));
            }
        }
        k = k + 1;
    }
    proof {
        reveal_with_fuel(visible_prefix, 4);
        assert(visible_prefix(consumed as int, 3) =~= visible_slices(consumed as int));
    }
    (track, pieces)
}

/// The painted pieces of the first `k` zone slices.
pub open spec fn visible_prefix(consumed: int, k: int) -> Seq<(int, int, Zone)>
    decreases k,
{
    if k <= 0 {
        Seq::empty()
    } else {
        let before = visible_prefix(consumed, k - 1);
        match visible_slice(consumed, zone_slices()[k - 1]) {
            Some(p) => before.push(p),
            None => before,
        }
    }
}

/// The painted pieces cover the whole bar without gaps or overlaps: the
/// consumed part, then the zone pieces side by side up to the bar's right
/// end (when anything is left).
pub proof fn lemma_progress_bar_tiles(consumed: int)
    requires
        0 <= consumed <= BAR_W,
    ensures
        ({
            let v = visible_slices(consumed);
            &&& consumed < BAR_W ==> v.len() > 0 && v[0].0 == BAR_X + consumed
                && v.last().0 + v.last().1 == BAR_X + BAR_W
            &&& forall|i: int| 0 <= i < v.len() - 1 ==> v[i].0 + v[i].1 == #[trigger] v[i + 1].0
            &&& consumed == BAR_W ==> v.len() == 0
        }),
{
}

/// The top line of a status screen with `count` lines: the block is centred
/// around y = 150 with a 26-pixel line pitch.
pub open spec fn status_y(count: int, i: int) -> int {
    150 - (count - 1) * 12 + i * 26
}

/// The baseline of line `i` of a status screen of `count` lines.
pub fn status_line_y(count: usize, i: usize) -> (y: i32)
    requires
        i < count <= i32::MAX,
        (count - 1) * 12 <= i32::MAX,
        status_y(count as int, i as int) <= i32::MAX,
    ensures
        y == status_y(count as int, i as int),
{
    let c = count as i64;
    let k = i as i64;
    (150 - (c - 1) * 12 + k * 26) as i32
}

/// The separator between the parts of the header line.
pub open spec fn header_gap() -> Seq<char> {
    seq![' ', ' ', ' ']
}

/// The header's date: the row's Hijri date with `" (H)"` in Hijri mode when
/// today's row is known, else the Gregorian `"DD.MM.YYYY"`.
pub open spec fn header_date_text(mode: DateMode, hijri: Option<Seq<char>>, y: int, m: int, d: int) -> Seq<char> {
    match (mode, hijri) {
        (DateMode::Hijri, Some(h)) => h + seq![' ', '(', 'H', ')'],
        _ => date_key_text(y, m, d),
    }
}

/// The date shown in the header for the chosen date mode.
pub fn header_date(date_mode: DateMode, hijri: Option<&str>, local: &LocalTime) -> (s: String)
    ensures
        s@ == header_date_text(date_mode, opt_view(hijri), local.year as int, local.month as int, local.day as int),
{
    match (date_mode, hijri) {
        (DateMode::Hijri, Some(h)) => {
            let mut s = String::new();
            s.append(h);
            push_char(&mut s, ' ');
            push_char(&mut s, '(');
            push_char(&mut s, 'H');
            push_char(&mut s, ')');
            s
        },
        _ => format_date_key(local.year, local.month, local.day),
    }
}

/// The header line: city, date, weekday (when given) and the wall clock
/// `"HH:MM"`, separated by three spaces.
pub open spec fn header_line_text(city: Seq<char>, date: Seq<char>, weekday: Option<Seq<char>>, hour: nat, minute: nat) -> Seq<char> {
    let w = match weekday {
        Some(w) => w + header_gap(),
        None => Seq::empty(),
    };
    city + header_gap() + date + header_gap() + w + two_digits(hour) + seq![':'] + two_digits(minute)
}

/// Builds the header line. Left-to-right languages give the localized
/// weekday; right-to-left ones draw the weekday apart and give none.
pub fn header_line(city: &str, date: &str, weekday: Option<&str>, hour: u32, minute: u32) -> (s: String)
    ensures
        s@ == header_line_text(city@, date@, opt_view(weekday), hour as nat, minute as nat),
{
    let mut s = String::new();
    s.append(city);
    s.append("   ");
    s.append(date);
    s.append("   ");
    if let Some(w) = weekday {
        s.append(w);
        s.append("   ");
    }
    push_two_digits(&mut s, hour as u64);
    push_char(&mut s, ':');
    push_two_digits(&mut s, minute as u64);
    proof {
        reveal_strlit("   ");
        let w = match opt_view(weekday) {
            Some(w) => w + header_gap(),
            None => Seq::<char>::empty(),
        };
        assert(s@ =~= header_line_text(city@, date@, opt_view(weekday), hour as nat, minute as nat));
    }
    s
}

/// The "next prayer" line: the localized prefix, a space and the localized
/// prayer name.
pub fn next_prayer_line(label: &str, lang: Language) -> (s: String)
    ensures
        s@ == translation(lang, Msg::NextPrayer)@ + seq![' '] + prayer_table(lang)[name_index(PRAYER_NAMES_TR, label@, 0)]@,
{
    let mut s = String::new();
    s.append(text(lang, Msg::NextPrayer));
    push_char(&mut s, ' ');
    s.append(localize_prayer(label, lang));
    s
}

/// Left margin of the first prayer card.
pub const CARD_MARGIN: i32 = 4;
/// Gap between two prayer cards.
pub const CARD_GAP: i32 = 8;
/// Width of a prayer card.
pub const CARD_W: u32 = 88;
/// Height of a prayer card.
pub const CARD_H: u32 = 95;
/// Top edge of the prayer cards.
pub const CARD_Y: i32 = 210;

/// Left edge of prayer card `index`.
pub open spec fn card_left(index: int) -> int {
    CARD_MARGIN + index * (CARD_W + CARD_GAP)
}

/// Left edge of prayer card `index` (0 to 4, left to right).
pub fn card_x(index: usize) -> (x: i32)
    requires
        index < 5,
    ensures
        x == card_left(index as int),
{
    let i = index as i32;
    assert(0 <= i * 96 <= 384) by (nonlinear_arith)
        requires
            0 <= i < 5,
    ;
    CARD_MARGIN + i * (CARD_W as i32 + CARD_GAP)
}

/// The five cards sit side by side without overlapping, inside the panel.
pub proof fn lemma_cards_fit(i: int, j: int)
    requires
        0 <= i < j < 5,
    ensures
        card_left(i) + CARD_W + CARD_GAP <= card_left(j),
        0 <= card_left(i),
        card_left(j) + CARD_W <= 480,
{
    assert(card_left(i) + 96 <= card_left(j)) by (nonlinear_arith)
        requires
            i < j,
    ;
    assert(card_left(j) <= 388) by (nonlinear_arith)
        requires
            j < 5,
    ;
    assert(card_left(i) >= 4) by (nonlinear_arith)
        requires
            0 <= i,
    ;
}

/// Each stable (Turkish) prayer label localizes to the prayer at its own
/// position, in every language.
pub proof fn lemma_localize_prayer_label(i: int, lang: Language)
    requires
        0 <= i < 5,
    ensures
        prayer_table(lang)[name_index(PRAYER_NAMES_TR, PRAYER_NAMES_TR[i]@, 0)] == prayer_table(lang)[i],
{
    reveal_strlit("İMSAK");
    reveal_strlit("ÖĞLE");
    reveal_strlit("İKİNDİ");
    reveal_strlit("AKŞAM");
    reveal_strlit("YATSI");
    let n = PRAYER_NAMES_TR;
    assert(n[0]@[0] != n[3]@[0] && n[0]@[0] != n[4]@[0] && n[3]@[0] != n[4]@[0]);
    assert(n[0]@.len() != n[1]@.len() && n[0]@.len() != n[2]@.len() && n[1]@.len() != n[2]@.len());
    assert(n[1]@.len() != n[3]@.len() && n[1]@.len() != n[4]@.len() && n[2]@.len() != n[3]@.len() && n[2]@.len() != n[4]@.len());
    reveal_with_fuel(name_index, 6);
}

/// Each stable (Turkish) weekday name localizes to the weekday at its own
/// position, in every language.
pub proof fn lemma_localize_weekday_name(i: int, lang: Language)
    requires
        0 <= i < 7,
    ensures
        weekday_table(lang)[name_index(WEEKDAY_NAMES_TR, WEEKDAY_NAMES_TR[i]@, 0)] == weekday_table(lang)[i],
{
    reveal_strlit("PAZAR");
    reveal_strlit("PAZARTESİ");
    reveal_strlit("SALI");
    reveal_strlit("ÇARŞAMBA");
    reveal_strlit("PERŞEMBE");
    reveal_strlit("CUMA");
    reveal_strlit("CUMARTESİ");
    let n = WEEKDAY_NAMES_TR;
    assert forall|a: int, b: int| 0 <= a < b < 7 implies #[trigger] n[a]@ != #[trigger] n[b]@ by {
        if n[a]@.len() == n[b]@.len() {
            assert(n[a]@[0] != n[b]@[0] || n[a]@[1] != n[b]@[1]);
        }
    }
    reveal_with_fuel(name_index, 8);
}

/// Each decimal digit character is a digit of its own value.
proof fn lemma_digit_char(d: int)
    requires
        0 <= d < 10,
    ensures
        is_digit(digit_char(d)),
        digit_value(digit_char(d)) == d,
{
    if d == 0 { assert(digit_char(d) == '0'); }
    else if d == 1 { assert(digit_char(d) == '1'); }
    else if d == 2 { assert(digit_char(d) == '2'); }
    else if d == 3 { assert(digit_char(d) == '3'); }
    else if d == 4 { assert(digit_char(d) == '4'); }
    else if d == 5 { assert(digit_char(d) == '5'); }
    else if d == 6 { assert(digit_char(d) == '6'); }
    else if d == 7 { assert(digit_char(d) == '7'); }
    else if d == 8 { assert(digit_char(d) == '8'); }
    else { assert(digit_char(d) == '9'); }
}

/// Appending a digit shifts the value one place.
proof fn lemma_decimal_value_push(s: Seq<char>, c: char)
    ensures
        decimal_value(s.push(c)) == decimal_value(s) * 10 + digit_value(c),
{
    assert(s.push(c).drop_last() =~= s);
    assert(s.push(c).last() == c);
}

/// The decimal digits of a number read back as that number.
proof fn lemma_decimal_reads_back(v: nat)
    ensures
        decimal_value(decimal(v)) == v,
        forall|i: int| 0 <= i < decimal(v).len() ==> is_digit(#[trigger] decimal(v)[i]),
        decimal(v).len() >= 1,
        v >= 10 ==> decimal(v).len() >= 2,
        v < 100 ==> decimal(v).len() <= 2,
    decreases v,
{
    let d = (v % 10) as int;
    assert(0 <= d < 10);
    lemma_digit_char(d);
    assert(decimal_value(seq![digit_char(d)]) == d) by {
        assert(seq![digit_char(d)] =~= Seq::<char>::empty().push(digit_char(d)));
        lemma_decimal_value_push(Seq::<char>::empty(), digit_char(d));
    }
    if v >= 10 {
        lemma_decimal_reads_back(v / 10);
        let pre = decimal(v / 10);
        let full = pre.push(digit_char(d));
        lemma_decimal_value_push(pre, digit_char(d));
        assert(decimal(v) == full);
        assert(forall|i: int| 0 <= i < full.len() ==> is_digit(#[trigger] full[i])) by {
            assert forall|i: int| 0 <= i < full.len() implies is_digit(#[trigger] full[i]) by {
                if i < pre.len() {
                    assert(full[i] == pre[i]);
                }
            }
        }
    }
}

/// Two-digit fields read back as their number, with a leading zero below
/// ten.
proof fn lemma_two_digits_reads_back(v: nat)
    ensures
        decimal_value(two_digits(v)) == v,
        forall|i: int| 0 <= i < two_digits(v).len() ==> is_digit(#[trigger] two_digits(v)[i]),
        two_digits(v).len() >= 2,
        v < 100 ==> two_digits(v).len() == 2,
{
    lemma_decimal_reads_back(v);
    if v < 10 {
        lemma_digit_char(v as int);
        let t = seq!['0', digit_char(v as int)];
        assert(t =~= Seq::<char>::empty().push('0').push(digit_char(v as int)));
        lemma_decimal_value_push(Seq::<char>::empty(), '0');
        lemma_decimal_value_push(Seq::<char>::empty().push('0'), digit_char(v as int));
        assert(two_digits(v) == t);
    }
}

/// The countdown reads back as the time left: three colon-separated fields
/// of digits (hours, then two-digit minutes and seconds below 60) whose
/// values add up to the remaining seconds; a time already past reads
/// 00:00:00.
pub proof fn lemma_countdown_reads_back(remaining: int)
    ensures
        ({
            let t = if remaining > 0 { remaining } else { 0 };
            exists|hs: Seq<char>, ms: Seq<char>, ss: Seq<char>|
                #![trigger decimal_value(hs), decimal_value(ms), decimal_value(ss)]
                countdown_text(remaining) == hs + seq![':'] + ms + seq![':'] + ss
                && hs.len() >= 2 && ms.len() == 2 && ss.len() == 2
                && (forall|i: int| 0 <= i < hs.len() ==> is_digit(#[trigger] hs[i]))
                && (forall|i: int| 0 <= i < ms.len() ==> is_digit(#[trigger] ms[i]))
                && (forall|i: int| 0 <= i < ss.len() ==> is_digit(#[trigger] ss[i]))
                && decimal_value(ms) < 60 && decimal_value(ss) < 60
                && decimal_value(hs) * 3600 + decimal_value(ms) * 60 + decimal_value(ss) == t
        }),
{
    let t = if remaining > 0 { remaining } else { 0 };
    let h = (t / 3600) as nat;
    let m = ((t % 3600) / 60) as nat;
    let sec = (t % 60) as nat;
    lemma_two_digits_reads_back(h);
    lemma_two_digits_reads_back(m);
    lemma_two_digits_reads_back(sec);
    assert(h * 3600 + m * 60 + sec == t) by (nonlinear_arith)
        requires
            t >= 0,
            h == t / 3600,
            m == (t % 3600) / 60,
            sec == t % 60,
    ;
    let hs = two_digits(h);
    let ms = two_digits(m);
    let ss = two_digits(sec);
    assert(countdown_text(remaining) == hs + seq![':'] + ms + seq![':'] + ss);
    assert(decimal_value(ms) < 60 && decimal_value(ss) < 60);
}

} // verus!
