//! Layout, hit-testing and editing rules of the on-screen keyboard and its
//! single-line text-entry field, shared by the WiFi and location screens.
//!
//! The laid-out key list is the single source of truth for both drawing and
//! hit-testing, so a tap always maps back to exactly what was drawn.

use vstd::prelude::*;
use vstd::string::*;

use crate::language::{text, translation, Language, Msg};
use crate::unicode::{pop_char, push_char};

verus! {

broadcast use vstd::string::group_string_axioms;

/// The three key layers.
#[derive(Clone, Copy, PartialEq, Eq, Debug, Structural)]
pub enum Layer {
    Lower,
    Upper,
    Symbols,
}

/// What a key does when tapped.
#[derive(Clone, Copy, PartialEq, Eq, Debug, Structural)]
pub enum KeyAction {
    Char(char),
    Shift,
    ToggleSymbols,
    Backspace,
    Space,
    Done,
}

/// One key with its label and on-screen box.
#[derive(Debug)]
pub struct PlacedKey {
    pub action: KeyAction,
    pub label: String,
    /// Script the label is shaped in: Latin (English) for the character keys
    /// so ASCII always renders, the active language for the localized
    /// controls.
    pub label_lang: Language,
    pub x: i32,
    pub y: i32,
    pub w: u32,
    pub h: u32,
}

/// Top edge of the first key row.
pub const KB_TOP: i32 = 76;
/// Width of a character key.
pub const KEY_W: u32 = 44;
/// Height of every key.
pub const KEY_H: u32 = 44;
/// Horizontal gap between keys.
pub const KEY_HGAP: i32 = 3;
/// Vertical gap between rows.
pub const KEY_VGAP: i32 = 4;
/// Left and right margin of the control row.
pub const KB_MARGIN: i32 = 6;

/// Character rows of the lower-case layer.
pub const ROWS_LOWER: [&'static str; 4] = ["1234567890", "qwertyuiop", "asdfghjkl", "zxcvbnm"];
/// Character rows of the upper-case layer.
pub const ROWS_UPPER: [&'static str; 4] = ["1234567890", "QWERTYUIOP", "ASDFGHJKL", "ZXCVBNM"];
/// Character rows of the symbols layer.
pub const ROWS_SYMBOLS: [&'static str; 4] = ["1234567890", "!@#$%^&*()", "-_=+[]{}\\|", ";:'\",.<>/?"];

/// The character rows of a layer.
pub open spec fn layer_rows(layer: Layer) -> [&'static str; 4] {
    match layer {
        Layer::Lower => ROWS_LOWER,
        Layer::Upper => ROWS_UPPER,
        Layer::Symbols => ROWS_SYMBOLS,
    }
}

/// A key as the contracts see it: action, label, label script, x, y, width,
/// height.
pub type KeyView = (KeyAction, Seq<char>, Language, int, int, int, int);

/// The view of a placed key.
pub open spec fn key_view(k: PlacedKey) -> KeyView {
    (k.action, k.label@, k.label_lang, k.x as int, k.y as int, k.w as int, k.h as int)
}

/// Distance from one key row to the next.
pub open spec fn pitch() -> int {
    KEY_H + KEY_VGAP
}

/// Left edge of a centred row of `n` character keys.
pub open spec fn row_start_x(n: int) -> int {
    (480 - (n * KEY_W + (n - 1) * KEY_HGAP)) / 2
}

/// The keys of character row `r` of `layer`, left to right, centred on the
/// 480-pixel panel.
pub open spec fn char_row(layer: Layer, r: int) -> Seq<KeyView> {
    let row = layer_rows(layer)[r]@;
    Seq::new(row.len(), |c: int| char_key(row, r, c))
}

/// Key `c` of the centred character row `row`, which is row `r` of the
/// keyboard.
pub open spec fn char_key(row: Seq<char>, r: int, c: int) -> KeyView {
    (
        KeyAction::Char(row[c]),
        seq![row[c]],
        Language::English,
        row_start_x(row.len() as int) + c * (KEY_W + KEY_HGAP),
        KB_TOP + r * pitch(),
        KEY_W as int,
        KEY_H as int,
    )
}

/// The keys of the first `r` character rows.
pub open spec fn char_rows(layer: Layer, r: int) -> Seq<KeyView>
    decreases r,
{
    if r <= 0 {
        Seq::empty()
    } else {
        char_rows(layer, r - 1) + char_row(layer, r - 1)
    }
}

/// The control-row keys of a layer as (action, label, label script, width);
/// width 0 marks the flexible space key.
pub open spec fn control_specs(layer: Layer, lang: Language) -> Seq<(KeyAction, Seq<char>, Language, int)> {
    let space = translation(lang, Msg::KeySpace)@;
    let done = translation(lang, Msg::KeyDone)@;
    match layer {
        Layer::Symbols => seq![
            (KeyAction::ToggleSymbols, "ABC"@, Language::English, 58int),
            (KeyAction::Space, space, lang, 0int),
            (KeyAction::Backspace, "del"@, Language::English, 58int),
            (KeyAction::Done, done, lang, 64int),
        ],
        _ => seq![
            (KeyAction::ToggleSymbols, "123"@, Language::English, 58int),
            (KeyAction::Shift, "Aa"@, Language::English, 58int),
            (KeyAction::Space, space, lang, 0int),
            (KeyAction::Backspace, "del"@, Language::English, 58int),
            (KeyAction::Done, done, lang, 64int),
        ],
    }
}

/// Sum of the fixed widths of the first `i` controls.
pub open spec fn fixed_width(cs: Seq<(KeyAction, Seq<char>, Language, int)>, i: int) -> int
    decreases i,
{
    if i <= 0 {
        0
    } else {
        fixed_width(cs, i - 1) + cs[i - 1].3
    }
}

/// Width of the flexible key: whatever is left of the row between the
/// margins, but never narrower than a character key.
pub open spec fn flex_width(cs: Seq<(KeyAction, Seq<char>, Language, int)>) -> int {
    let w = (480 - 2 * KB_MARGIN) - fixed_width(cs, cs.len() as int) - (cs.len() - 1) * KEY_HGAP;
    if w > KEY_W { w } else { KEY_W as int }
}

/// Actual width of control `i`.
pub open spec fn control_width(cs: Seq<(KeyAction, Seq<char>, Language, int)>, i: int) -> int {
    if cs[i].3 == 0 { flex_width(cs) } else { cs[i].3 }
}

/// Left edge of control `i`: the margin, then each earlier control and a gap.
pub open spec fn control_x(cs: Seq<(KeyAction, Seq<char>, Language, int)>, i: int) -> int
    decreases i,
{
    if i <= 0 {
        KB_MARGIN as int
    } else {
        control_x(cs, i - 1) + control_width(cs, i - 1) + KEY_HGAP
    }
}

/// The laid-out control row of a layer.
pub open spec fn control_row(layer: Layer, lang: Language) -> Seq<KeyView> {
    let cs = control_specs(layer, lang);
    Seq::new(cs.len(), |i: int| (
        cs[i].0,
        cs[i].1,
        cs[i].2,
        control_x(cs, i),
        KB_TOP + 4 * pitch(),
        control_width(cs, i),
        KEY_H as int,
    ))
}

/// The full layout of a layer: four character rows, then the control row.
pub open spec fn keyboard_layout(layer: Layer, lang: Language) -> Seq<KeyView> {
    char_rows(layer, 4) + control_row(layer, lang)
}

/// The string literal views of the character rows.
proof fn lemma_row_lengths(layer: Layer, r: int)
    requires
        0 <= r < 4,
    ensures
        1 <= layer_rows(layer)[r]@.len() <= 10,
{
    reveal_strlit("1234567890");
    reveal_strlit("qwertyuiop");
    reveal_strlit("asdfghjkl");
    reveal_strlit("zxcvbnm");
    reveal_strlit("QWERTYUIOP");
    reveal_strlit("ASDFGHJKL");
    reveal_strlit("ZXCVBNM");
    reveal_strlit("!@#$%^&*()");
    reveal_strlit("-_=+[]{}\\|");
    reveal_strlit(";:'\",.<>/?");
}

/// A one-character string.
fn char_string(ch: char) -> (s: String)
    ensures
        s@ == seq![ch],
{
    let mut s = String::new();
    push_char(&mut s, ch);
    s
}

/// A copy of a string slice.
fn owned(s: &str) -> (r: String)
    ensures
        r@ == s@,
{
    s.to_string()
}

/// Builds the full laid-out key list for a layer, control row included. This
/// is the single source of truth shared by drawing and hit-testing.
pub fn layout_keys(layer: Layer, lang: Language) -> (keys: Vec<PlacedKey>)
    ensures
        keys@.map_values(|k: PlacedKey| key_view(k)) == keyboard_layout(layer, lang),
{
    let rows: [&'static str; 4] = match layer {
        Layer::Lower => ROWS_LOWER,
        Layer::Upper => ROWS_UPPER,
        Layer::Symbols => ROWS_SYMBOLS,
    };

    let mut keys: Vec<PlacedKey> = Vec::new();
    let mut r: usize = 0;
    while r < 4
        invariant
            r <= 4,
            rows == layer_rows(layer),
            keys@.map_values(|k: PlacedKey| key_view(k)) == char_rows(layer, r as int),
        decreases 4 - r,
    {
        let row = rows[r];
        proof {
            lemma_row_lengths(layer, r as int);
        }
        let n = row.unicode_len();
        let ni = n as i32;
        let row_w = ni * (KEY_W as i32) + (ni - 1) * KEY_HGAP;
        let start_x = (480 - row_w) / 2;
        let y = KB_TOP + (r as i32) * (KEY_H as i32 + KEY_VGAP);
        let ghost before = keys@.map_values(|k: PlacedKey| key_view(k));
        let mut c: usize = 0;
        while c < n
            invariant
                r < 4,
                row@ == layer_rows(layer)[r as int]@,
                n == row@.len(),
                1 <= n <= 10,
                start_x == row_start_x(n as int),
                6 <= start_x <= 240,
                y == KB_TOP + r * pitch(),
                c <= n,
                keys@.map_values(|k: PlacedKey| key_view(k)) == before + char_row(layer, r as int).take(c as int),
            decreases n - c,
        {
            let ch = row.get_char(c);
            let step: i32 = KEY_W as i32 + KEY_HGAP;
            assert(0 <= (c as i32) * step <= 470) by (nonlinear_arith)
                requires
                    c < 10,
                    step == 47,
            ;
            let key = PlacedKey {
                action: KeyAction::Char(ch),
                label: char_string(ch),
                label_lang: Language::English,
                x: start_x + (c as i32) * step,
                y,
                w: KEY_W,
                h: KEY_H,
            };
            let ghost old_keys = keys@;
            keys.push(key);
            proof {
                assert(key_view(key) == char_row(layer, r as int)[c as int]);
                assert(keys@.map_values(|k: PlacedKey| key_view(k)) =~= old_keys.map_values(|k: PlacedKey| key_view(k)).push(key_view(key)));
                assert(char_row(layer, r as int).take(c + 1) =~= char_row(layer, r as int).take(c as int).push(char_row(layer, r as int)[c as int]));
                assert(keys@.map_values(|k: PlacedKey| key_view(k)) =~= before + char_row(layer, r as int).take(c + 1));
            }
            c = c + 1;
        }
        proof {
            assert(char_row(layer, r as int).len() == n);
            assert(char_row(layer, r as int).take(n as int) =~= char_row(layer, r as int));
        }
        r = r + 1;
    }

    // Control row. A width of 0 marks the flex key (space), which absorbs the
    // leftover width so the row always spans edge-to-edge.
    let done = text(lang, Msg::KeyDone);
    let space = text(lang, Msg::KeySpace);
    let controls: Vec<(KeyAction, &str, Language, u32)> = match layer {
        Layer::Symbols => vec![
            (KeyAction::ToggleSymbols, "ABC", Language::English, 58),
            (KeyAction::Space, space, lang, 0),
            (KeyAction::Backspace, "del", Language::English, 58),
            (KeyAction::Done, done, lang, 64),
        ],
        _ => vec![
            (KeyAction::ToggleSymbols, "123", Language::English, 58),
            (KeyAction::Shift, "Aa", Language::English, 58),
            (KeyAction::Space, space, lang, 0),
            (KeyAction::Backspace, "del", Language::English, 58),
            (KeyAction::Done, done, lang, 64),
        ],
    };
    let ghost cs = control_specs(layer, lang);
    proof {
        assert(controls@.len() == cs.len());
        assert forall|i: int| 0 <= i < cs.len() implies
            (#[trigger] controls@[i]).0 == cs[i].0 && controls@[i].1@ == cs[i].1
            && controls@[i].2 == cs[i].2 && controls@[i].3 as int == cs[i].3 by {}
    }

    let avail = 480 - 2 * KB_MARGIN;
    let n = controls.len();
    let mut fixed: i32 = 0;
    let mut i: usize = 0;
    while i < n
        invariant
            n == controls@.len(),
            n == cs.len(),
            4 <= n <= 5,
            i <= n,
            forall|j: int| 0 <= j < n ==> (#[trigger] controls@[j]).3 as int == cs[j].3 && cs[j].3 <= 64,
            cs == control_specs(layer, lang),
            fixed == fixed_width(cs, i as int),
            0 <= fixed <= 64 * i,
        decreases n - i,
    {
        fixed = fixed + controls[i].3 as i32;
        i = i + 1;
    }
    let ni = n as i32;
    let free = avail - fixed - (ni - 1) * KEY_HGAP;
    let flex = if free > KEY_W as i32 { free } else { KEY_W as i32 };
    let y = KB_TOP + 4 * (KEY_H as i32 + KEY_VGAP);
    let mut x = KB_MARGIN;
    let ghost before = keys@.map_values(|k: PlacedKey| key_view(k));
    let mut i: usize = 0;
    while i < n
        invariant
            n == controls@.len(),
            n == cs.len(),
            4 <= n <= 5,
            i <= n,
            forall|j: int| 0 <= j < n ==> (#[trigger] controls@[j]).0 == cs[j].0 && controls@[j].1@ == cs[j].1
                && controls@[j].2 == cs[j].2 && controls@[j].3 as int == cs[j].3 && 0 <= cs[j].3 <= 64,
            flex == flex_width(cs),
            44 <= flex <= 468,
            y == KB_TOP + 4 * pitch(),
            cs == control_specs(layer, lang),
            x == control_x(cs, i as int),
            KB_MARGIN <= x <= KB_MARGIN + 471 * i,
            keys@.map_values(|k: PlacedKey| key_view(k)) == before + control_row(layer, lang).take(i as int),
        decreases n - i,
    {
        let (action, label, label_lang, w0) = controls[i];
        let w: u32 = if w0 == 0 { flex as u32 } else { w0 };
        let key = PlacedKey { action, label: owned(label), label_lang, x, y, w, h: KEY_H };
        let ghost old_keys = keys@;
        keys.push(key);
        proof {
            assert(control_row(layer, lang).len() == n);
            let kv = control_row(layer, lang)[i as int];
            assert(kv.0 == key.action);
            assert(kv.1 == key.label@);
            assert(kv.2 == key.label_lang);
            assert(kv.3 == key.x as int);
            assert(kv.4 == key.y as int);
            assert(kv.5 == key.w as int);
            assert(kv.6 == key.h as int);
            assert(key_view(key) == control_row(layer, lang)[i as int]);
            assert(keys@.map_values(|k: PlacedKey| key_view(k)) =~= old_keys.map_values(|k: PlacedKey| key_view(k)).push(key_view(key)));
            assert(control_row(layer, lang).take(i + 1) =~= control_row(layer, lang).take(i as int).push(control_row(layer, lang)[i as int]));
        }
        x = x + w as i32 + KEY_HGAP;
        i = i + 1;
    }
    proof {
        assert(control_row(layer, lang).take(n as int) =~= control_row(layer, lang));
    }
    keys
}

/// Whether the box of key `k` contains the point `(x, y)`.
pub open spec fn key_contains(k: KeyView, x: int, y: int) -> bool {
    k.3 <= x < k.3 + k.5 && k.4 <= y < k.4 + k.6
}

/// The action of the first key, from index `i` on, whose box contains the
/// point.
pub open spec fn first_hit(keys: Seq<KeyView>, x: int, y: int, i: int) -> Option<KeyAction>
    decreases keys.len() - i,
{
    if i < 0 || i >= keys.len() {
        None
    } else if key_contains(keys[i], x, y) {
        Some(keys[i].0)
    } else {
        first_hit(keys, x, y, i + 1)
    }
}

/// Maps a calibrated tap to the key action under it, if any.
pub fn hit_key(x: i32, y: i32, layer: Layer, lang: Language) -> (r: Option<KeyAction>)
    ensures
        r == first_hit(keyboard_layout(layer, lang), x as int, y as int, 0),
{
    let keys = layout_keys(layer, lang);
    let ghost views = keys@.map_values(|k: PlacedKey| key_view(k));
    let n = keys.len();
    let mut i: usize = 0;
    while i < n
        invariant
            n == keys@.len(),
            views == keys@.map_values(|k: PlacedKey| key_view(k)),
            views == keyboard_layout(layer, lang),
            i <= n,
            first_hit(views, x as int, y as int, 0) == first_hit(views, x as int, y as int, i as int),
        decreases n - i,
    {
        let k = &keys[i];
        assert(views[i as int] == key_view(*k));
        let kx = k.x as i64;
        let ky = k.y as i64;
        if (x as i64) >= kx && (x as i64) < kx + k.w as i64 && (y as i64) >= ky && (y as i64) < ky + k.h as i64 {
            return Some(k.action);
        }
        i = i + 1;
    }
    None
}

/// What a key press did to the text-entry screen.
#[derive(Clone, Copy, PartialEq, Eq, Debug, Structural)]
pub enum KeyOutcome {
    /// Nothing changed (a character key with the field already full).
    Ignored,
    /// The entered text changed: repaint the field.
    FieldChanged,
    /// The key layer changed: repaint the whole keyboard.
    LayerChanged,
    /// The user confirmed the entered text.
    Done,
}

/// The layer after the shift key: lower and upper swap, symbols go back to
/// lower case.
pub open spec fn shifted(layer: Layer) -> Layer {
    match layer {
        Layer::Lower => Layer::Upper,
        Layer::Upper => Layer::Lower,
        Layer::Symbols => Layer::Lower,
    }
}

/// The layer after the symbols toggle: symbols go back to lower case,
/// anything else switches to symbols.
pub open spec fn toggled(layer: Layer) -> Layer {
    if layer == Layer::Symbols { Layer::Lower } else { Layer::Symbols }
}

/// The effect of one key press on the entered text and the layer: a
/// character or space is appended while the text is shorter than `max_len`
/// characters, backspace removes the last character, shift and the symbols
/// toggle change the layer, done confirms.
pub open spec fn entry_step(buf: Seq<char>, layer: Layer, action: KeyAction, max_len: int) -> (Seq<char>, Layer, KeyOutcome) {
    match action {
        KeyAction::Char(c) => if buf.len() < max_len {
            (buf.push(c), layer, KeyOutcome::FieldChanged)
        } else {
            (buf, layer, KeyOutcome::Ignored)
        },
        KeyAction::Space => if buf.len() < max_len {
            (buf.push(' '), layer, KeyOutcome::FieldChanged)
        } else {
            (buf, layer, KeyOutcome::Ignored)
        },
        KeyAction::Backspace => (if buf.len() > 0 { buf.drop_last() } else { buf }, layer, KeyOutcome::FieldChanged),
        KeyAction::Shift => (buf, shifted(layer), KeyOutcome::LayerChanged),
        KeyAction::ToggleSymbols => (buf, toggled(layer), KeyOutcome::LayerChanged),
        KeyAction::Done => (buf, layer, KeyOutcome::Done),
    }
}

/// Applies one key press to the text-entry state.
pub fn apply_key(buf: &mut String, layer: &mut Layer, action: KeyAction, max_len: usize) -> (o: KeyOutcome)
    ensures
        (final(buf)@, *final(layer), o) == entry_step(old(buf)@, *old(layer), action, max_len as int),
{
    match action {
        KeyAction::Char(c) => {
            if buf.as_str().unicode_len() < max_len {
                push_char(buf, c);
                KeyOutcome::FieldChanged
            } else {
                KeyOutcome::Ignored
            }
        },
        KeyAction::Space => {
            if buf.as_str().unicode_len() < max_len {
                push_char(buf, ' ');
                KeyOutcome::FieldChanged
            } else {
                KeyOutcome::Ignored
            }
        },
        KeyAction::Backspace => {
            pop_char(buf);
            KeyOutcome::FieldChanged
        },
        KeyAction::Shift => {
            *layer = match *layer {
                Layer::Lower => Layer::Upper,
                Layer::Upper => Layer::Lower,
                Layer::Symbols => Layer::Lower,
            };
            KeyOutcome::LayerChanged
        },
        KeyAction::ToggleSymbols => {
            *layer = if *layer == Layer::Symbols { Layer::Lower } else { Layer::Symbols };
            KeyOutcome::LayerChanged
        },
        KeyAction::Done => KeyOutcome::Done,
    }
}

/// Characters of the entered text that fit in the field box: the box is 464
/// pixels wide with 8 pixels of padding on each side, and each glyph is 9
/// pixels wide.
pub const FIELD_VISIBLE_CHARS: usize = 49;

/// What the field shows for the entered text `buf`: its last
/// [`FIELD_VISIBLE_CHARS`] characters (all of it when shorter), followed by
/// the `_` caret.
pub open spec fn field_view(buf: Seq<char>) -> Seq<char> {
    let shown = if buf.len() > FIELD_VISIBLE_CHARS { buf.skip(buf.len() - FIELD_VISIBLE_CHARS) } else { buf };
    shown.push('_')
}

/// The text drawn in the entry field: the tail that fits, so the most
/// recently typed characters stay visible, plus a trailing caret.
pub fn field_text(buf: &str) -> (r: String)
    ensures
        r@ == field_view(buf@),
{
    let n = buf.unicode_len();
    let shown = if n > FIELD_VISIBLE_CHARS { buf.substring_char(n - FIELD_VISIBLE_CHARS, n) } else { buf };
    let mut r = shown.to_string();
    push_char(&mut r, '_');
    proof {
        if n > FIELD_VISIBLE_CHARS {
            assert(buf@.subrange((n - FIELD_VISIBLE_CHARS) as int, n as int) =~= buf@.skip(n - FIELD_VISIBLE_CHARS));
        }
    }
    r
}

/// Typing a character into a field with room left and then pressing
/// backspace gives back the text that was there before.
pub proof fn lemma_backspace_undoes_typing(buf: Seq<char>, layer: Layer, c: char, max_len: int)
    requires
        buf.len() < max_len,
    ensures
        ({
            let (typed, l1, _) = entry_step(buf, layer, KeyAction::Char(c), max_len);
            let (erased, l2, _) = entry_step(typed, l1, KeyAction::Backspace, max_len);
            erased == buf && l2 == layer
        }),
{
    assert(buf.push(c).drop_last() =~= buf);
}

/// The entered text never grows past `max_len` characters.
pub proof fn lemma_entry_stays_within_limit(buf: Seq<char>, layer: Layer, action: KeyAction, max_len: int)
    requires
        buf.len() <= max_len,
    ensures
        entry_step(buf, layer, action, max_len).0.len() <= max_len,
{
}

/// Shift and the symbols toggle each undo themselves from the lower-case
/// layer: pressing either twice returns to lower case.
pub proof fn lemma_layer_keys_return_to_lower()
    ensures
        shifted(shifted(Layer::Lower)) == Layer::Lower,
        toggled(toggled(Layer::Lower)) == Layer::Lower,
        shifted(Layer::Symbols) == Layer::Lower,
{
}

/// The control row spans the panel edge to edge: its first key starts at the
/// left margin and its last key ends at the right margin.
pub proof fn lemma_control_row_spans_width(layer: Layer, lang: Language)
    ensures
        ({
            let row = control_row(layer, lang);
            &&& row[0].3 == KB_MARGIN
            &&& row.last().3 + row.last().5 == 480 - KB_MARGIN
        }),
{
    let cs = control_specs(layer, lang);
    reveal_with_fuel(fixed_width, 6);
    reveal_with_fuel(control_x, 6);
    assert(cs.len() == 4 || cs.len() == 5);
}

} // verus!
