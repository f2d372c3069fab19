//! Geometry of the large seven-segment countdown: which rectangles make up a
//! digit, where the two dots of a colon go, and where each glyph of an
//! "HH:MM:SS" string sits. The drawing itself (filling the rectangles) is
//! done by the caller.

use vstd::prelude::*;

verus! {

/// Lit segments of each digit, in the order a (top), b (top right),
/// c (bottom right), d (bottom), e (bottom left), f (top left), g (middle).
pub const DIGIT_SEGMENTS: [[bool; 7]; 10] = [
    [true, true, true, true, true, true, false],    // 0
    [false, true, true, false, false, false, false], // 1
    [true, true, false, true, true, false, true],   // 2
    [true, true, true, true, false, false, true],   // 3
    [false, true, true, false, false, true, true],  // 4
    [true, false, true, true, false, true, true],   // 5
    [true, false, true, true, true, true, true],    // 6
    [true, true, true, false, false, false, false], // 7
    [true, true, true, true, true, true, true],     // 8
    [true, true, true, true, false, true, true],    // 9
];

/// The order in which the segments are drawn: a, f, b, g, e, c, d.
pub const DRAW_ORDER: [usize; 7] = [0, 5, 1, 6, 4, 2, 3];

/// A filled rectangle: top-left corner and size.
#[derive(Clone, Copy, PartialEq, Eq, Debug, Structural)]
pub struct Rect {
    pub x: i32,
    pub y: i32,
    pub w: u32,
    pub h: u32,
}

/// The view of a rectangle.
pub open spec fn rect_view(r: Rect) -> (int, int, int, int) {
    (r.x as int, r.y as int, r.w as int, r.h as int)
}

/// The box of segment `seg` of a `w`×`h` glyph at `(x, y)` drawn with
/// `t`-pixel segments; the vertical segments are `(h - t) / 2` tall.
pub open spec fn segment_box(x: int, y: int, w: int, h: int, t: int, seg: int) -> (int, int, int, int) {
    let half_h = (h - t) / 2;
    if seg == 0 {
        (x + t, y, w - 2 * t, t)
    } else if seg == 5 {
        (x, y + t, t, half_h)
    } else if seg == 1 {
        (x + w - t, y + t, t, half_h)
    } else if seg == 6 {
        (x + t, y + half_h, w - 2 * t, t)
    } else if seg == 4 {
        (x, y + half_h + t, t, half_h)
    } else if seg == 2 {
        (x + w - t, y + half_h + t, t, half_h)
    } else {
        (x + t, y + h - t, w - 2 * t, t)
    }
}

/// The boxes of the lit segments of `digit` (taken modulo 10), among the
/// first `k` segments in drawing order.
pub open spec fn digit_boxes(x: int, y: int, w: int, h: int, t: int, digit: int, k: int) -> Seq<(int, int, int, int)>
    decreases k,
{
    if k <= 0 {
        Seq::empty()
    } else {
        let before = digit_boxes(x, y, w, h, t, digit, k - 1);
        let seg = DRAW_ORDER[k - 1] as int;
        if DIGIT_SEGMENTS[digit % 10][seg] {
            before.push(segment_box(x, y, w, h, t, seg))
        } else {
            before
        }
    }
}

/// The sizes for which a glyph fits in `i32` coordinates: segments no
/// thicker than the glyph, glyph size and position small enough.
pub open spec fn glyph_fits(x: int, y: int, w: int, h: int, t: int) -> bool {
    &&& t <= h
    &&& 2 * t <= w
    &&& w <= i32::MAX
    &&& h <= i32::MAX
    &&& x + w <= i32::MAX
    &&& y + h <= i32::MAX
}

/// The rectangles of a single digit (0-9) drawn as a seven-segment glyph
/// inside a `w`×`h` box whose top-left corner is `(x, y)`, using
/// `thickness`-pixel wide segments, in drawing order.
pub fn digit_segments(x: i32, y: i32, w: u32, h: u32, thickness: u32, digit: u8) -> (rects: Vec<Rect>)
    requires
        glyph_fits(x as int, y as int, w as int, h as int, thickness as int),
    ensures
        rects@.map_values(|r: Rect| rect_view(r)) == digit_boxes(x as int, y as int, w as int, h as int, thickness as int, digit as int, 7),
        segments_apart(w as int, h as int, thickness as int) ==> forall|seg: int|
            0 <= seg < 7 ==> (rects@.map_values(|r: Rect| rect_view(r)).contains(
                #[trigger] segment_box(x as int, y as int, w as int, h as int, thickness as int, seg),
            ) <==> DIGIT_SEGMENTS[(digit % 10) as int][seg]),
{
    let segs = DIGIT_SEGMENTS[(digit % 10) as usize];
    let t = thickness;
    let half_h = (h - t) / 2;
    let ti = t as i32;
    let hh = half_h as i32;
    let mut rects: Vec<Rect> = Vec::new();
    let mut k: usize = 0;
    while k < 7
        invariant
            k <= 7,
            glyph_fits(x as int, y as int, w as int, h as int, t as int),
            segs == DIGIT_SEGMENTS[(digit % 10) as int],
            t == thickness,
            half_h == (h - t) / 2,
            ti == t,
            hh == half_h,
            rects@.map_values(|r: Rect| rect_view(r)) == digit_boxes(x as int, y as int, w as int, h as int, t as int, digit as int, k as int),
        decreases 7 - k,
    {
        let seg = DRAW_ORDER[k];
        let ghost before = rects@;
        if segs[seg] {
            let r = if seg == 0 {
                Rect { x: x + ti, y, w: w - 2 * t, h: t }
            } else if seg == 5 {
                Rect { x, y: y + ti, w: t, h: half_h }
            } else if seg == 1 {
                Rect { x: x + (w - t) as i32, y: y + ti, w: t, h: half_h }
            } else if seg == 6 {
                Rect { x: x + ti, y: y + hh, w: w - 2 * t, h: t }
            } else if seg == 4 {
                Rect { x, y: y + (half_h + t) as i32, w: t, h: half_h }
            } else if seg == 2 {
                Rect { x: x + (w - t) as i32, y: y + (half_h + t) as i32, w: t, h: half_h }
            } else {
                Rect { x: x + ti, y: y + (h - t) as i32, w: w - 2 * t, h: t }
            };
            rects.push(r);
            proof {
                assert(rect_view(r) == segment_box(x as int, y as int, w as int, h as int, t as int, seg as int));
                assert(rects@.map_values(|r: Rect| rect_view(r)) =~= before.map_values(|r: Rect| rect_view(r)).push(rect_view(r)));
            }
        }
        k = k + 1;
    }
    proof {
        if segments_apart(w as int, h as int, thickness as int) {
            assert forall|seg: int| 0 <= seg < 7 implies (rects@.map_values(|r: Rect| rect_view(r)).contains(
                #[trigger] segment_box(x as int, y as int, w as int, h as int, thickness as int, seg),
            ) <==> DIGIT_SEGMENTS[(digit % 10) as int][seg]) by {
                lemma_digit_draws_its_segments(x as int, y as int, w as int, h as int, thickness as int, digit as int, seg);
            }
        }
    }
    rects
}

/// The two dots of a colon at `(x, y)` in an `h`-tall row: `w`×`w` squares, a
/// third of the row height from the top and from the bottom.
pub open spec fn colon_boxes(x: int, y: int, w: int, h: int) -> Seq<(int, int, int, int)> {
    let gap = h / 3;
    seq![(x, y + gap, w, w), (x, y + h - gap - w, w, w)]
}

/// The rectangles of a colon (two small squares) at `(x, y)`, vertically
/// placed in an `h`-tall row.
pub fn colon_dots(x: i32, y: i32, w: u32, h: u32) -> (rects: Vec<Rect>)
    requires
        w <= h - h / 3,
        h - h / 3 - w <= i32::MAX,
        y + h / 3 <= i32::MAX,
        y + (h - h / 3 - w) <= i32::MAX,
    ensures
        rects@.map_values(|r: Rect| rect_view(r)) == colon_boxes(x as int, y as int, w as int, h as int),
{
    let dot_h = w;
    let gap = h / 3;
    let mut rects: Vec<Rect> = Vec::new();
    rects.push(Rect { x, y: y + gap as i32, w, h: dot_h });
    rects.push(Rect { x, y: y + (h - gap - dot_h) as i32, w, h: dot_h });
    proof {
        assert(rects@.map_values(|r: Rect| rect_view(r)) =~= colon_boxes(x as int, y as int, w as int, h as int));
    }
    rects
}

/// The horizontal advance of a character of a big-time string: a digit takes
/// `digit_w`, a colon `thickness`, each followed by `gap`; anything else is
/// skipped.
pub open spec fn advance(c: char, digit_w: int, thickness: int, gap: int) -> int {
    if '0' <= c && c <= '9' {
        digit_w + gap
    } else if c == ':' {
        thickness + gap
    } else {
        0
    }
}

/// The total advance of a big-time string.
pub open spec fn total_advance(s: Seq<char>, digit_w: int, thickness: int, gap: int) -> int
    decreases s.len(),
{
    if s.len() == 0 {
        0
    } else {
        total_advance(s.drop_last(), digit_w, thickness, gap) + advance(s.last(), digit_w, thickness, gap)
    }
}

/// Whether a string holds a digit.
pub open spec fn has_digit(s: Seq<char>) -> bool {
    exists|i: int| 0 <= i < s.len() && '0' <= #[trigger] s[i] && s[i] <= '9'
}

/// Whether a string holds a colon.
pub open spec fn has_colon(s: Seq<char>) -> bool {
    exists|i: int| 0 <= i < s.len() && #[trigger] s[i] == ':'
}

/// Whether a string holds a digit or a colon.
pub open spec fn has_glyph(s: Seq<char>) -> bool {
    exists|i: int| 0 <= i < s.len() && (('0' <= #[trigger] s[i] && s[i] <= '9') || s[i] == ':')
}

/// The width a big-time string takes: its total advance without the gap
/// after the last glyph, or 0 when it has no glyph.
pub open spec fn big_time_width(s: Seq<char>, digit_w: int, thickness: int, gap: int) -> int {
    if has_glyph(s) { total_advance(s, digit_w, thickness, gap) - gap } else { 0 }
}

/// One glyph of a big-time string: a digit or a colon at a left edge.
#[derive(Clone, Copy, PartialEq, Eq, Debug, Structural)]
pub enum Glyph {
    Digit { x: i32, digit: u8 },
    Colon { x: i32 },
}

/// The glyphs of the first characters of `s`, placed from `x0` on.
pub open spec fn glyphs_of(s: Seq<char>, x0: int, digit_w: int, thickness: int, gap: int) -> Seq<Glyph>
    decreases s.len(),
{
    if s.len() == 0 {
        Seq::empty()
    } else {
        let before = glyphs_of(s.drop_last(), x0, digit_w, thickness, gap);
        let x = x0 + total_advance(s.drop_last(), digit_w, thickness, gap);
        let c = s.last();
        if '0' <= c && c <= '9' {
            before.push(Glyph::Digit { x: x as i32, digit: ((c as u32) - ('0' as u32)) as u8 })
        } else if c == ':' {
            before.push(Glyph::Colon { x: x as i32 })
        } else {
            before
        }
    }
}

/// Every prefix advances no further than the whole string.
proof fn lemma_advance_monotone(s: Seq<char>, k: int, digit_w: int, thickness: int, gap: int)
    requires
        0 <= k <= s.len(),
        digit_w >= 0,
        thickness >= 0,
        gap >= 0,
    ensures
        0 <= total_advance(s.take(k), digit_w, thickness, gap) <= total_advance(s, digit_w, thickness, gap),
    decreases s.len(),
{
    if k < s.len() {
        assert(s.drop_last().take(k) =~= s.take(k));
        lemma_advance_monotone(s.drop_last(), k, digit_w, thickness, gap);
    } else {
        assert(s.take(k) =~= s);
        if s.len() > 0 {
            lemma_advance_monotone(s.drop_last(), s.len() - 1, digit_w, thickness, gap);
            assert(s.drop_last().take(s.len() - 1) =~= s.drop_last());
        }
    }
}

/// Lays out a string containing `0-9` and `:` as large seven-segment glyphs
/// starting at `x0`: each digit advances `digit_w + gap`, each colon
/// `thickness + gap`, other characters are skipped. Returns the glyphs and
/// the total width drawn.
pub fn big_time_layout(x0: i32, digit_w: u32, thickness: u32, gap: u32, text: &str) -> (r: (Vec<Glyph>, u32))
    requires
        gap <= i32::MAX,
        has_digit(text@) ==> digit_w + gap <= i32::MAX,
        has_colon(text@) ==> thickness + gap <= i32::MAX,
        x0 + total_advance(text@, digit_w as int, thickness as int, gap as int) <= i32::MAX,
        has_glyph(text@) || x0 - gap >= i32::MIN,
    ensures
        r.0@ == glyphs_of(text@, x0 as int, digit_w as int, thickness as int, gap as int),
        r.1 == big_time_width(text@, digit_w as int, thickness as int, gap as int),
{
    let ghost dw = digit_w as int;
    let ghost th = thickness as int;
    let ghost g = gap as int;
    let mut glyphs: Vec<Glyph> = Vec::new();
    let mut x = x0;
    let mut any = false;
    for ch in it: text.chars()
        invariant
            it.seq() == text@,
            gap <= i32::MAX,
            has_digit(text@) ==> digit_w + gap <= i32::MAX,
            has_colon(text@) ==> thickness + gap <= i32::MAX,
            x0 + total_advance(text@, dw, th, g) <= i32::MAX,
            dw == digit_w,
            th == thickness,
            g == gap,
            x == x0 + total_advance(text@.take(it.index() as int), dw, th, g),
            glyphs@ == glyphs_of(text@.take(it.index() as int), x0 as int, dw, th, g),
            any == has_glyph(text@.take(it.index() as int)),
    {
        let ghost k = it.index() as int;
        let ghost pre = text@.take(k);
        let ghost next = text@.take(k + 1);
        proof {
            assert(next.drop_last() =~= pre);
            assert(next.last() == ch);
            lemma_advance_monotone(text@, k + 1, dw, th, g);
            lemma_advance_monotone(text@, k, dw, th, g);
        }
        if '0' <= ch && ch <= '9' {
            proof {
                assert(text@[k] == ch);
                assert(has_digit(text@));
            }
            let d = ((ch as u32) - ('0' as u32)) as u8;
            glyphs.push(Glyph::Digit { x, digit: d });
            x = x + digit_w as i32 + gap as i32;
            any = true;
            proof {
                assert(next[k] == ch);
            }
        } else if ch == ':' {
            proof {
                assert(text@[k] == ch);
                assert(has_colon(text@));
            }
            glyphs.push(Glyph::Colon { x });
            x = x + thickness as i32 + gap as i32;
            any = true;
            proof {
                assert(next[k] == ch);
            }
        }
        proof {
            assert(has_glyph(next) == (has_glyph(pre) || ('0' <= ch && ch <= '9') || ch == ':')) by {
                if has_glyph(pre) {
                    let i = choose|i: int| 0 <= i < pre.len() && (('0' <= #[trigger] pre[i] && pre[i] <= '9') || pre[i] == ':');
                    assert(next[i] == pre[i]);
                }
                if has_glyph(next) {
                    let i = choose|i: int| 0 <= i < next.len() && (('0' <= #[trigger] next[i] && next[i] <= '9') || next[i] == ':');
                    if i < k {
                        assert(pre[i] == next[i]);
                    }
                }
            }
        }
    }
    proof {
        assert(text@.take(text@.len() as int) =~= text@);
        if any {
            lemma_glyph_advance_at_least_gap(text@, dw, th, g);
        } else {
            lemma_no_glyph_no_advance(text@, dw, th, g);
        }
    }
    let width = (x as i64) - (gap as i64) - (x0 as i64);
    let w = if width > 0 { width as u32 } else { 0 };
    (glyphs, w)
}

/// A string with a glyph advances at least one gap.
proof fn lemma_glyph_advance_at_least_gap(s: Seq<char>, digit_w: int, thickness: int, gap: int)
    requires
        has_glyph(s),
        digit_w >= 0,
        thickness >= 0,
        gap >= 0,
    ensures
        total_advance(s, digit_w, thickness, gap) >= gap,
    decreases s.len(),
{
    let d = s.drop_last();
    lemma_advance_monotone(d, d.len() as int, digit_w, thickness, gap);
    assert(d.take(d.len() as int) =~= d);
    let c = s.last();
    if !(('0' <= c && c <= '9') || c == ':') {
        let i = choose|i: int| 0 <= i < s.len() && (('0' <= #[trigger] s[i] && s[i] <= '9') || s[i] == ':');
        assert(i < s.len() - 1);
        assert(d[i] == s[i]);
        lemma_glyph_advance_at_least_gap(d, digit_w, thickness, gap);
    }
}

/// A string without a glyph does not advance.
proof fn lemma_no_glyph_no_advance(s: Seq<char>, digit_w: int, thickness: int, gap: int)
    requires
        !has_glyph(s),
    ensures
        total_advance(s, digit_w, thickness, gap) == 0,
    decreases s.len(),
{
    if s.len() > 0 {
        let d = s.drop_last();
        assert(!has_glyph(d)) by {
            if has_glyph(d) {
                let i = choose|i: int| 0 <= i < d.len() && (('0' <= #[trigger] d[i] && d[i] <= '9') || d[i] == ':');
                assert(s[i] == d[i]);
            }
        }
        lemma_no_glyph_no_advance(d, digit_w, thickness, gap);
        assert(s[s.len() - 1] == s.last());
    }
}

/// Computes the total pixel width [`big_time_layout`] uses for `text`,
/// without laying anything out (used for centering).
pub fn measure_big_time(text: &str, digit_w: u32, thickness: u32, gap: u32) -> (w: u32)
    requires
        total_advance(text@, digit_w as int, thickness as int, gap as int) <= u32::MAX,
    ensures
        w == big_time_width(text@, digit_w as int, thickness as int, gap as int),
{
    let ghost dw = digit_w as int;
    let ghost th = thickness as int;
    let ghost g = gap as int;
    let mut w: u32 = 0;
    let mut any = false;
    for ch in it: text.chars()
        invariant
            it.seq() == text@,
            total_advance(text@, dw, th, g) <= u32::MAX,
            dw == digit_w,
            th == thickness,
            g == gap,
            w == total_advance(text@.take(it.index() as int), dw, th, g),
            any == has_glyph(text@.take(it.index() as int)),
    {
        let ghost k = it.index() as int;
        let ghost pre = text@.take(k);
        let ghost next = text@.take(k + 1);
        proof {
            assert(next.drop_last() =~= pre);
            assert(next.last() == ch);
            lemma_advance_monotone(text@, k + 1, dw, th, g);
        }
        if '0' <= ch && ch <= '9' {
            w = w + digit_w + gap;
            any = true;
            proof {
                assert(next[k] == ch);
            }
        } else if ch == ':' {
            w = w + thickness + gap;
            any = true;
            proof {
                assert(next[k] == ch);
            }
        }
        proof {
            assert(has_glyph(next) == (has_glyph(pre) || ('0' <= ch && ch <= '9') || ch == ':')) by {
                if has_glyph(pre) {
                    let i = choose|i: int| 0 <= i < pre.len() && (('0' <= #[trigger] pre[i] && pre[i] <= '9') || pre[i] == ':');
                    assert(next[i] == pre[i]);
                }
                if has_glyph(next) {
                    let i = choose|i: int| 0 <= i < next.len() && (('0' <= #[trigger] next[i] && next[i] <= '9') || next[i] == ':');
                    if i < k {
                        assert(pre[i] == next[i]);
                    }
                }
            }
        }
    }
    proof {
        assert(text@.take(text@.len() as int) =~= text@);
        if any {
            lemma_glyph_advance_at_least_gap(text@, dw, th, g);
        }
    }
    if any {
        w - gap
    } else {
        0
    }
}

/// The horizontal span `[left, right)` a glyph covers: a digit is
/// `digit_w` wide, a colon `thickness`.
pub open spec fn glyph_span(g: Glyph, digit_w: int, thickness: int) -> (int, int) {
    match g {
        Glyph::Digit { x, .. } => (x as int, x + digit_w),
        Glyph::Colon { x } => (x as int, x + thickness),
    }
}

/// Every glyph of a big-time string lies within the width measured for it,
/// starting at `x0`: centring the measured box centres the drawing.
pub proof fn lemma_glyphs_within_width(s: Seq<char>, x0: int, digit_w: int, thickness: int, gap: int)
    requires
        digit_w >= 0,
        thickness >= 0,
        gap >= 0,
        i32::MIN <= x0,
        x0 + total_advance(s, digit_w, thickness, gap) <= i32::MAX,
    ensures
        total_advance(s, digit_w, thickness, gap) >= 0,
        glyphs_of(s, x0, digit_w, thickness, gap).len() > 0 ==> has_glyph(s),
        forall|i: int| 0 <= i < glyphs_of(s, x0, digit_w, thickness, gap).len() ==> {
            let sp = #[trigger] glyph_span(glyphs_of(s, x0, digit_w, thickness, gap)[i], digit_w, thickness);
            x0 <= sp.0 && sp.1 <= x0 + big_time_width(s, digit_w, thickness, gap)
        },
    decreases s.len(),
{
    if s.len() > 0 {
        let d = s.drop_last();
        let c = s.last();
        let ta = total_advance(d, digit_w, thickness, gap);
        assert(advance(c, digit_w, thickness, gap) >= 0);
        assert(total_advance(s, digit_w, thickness, gap) == ta + advance(c, digit_w, thickness, gap));
        lemma_glyphs_within_width(d, x0, digit_w, thickness, gap);
        assert(ta >= 0);
        let before = glyphs_of(d, x0, digit_w, thickness, gap);
        let all = glyphs_of(s, x0, digit_w, thickness, gap);
        // A glyph of the prefix makes the whole string have one too.
        if has_glyph(d) {
            let k = choose|k: int| 0 <= k < d.len() && (('0' <= #[trigger] d[k] && d[k] <= '9') || d[k] == ':');
            assert(s[k] == d[k]);
            assert(has_glyph(s));
        }
        if ('0' <= c && c <= '9') || c == ':' {
            assert(s[s.len() - 1] == c);
            assert(has_glyph(s));
        }
        assert forall|i: int| 0 <= i < all.len() implies {
            let sp = #[trigger] glyph_span(all[i], digit_w, thickness);
            x0 <= sp.0 && sp.1 <= x0 + big_time_width(s, digit_w, thickness, gap)
        } by {
            if i < before.len() {
                assert(all[i] == before[i]);
                assert(glyph_span(before[i], digit_w, thickness).1 <= x0 + big_time_width(d, digit_w, thickness, gap));
                assert(has_glyph(s));
            } else {
                let x = x0 + ta;
                assert(i32::MIN <= x <= i32::MAX);
                assert(x as i32 as int == x);
                assert(has_glyph(s));
                if '0' <= c && c <= '9' {
                    assert(all[i] == Glyph::Digit { x: x as i32, digit: ((c as u32) - ('0' as u32)) as u8 });
                } else {
                    assert(all[i] == Glyph::Colon { x: x as i32 });
                }
            }
        }
    }
}

/// The glyph proportions for which the seven segment boxes are all
/// different: segments at least a pixel thick, narrower than the glyph, and
/// at least two pixels of height left for the two vertical halves.
pub open spec fn segments_apart(w: int, h: int, t: int) -> bool {
    0 < t && t < w && t + 2 <= h
}

/// On such proportions no two segments share a box.
proof fn lemma_segment_boxes_distinct(x: int, y: int, w: int, h: int, t: int, a: int, b: int)
    requires
        segments_apart(w, h, t),
        0 <= a < 7,
        0 <= b < 7,
        a != b,
    ensures
        segment_box(x, y, w, h, t, a) != segment_box(x, y, w, h, t, b),
{
    let hh = (h - t) / 2;
    assert(0 < hh && hh < h - t);
}

/// Among the first `k` segments drawn, the box of segment `seg` is drawn
/// exactly when `seg` is among them and lit for the digit.
proof fn lemma_digit_boxes_prefix(x: int, y: int, w: int, h: int, t: int, digit: int, k: int, seg: int)
    requires
        segments_apart(w, h, t),
        0 <= k <= 7,
        0 <= seg < 7,
        digit >= 0,
    ensures
        digit_boxes(x, y, w, h, t, digit, k).contains(segment_box(x, y, w, h, t, seg))
            <==> (DIGIT_SEGMENTS[digit % 10][seg] && exists|j: int| 0 <= j < k && DRAW_ORDER[j] == seg),
    decreases k,
{
    if k > 0 {
        lemma_digit_boxes_prefix(x, y, w, h, t, digit, k - 1, seg);
        let before = digit_boxes(x, y, w, h, t, digit, k - 1);
        let s = DRAW_ORDER[k - 1] as int;
        let target = segment_box(x, y, w, h, t, seg);
        if s != seg {
            lemma_segment_boxes_distinct(x, y, w, h, t, s, seg);
        }
        if DIGIT_SEGMENTS[digit % 10][s] {
            let after = before.push(segment_box(x, y, w, h, t, s));
            assert(after.contains(target) <==> (before.contains(target) || segment_box(x, y, w, h, t, s) == target)) by {
                if after.contains(target) {
                    let i = choose|i: int| 0 <= i < after.len() && after[i] == target;
                    if i < before.len() {
                        assert(before[i] == target);
                    }
                }
                if before.contains(target) {
                    let i = choose|i: int| 0 <= i < before.len() && before[i] == target;
                    assert(after[i] == target);
                }
                if segment_box(x, y, w, h, t, s) == target {
                    assert(after[before.len() as int] == target);
                }
            }
        }
        if exists|j: int| 0 <= j < k && DRAW_ORDER[j] == seg {
            let j = choose|j: int| 0 <= j < k && DRAW_ORDER[j] == seg;
            if j < k - 1 {
                assert(exists|i: int| 0 <= i < k - 1 && DRAW_ORDER[i] == seg);
            }
        }
        if exists|j: int| 0 <= j < k - 1 && DRAW_ORDER[j] == seg {
            let j = choose|j: int| 0 <= j < k - 1 && DRAW_ORDER[j] == seg;
            assert(0 <= j < k && DRAW_ORDER[j] == seg);
        }
        if s == seg {
            assert(0 <= k - 1 < k && DRAW_ORDER[k - 1] == seg);
        }
    }
}

/// Every segment of a glyph lies inside the glyph's `w`×`h` box at `(x, y)`:
/// the bars span the width between the vertical segments, and the two
/// vertical halves stack within the height.
pub proof fn lemma_segment_inside_glyph(x: int, y: int, w: int, h: int, t: int, seg: int)
    requires
        0 <= t,
        t <= h,
        2 * t <= w,
        0 <= seg < 7,
    ensures
        ({
            let (bx, by, bw, bh) = segment_box(x, y, w, h, t, seg);
            &&& 0 <= bw && 0 <= bh
            &&& x <= bx && bx + bw <= x + w
            &&& y <= by && by + bh <= y + h
        }),
{
    let hh = (h - t) / 2;
    assert(0 <= hh && 2 * hh <= h - t);
}

/// A digit is drawn as exactly the segments its row of the seven-segment
/// table lights: the box of each segment appears among the rectangles of
/// digit `d` if and only if `DIGIT_SEGMENTS[d % 10]` lights that segment (so
/// a 9 has its middle bar and no bottom-left segment, and no digit is drawn
/// as another).
pub proof fn lemma_digit_draws_its_segments(x: int, y: int, w: int, h: int, t: int, digit: int, seg: int)
    requires
        segments_apart(w, h, t),
        0 <= seg < 7,
        digit >= 0,
    ensures
        digit_boxes(x, y, w, h, t, digit, 7).contains(segment_box(x, y, w, h, t, seg)) <==> DIGIT_SEGMENTS[digit % 10][seg],
{
    lemma_digit_boxes_prefix(x, y, w, h, t, digit, 7, seg);
    let j = if seg == 0 { 0int } else if seg == 5 { 1 } else if seg == 1 { 2 } else if seg == 6 { 3 } else if seg == 4 { 4 } else if seg == 2 { 5 } else { 6 };
    assert(DRAW_ORDER[j] == seg);
}

} // verus!
