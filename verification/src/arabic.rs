//! Minimal Arabic text shaper: turns a logical-order Arabic string into a
//! visual-order run of Unicode presentation forms (Arabic Presentation
//! Forms-B, `U+FE70..U+FEFF`) that a plain left-to-right glyph renderer can
//! draw and right-align.
//!
//! Two steps are performed for the dashboard's small, fixed set of Arabic
//! labels:
//!
//! 1. contextual joining: every letter takes its isolated, initial, medial or
//!    final form from its neighbours, and lam followed by an alef variant
//!    becomes the obligatory lam-alef ligature;
//! 2. right-to-left ordering: the shaped glyphs are emitted in visual order.
//!
//! Combining diacritics are dropped; any other character passes through and
//! is reordered with the rest of the run.

use vstd::prelude::*;

use crate::unicode::push_char;

verus! {

/// How an Arabic letter connects to its neighbours.
#[derive(Clone, Copy, PartialEq, Eq, Debug, Structural)]
pub enum Join {
    /// Connects on both sides (most letters).
    Dual,
    /// Connects only to the preceding (right-hand) letter, e.g. alef, dal,
    /// reh, waw. Blocks the following letter from joining across it.
    Right,
}

/// The four contextual presentation forms of one letter (or of a ligature,
/// which reuses `isolated`/`final_` for the initial/medial slots).
#[derive(Clone, Copy, PartialEq, Eq, Debug, Structural)]
pub struct Letter {
    pub isolated: char,
    pub final_: char,
    pub initial: char,
    pub medial: char,
    pub join: Join,
}

/// One element of the parsed run: a joinable Arabic letter, or any other
/// character passed straight through.
#[derive(Clone, Copy, PartialEq, Eq, Debug, Structural)]
pub enum Elem {
    Letter(Letter),
    Passthrough(char),
}

/// The letter record of a dual-joining letter.
pub open spec fn dual_letter(isolated: char, final_: char, initial: char, medial: char) -> Letter {
    Letter { isolated, final_, initial, medial, join: Join::Dual }
}

/// The letter record of a right-joining letter: only the isolated and final
/// forms exist, and they stand in for the initial and medial forms.
pub open spec fn right_letter(isolated: char, final_: char) -> Letter {
    Letter { isolated, final_, initial: isolated, medial: final_, join: Join::Right }
}

impl Letter {
    /// A dual-joining letter with its four forms.
    pub fn dual(isolated: char, final_: char, initial: char, medial: char) -> (l: Letter)
        ensures
            l == dual_letter(isolated, final_, initial, medial),
    {
        Letter { isolated, final_, initial, medial, join: Join::Dual }
    }

    /// A right-joining letter: only its isolated and final forms exist.
    pub fn right(isolated: char, final_: char) -> (l: Letter)
        ensures
            l == right_letter(isolated, final_),
    {
        Letter { isolated, final_, initial: isolated, medial: final_, join: Join::Right }
    }
}

/// Right-joining base letters: (base, isolated, final).
pub const RIGHT_LETTERS: [(char, char, char); 13] = [
    ('\u{0621}', '\u{FE80}', '\u{FE80}'), // ء (non-joining, isolated only)
    ('\u{0622}', '\u{FE81}', '\u{FE82}'), // آ
    ('\u{0623}', '\u{FE83}', '\u{FE84}'), // أ
    ('\u{0624}', '\u{FE85}', '\u{FE86}'), // ؤ
    ('\u{0625}', '\u{FE87}', '\u{FE88}'), // إ
    ('\u{0627}', '\u{FE8D}', '\u{FE8E}'), // ا
    ('\u{0629}', '\u{FE93}', '\u{FE94}'), // ة
    ('\u{062F}', '\u{FEA9}', '\u{FEAA}'), // د
    ('\u{0630}', '\u{FEAB}', '\u{FEAC}'), // ذ
    ('\u{0631}', '\u{FEAD}', '\u{FEAE}'), // ر
    ('\u{0632}', '\u{FEAF}', '\u{FEB0}'), // ز
    ('\u{0648}', '\u{FEED}', '\u{FEEE}'), // و
    ('\u{0649}', '\u{FEEF}', '\u{FEF0}'), // ى
];

/// Dual-joining base letters: (base, isolated, final, initial, medial).
pub const DUAL_LETTERS: [(char, char, char, char, char); 23] = [
    ('\u{0626}', '\u{FE89}', '\u{FE8A}', '\u{FE8B}', '\u{FE8C}'), // ئ
    ('\u{0628}', '\u{FE8F}', '\u{FE90}', '\u{FE91}', '\u{FE92}'), // ب
    ('\u{062A}', '\u{FE95}', '\u{FE96}', '\u{FE97}', '\u{FE98}'), // ت
    ('\u{062B}', '\u{FE99}', '\u{FE9A}', '\u{FE9B}', '\u{FE9C}'), // ث
    ('\u{062C}', '\u{FE9D}', '\u{FE9E}', '\u{FE9F}', '\u{FEA0}'), // ج
    ('\u{062D}', '\u{FEA1}', '\u{FEA2}', '\u{FEA3}', '\u{FEA4}'), // ح
    ('\u{062E}', '\u{FEA5}', '\u{FEA6}', '\u{FEA7}', '\u{FEA8}'), // خ
    ('\u{0633}', '\u{FEB1}', '\u{FEB2}', '\u{FEB3}', '\u{FEB4}'), // س
    ('\u{0634}', '\u{FEB5}', '\u{FEB6}', '\u{FEB7}', '\u{FEB8}'), // ش
    ('\u{0635}', '\u{FEB9}', '\u{FEBA}', '\u{FEBB}', '\u{FEBC}'), // ص
    ('\u{0636}', '\u{FEBD}', '\u{FEBE}', '\u{FEBF}', '\u{FEC0}'), // ض
    ('\u{0637}', '\u{FEC1}', '\u{FEC2}', '\u{FEC3}', '\u{FEC4}'), // ط
    ('\u{0638}', '\u{FEC5}', '\u{FEC6}', '\u{FEC7}', '\u{FEC8}'), // ظ
    ('\u{0639}', '\u{FEC9}', '\u{FECA}', '\u{FECB}', '\u{FECC}'), // ع
    ('\u{063A}', '\u{FECD}', '\u{FECE}', '\u{FECF}', '\u{FED0}'), // غ
    ('\u{0641}', '\u{FED1}', '\u{FED2}', '\u{FED3}', '\u{FED4}'), // ف
    ('\u{0642}', '\u{FED5}', '\u{FED6}', '\u{FED7}', '\u{FED8}'), // ق
    ('\u{0643}', '\u{FED9}', '\u{FEDA}', '\u{FEDB}', '\u{FEDC}'), // ك
    ('\u{0644}', '\u{FEDD}', '\u{FEDE}', '\u{FEDF}', '\u{FEE0}'), // ل
    ('\u{0645}', '\u{FEE1}', '\u{FEE2}', '\u{FEE3}', '\u{FEE4}'), // م
    ('\u{0646}', '\u{FEE5}', '\u{FEE6}', '\u{FEE7}', '\u{FEE8}'), // ن
    ('\u{0647}', '\u{FEE9}', '\u{FEEA}', '\u{FEEB}', '\u{FEEC}'), // ه
    ('\u{064A}', '\u{FEF1}', '\u{FEF2}', '\u{FEF3}', '\u{FEF4}'), // ي
];

/// The alef variants that ligate with a preceding lam: (alef, isolated form
/// of the ligature, final form of the ligature).
pub const LAM_ALEF: [(char, char, char); 4] = [
    ('\u{0622}', '\u{FEF5}', '\u{FEF6}'), // لآ
    ('\u{0623}', '\u{FEF7}', '\u{FEF8}'), // لأ
    ('\u{0625}', '\u{FEF9}', '\u{FEFA}'), // لإ
    ('\u{0627}', '\u{FEFB}', '\u{FEFC}'), // لا
];

/// Arabic letter lam, the first half of the lam-alef ligature.
pub const LAM: char = '\u{0644}';

/// The (isolated, final) forms of `c` in `RIGHT_LETTERS`, searching from row `i`.
pub open spec fn right_row(c: char, i: int) -> Option<(char, char)>
    decreases 13 - i,
{
    if i < 0 || i >= 13 {
        None
    } else if RIGHT_LETTERS[i].0 == c {
        Some((RIGHT_LETTERS[i].1, RIGHT_LETTERS[i].2))
    } else {
        right_row(c, i + 1)
    }
}

/// The (isolated, final, initial, medial) forms of `c` in `DUAL_LETTERS`,
/// searching from row `i`.
pub open spec fn dual_row(c: char, i: int) -> Option<(char, char, char, char)>
    decreases 23 - i,
{
    if i < 0 || i >= 23 {
        None
    } else if DUAL_LETTERS[i].0 == c {
        Some((DUAL_LETTERS[i].1, DUAL_LETTERS[i].2, DUAL_LETTERS[i].3, DUAL_LETTERS[i].4))
    } else {
        dual_row(c, i + 1)
    }
}

/// The ligature forms for `alef` in `LAM_ALEF`, searching from row `i`.
pub open spec fn lam_alef_row(alef: char, i: int) -> Option<(char, char)>
    decreases 4 - i,
{
    if i < 0 || i >= 4 {
        None
    } else if LAM_ALEF[i].0 == alef {
        Some((LAM_ALEF[i].1, LAM_ALEF[i].2))
    } else {
        lam_alef_row(alef, i + 1)
    }
}

/// The presentation forms and join type of an Arabic base letter, or `None`
/// for a character that passes through unshaped.
pub open spec fn letter_forms(c: char) -> Option<Letter> {
    match right_row(c, 0) {
        Some((iso, fin)) => Some(right_letter(iso, fin)),
        None => match dual_row(c, 0) {
            Some((iso, fin, ini, med)) => Some(dual_letter(iso, fin, ini, med)),
            None => None,
        },
    }
}

/// Combining marks (tashkeel, superscript alef) that the shaper drops.
pub open spec fn is_mark(c: char) -> bool {
    let v = c as u32;
    (0x064B <= v <= 0x0652) || (0x0653 <= v <= 0x0655) || v == 0x0670
}

/// `s` with every combining mark removed.
pub open spec fn strip_marks(s: Seq<char>) -> Seq<char>
    decreases s.len(),
{
    if s.len() == 0 {
        s
    } else if is_mark(s.last()) {
        strip_marks(s.drop_last())
    } else {
        strip_marks(s.drop_last()).push(s.last())
    }
}

/// The element a single character stands for on its own.
pub open spec fn classify(c: char) -> Elem {
    match letter_forms(c) {
        Some(l) => Elem::Letter(l),
        None => Elem::Passthrough(c),
    }
}

/// Parses `cs[i..]` into elements: a lam followed by an alef variant becomes
/// one right-joining ligature, every other character stands for itself.
pub open spec fn parse(cs: Seq<char>, i: int) -> Seq<Elem>
    decreases cs.len() - i,
{
    if i < 0 || i >= cs.len() {
        Seq::empty()
    } else if cs[i] == LAM && i + 1 < cs.len() && lam_alef_row(cs[i + 1], 0) is Some {
        let (iso, fin) = lam_alef_row(cs[i + 1], 0).unwrap();
        seq![Elem::Letter(right_letter(iso, fin))] + parse(cs, i + 2)
    } else {
        seq![classify(cs[i])] + parse(cs, i + 1)
    }
}

/// The contextual form of element `i` of `elems`. A letter joins its previous
/// neighbour when that neighbour is a dual-joining letter, and its next
/// neighbour when it is itself dual-joining and a letter follows.
pub open spec fn form_at(elems: Seq<Elem>, i: int) -> char {
    match elems[i] {
        Elem::Passthrough(c) => c,
        Elem::Letter(l) => {
            let joins_prev = i > 0 && (elems[i - 1] matches Elem::Letter(p) && p.join == Join::Dual);
            let joins_next = l.join == Join::Dual && i + 1 < elems.len() && elems[i + 1] is Letter;
            if joins_prev && joins_next {
                l.medial
            } else if joins_prev {
                l.final_
            } else if joins_next {
                l.initial
            } else {
                l.isolated
            }
        },
    }
}

/// The contextual forms of all elements, in logical order.
pub open spec fn logical_forms(elems: Seq<Elem>) -> Seq<char> {
    Seq::new(elems.len(), |i: int| form_at(elems, i))
}

/// What `shape` returns for the logical-order text `s`: the marks dropped, the
/// run parsed, each element put in its contextual form, and the whole run
/// reversed into visual order.
pub open spec fn shaped(s: Seq<char>) -> Seq<char> {
    logical_forms(parse(strip_marks(s), 0)).reverse()
}

/// Dropping the marks twice is the same as dropping them once, and what is
/// left holds no mark.
pub proof fn lemma_strip_marks_idempotent(s: Seq<char>)
    ensures
        strip_marks(strip_marks(s)) == strip_marks(s),
        forall|j: int| 0 <= j < strip_marks(s).len() ==> !is_mark(#[trigger] strip_marks(s)[j]),
        strip_marks(s).len() <= s.len(),
    decreases s.len(),
{
    if s.len() > 0 {
        let d = s.drop_last();
        lemma_strip_marks_idempotent(d);
        if !is_mark(s.last()) {
            let t = strip_marks(d).push(s.last());
            assert(t.drop_last() =~= strip_marks(d));
            assert(t.last() == s.last());
        }
    }
}

/// A text without combining marks is left as it is by the mark filter.
pub proof fn lemma_strip_marks_no_marks(s: Seq<char>)
    requires
        forall|j: int| 0 <= j < s.len() ==> !is_mark(#[trigger] s[j]),
    ensures
        strip_marks(s) == s,
    decreases s.len(),
{
    if s.len() > 0 {
        let d = s.drop_last();
        assert forall|j: int| 0 <= j < d.len() implies !is_mark(#[trigger] d[j]) by {
            assert(d[j] == s[j]);
        }
        lemma_strip_marks_no_marks(d);
        assert(s.last() == s[s.len() - 1]);
        assert(d.push(s.last()) =~= s);
    }
}

/// Parsing never yields more elements than there are characters left.
proof fn lemma_parse_len(cs: Seq<char>, i: int)
    requires
        0 <= i <= cs.len(),
    ensures
        parse(cs, i).len() <= cs.len() - i,
    decreases cs.len() - i,
{
    if i < cs.len() {
        if cs[i] == LAM && i + 1 < cs.len() && lam_alef_row(cs[i + 1], 0) is Some {
            lemma_parse_len(cs, i + 2);
        } else {
            lemma_parse_len(cs, i + 1);
        }
    }
}

/// Lam is one of the shaped letters.
proof fn lemma_lam_is_letter()
    ensures
        letter_forms(LAM) is Some,
{
    reveal_with_fuel(right_row, 14);
    reveal_with_fuel(dual_row, 20);
}

/// Parsing a run of characters that are neither letters nor marks yields one
/// passthrough element per character.
proof fn lemma_parse_passthrough(cs: Seq<char>, i: int)
    requires
        0 <= i <= cs.len(),
        forall|j: int| 0 <= j < cs.len() ==> letter_forms(#[trigger] cs[j]) is None,
    ensures
        parse(cs, i).len() == cs.len() - i,
        forall|k: int| 0 <= k < cs.len() - i ==> #[trigger] parse(cs, i)[k] == Elem::Passthrough(cs[i + k]),
    decreases cs.len() - i,
{
    if i < cs.len() {
        lemma_lam_is_letter();
        assert(letter_forms(cs[i]) is None);
        assert(cs[i] != LAM);
        lemma_parse_passthrough(cs, i + 1);
        let rest = parse(cs, i + 1);
        assert(parse(cs, i) == seq![Elem::Passthrough(cs[i])] + rest);
        assert forall|k: int| 0 <= k < cs.len() - i implies #[trigger] parse(cs, i)[k] == Elem::Passthrough(cs[i + k]) by {
            if k > 0 {
                assert(parse(cs, i)[k] == rest[k - 1]);
            }
        }
    }
}

/// Combining marks are dropped: shaping a text gives the same glyphs as
/// shaping it with its marks removed.
pub proof fn lemma_shape_ignores_marks(s: Seq<char>)
    ensures
        shaped(s) == shaped(strip_marks(s)),
{
    lemma_strip_marks_idempotent(s);
}

/// Shaping never lengthens a text: marks are dropped and each lam-alef pair
/// becomes one glyph.
pub proof fn lemma_shape_len(s: Seq<char>)
    ensures
        shaped(s).len() <= s.len(),
{
    lemma_strip_marks_idempotent(s);
    lemma_parse_len(strip_marks(s), 0);
}

/// A text with no Arabic letters and no combining marks passes through
/// unshaped and is only reversed into visual order.
pub proof fn lemma_shape_passthrough(s: Seq<char>)
    requires
        forall|j: int| 0 <= j < s.len() ==> !is_mark(#[trigger] s[j]) && letter_forms(s[j]) is None,
    ensures
        shaped(s) == s.reverse(),
{
    lemma_strip_marks_no_marks(s);
    lemma_parse_passthrough(s, 0);
    let elems = parse(s, 0);
    assert forall|k: int| 0 <= k < elems.len() implies form_at(elems, k) == s[k] by {
        assert(elems[k] == Elem::Passthrough(s[k]));
    }
    assert(logical_forms(elems) =~= s);
}

/// Dropping marks works piece by piece.
proof fn lemma_strip_marks_concat(a: Seq<char>, b: Seq<char>)
    ensures
        strip_marks(a + b) == strip_marks(a) + strip_marks(b),
    decreases b.len(),
{
    if b.len() == 0 {
        assert(a + b =~= a);
        assert(strip_marks(a) + strip_marks(b) =~= strip_marks(a));
    } else {
        let d = b.drop_last();
        lemma_strip_marks_concat(a, d);
        assert((a + b).drop_last() =~= a + d);
        assert((a + b).last() == b.last());
        if is_mark(b.last()) {
        } else {
            assert(strip_marks(a) + strip_marks(d).push(b.last()) =~= (strip_marks(a) + strip_marks(d)).push(b.last()));
        }
    }
}

/// Parsing from a position only looks at the characters from there on.
proof fn lemma_parse_suffix(a: Seq<char>, b: Seq<char>, j: int)
    requires
        0 <= j,
    ensures
        parse(a + b, a.len() + j) == parse(b, j),
    decreases b.len() - j,
{
    let ab = a + b;
    let i = a.len() + j;
    if j < b.len() {
        assert(ab[i] == b[j]);
        if j + 1 < b.len() {
            assert(ab[i + 1] == b[j + 1]);
        }
        if b[j] == LAM && j + 1 < b.len() && lam_alef_row(b[j + 1], 0) is Some {
            lemma_parse_suffix(a, b, j + 2);
        } else {
            lemma_parse_suffix(a, b, j + 1);
        }
    }
}

/// Every alef that ligates with lam is itself a shaped letter.
proof fn lemma_lam_alef_is_letter(c: char)
    requires
        lam_alef_row(c, 0) is Some,
    ensures
        letter_forms(c) is Some,
{
    reveal_with_fuel(lam_alef_row, 5);
    reveal_with_fuel(right_row, 14);
}

/// Parsing a run splits where no lam-alef pair straddles the cut.
proof fn lemma_parse_split(a: Seq<char>, b: Seq<char>, i: int)
    requires
        0 <= i <= a.len(),
        !(a.len() > 0 && b.len() > 0 && a.last() == LAM && lam_alef_row(b[0], 0) is Some),
    ensures
        parse(a + b, i) == parse(a, i) + parse(a + b, a.len() as int),
    decreases a.len() - i,
{
    let ab = a + b;
    if i < a.len() {
        assert(ab[i] == a[i]);
        if i + 1 < a.len() {
            assert(ab[i + 1] == a[i + 1]);
        }
        if i + 1 == a.len() && b.len() > 0 {
            assert(ab[i + 1] == b[0]);
            assert(a.last() == a[i]);
        }
        if ab[i] == LAM && i + 1 < ab.len() && lam_alef_row(ab[i + 1], 0) is Some {
            assert(i + 1 < a.len());
            lemma_parse_split(a, b, i + 2);
            if i + 2 <= a.len() {
            }
            assert(parse(ab, i) =~= parse(a, i) + parse(ab, a.len() as int));
        } else {
            lemma_parse_split(a, b, i + 1);
            assert(parse(ab, i) =~= parse(a, i) + parse(ab, a.len() as int));
        }
    } else {
        assert(parse(a, i) =~= Seq::<Elem>::empty());
        assert(parse(ab, i) =~= parse(a, i) + parse(ab, a.len() as int));
    }
}

/// A passthrough character cuts the parsed run in three.
proof fn lemma_parse_around_passthrough(s: Seq<char>, p: char, t: Seq<char>)
    requires
        letter_forms(p) is None,
    ensures
        parse(s + seq![p] + t, 0) == parse(s, 0) + seq![Elem::Passthrough(p)] + parse(t, 0),
{
    lemma_lam_is_letter();
    if lam_alef_row(p, 0) is Some {
        lemma_lam_alef_is_letter(p);
    }
    let sp = s + seq![p];
    // Cut between `s` and `p`.
    assert(sp + t =~= s + (seq![p] + t));
    lemma_parse_split(s, seq![p] + t, 0);
    lemma_parse_suffix(s, seq![p] + t, 0);
    // The rest starts with `p`, which stands for itself.
    let rest = seq![p] + t;
    assert(rest[0] == p);
    assert(p != LAM);
    assert(classify(p) == Elem::Passthrough(p));
    lemma_parse_suffix(seq![p], t, 0);
    assert(parse(rest, 0) == seq![Elem::Passthrough(p)] + parse(rest, 1));
    assert(seq![p].len() == 1);
    assert(parse(s + seq![p] + t, 0) =~= parse(s, 0) + seq![Elem::Passthrough(p)] + parse(t, 0));
}

/// The contextual forms of a run cut by a passthrough element are the forms
/// of the two sides with the passthrough between them.
proof fn lemma_forms_around_passthrough(a: Seq<Elem>, p: char, b: Seq<Elem>)
    ensures
        logical_forms(a + seq![Elem::Passthrough(p)] + b) == logical_forms(a) + seq![p] + logical_forms(b),
{
    let e = a + seq![Elem::Passthrough(p)] + b;
    let n = a.len() as int;
    assert forall|i: int| 0 <= i < e.len() implies #[trigger] form_at(e, i) == (logical_forms(a) + seq![p] + logical_forms(b))[i] by {
        if i < n {
            assert(e[i] == a[i]);
            if i > 0 {
                assert(e[i - 1] == a[i - 1]);
            }
            if i + 1 < n {
                assert(e[i + 1] == a[i + 1]);
            } else {
                assert(e[i + 1] == Elem::Passthrough(p));
            }
        } else if i == n {
            assert(e[i] == Elem::Passthrough(p));
        } else {
            let k = i - n - 1;
            assert(e[i] == b[k]);
            if k > 0 {
                assert(e[i - 1] == b[k - 1]);
            } else {
                assert(e[i - 1] == Elem::Passthrough(p));
            }
            if k + 1 < b.len() {
                assert(e[i + 1] == b[k + 1]);
            }
        }
    }
    assert(logical_forms(e) =~= logical_forms(a) + seq![p] + logical_forms(b));
}

/// Words are shaped on their own: a character that is neither a letter nor
/// a mark (a space, a digit, punctuation) stops joining on both sides, so the
/// text around it shapes as if the two sides stood alone, and the visual
/// order puts the right-hand side first.
pub proof fn lemma_shape_words_apart(s: Seq<char>, p: char, t: Seq<char>)
    requires
        letter_forms(p) is None,
        !is_mark(p),
    ensures
        shaped(s + seq![p] + t) == shaped(t) + seq![p] + shaped(s),
{
    lemma_strip_marks_concat(s + seq![p], t);
    lemma_strip_marks_concat(s, seq![p]);
    assert(strip_marks(seq![p]) == seq![p]) by {
        lemma_strip_marks_no_marks(seq![p]);
    }
    let ss = strip_marks(s);
    let st = strip_marks(t);
    assert(strip_marks(s + seq![p] + t) == ss + seq![p] + st);
    lemma_parse_around_passthrough(ss, p, st);
    lemma_forms_around_passthrough(parse(ss, 0), p, parse(st, 0));
    let fa = logical_forms(parse(ss, 0));
    let fb = logical_forms(parse(st, 0));
    assert((fa + seq![p] + fb).reverse() =~= fb.reverse() + seq![p] + fa.reverse());
}

/// A letter standing alone takes its isolated form.
pub proof fn lemma_shape_lone_letter(c: char)
    requires
        letter_forms(c) is Some,
    ensures
        shaped(seq![c]) == seq![letter_forms(c).unwrap().isolated],
{
    lemma_lam_is_letter();
    let s = seq![c];
    assert(!is_mark(c)) by {
        reveal_with_fuel(right_row, 14);
        reveal_with_fuel(dual_row, 24);
    }
    assert(strip_marks(s) == s) by {
        lemma_strip_marks_no_marks(s);
    }
    assert(parse(s, 1) =~= Seq::<Elem>::empty());
    assert(parse(s, 0) =~= seq![classify(c)]);
    assert(logical_forms(parse(s, 0)) =~= seq![letter_forms(c).unwrap().isolated]);
}

/// Two letters side by side join when the first connects forward: a
/// dual-joining first letter takes its initial form and the second its final
/// form; after a right-joining letter both stand isolated. Visual order puts
/// the second letter first.
pub proof fn lemma_shape_two_letters(c1: char, c2: char)
    requires
        letter_forms(c1) is Some,
        letter_forms(c2) is Some,
        !(c1 == LAM && lam_alef_row(c2, 0) is Some),
    ensures
        ({
            let l1 = letter_forms(c1).unwrap();
            let l2 = letter_forms(c2).unwrap();
            shaped(seq![c1, c2]) == if l1.join == Join::Dual {
                seq![l2.final_, l1.initial]
            } else {
                seq![l2.isolated, l1.isolated]
            }
        }),
{
    let s = seq![c1, c2];
    assert(!is_mark(c1) && !is_mark(c2)) by {
        reveal_with_fuel(right_row, 14);
        reveal_with_fuel(dual_row, 24);
    }
    assert(strip_marks(s) == s) by {
        lemma_strip_marks_no_marks(s);
    }
    assert(parse(s, 2) =~= Seq::<Elem>::empty());
    assert(parse(s, 1) =~= seq![classify(c2)]);
    assert(parse(s, 0) =~= seq![classify(c1), classify(c2)]);
    let e = parse(s, 0);
    let l1 = letter_forms(c1).unwrap();
    let l2 = letter_forms(c2).unwrap();
    let f = logical_forms(e);
    assert(f[0] == form_at(e, 0));
    assert(f[1] == form_at(e, 1));
    let want = if l1.join == Join::Dual { seq![l2.final_, l1.initial] } else { seq![l2.isolated, l1.isolated] };
    assert(f.reverse() =~= want);
}

/// Three letters in a row: the middle one joins back when the first connects
/// forward and joins on when it connects forward itself, so between two
/// dual-joining neighbours it takes its medial form; the first letter is
/// initial or isolated, the last final or isolated. Visual order reverses the
/// three.
pub proof fn lemma_shape_three_letters(c1: char, c2: char, c3: char)
    requires
        letter_forms(c1) is Some,
        letter_forms(c2) is Some,
        letter_forms(c3) is Some,
        !(c1 == LAM && lam_alef_row(c2, 0) is Some),
        !(c2 == LAM && lam_alef_row(c3, 0) is Some),
    ensures
        ({
            let l1 = letter_forms(c1).unwrap();
            let l2 = letter_forms(c2).unwrap();
            let l3 = letter_forms(c3).unwrap();
            let d1 = l1.join == Join::Dual;
            let d2 = l2.join == Join::Dual;
            let first = if d1 { l1.initial } else { l1.isolated };
            let middle = if d1 && d2 {
                l2.medial
            } else if d1 {
                l2.final_
            } else if d2 {
                l2.initial
            } else {
                l2.isolated
            };
            let last = if d2 { l3.final_ } else { l3.isolated };
            shaped(seq![c1, c2, c3]) == seq![last, middle, first]
        }),
{
    let s = seq![c1, c2, c3];
    assert(!is_mark(c1) && !is_mark(c2) && !is_mark(c3)) by {
        reveal_with_fuel(right_row, 14);
        reveal_with_fuel(dual_row, 24);
    }
    assert(strip_marks(s) == s) by {
        lemma_strip_marks_no_marks(s);
    }
    assert(parse(s, 3) =~= Seq::<Elem>::empty());
    assert(parse(s, 2) =~= seq![classify(c3)]);
    assert(parse(s, 1) =~= seq![classify(c2), classify(c3)]);
    assert(parse(s, 0) =~= seq![classify(c1), classify(c2), classify(c3)]);
    let e = parse(s, 0);
    let f = logical_forms(e);
    assert(f[0] == form_at(e, 0));
    assert(f[1] == form_at(e, 1));
    assert(f[2] == form_at(e, 2));
    assert(f.reverse() =~= seq![f[2], f[1], f[0]]);
}

/// Lam followed by an alef variant is drawn as the one lam-alef ligature
/// glyph.
pub proof fn lemma_shape_lam_alef(alef: char)
    requires
        lam_alef_row(alef, 0) is Some,
    ensures
        shaped(seq![LAM, alef]) == seq![lam_alef_row(alef, 0).unwrap().0],
{
    let s = seq![LAM, alef];
    lemma_lam_is_letter();
    lemma_lam_alef_is_letter(alef);
    assert(!is_mark(LAM) && !is_mark(alef)) by {
        reveal_with_fuel(lam_alef_row, 5);
    }
    assert(strip_marks(s) == s) by {
        lemma_strip_marks_no_marks(s);
    }
    assert(parse(s, 2) =~= Seq::<Elem>::empty());
    let (iso, fin) = lam_alef_row(alef, 0).unwrap();
    assert(parse(s, 0) =~= seq![Elem::Letter(right_letter(iso, fin))]);
    assert(logical_forms(parse(s, 0)) =~= seq![iso]);
}

/// Looks up an Arabic base letter's presentation forms and join type.
/// Returns `None` for anything that should pass through unshaped.
fn letter_info(c: char) -> (r: Option<Letter>)
    ensures
        r == letter_forms(c),
{
    let mut i: usize = 0;
    while i < 13
        invariant
            i <= 13,
            right_row(c, 0) == right_row(c, i as int),
        decreases 13 - i,
    {
        let (base, iso, fin) = RIGHT_LETTERS[i];
        if base == c {
            return Some(Letter::right(iso, fin));
        }
        i = i + 1;
    }
    let mut j: usize = 0;
    while j < 23
        invariant
            j <= 23,
            right_row(c, 0) is None,
            dual_row(c, 0) == dual_row(c, j as int),
        decreases 23 - j,
    {
        let (base, iso, fin, ini, med) = DUAL_LETTERS[j];
        if base == c {
            return Some(Letter::dual(iso, fin, ini, med));
        }
        j = j + 1;
    }
    None
}

/// Returns the lam-alef ligature `(isolated, final)` forms if `alef` is one of
/// the four alef variants that ligate with a preceding lam.
fn lam_alef_ligature(alef: char) -> (r: Option<(char, char)>)
    ensures
        r == lam_alef_row(alef, 0),
{
    let mut i: usize = 0;
    while i < 4
        invariant
            i <= 4,
            lam_alef_row(alef, 0) == lam_alef_row(alef, i as int),
        decreases 4 - i,
    {
        let (a, iso, fin) = LAM_ALEF[i];
        if a == alef {
            return Some((iso, fin));
        }
        i = i + 1;
    }
    None
}

/// `true` for combining marks (tashkeel / superscript alef) that this shaper
/// drops rather than trying to position.
fn is_combining_mark(c: char) -> (r: bool)
    ensures
        r == is_mark(c),
{
    let v = c as u32;
    (0x064B <= v && v <= 0x0652) || (0x0653 <= v && v <= 0x0655) || v == 0x0670
}

/// Whether a letter can connect to the letter that follows it (i.e. connects
/// on its left edge). Only dual-joining letters can.
fn can_join_left(l: &Letter) -> (r: bool)
    ensures
        r == (l.join == Join::Dual),
{
    l.join == Join::Dual
}

/// Shapes `input` (logical-order Arabic) into a visual-order string of
/// presentation forms, ready to draw left-to-right and right-align.
///
/// Non-Arabic characters are preserved and reordered with the rest of the run.
pub fn shape(input: &str) -> (out: String)
    ensures
        out@ == shaped(input@),
{
    // 1. Drop the combining marks.
    let mut chars: Vec<char> = Vec::new();
    for c in it: input.chars()
        invariant
            it.seq() == input@,
            chars@ == strip_marks(input@.take(it.index() as int)),
    {
        proof {
            let k = it.index() as int;
            assert(input@.take(k + 1).drop_last() =~= input@.take(k));
            assert(input@.take(k + 1).last() == c);
        }
        if !is_combining_mark(c) {
            chars.push(c);
        }
    }
    proof {
        assert(input@.take(input@.len() as int) =~= input@);
    }

    // 2. Parse into letters / passthrough, merging lam-alef.
    let n = chars.len();
    let mut elems: Vec<Elem> = Vec::new();
    let mut i: usize = 0;
    while i < n
        invariant
            n == chars@.len(),
            i <= n,
            elems@ + parse(chars@, i as int) == parse(chars@, 0),
        decreases n - i,
    {
        let c = chars[i];
        if c == LAM && i + 1 < n {
            if let Some((iso, fin)) = lam_alef_ligature(chars[i + 1]) {
                // The ligature joins to the previous letter (through lam) but
                // not to the following one (alef is right-joining).
                let e = Elem::Letter(Letter::right(iso, fin));
                proof {
                    assert(parse(chars@, i as int) == seq![e] + parse(chars@, i + 2));
                    assert(elems@.push(e) + parse(chars@, i + 2) =~= elems@ + (seq![e] + parse(chars@, i + 2)));
                }
                elems.push(e);
                i = i + 2;
                continue;
            }
        }
        let e = match letter_info(c) {
            Some(l) => Elem::Letter(l),
            None => Elem::Passthrough(c),
        };
        proof {
            assert(parse(chars@, i as int) == seq![e] + parse(chars@, i + 1));
            assert(elems@.push(e) + parse(chars@, i + 1) =~= elems@ + (seq![e] + parse(chars@, i + 1)));
        }
        elems.push(e);
        i = i + 1;
    }
    proof {
        assert(elems@ + parse(chars@, n as int) =~= elems@);
    }

    // 3. Resolve each letter's contextual form from its neighbours.
    let m = elems.len();
    let mut logical: Vec<char> = Vec::new();
    let mut idx: usize = 0;
    while idx < m
        invariant
            m == elems@.len(),
            idx <= m,
            logical@.len() == idx,
            forall|j: int| 0 <= j < idx ==> logical@[j] == form_at(elems@, j),
        decreases m - idx,
    {
        let form = match elems[idx] {
            Elem::Passthrough(c) => c,
            Elem::Letter(l) => {
                let joins_prev = idx > 0 && match elems[idx - 1] {
                    Elem::Letter(p) => can_join_left(&p),
                    Elem::Passthrough(_) => false,
                };
                let joins_next = can_join_left(&l) && idx + 1 < m && match elems[idx + 1] {
                    Elem::Letter(_) => true,
                    Elem::Passthrough(_) => false,
                };
                if joins_prev && joins_next {
                    l.medial
                } else if joins_prev {
                    l.final_
                } else if joins_next {
                    l.initial
                } else {
                    l.isolated
                }
            },
        };
        logical.push(form);
        idx = idx + 1;
    }
    proof {
        assert(logical@ =~= logical_forms(elems@));
    }

    // 4. Emit in visual (right-to-left) order.
    let mut out = String::new();
    let mut k = m;
    while k > 0
        invariant
            m == logical@.len(),
            k <= m,
            out@.len() == m - k,
            forall|j: int| 0 <= j < m - k ==> out@[j] == logical@[m - 1 - j],
        decreases k,
    {
        k = k - 1;
        push_char(&mut out, logical[k]);
    }
    proof {
        assert(out@ =~= logical@.reverse());
    }
    out
}

} // verus!
