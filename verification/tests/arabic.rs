use namaz_vakti_logic::arabic::shape;
use namaz_vakti_logic::language::{prayer_names, text, Language, Msg};

#[test]
fn passes_through_ascii_unchanged_but_reversed() {
    // No Arabic letters => just reversed (symmetric strings stay put).
    assert_eq!(shape("..."), "...");
    assert_eq!(shape(":"), ":");
}

#[test]
fn single_isolated_letter() {
    // ب on its own => isolated form U+FE8F.
    assert_eq!(shape("\u{0628}"), "\u{FE8F}");
}

#[test]
fn two_dual_letters_join() {
    // بب => initial + final, emitted right-to-left => [final, initial].
    let out = shape("\u{0628}\u{0628}");
    let chars: Vec<char> = out.chars().collect();
    assert_eq!(chars, ['\u{FE90}', '\u{FE91}']); // final, then initial
}

#[test]
fn right_joining_letter_blocks_following_join() {
    // د (right-joining) + ب: both isolated; visual order reverses them.
    let out = shape("\u{062F}\u{0628}");
    let chars: Vec<char> = out.chars().collect();
    assert_eq!(chars, ['\u{FE8F}', '\u{FEA9}']);
}

#[test]
fn lam_alef_forms_ligature() {
    // لا => single ligature glyph. Isolated form FEFB (nothing precedes).
    assert_eq!(shape("\u{0644}\u{0627}"), "\u{FEFB}");
}

#[test]
fn lam_alef_ligature_takes_final_form_after_joining_letter() {
    // بلا: beh joins the ligature, so the ligature uses its final form FEFC.
    let out = shape("\u{0628}\u{0644}\u{0627}");
    let chars: Vec<char> = out.chars().collect();
    assert_eq!(chars, ['\u{FEFC}', '\u{FE91}']);
}

#[test]
fn combining_marks_are_dropped() {
    // بَ (beh + fatha) shapes the same as bare beh.
    assert_eq!(shape("\u{0628}\u{064E}"), shape("\u{0628}"));
}

#[test]
fn word_with_space_reverses_word_order() {
    let out = shape("\u{0628} \u{0628}");
    assert_eq!(out.chars().count(), 3);
    assert!(out.contains(' '));
}

#[test]
fn output_is_non_empty_for_all_real_labels() {
    for name in prayer_names(Language::Arabic) {
        assert!(!shape(name).is_empty());
    }
    for m in [
        Msg::AppTitle,
        Msg::SettingsTitle,
        Msg::NextPrayer,
        Msg::DateHijri,
    ] {
        let s = text(Language::Arabic, m);
        assert!(!shape(s).is_empty(), "empty shape for {}", s);
    }
}

#[test]
fn medial_form_between_two_dual_letters() {
    // ببب => initial, medial, final in logical order; visual order reversed.
    let chars: Vec<char> = shape("\u{0628}\u{0628}\u{0628}").chars().collect();
    assert_eq!(chars, ['\u{FE90}', '\u{FE92}', '\u{FE91}']);
}

#[test]
fn lam_alone_before_non_alef_is_a_plain_letter() {
    // لب => lam initial, beh final; no ligature.
    let chars: Vec<char> = shape("\u{0644}\u{0628}").chars().collect();
    assert_eq!(chars, ['\u{FE90}', '\u{FEDF}']);
}

#[test]
fn lam_alef_variants_use_their_ligatures() {
    assert_eq!(shape("\u{0644}\u{0622}"), "\u{FEF5}");
    assert_eq!(shape("\u{0644}\u{0623}"), "\u{FEF7}");
    assert_eq!(shape("\u{0644}\u{0625}"), "\u{FEF9}");
}

#[test]
fn empty_input_shapes_to_empty() {
    assert_eq!(shape(""), "");
    assert_eq!(shape("\u{064E}\u{0670}"), "");
}

#[test]
fn shaping_never_lengthens() {
    for s in ["\u{0628}\u{064E}\u{0644}\u{0627}", "abc", "\u{0627}\u{0644}\u{0641}\u{062C}\u{0631}"] {
        assert!(shape(s).chars().count() <= s.chars().count());
    }
}

#[test]
fn latin_text_is_only_reversed() {
    assert_eq!(shape("ab c"), "c ba");
}
