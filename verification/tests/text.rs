use namaz_vakti_logic::arabic::shape;
use namaz_vakti_logic::language::Language;
use namaz_vakti_logic::text::prepare_line;

#[test]
fn latin_lines_are_drawn_as_given() {
    let l = prepare_line("SIRADAKİ VAKİT:", Language::Turkish);
    assert!(!l.arabic);
    assert_eq!(l.text, "SIRADAKİ VAKİT:");
    let l = prepare_line("OK", Language::English);
    assert_eq!(l.text, "OK");
}

#[test]
fn arabic_lines_are_shaped() {
    let l = prepare_line("الفجر", Language::Arabic);
    assert!(l.arabic);
    assert_eq!(l.text, shape("الفجر"));
    assert_ne!(l.text, "الفجر");
}
