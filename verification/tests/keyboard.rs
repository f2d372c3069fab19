use namaz_vakti_logic::keyboard::{
    apply_key, field_text, hit_key, layout_keys, KeyAction, KeyOutcome, Layer, FIELD_VISIBLE_CHARS,
};
use namaz_vakti_logic::language::Language;

#[test]
fn lower_layer_places_number_row_centred() {
    let keys = layout_keys(Layer::Lower, Language::English);
    // 10 + 10 + 9 + 7 character keys plus five controls.
    assert_eq!(keys.len(), 41);
    let one = &keys[0];
    assert_eq!(one.action, KeyAction::Char('1'));
    assert_eq!(one.label, "1");
    assert_eq!(one.label_lang, Language::English);
    assert_eq!((one.x, one.y, one.w, one.h), (6, 76, 44, 44));
    let zero = &keys[9];
    assert_eq!(zero.action, KeyAction::Char('0'));
    assert_eq!(zero.x, 429);
    let a = &keys[20];
    assert_eq!(a.action, KeyAction::Char('a'));
    assert_eq!((a.x, a.y), (30, 172));
    let z = &keys[29];
    assert_eq!(z.action, KeyAction::Char('z'));
    assert_eq!((z.x, z.y), (77, 220));
}

#[test]
fn control_row_spans_the_panel() {
    let keys = layout_keys(Layer::Lower, Language::English);
    let controls: Vec<_> = keys[36..].iter().collect();
    assert_eq!(controls.len(), 5);
    let expected = [
        (KeyAction::ToggleSymbols, "123", 6, 58),
        (KeyAction::Shift, "Aa", 67, 58),
        (KeyAction::Space, "space", 128, 218),
        (KeyAction::Backspace, "del", 349, 58),
        (KeyAction::Done, "OK", 410, 64),
    ];
    for (k, (action, label, x, w)) in controls.iter().zip(expected.iter()) {
        assert_eq!(k.action, *action);
        assert_eq!(k.label, *label);
        assert_eq!(k.x, *x);
        assert_eq!(k.w, *w);
        assert_eq!(k.y, 268);
    }
    assert_eq!(controls[4].x + controls[4].w as i32, 474);
}

#[test]
fn symbols_layer_has_no_shift_and_a_wider_space() {
    let keys = layout_keys(Layer::Symbols, Language::Turkish);
    // Four rows of ten characters plus four controls.
    assert_eq!(keys.len(), 44);
    assert_eq!(keys[10].action, KeyAction::Char('!'));
    assert_eq!(keys[29].action, KeyAction::Char('|'));
    assert_eq!(keys[30].x, 6);
    assert_eq!(keys[40].action, KeyAction::ToggleSymbols);
    assert_eq!(keys[40].label, "ABC");
    assert_eq!(keys[41].action, KeyAction::Space);
    assert_eq!(keys[41].label, "boşluk");
    assert_eq!(keys[41].label_lang, Language::Turkish);
    assert_eq!((keys[41].x, keys[41].w), (67, 279));
    assert_eq!(keys[43].label, "Tamam");
}

#[test]
fn hit_key_finds_the_key_under_the_point() {
    assert_eq!(hit_key(7, 77, Layer::Lower, Language::English), Some(KeyAction::Char('1')));
    assert_eq!(hit_key(49, 119, Layer::Lower, Language::English), Some(KeyAction::Char('1')));
    // The gap between '1' and '2'.
    assert_eq!(hit_key(51, 80, Layer::Lower, Language::English), None);
    assert_eq!(hit_key(31, 173, Layer::Upper, Language::English), Some(KeyAction::Char('A')));
    assert_eq!(hit_key(200, 280, Layer::Lower, Language::English), Some(KeyAction::Space));
    assert_eq!(hit_key(420, 300, Layer::Symbols, Language::English), Some(KeyAction::Done));
    assert_eq!(hit_key(10, 10, Layer::Lower, Language::English), None);
}

#[test]
fn apply_key_types_deletes_and_switches_layers() {
    let mut buf = String::new();
    let mut layer = Layer::Lower;
    assert_eq!(apply_key(&mut buf, &mut layer, KeyAction::Char('a'), 3), KeyOutcome::FieldChanged);
    assert_eq!(apply_key(&mut buf, &mut layer, KeyAction::Space, 3), KeyOutcome::FieldChanged);
    assert_eq!(apply_key(&mut buf, &mut layer, KeyAction::Char('b'), 3), KeyOutcome::FieldChanged);
    assert_eq!(buf, "a b");
    assert_eq!(apply_key(&mut buf, &mut layer, KeyAction::Char('c'), 3), KeyOutcome::Ignored);
    assert_eq!(buf, "a b");
    assert_eq!(apply_key(&mut buf, &mut layer, KeyAction::Backspace, 3), KeyOutcome::FieldChanged);
    assert_eq!(buf, "a ");
    assert_eq!(apply_key(&mut buf, &mut layer, KeyAction::Shift, 3), KeyOutcome::LayerChanged);
    assert_eq!(layer, Layer::Upper);
    assert_eq!(apply_key(&mut buf, &mut layer, KeyAction::ToggleSymbols, 3), KeyOutcome::LayerChanged);
    assert_eq!(layer, Layer::Symbols);
    assert_eq!(apply_key(&mut buf, &mut layer, KeyAction::Shift, 3), KeyOutcome::LayerChanged);
    assert_eq!(layer, Layer::Lower);
    assert_eq!(apply_key(&mut buf, &mut layer, KeyAction::Done, 3), KeyOutcome::Done);
    assert_eq!(buf, "a ");
}

#[test]
fn backspace_on_empty_text_keeps_it_empty() {
    let mut buf = String::new();
    let mut layer = Layer::Symbols;
    assert_eq!(apply_key(&mut buf, &mut layer, KeyAction::Backspace, 5), KeyOutcome::FieldChanged);
    assert_eq!(buf, "");
    assert_eq!(layer, Layer::Symbols);
}

#[test]
fn backspace_undoes_a_typed_character() {
    let mut buf = String::from("ağ");
    let mut layer = Layer::Lower;
    apply_key(&mut buf, &mut layer, KeyAction::Char('ş'), 10);
    apply_key(&mut buf, &mut layer, KeyAction::Backspace, 10);
    assert_eq!(buf, "ağ");
}

#[test]
fn field_text_shows_the_tail_and_a_caret() {
    assert_eq!(field_text(""), "_");
    assert_eq!(field_text("home"), "home_");
    let long: String = (0..60).map(|i| char::from(b'a' + (i % 26) as u8)).collect();
    let shown = field_text(&long);
    assert_eq!(shown.chars().count(), FIELD_VISIBLE_CHARS + 1);
    assert!(shown.starts_with(&long[60 - FIELD_VISIBLE_CHARS..]));
    assert!(shown.ends_with('_'));
}
