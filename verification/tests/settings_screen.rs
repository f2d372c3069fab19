use namaz_vakti_logic::language::Language;
use namaz_vakti_logic::settings::{DateMode, Settings};
use namaz_vakti_logic::settings_screen::{
    box_x, heading_anchor, hit_test, option_boxes, point_in_icon, settings_step, Hit, SettingsExit,
    SettingsStep,
};
use namaz_vakti_logic::text::HAlign;

#[test]
fn icon_square_is_the_top_right_corner() {
    assert!(point_in_icon(450, 0));
    assert!(point_in_icon(479, 29));
    assert!(!point_in_icon(449, 10));
    assert!(!point_in_icon(460, 30));
    assert!(!point_in_icon(480, 10));
}

#[test]
fn option_columns_step_by_box_and_gap() {
    assert_eq!(box_x(0), 8);
    assert_eq!(box_x(1), 126);
    assert_eq!(box_x(3), 362);
}

#[test]
fn hit_test_maps_each_box() {
    assert_eq!(hit_test(460, 10), Some(Hit::Back));
    assert_eq!(hit_test(10, 95), Some(Hit::Language(Language::Arabic)));
    assert_eq!(hit_test(130, 100), Some(Hit::Language(Language::English)));
    assert_eq!(hit_test(250, 131), Some(Hit::Language(Language::Nederlands)));
    assert_eq!(hit_test(471, 92), Some(Hit::Language(Language::Turkish)));
    assert_eq!(hit_test(8, 172), Some(Hit::DateMode(DateMode::Miladi)));
    assert_eq!(hit_test(200, 200), Some(Hit::DateMode(DateMode::Hijri)));
    assert_eq!(hit_test(20, 260), Some(Hit::Wifi));
    assert_eq!(hit_test(140, 270), Some(Hit::Recalibrate));
    assert_eq!(hit_test(260, 280), Some(Hit::About));
    assert_eq!(hit_test(400, 297), Some(Hit::Location));
}

#[test]
fn hit_test_misses_gaps_and_empty_space() {
    // Between two language boxes.
    assert_eq!(hit_test(120, 100), None);
    // The date row has only two boxes.
    assert_eq!(hit_test(300, 180), None);
    // Below the last row.
    assert_eq!(hit_test(20, 298), None);
    assert_eq!(hit_test(240, 60), None);
}

#[test]
fn taps_apply_choices_or_leave_the_screen() {
    let mut s = Settings::default();
    assert_eq!(settings_step(&mut s, None), SettingsStep::Stay);
    assert_eq!(s, Settings::default());
    assert_eq!(
        settings_step(&mut s, Some(Hit::Language(Language::English))),
        SettingsStep::LanguageChanged(Language::English)
    );
    assert_eq!(s.language, Language::English);
    assert_eq!(s.date_mode, DateMode::Miladi);
    assert_eq!(
        settings_step(&mut s, Some(Hit::DateMode(DateMode::Hijri))),
        SettingsStep::DateModeChanged(DateMode::Hijri)
    );
    assert_eq!(s.date_mode, DateMode::Hijri);
    assert_eq!(settings_step(&mut s, Some(Hit::Back)), SettingsStep::Exit(SettingsExit::Back));
    assert_eq!(settings_step(&mut s, Some(Hit::Location)), SettingsStep::Exit(SettingsExit::Location));
    assert_eq!(s.language, Language::English);
}

#[test]
fn option_boxes_mark_the_current_choices() {
    let s = Settings { language: Language::English, date_mode: DateMode::Hijri };
    let boxes = option_boxes(s);
    assert_eq!(boxes.len(), 6);
    let langs: Vec<(i32, i32, &str, Language, bool)> =
        boxes.iter().map(|b| (b.x, b.y, b.label, b.label_lang, b.selected)).collect();
    assert_eq!(langs[0], (8, 92, "العربية", Language::Arabic, false));
    assert_eq!(langs[1], (126, 92, "English", Language::English, true));
    assert_eq!(langs[2], (244, 92, "Nederlands", Language::Nederlands, false));
    assert_eq!(langs[3], (362, 92, "Türkçe", Language::Turkish, false));
    assert_eq!(langs[4], (8, 172, "Gregorian", Language::English, false));
    assert_eq!(langs[5], (126, 172, "Hijri", Language::English, true));
}

#[test]
fn headings_flip_for_right_to_left() {
    assert_eq!(heading_anchor(Language::Turkish), (8, HAlign::Left));
    assert_eq!(heading_anchor(Language::Arabic), (472, HAlign::Right));
}
