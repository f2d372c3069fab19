use namaz_vakti_logic::language::Language;
use namaz_vakti_logic::settings::{DateMode, Settings};

#[test]
fn date_mode_bytes_round_trip() {
    for m in [DateMode::Miladi, DateMode::Hijri] {
        assert_eq!(DateMode::from_u8(m.to_u8()), m);
    }
    assert_eq!(DateMode::Miladi.to_u8(), 0);
    assert_eq!(DateMode::Hijri.to_u8(), 1);
}

#[test]
fn unknown_date_mode_byte_is_miladi() {
    assert_eq!(DateMode::from_u8(2), DateMode::Miladi);
    assert_eq!(DateMode::from_u8(255), DateMode::Miladi);
}

#[test]
fn default_settings_are_turkish_miladi() {
    let s = Settings::default();
    assert_eq!(s.language, Language::Turkish);
    assert_eq!(s.date_mode, DateMode::Miladi);
}

#[test]
fn missing_values_fall_back_to_defaults() {
    assert_eq!(Settings::from_stored(None, None), Settings::default());
    let s = Settings::from_stored(Some(3), None);
    assert_eq!(s.language, Language::Arabic);
    assert_eq!(s.date_mode, DateMode::Miladi);
    let s = Settings::from_stored(None, Some(1));
    assert_eq!(s.language, Language::Turkish);
    assert_eq!(s.date_mode, DateMode::Hijri);
}

#[test]
fn stored_bytes_read_back_as_written() {
    for language in [Language::Turkish, Language::English, Language::Arabic, Language::Nederlands] {
        for date_mode in [DateMode::Miladi, DateMode::Hijri] {
            let s = Settings { language, date_mode };
            assert_eq!(Settings::from_stored(Some(language.to_u8()), Some(date_mode.to_u8())), s);
        }
    }
}
