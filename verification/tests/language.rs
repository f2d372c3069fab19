use namaz_vakti_logic::language::{language_label, prayer_names, text, weekday_names, Language, Msg};

#[test]
fn u8_round_trip_is_stable() {
    for lang in Language::ALL {
        assert_eq!(Language::from_u8(lang.to_u8()), lang);
    }
}

#[test]
fn unknown_byte_falls_back_to_turkish() {
    assert_eq!(Language::from_u8(99), Language::Turkish);
    assert_eq!(Language::default(), Language::Turkish);
}

#[test]
fn only_arabic_is_rtl() {
    assert!(Language::Arabic.is_rtl());
    assert!(!Language::Turkish.is_rtl());
    assert!(!Language::English.is_rtl());
}

#[test]
fn every_language_has_five_prayer_and_seven_weekday_names() {
    for lang in Language::ALL {
        assert_eq!(prayer_names(lang).len(), 5);
        assert_eq!(weekday_names(lang).len(), 7);
        for name in prayer_names(lang) {
            assert!(!name.is_empty());
        }
    }
}

#[test]
fn turkish_prayer_names_match_legacy_hardcoded_values() {
    assert_eq!(
        prayer_names(Language::Turkish),
        ["İMSAK", "ÖĞLE", "İKİNDİ", "AKŞAM", "YATSI"]
    );
}

#[test]
fn every_message_resolves_for_every_language() {
    let msgs = [
        Msg::AppTitle,
        Msg::Starting,
        Msg::WifiConnecting,
        Msg::WifiConnectFailed,
        Msg::Restarting,
        Msg::TimeSyncing,
        Msg::PrayerDownloading,
        Msg::PrayerFetchFailed,
        Msg::RetryingInBackground,
        Msg::PrayerDownloadFailed,
        Msg::Retrying,
        Msg::PrayerDataMissing,
        Msg::NextPrayer,
        Msg::SettingsTitle,
        Msg::LanguageHeading,
        Msg::DateHeading,
        Msg::DateMiladi,
        Msg::DateHijri,
        Msg::SystemHeading,
        Msg::WifiMenu,
        Msg::RecalibrateTouch,
        Msg::WifiSetupTitle,
        Msg::WifiScanning,
        Msg::WifiSelectNetwork,
        Msg::WifiEnterManually,
        Msg::WifiRescan,
        Msg::WifiNoNetworks,
        Msg::WifiEnterSsid,
        Msg::WifiEnterPassword,
        Msg::WifiReconnecting,
        Msg::WifiPasswordTooShort,
        Msg::KeySpace,
        Msg::KeyDone,
        Msg::CalTitle,
        Msg::CalTapCrosshair,
        Msg::CalComplete,
        Msg::CalFailed,
        Msg::CalRetry,
        Msg::CalSkipped,
        Msg::CalUsingDefaults,
        Msg::CalRecalibrating,
    ];
    for lang in Language::ALL {
        for &m in &msgs {
            assert!(!text(lang, m).is_empty(), "empty {:?} for {:?}", m, lang);
        }
    }
}

#[test]
fn language_bytes_follow_the_declaration_order() {
    assert_eq!(Language::Turkish.to_u8(), 0);
    assert_eq!(Language::English.to_u8(), 1);
    assert_eq!(Language::Nederlands.to_u8(), 2);
    assert_eq!(Language::Arabic.to_u8(), 3);
    assert_eq!(Language::from_u8(0), Language::Turkish);
    assert_eq!(Language::from_u8(2), Language::Nederlands);
    assert_eq!(Language::from_u8(3), Language::Arabic);
}

#[test]
fn all_lists_languages_alphabetically_by_endonym() {
    assert_eq!(
        Language::ALL,
        [Language::Arabic, Language::English, Language::Nederlands, Language::Turkish]
    );
    assert_eq!(language_label(Language::Turkish), "Türkçe");
    assert_eq!(language_label(Language::Arabic), "العربية");
}

#[test]
fn translations_pick_the_right_row() {
    assert_eq!(text(Language::Turkish, Msg::AppTitle), "Namaz Vakti");
    assert_eq!(text(Language::English, Msg::CalRecalibrating), "Recalibrating touch");
    assert_eq!(text(Language::Nederlands, Msg::WifiRescan), "Opnieuw zoeken");
    assert_eq!(text(Language::Arabic, Msg::KeyDone), "موافق");
    assert_eq!(weekday_names(Language::English)[0], "SUNDAY");
    assert_eq!(weekday_names(Language::Turkish)[6], "CUMARTESİ");
}
