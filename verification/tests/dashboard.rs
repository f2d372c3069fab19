use namaz_vakti_logic::dashboard::{
    card_state_for, card_x, format_countdown, header_date, header_line, localize_prayer,
    localize_weekday, next_prayer_line, progress_bar, same_text, status_line_y, CardState,
};
use namaz_vakti_logic::language::{prayer_names, weekday_names, Language};
use namaz_vakti_logic::segdisplay::Rect;
use namaz_vakti_logic::settings::DateMode;
use namaz_vakti_logic::time_utils::LocalTime;
use namaz_vakti_logic::zone::Zone;

#[test]
fn same_text_compares_characters() {
    assert!(same_text("ÖĞLE", "ÖĞLE"));
    assert!(!same_text("ÖĞLE", "OGLE"));
    assert!(!same_text("AB", "ABC"));
    assert!(same_text("", ""));
}

#[test]
fn next_takes_precedence_over_current() {
    assert_eq!(card_state_for("AKŞAM", Some("AKŞAM"), Some("AKŞAM"), Some(7u16)), CardState::Next);
    assert_eq!(card_state_for("ÖĞLE", Some("İKİNDİ"), Some("ÖĞLE"), Some(7u16)), CardState::Current(7));
    assert_eq!(card_state_for("ÖĞLE", Some("İKİNDİ"), Some("ÖĞLE"), None::<u16>), CardState::Inactive);
    assert_eq!(card_state_for("YATSI", Some("İKİNDİ"), Some("ÖĞLE"), Some(7u16)), CardState::Inactive);
    assert_eq!(card_state_for("YATSI", None, None, Some(7u16)), CardState::Inactive);
}

#[test]
fn labels_are_localized() {
    assert_eq!(localize_prayer("İKİNDİ", Language::English), "ASR");
    assert_eq!(localize_prayer("YATSI", Language::Turkish), "YATSI");
    assert_eq!(localize_prayer("unknown", Language::English), "FAJR");
    assert_eq!(localize_weekday("CUMA", Language::English), "FRIDAY");
    assert_eq!(localize_weekday("??", Language::English), "SUNDAY");
}

#[test]
fn countdown_text_is_hh_mm_ss() {
    assert_eq!(format_countdown(0), "00:00:00");
    assert_eq!(format_countdown(3 * 3600 + 40 * 60 + 5), "03:40:05");
    assert_eq!(format_countdown(-5), "00:00:00");
    assert_eq!(format_countdown(100 * 3600), "100:00:00");
}

#[test]
fn progress_bar_erases_from_the_left() {
    let (track, pieces) = progress_bar(0);
    assert_eq!(track, None);
    assert_eq!(
        pieces,
        vec![
            (Rect { x: 40, y: 190, w: 133, h: 10 }, Zone::Fazilet),
            (Rect { x: 173, y: 190, w: 133, h: 10 }, Zone::Cevaz),
            (Rect { x: 306, y: 190, w: 134, h: 10 }, Zone::Kerahet),
        ]
    );
    let (track, pieces) = progress_bar(200);
    assert_eq!(track, Some(Rect { x: 40, y: 190, w: 200, h: 10 }));
    assert_eq!(
        pieces,
        vec![
            (Rect { x: 240, y: 190, w: 66, h: 10 }, Zone::Cevaz),
            (Rect { x: 306, y: 190, w: 134, h: 10 }, Zone::Kerahet),
        ]
    );
    let (track, pieces) = progress_bar(400);
    assert_eq!(track, Some(Rect { x: 40, y: 190, w: 400, h: 10 }));
    assert!(pieces.is_empty());
}

#[test]
fn status_lines_are_centred_around_the_middle() {
    assert_eq!(status_line_y(1, 0), 150);
    assert_eq!(status_line_y(2, 0), 138);
    assert_eq!(status_line_y(2, 1), 164);
}

#[test]
fn header_shows_the_chosen_calendar() {
    let t = LocalTime::from_epoch(1_720_267_200);
    assert_eq!(header_date(DateMode::Miladi, Some("30.12.1445"), &t), "06.07.2024");
    assert_eq!(header_date(DateMode::Hijri, Some("30.12.1445"), &t), "30.12.1445 (H)");
    assert_eq!(header_date(DateMode::Hijri, None, &t), "06.07.2024");
}

#[test]
fn header_line_joins_its_parts() {
    assert_eq!(
        header_line("HAARLEM", "06.07.2024", Some("CUMARTESİ"), 14, 5),
        "HAARLEM   06.07.2024   CUMARTESİ   14:05"
    );
    assert_eq!(header_line("HAARLEM", "06.07.2024", None, 9, 0), "HAARLEM   06.07.2024   09:00");
}

#[test]
fn next_prayer_line_is_localized() {
    assert_eq!(next_prayer_line("İKİNDİ", Language::English), "NEXT PRAYER: ASR");
    assert_eq!(next_prayer_line("AKŞAM", Language::Turkish), "SIRADAKİ VAKİT: AKŞAM");
}

#[test]
fn cards_sit_side_by_side() {
    assert_eq!(card_x(0), 4);
    assert_eq!(card_x(1), 100);
    assert_eq!(card_x(4), 388);
}

#[test]
fn every_stable_label_localizes_to_its_own_position() {
    for lang in [Language::Turkish, Language::English, Language::Nederlands, Language::Arabic] {
        for (i, tr) in prayer_names(Language::Turkish).iter().enumerate() {
            assert_eq!(localize_prayer(tr, lang), prayer_names(lang)[i]);
        }
        for (i, tr) in weekday_names(Language::Turkish).iter().enumerate() {
            assert_eq!(localize_weekday(tr, lang), weekday_names(lang)[i]);
        }
    }
}
