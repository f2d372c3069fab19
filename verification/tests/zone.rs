use namaz_vakti_logic::zone::{led_update, LedColor, Zone};

#[test]
fn led_pattern_matches_zone_color() {
    // Fazilet → pure green.
    assert_eq!(
        Zone::Fazilet.led_color(),
        LedColor {
            red: false,
            green: true,
            blue: false
        }
    );
    // Cevaz → amber (Red + Green) approximation of orange.
    assert_eq!(
        Zone::Cevaz.led_color(),
        LedColor {
            red: true,
            green: true,
            blue: false
        }
    );
    // Kerahet → pure red.
    assert_eq!(
        Zone::Kerahet.led_color(),
        LedColor {
            red: true,
            green: false,
            blue: false
        }
    );
    // Blue is never lit by any zone (reserved for future state colors).
    for zone in [Zone::Fazilet, Zone::Cevaz, Zone::Kerahet] {
        assert!(!zone.led_color().blue);
    }
}

#[test]
fn off_is_all_dark() {
    assert_eq!(
        LedColor::off(),
        LedColor {
            red: false,
            green: false,
            blue: false
        }
    );
}

#[test]
fn led_writes_only_on_change() {
    // Nothing written yet: the first request always writes.
    assert_eq!(led_update(None, None), Some(LedColor::off()));
    assert_eq!(led_update(None, Some(Zone::Cevaz)), Some(Zone::Cevaz.led_color()));
    // Same zone again: no write.
    assert_eq!(led_update(Some(Some(Zone::Cevaz)), Some(Zone::Cevaz)), None);
    assert_eq!(led_update(Some(None), None), None);
    // A different zone, or turning off: write.
    assert_eq!(
        led_update(Some(Some(Zone::Cevaz)), Some(Zone::Kerahet)),
        Some(Zone::Kerahet.led_color())
    );
    assert_eq!(led_update(Some(Some(Zone::Fazilet)), None), Some(LedColor::off()));
}
