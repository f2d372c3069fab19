use namaz_vakti_logic::about::{field_layout, format_mac, FieldLayout, HARDWARE_MODEL, MAC_UNKNOWN};
use namaz_vakti_logic::language::Language;
use namaz_vakti_logic::text::HAlign;

#[test]
fn fields_follow_the_script_direction() {
    assert_eq!(
        field_layout(Language::English, 0),
        FieldLayout { x: 20, label_y: 70, value_y: 96, align: HAlign::Left }
    );
    assert_eq!(
        field_layout(Language::Arabic, 2),
        FieldLayout { x: 460, label_y: 210, value_y: 236, align: HAlign::Right }
    );
}

#[test]
fn mac_is_upper_case_hex_pairs() {
    assert_eq!(format_mac([0x24, 0x6f, 0x28, 0x0a, 0x1b, 0xff]), "24:6F:28:0A:1B:FF");
    assert_eq!(format_mac([0; 6]), "00:00:00:00:00:00");
    assert_eq!(MAC_UNKNOWN.len(), format_mac([0; 6]).len());
    assert_eq!(HARDWARE_MODEL, "4.0inch ESP32-32E Display");
}
