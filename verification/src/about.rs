//! Layout of the About page: the hardware model, the firmware version and
//! the station MAC address, each a localized label line over a Latin value.

use vstd::prelude::*;

use crate::language::Language;
use crate::text::HAlign;
use crate::unicode::push_char;

verus! {

/// The board's model, shown verbatim in every language.
pub const HARDWARE_MODEL: &'static str = "4.0inch ESP32-32E Display";

/// Left (or, right to left, right) margin of the content column.
pub const CONTENT_X: i32 = 20;
/// Baseline of the first label.
pub const FIRST_ROW_Y: i32 = 70;
/// Distance between two fields.
pub const ROW_PITCH: i32 = 70;
/// Distance from a label's baseline down to its value's.
pub const VALUE_OFFSET: i32 = 26;

/// Where a field is drawn.
#[derive(Clone, Copy, PartialEq, Eq, Debug, Structural)]
pub struct FieldLayout {
    /// Anchor x of the label and of the value below it.
    pub x: i32,
    /// Baseline of the label.
    pub label_y: i32,
    /// Baseline of the value.
    pub value_y: i32,
    /// Both lines are aligned to the same edge.
    pub align: HAlign,
}

/// The layout of field `row`: right-aligned at the right margin for a
/// right-to-left language, left-aligned at the left margin otherwise.
pub open spec fn field_layout_of(lang: Language, row: int) -> FieldLayout {
    let y = FIRST_ROW_Y + row * ROW_PITCH;
    if lang == Language::Arabic {
        FieldLayout { x: (480 - CONTENT_X) as i32, label_y: y as i32, value_y: (y + VALUE_OFFSET) as i32, align: HAlign::Right }
    } else {
        FieldLayout { x: CONTENT_X, label_y: y as i32, value_y: (y + VALUE_OFFSET) as i32, align: HAlign::Left }
    }
}

/// Where field `row` (0: hardware, 1: firmware, 2: MAC) is drawn.
pub fn field_layout(lang: Language, row: i32) -> (l: FieldLayout)
    requires
        i32::MIN <= row * ROW_PITCH,
        FIRST_ROW_Y + row * ROW_PITCH + VALUE_OFFSET <= i32::MAX,
    ensures
        l == field_layout_of(lang, row as int),
{
    let y = FIRST_ROW_Y + row * ROW_PITCH;
    if lang.is_rtl() {
        FieldLayout { x: 480 - CONTENT_X, label_y: y, value_y: y + VALUE_OFFSET, align: HAlign::Right }
    } else {
        FieldLayout { x: CONTENT_X, label_y: y, value_y: y + VALUE_OFFSET, align: HAlign::Left }
    }
}

/// The upper-case hexadecimal digits.
pub const HEX_DIGITS: [char; 16] = ['0', '1', '2', '3', '4', '5', '6', '7', '8', '9', 'A', 'B', 'C', 'D', 'E', 'F'];

/// A byte as two upper-case hexadecimal digits.
pub open spec fn hex_byte(b: u8) -> Seq<char> {
    seq![HEX_DIGITS[(b / 16) as int], HEX_DIGITS[(b % 16) as int]]
}

/// A MAC address as six colon-separated pairs of upper-case hexadecimal
/// digits, e.g. `"24:6F:28:0A:1B:FF"`.
pub open spec fn mac_text(m: Seq<u8>) -> Seq<char> {
    hex_byte(m[0]) + seq![':'] + hex_byte(m[1]) + seq![':'] + hex_byte(m[2]) + seq![':']
        + hex_byte(m[3]) + seq![':'] + hex_byte(m[4]) + seq![':'] + hex_byte(m[5])
}

/// The text shown when the station MAC cannot be read.
pub const MAC_UNKNOWN: &'static str = "--:--:--:--:--:--";

/// Formats a station MAC address for the About page.
pub fn format_mac(mac: [u8; 6]) -> (s: String)
    ensures
        s@ == mac_text(mac@),
{
    let mut s = String::new();
    let mut i: usize = 0;
    while i < 6
        invariant
            i <= 6,
            s@ == if i == 0 { Seq::<char>::empty() } else { mac_text(mac@).take(3 * i - 1) },
        decreases 6 - i,
    {
        let ghost before = s@;
        if i > 0 {
            push_char(&mut s, ':');
        }
        let b = mac[i];
        push_char(&mut s, HEX_DIGITS[(b / 16) as usize]);
        push_char(&mut s, HEX_DIGITS[(b % 16) as usize]);
        proof {
            assert(s@ =~= mac_text(mac@).take(3 * i + 2));
        }
        i = i + 1;
    }
    proof {
        assert(mac_text(mac@).take(17) =~= mac_text(mac@));
    }
    s
}

} // verus!
