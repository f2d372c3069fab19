//! The fıkh zone of the running prayer-time countdown and the status LED
//! pattern that mirrors it.
//!
//! The countdown between two timeline entries is split into three equal
//! thirds: Fazilet (the meritorious early time), Cevaz (permissible) and
//! Kerahet (disliked, running out). Each zone has one LED channel pattern so
//! the on-screen status bar and the RGB LED always agree.

use vstd::prelude::*;

verus! {

/// Binary on/off state of the onboard common-anode RGB LED's three channels.
#[derive(Clone, Copy, PartialEq, Eq, Debug, Structural)]
pub struct LedColor {
    pub red: bool,
    pub green: bool,
    pub blue: bool,
}

impl LedColor {
    /// All channels dark, used when there is no active zone.
    pub fn off() -> (c: LedColor)
        ensures
            c == (LedColor { red: false, green: false, blue: false }),
    {
        LedColor { red: false, green: false, blue: false }
    }
}

/// One of the three fıkh zones of a prayer-time countdown.
#[derive(Clone, Copy, PartialEq, Eq, Debug, Structural)]
pub enum Zone {
    /// 0–33% elapsed: the meritorious early time (screen: emerald green).
    Fazilet,
    /// 33–66% elapsed: permissible (screen: warm orange).
    Cevaz,
    /// 66–100% elapsed: disliked, time running out (screen: warning red).
    Kerahet,
}

/// The LED pattern of each zone: Fazilet green, Cevaz amber (red + green, the
/// closest primary mix to the screen's orange), Kerahet red.
pub open spec fn zone_pattern(z: Zone) -> LedColor {
    match z {
        Zone::Fazilet => LedColor { red: false, green: true, blue: false },
        Zone::Cevaz => LedColor { red: true, green: true, blue: false },
        Zone::Kerahet => LedColor { red: true, green: false, blue: false },
    }
}

impl Zone {
    /// The RGB LED channel pattern that mirrors this zone's status-bar color.
    ///
    /// Each channel is binary on/off (one GPIO, no PWM), so the panel's warm
    /// orange for Cevaz is approximated as red + green (amber).
    pub fn led_color(self) -> (c: LedColor)
        ensures
            c == zone_pattern(self),
    {
        match self {
            Zone::Fazilet => LedColor { red: false, green: true, blue: false },
            Zone::Cevaz => LedColor { red: true, green: true, blue: false },
            Zone::Kerahet => LedColor { red: true, green: false, blue: false },
        }
    }
}

/// The LED pattern shown for an optional zone: the zone's pattern, or all
/// channels dark when there is no active zone.
pub open spec fn shown_pattern(zone: Option<Zone>) -> LedColor {
    match zone {
        Some(z) => zone_pattern(z),
        None => LedColor { red: false, green: false, blue: false },
    }
}

/// Decides what the status LED driver writes when asked to show `zone`,
/// given the state it last wrote (`None` when nothing was written yet).
/// Returns the pattern to write, or `None` when the requested state is the
/// one already shown, so pushing the same zone every second is a no-op.
pub fn led_update(last: Option<Option<Zone>>, zone: Option<Zone>) -> (write: Option<LedColor>)
    ensures
        write == (if last == Some(zone) { None } else { Some(shown_pattern(zone)) }),
{
    let same = match last {
        Some(prev) => match (prev, zone) {
            (None, None) => true,
            (Some(a), Some(b)) => a == b,
            _ => false,
        },
        None => false,
    };
    if same {
        return None;
    }
    match zone {
        Some(z) => Some(z.led_color()),
        None => Some(LedColor::off()),
    }
}

/// No zone ever lights the blue channel, and the three zones show three
/// different patterns, so the LED alone tells the zones apart.
pub proof fn lemma_zone_patterns_distinct(a: Zone, b: Zone)
    ensures
        !zone_pattern(a).blue,
        zone_pattern(a) == zone_pattern(b) <==> a == b,
        zone_pattern(a) != shown_pattern(None),
{
}

/// Once the driver has written the pattern for `zone`, asking for the same
/// zone again writes nothing.
pub proof fn lemma_led_update_idempotent(last: Option<Option<Zone>>, zone: Option<Zone>)
    ensures
        led_update_spec(Some(zone), zone) is None,
        led_update_spec(last, zone) is None || led_update_spec(last, zone) == Some(shown_pattern(zone)),
{
}

/// The specification of `led_update`.
pub open spec fn led_update_spec(last: Option<Option<Zone>>, zone: Option<Zone>) -> Option<LedColor> {
    if last == Some(zone) { None } else { Some(shown_pattern(zone)) }
}

} // verus!
