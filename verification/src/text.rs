//! Language-aware text lines: Latin scripts are drawn as given with the mono
//! fonts; Arabic is first shaped (contextual joining and right-to-left
//! ordering) and drawn with the Arabic renderer. Callers pass the localized
//! string and the active language and never need to know the script.

use vstd::prelude::*;
use vstd::string::*;

use crate::arabic::{shape, shaped};
use crate::language::Language;

verus! {

/// Text size, chosen to line up the Arabic faces with the mono fonts.
#[derive(Clone, Copy, PartialEq, Eq, Debug, Structural)]
pub enum Size {
    /// About 15 pixels: the header line and secondary labels.
    Small,
    /// About 20 pixels: status lines, the next-prayer label, settings options.
    Medium,
    /// Bold, about 13 pixels: the prayer-card name row.
    CardName,
}

/// Horizontal anchoring of the text around its anchor point.
#[derive(Clone, Copy, PartialEq, Eq, Debug, Structural)]
pub enum HAlign {
    Left,
    Center,
    Right,
}

/// A line ready for rendering: the glyph sequence to draw and whether it
/// goes to the Arabic renderer.
pub struct PreparedLine {
    pub text: String,
    pub arabic: bool,
}

/// Prepares `text` for drawing in `lang`: shaped for the Arabic renderer
/// when the language is right-to-left, unchanged for the mono fonts
/// otherwise.
pub fn prepare_line(text: &str, lang: Language) -> (r: PreparedLine)
    ensures
        r.arabic == (lang == Language::Arabic),
        r.text@ == if lang == Language::Arabic { shaped(text@) } else { text@ },
{
    if lang.is_rtl() {
        PreparedLine { text: shape(text), arabic: true }
    } else {
        PreparedLine { text: String::from_str(text), arabic: false }
    }
}

} // verus!
