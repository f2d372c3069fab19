//! The persisted UI settings: the language and the header's date mode, each
//! stored as a single byte.

use vstd::prelude::*;

use crate::language::{byte_language, Language};

verus! {

/// Which calendar the header's date is shown in. The persisted byte is
/// [`DateMode::to_u8`].
#[derive(Clone, Copy, PartialEq, Eq, Debug, Structural)]
pub enum DateMode {
    Miladi,
    Hijri,
}

/// The persisted byte of a date mode.
pub open spec fn date_mode_byte(m: DateMode) -> u8 {
    match m {
        DateMode::Miladi => 0,
        DateMode::Hijri => 1,
    }
}

/// The date mode a persisted byte stands for; anything but 1 is Miladi.
pub open spec fn byte_date_mode(b: u8) -> DateMode {
    if b == 1 { DateMode::Hijri } else { DateMode::Miladi }
}

impl DateMode {
    /// Stable byte used for persistence.
    pub fn to_u8(self) -> (b: u8)
        ensures
            b == date_mode_byte(self),
    {
        match self {
            DateMode::Miladi => 0,
            DateMode::Hijri => 1,
        }
    }

    /// Inverse of [`Self::to_u8`]; unknown bytes fall back to Miladi.
    pub fn from_u8(value: u8) -> (m: Self)
        ensures
            m == byte_date_mode(value),
    {
        match value {
            1 => DateMode::Hijri,
            _ => DateMode::Miladi,
        }
    }
}

/// The persisted UI settings, loaded once at boot and updated from the
/// settings screen.
#[derive(Clone, Copy, Debug, PartialEq, Eq, Structural)]
pub struct Settings {
    pub language: Language,
    pub date_mode: DateMode,
}

impl Default for Settings {
    /// Türkçe + Miladi, the historical defaults used when nothing is stored.
    fn default() -> (s: Self)
        ensures
            s == (Settings { language: Language::Turkish, date_mode: DateMode::Miladi }),
    {
        Settings { language: Language::Turkish, date_mode: DateMode::Miladi }
    }
}

/// The settings read back from the stored bytes: each missing value falls
/// back to its default, each present byte is decoded.
pub open spec fn stored_settings(language: Option<u8>, date_mode: Option<u8>) -> Settings {
    Settings {
        language: match language {
            Some(b) => byte_language(b),
            None => Language::Turkish,
        },
        date_mode: match date_mode {
            Some(b) => byte_date_mode(b),
            None => DateMode::Miladi,
        },
    }
}

impl Settings {
    /// Decodes the stored language and date-mode bytes, falling back to
    /// [`Settings::default`] for any missing value.
    pub fn from_stored(language: Option<u8>, date_mode: Option<u8>) -> (s: Self)
        ensures
            s == stored_settings(language, date_mode),
    {
        let defaults = Settings::default();
        Settings {
            language: match language {
                Some(b) => Language::from_u8(b),
                None => defaults.language,
            },
            date_mode: match date_mode {
                Some(b) => DateMode::from_u8(b),
                None => defaults.date_mode,
            },
        }
    }
}

/// Settings written as bytes read back unchanged.
pub proof fn lemma_settings_round_trip(s: Settings)
    ensures
        stored_settings(
            Some(crate::language::language_byte(s.language)),
            Some(date_mode_byte(s.date_mode)),
        ) == s,
{
}

} // verus!
