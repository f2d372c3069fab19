//! Hit-testing of the settings screen and of the header icon.
//!
//! The geometry here is shared with the drawing code, so a tap always maps
//! back to exactly the control that was drawn under it.

use vstd::prelude::*;

use crate::language::{endonym, language_label, text, translation, Language, Msg};
use crate::text::HAlign;
use crate::settings::{DateMode, Settings};

verus! {

/// Side of the square header icon tap target (gear on the dashboard, back
/// arrow on the sub-screens), anchored to the right edge of the header band.
pub const ICON_SIZE: i32 = 30;
/// Left edge of the header icon.
pub const ICON_X0: i32 = 480 - ICON_SIZE;
/// Top edge of the header icon.
pub const ICON_Y0: i32 = 0;
/// Centre of the header icon.
pub const ICON_CX: i32 = ICON_X0 + 15;
/// Centre of the header icon.
pub const ICON_CY: i32 = ICON_Y0 + 15;

/// Width of an option box.
pub const BOX_W: u32 = 110;
/// Height of an option box.
pub const BOX_H: u32 = 40;
/// Gap between option boxes.
pub const BOX_GAP: i32 = 8;
/// Left edge of the first option column.
pub const BOX_X0: i32 = 8;
/// Top of the language row.
pub const LANG_ROW_Y: i32 = 92;
/// Top of the date-mode row.
pub const DATE_ROW_Y: i32 = 172;
/// Top of the system-actions row.
pub const SYS_ROW_Y: i32 = 258;

/// Whether a calibrated screen point lies in the header icon's tap square.
pub open spec fn in_icon(x: int, y: int) -> bool {
    ICON_X0 <= x < ICON_X0 + ICON_SIZE && ICON_Y0 <= y < ICON_Y0 + ICON_SIZE
}

/// `true` if a calibrated screen coordinate falls inside the header icon's
/// tap square.
pub fn point_in_icon(x: i32, y: i32) -> (r: bool)
    ensures
        r == in_icon(x as int, y as int),
{
    x >= ICON_X0 && x < ICON_X0 + ICON_SIZE && y >= ICON_Y0 && y < ICON_Y0 + ICON_SIZE
}

/// Left edge of option column `col`.
pub open spec fn column_x(col: int) -> int {
    BOX_X0 + col * (BOX_W + BOX_GAP)
}

/// Left edge of option column `col`.
pub fn box_x(col: i32) -> (x: i32)
    requires
        0 <= col < 4,
    ensures
        x == column_x(col as int),
{
    let step: i32 = BOX_W as i32 + BOX_GAP;
    assert(0 <= col * step <= 354) by (nonlinear_arith)
        requires
            0 <= col < 4,
            step == 118,
    ;
    BOX_X0 + col * step
}

/// Whether the box of column `col` in the row starting at `row_y` contains
/// the point.
pub open spec fn in_column_box(x: int, y: int, col: int, row_y: int) -> bool {
    column_x(col) <= x < column_x(col) + BOX_W && row_y <= y < row_y + BOX_H
}

/// The first of the first `cols` columns of the row at `row_y` whose box
/// contains the point, searching from column `col`.
pub open spec fn column_hit(x: int, y: int, row_y: int, col: int, cols: int) -> Option<int>
    decreases cols - col,
{
    if col < 0 || col >= cols {
        None
    } else if in_column_box(x, y, col, row_y) {
        Some(col)
    } else {
        column_hit(x, y, row_y, col + 1, cols)
    }
}

/// Something the user can tap on the settings screen.
#[derive(Clone, Copy, PartialEq, Eq, Debug, Structural)]
pub enum Hit {
    /// The back arrow: return to the dashboard.
    Back,
    /// Select this UI language.
    Language(Language),
    /// Select this header date mode.
    DateMode(DateMode),
    /// Open the on-device WiFi setup flow.
    Wifi,
    /// Re-run the touch-calibration wizard.
    Recalibrate,
    /// Open the About page.
    About,
    /// Open the location selection flow.
    Location,
}

/// The date modes in the order the settings screen lists them.
pub open spec fn date_mode_at(col: int) -> DateMode {
    if col == 0 { DateMode::Miladi } else { DateMode::Hijri }
}

/// The system action of each column of the system row.
pub open spec fn system_action_at(col: int) -> Hit {
    if col == 0 {
        Hit::Wifi
    } else if col == 1 {
        Hit::Recalibrate
    } else if col == 2 {
        Hit::About
    } else {
        Hit::Location
    }
}

/// The control under a calibrated tap: the back arrow first, then the four
/// language options, the two date modes and the four system actions.
pub open spec fn settings_hit(x: int, y: int) -> Option<Hit> {
    if in_icon(x, y) {
        Some(Hit::Back)
    } else if let Some(c) = column_hit(x, y, LANG_ROW_Y as int, 0, 4) {
        Some(Hit::Language(Language::ALL[c]))
    } else if let Some(c) = column_hit(x, y, DATE_ROW_Y as int, 0, 2) {
        Some(Hit::DateMode(date_mode_at(c)))
    } else if let Some(c) = column_hit(x, y, SYS_ROW_Y as int, 0, 4) {
        Some(system_action_at(c))
    } else {
        None
    }
}

/// Whether the option box at column `col` of the row at `row_y` contains the
/// point.
fn in_box(x: i32, y: i32, col: i32, row_y: i32) -> (r: bool)
    requires
        0 <= col < 4,
        0 <= row_y <= SYS_ROW_Y,
    ensures
        r == in_column_box(x as int, y as int, col as int, row_y as int),
{
    let x0 = box_x(col);
    x >= x0 && x < x0 + BOX_W as i32 && y >= row_y && y < row_y + BOX_H as i32
}

/// The column of the row at `row_y`, among the first `cols`, whose box
/// contains the point.
fn row_hit(x: i32, y: i32, row_y: i32, cols: i32) -> (r: Option<i32>)
    requires
        0 <= cols <= 4,
        0 <= row_y <= SYS_ROW_Y,
    ensures
        r matches Some(c) ==> 0 <= c < cols,
        match r {
            Some(c) => column_hit(x as int, y as int, row_y as int, 0, cols as int) == Some(c as int),
            None => column_hit(x as int, y as int, row_y as int, 0, cols as int) is None,
        },
{
    let mut col: i32 = 0;
    while col < cols
        invariant
            0 <= col <= cols <= 4,
            0 <= row_y <= SYS_ROW_Y,
            column_hit(x as int, y as int, row_y as int, 0, cols as int)
                == column_hit(x as int, y as int, row_y as int, col as int, cols as int),
        decreases cols - col,
    {
        if in_box(x, y, col, row_y) {
            return Some(col);
        }
        col = col + 1;
    }
    None
}

/// Maps a calibrated tap to the settings control under it, if any.
pub fn hit_test(x: i32, y: i32) -> (r: Option<Hit>)
    ensures
        r == settings_hit(x as int, y as int),
{
    if point_in_icon(x, y) {
        return Some(Hit::Back);
    }
    if let Some(col) = row_hit(x, y, LANG_ROW_Y, 4) {
        return Some(Hit::Language(Language::ALL[col as usize]));
    }
    if let Some(col) = row_hit(x, y, DATE_ROW_Y, 2) {
        let modes = [DateMode::Miladi, DateMode::Hijri];
        return Some(Hit::DateMode(modes[col as usize]));
    }
    match row_hit(x, y, SYS_ROW_Y, 4) {
        Some(0) => Some(Hit::Wifi),
        Some(1) => Some(Hit::Recalibrate),
        Some(2) => Some(Hit::About),
        Some(_) => Some(Hit::Location),
        None => None,
    }
}

/// Neighbouring option boxes never overlap, so a tap inside a box hits that
/// box and no other.
pub proof fn lemma_option_boxes_disjoint(x: int, y: int, row_y: int, a: int, b: int)
    requires
        0 <= a < b < 4,
        in_column_box(x, y, a, row_y),
    ensures
        !in_column_box(x, y, b, row_y),
{
    assert(column_x(b) >= column_x(a) + BOX_W + BOX_GAP) by (nonlinear_arith)
        requires a < b;
}

/// A tap inside option box `col` of the language row selects the language
/// drawn there.
pub proof fn lemma_language_box_hits_its_language(x: int, y: int, col: int)
    requires
        0 <= col < 4,
        in_column_box(x, y, col, LANG_ROW_Y as int),
    ensures
        settings_hit(x, y) == Some(Hit::Language(Language::ALL[col])),
{
    assert forall|a: int| 0 <= a < col implies !#[trigger] in_column_box(x, y, a, LANG_ROW_Y as int) by {
        if in_column_box(x, y, a, LANG_ROW_Y as int) {
            lemma_option_boxes_disjoint(x, y, LANG_ROW_Y as int, a, col);
        }
    }
    lemma_column_hit_first(x, y, LANG_ROW_Y as int, 0, 4, col);
}

/// `column_hit` finds the first column whose box holds the point.
proof fn lemma_column_hit_first(x: int, y: int, row_y: int, from: int, cols: int, col: int)
    requires
        0 <= from <= col < cols,
        in_column_box(x, y, col, row_y),
        forall|a: int| from <= a < col ==> !#[trigger] in_column_box(x, y, a, row_y),
    ensures
        column_hit(x, y, row_y, from, cols) == Some(col),
    decreases col - from,
{
    if from < col {
        lemma_column_hit_first(x, y, row_y, from + 1, cols, col);
    }
}

/// How the settings screen was left. The system actions need hardware the
/// caller owns, so they are handed back for the main loop to run.
#[derive(Clone, Copy, PartialEq, Eq, Debug, Structural)]
pub enum SettingsExit {
    Back,
    Wifi,
    Recalibrate,
    About,
    Location,
}

/// What a tap on the settings screen asks of the caller.
#[derive(Clone, Copy, PartialEq, Eq, Debug, Structural)]
pub enum SettingsStep {
    /// Nothing was hit.
    Stay,
    /// The language changed: persist it and redraw the screen.
    LanguageChanged(Language),
    /// The date mode changed: persist it and redraw the screen.
    DateModeChanged(DateMode),
    /// Leave the screen.
    Exit(SettingsExit),
}

/// The effect of a tap: a language or date-mode box applies its choice to
/// the settings in place; the back arrow and the system actions leave the
/// screen; a miss changes nothing.
pub open spec fn settings_effect(s: Settings, hit: Option<Hit>) -> (Settings, SettingsStep) {
    match hit {
        None => (s, SettingsStep::Stay),
        Some(Hit::Back) => (s, SettingsStep::Exit(SettingsExit::Back)),
        Some(Hit::Wifi) => (s, SettingsStep::Exit(SettingsExit::Wifi)),
        Some(Hit::Recalibrate) => (s, SettingsStep::Exit(SettingsExit::Recalibrate)),
        Some(Hit::About) => (s, SettingsStep::Exit(SettingsExit::About)),
        Some(Hit::Location) => (s, SettingsStep::Exit(SettingsExit::Location)),
        Some(Hit::Language(l)) => (Settings { language: l, ..s }, SettingsStep::LanguageChanged(l)),
        Some(Hit::DateMode(m)) => (Settings { date_mode: m, ..s }, SettingsStep::DateModeChanged(m)),
    }
}

/// Applies a tap on the settings screen to the settings.
pub fn settings_step(settings: &mut Settings, hit: Option<Hit>) -> (step: SettingsStep)
    ensures
        (*final(settings), step) == settings_effect(*old(settings), hit),
        hit == Some(Hit::Back) ==> step == SettingsStep::Exit(SettingsExit::Back) && *final(settings) == *old(settings),
        hit == Some(Hit::Wifi) ==> step == SettingsStep::Exit(SettingsExit::Wifi) && *final(settings) == *old(settings),
        hit == Some(Hit::Recalibrate) ==> step == SettingsStep::Exit(SettingsExit::Recalibrate) && *final(settings) == *old(settings),
        hit == Some(Hit::About) ==> step == SettingsStep::Exit(SettingsExit::About) && *final(settings) == *old(settings),
        hit == Some(Hit::Location) ==> step == SettingsStep::Exit(SettingsExit::Location) && *final(settings) == *old(settings),
{
    match hit {
        None => SettingsStep::Stay,
        Some(Hit::Back) => SettingsStep::Exit(SettingsExit::Back),
        Some(Hit::Wifi) => SettingsStep::Exit(SettingsExit::Wifi),
        Some(Hit::Recalibrate) => SettingsStep::Exit(SettingsExit::Recalibrate),
        Some(Hit::About) => SettingsStep::Exit(SettingsExit::About),
        Some(Hit::Location) => SettingsStep::Exit(SettingsExit::Location),
        Some(Hit::Language(l)) => {
            settings.language = l;
            SettingsStep::LanguageChanged(l)
        },
        Some(Hit::DateMode(m)) => {
            settings.date_mode = m;
            SettingsStep::DateModeChanged(m)
        },
    }
}

/// One selectable option box of the settings screen.
#[derive(Clone, Copy, PartialEq, Eq, Debug)]
pub struct OptionBox {
    pub x: i32,
    pub y: i32,
    pub label: &'static str,
    /// The script the label is shaped in: a language option shows its own
    /// endonym, a date option the active language.
    pub label_lang: Language,
    /// The box holds the current choice.
    pub selected: bool,
}

/// The option box at position `i`: the four languages, then the two date
/// modes.
pub open spec fn option_box(s: Settings, i: int) -> (int, int, Seq<char>, Language, bool) {
    if i < 4 {
        let l = Language::ALL[i];
        (column_x(i), LANG_ROW_Y as int, endonym(l)@, l, l == s.language)
    } else {
        let m = date_mode_at(i - 4);
        let msg = if m == DateMode::Miladi { Msg::DateMiladi } else { Msg::DateHijri };
        (column_x(i - 4), DATE_ROW_Y as int, translation(s.language, msg)@, s.language, m == s.date_mode)
    }
}

/// The option boxes of the settings screen for the current settings, in
/// drawing order.
pub fn option_boxes(settings: Settings) -> (r: Vec<OptionBox>)
    ensures
        r@.len() == 6,
        forall|i: int| 0 <= i < 6 ==> option_box(settings, i) == ((#[trigger] r@[i]).x as int, r@[i].y as int, r@[i].label@, r@[i].label_lang, r@[i].selected),
{
    let mut r: Vec<OptionBox> = Vec::new();
    let mut col: i32 = 0;
    while col < 4
        invariant
            0 <= col <= 4,
            r@.len() == col,
            forall|i: int| 0 <= i < col ==> option_box(settings, i) == ((#[trigger] r@[i]).x as int, r@[i].y as int, r@[i].label@, r@[i].label_lang, r@[i].selected),
        decreases 4 - col,
    {
        let l = Language::ALL[col as usize];
        r.push(OptionBox { x: box_x(col), y: LANG_ROW_Y, label: language_label(l), label_lang: l, selected: l == settings.language });
        col = col + 1;
    }
    let modes = [DateMode::Miladi, DateMode::Hijri];
    let mut col: i32 = 0;
    while col < 2
        invariant
            0 <= col <= 2,
            modes@ == seq![DateMode::Miladi, DateMode::Hijri],
            r@.len() == 4 + col,
            forall|i: int| 0 <= i < 4 + col ==> option_box(settings, i) == ((#[trigger] r@[i]).x as int, r@[i].y as int, r@[i].label@, r@[i].label_lang, r@[i].selected),
        decreases 2 - col,
    {
        let m = modes[col as usize];
        let msg = if m == DateMode::Miladi { Msg::DateMiladi } else { Msg::DateHijri };
        r.push(OptionBox { x: box_x(col), y: DATE_ROW_Y, label: text(settings.language, msg), label_lang: settings.language, selected: m == settings.date_mode });
        col = col + 1;
    }
    r
}

/// Where the section headings go: at the left edge of the option column,
/// left-aligned, or for a right-to-left language at its right edge,
/// right-aligned.
pub fn heading_anchor(lang: Language) -> (r: (i32, HAlign))
    ensures
        r == if lang == Language::Arabic {
            ((column_x(3) + BOX_W) as i32, HAlign::Right)
        } else {
            (BOX_X0, HAlign::Left)
        },
{
    if lang.is_rtl() {
        (box_x(3) + BOX_W as i32, HAlign::Right)
    } else {
        (BOX_X0, HAlign::Left)
    }
}

/// Each control of the settings screen does what it names, whatever the
/// current settings: the back arrow and each system action leave the screen
/// with the exit of that same control and change no setting; a language or
/// date-mode box changes only that setting and stays on the screen; a miss
/// does nothing. Different controls never share an exit.
pub proof fn lemma_controls_do_what_they_name(s: Settings, l: Language, m: DateMode)
    ensures
        settings_effect(s, Some(Hit::Back)) == (s, SettingsStep::Exit(SettingsExit::Back)),
        settings_effect(s, Some(Hit::Wifi)) == (s, SettingsStep::Exit(SettingsExit::Wifi)),
        settings_effect(s, Some(Hit::Recalibrate)) == (s, SettingsStep::Exit(SettingsExit::Recalibrate)),
        settings_effect(s, Some(Hit::About)) == (s, SettingsStep::Exit(SettingsExit::About)),
        settings_effect(s, Some(Hit::Location)) == (s, SettingsStep::Exit(SettingsExit::Location)),
        settings_effect(s, Some(Hit::Language(l))).0.language == l,
        settings_effect(s, Some(Hit::Language(l))).0.date_mode == s.date_mode,
        settings_effect(s, Some(Hit::Language(l))).1 !is Exit,
        settings_effect(s, Some(Hit::DateMode(m))).0.date_mode == m,
        settings_effect(s, Some(Hit::DateMode(m))).0.language == s.language,
        settings_effect(s, Some(Hit::DateMode(m))).1 !is Exit,
        settings_effect(s, None) == (s, SettingsStep::Stay),
        forall|a: Hit, b: Hit|
            #![trigger settings_effect(s, Some(a)), settings_effect(s, Some(b))]
            a != b && settings_effect(s, Some(a)).1 is Exit && settings_effect(s, Some(b)).1 is Exit
                ==> settings_effect(s, Some(a)).1 != settings_effect(s, Some(b)).1,
{
}

} // verus!
