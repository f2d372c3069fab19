//! The integer side of the touch-calibration wizard: where its five targets
//! sit, where its instructions go, how long the boot-time recalibration hold
//! lasts, and what the wizard's outcome means for persistence. The affine
//! solve itself works in floating point and stays with the firmware.

use vstd::prelude::*;

verus! {

/// How far in from each edge the four corner targets sit, in percent of the
/// panel size: far enough from the bezel to be tappable, close enough to the
/// corners to constrain the fit.
pub const INSET_PERCENT: i32 = 12;

/// Full 5-point rounds attempted before falling back to vendor defaults.
pub const MAX_ATTEMPTS: u32 = 3;

/// Seconds a touch must be held at boot to force recalibration.
pub const RECAL_HOLD_SECS: u64 = 5;

/// The four corner targets (top-left, top-right, bottom-left, bottom-right),
/// inset by [`INSET_PERCENT`], and the centre target used to verify the fit.
pub open spec fn targets(width: int, height: int) -> (Seq<(int, int)>, (int, int)) {
    let ix = width * INSET_PERCENT / 100;
    let iy = height * INSET_PERCENT / 100;
    (
        seq![(ix, iy), (width - 1 - ix, iy), (ix, height - 1 - iy), (width - 1 - ix, height - 1 - iy)],
        (width / 2, height / 2),
    )
}

/// The wizard's targets on a `width`×`height` panel: four inset corners,
/// then the centre.
pub fn wizard_targets(width: u16, height: u16) -> (r: ([(i32, i32); 4], (i32, i32)))
    ensures
        r.0@.map_values(|p: (i32, i32)| (p.0 as int, p.1 as int)) == targets(width as int, height as int).0,
        (r.1.0 as int, r.1.1 as int) == targets(width as int, height as int).1,
{
    let w = width as i32;
    let h = height as i32;
    let ix = w * INSET_PERCENT / 100;
    let iy = h * INSET_PERCENT / 100;
    let corners = [(ix, iy), (w - 1 - ix, iy), (ix, h - 1 - iy), (w - 1 - ix, h - 1 - iy)];
    proof {
        assert(corners@.map_values(|p: (i32, i32)| (p.0 as int, p.1 as int)) =~= targets(width as int, height as int).0);
    }
    (corners, (w / 2, h / 2))
}

/// The baseline of the instruction block for a target at height `target_y`:
/// in the half of the panel opposite the target, so the text never covers
/// the crosshair.
pub open spec fn prompt_y(target_y: int, height: int) -> int {
    if target_y * 2 < height { height * 3 / 4 } else { height / 4 }
}

/// Where the instructions for a target at `target_y` go.
pub fn prompt_text_y(target_y: i32, height: u16) -> (y: i32)
    requires
        -0x4000_0000 <= target_y <= 0x3fff_ffff,
    ensures
        y == prompt_y(target_y as int, height as int),
{
    let h = height as i32;
    if target_y * 2 < h { h * 3 / 4 } else { h / 4 }
}

/// The countdown shown while the recalibration touch is held: whole seconds
/// left of the hold, counted up (so it reads 5, 4, .., 1), after
/// `elapsed_ms` milliseconds.
pub open spec fn hold_seconds_left(elapsed_ms: int) -> int {
    let hold = RECAL_HOLD_SECS * 1000;
    (if elapsed_ms < hold { hold - elapsed_ms } else { 0 }) / 1000 + 1
}

/// Seconds shown as left of the recalibration hold after `elapsed_ms`.
pub fn hold_countdown(elapsed_ms: u64) -> (s: u64)
    ensures
        s == hold_seconds_left(elapsed_ms as int),
{
    let hold: u64 = RECAL_HOLD_SECS * 1000;
    let left = if elapsed_ms < hold { hold - elapsed_ms } else { 0 };
    left / 1000 + 1
}

/// Whether the recalibration hold is complete after `elapsed_ms`.
pub fn hold_complete(elapsed_ms: u64) -> (r: bool)
    ensures
        r == (elapsed_ms >= RECAL_HOLD_SECS * 1000),
{
    elapsed_ms >= RECAL_HOLD_SECS * 1000
}

/// How the wizard ended: with a verified calibration, or by falling back to
/// the vendor defaults after running out of attempts (or a timed-out tap).
#[derive(Clone, Copy, PartialEq, Eq, Debug)]
pub enum CalibrationOutcome<C> {
    Calibrated(C),
    FellBack(C),
}

impl<C: Copy> CalibrationOutcome<C> {
    /// The calibration to use either way.
    pub fn calibration(&self) -> (c: C)
        ensures
            c == match *self {
                CalibrationOutcome::Calibrated(c) => c,
                CalibrationOutcome::FellBack(c) => c,
            },
    {
        match self {
            CalibrationOutcome::Calibrated(c) => *c,
            CalibrationOutcome::FellBack(c) => *c,
        }
    }

    /// Only a calibration the user verified is saved; a fallback is used for
    /// this boot only, so the wizard runs again next time.
    pub fn should_persist(&self) -> (r: bool)
        ensures
            r == (*self matches CalibrationOutcome::Calibrated(_)),
    {
        match self {
            CalibrationOutcome::Calibrated(_) => true,
            CalibrationOutcome::FellBack(_) => false,
        }
    }
}

/// How one round of five taps ended.
#[derive(Clone, Copy, PartialEq, Eq, Debug, Structural)]
pub enum RoundResult {
    /// A target waited too long for its tap.
    TimedOut,
    /// The taps were degenerate (collinear) and no fit exists.
    Degenerate,
    /// The fit missed the centre target by more than the tolerance.
    Rejected,
    /// The fit hit the centre target within the tolerance.
    Verified,
}

/// What the wizard does after a round.
#[derive(Clone, Copy, PartialEq, Eq, Debug, Structural)]
pub enum WizardNext {
    /// Run another round.
    Retry,
    /// Give up and use the vendor defaults.
    FallBack,
    /// Keep the verified fit.
    Done,
}

/// The wizard's decision after round `attempt` (counted from 1): a verified
/// fit is kept; a timed-out tap falls back at once; a failed fit is retried
/// until [`MAX_ATTEMPTS`] rounds have run, then falls back.
pub fn after_round(attempt: u32, result: RoundResult) -> (n: WizardNext)
    ensures
        n == match result {
            RoundResult::Verified => WizardNext::Done,
            RoundResult::TimedOut => WizardNext::FallBack,
            _ => if attempt < MAX_ATTEMPTS { WizardNext::Retry } else { WizardNext::FallBack },
        },
{
    match result {
        RoundResult::Verified => WizardNext::Done,
        RoundResult::TimedOut => WizardNext::FallBack,
        _ => {
            if attempt < MAX_ATTEMPTS {
                WizardNext::Retry
            } else {
                WizardNext::FallBack
            }
        },
    }
}

/// The instruction block always lies in the other half of the panel from its
/// target.
pub proof fn lemma_prompt_opposite_target(target_y: int, height: int)
    requires
        height >= 2,
    ensures
        target_y * 2 < height ==> prompt_y(target_y, height) * 2 >= height,
        target_y * 2 >= height ==> prompt_y(target_y, height) * 2 <= height,
{
}

/// The corner targets lie inside the panel, and the centre lies between
/// them.
pub proof fn lemma_targets_on_panel(width: int, height: int)
    requires
        1 <= width,
        1 <= height,
    ensures
        forall|i: int| 0 <= i < 4 ==> 0 <= (#[trigger] targets(width, height).0[i]).0 < width
            && 0 <= targets(width, height).0[i].1 < height,
        targets(width, height).0[0].0 <= targets(width, height).1.0 <= targets(width, height).0[1].0,
        targets(width, height).0[0].1 <= targets(width, height).1.1 <= targets(width, height).0[2].1,
{
    let ix = width * INSET_PERCENT / 100;
    let iy = height * INSET_PERCENT / 100;
    assert(0 <= ix <= width * 12 / 100) by (nonlinear_arith)
        requires
            1 <= width,
            ix == width * 12 / 100,
    ;
    assert(0 <= iy) by (nonlinear_arith)
        requires
            1 <= height,
            iy == height * 12 / 100,
    ;
    assert(ix * 100 <= width * 12) by (nonlinear_arith)
        requires
            ix == width * 12 / 100,
    ;
    assert(iy * 100 <= height * 12) by (nonlinear_arith)
        requires
            iy == height * 12 / 100,
    ;
}

} // verus!
