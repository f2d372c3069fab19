use namaz_vakti_logic::touch_calibration::{
    after_round, RoundResult, WizardNext,
    hold_complete, hold_countdown, prompt_text_y, wizard_targets, CalibrationOutcome,
    INSET_PERCENT, MAX_ATTEMPTS, RECAL_HOLD_SECS,
};

#[test]
fn targets_on_the_landscape_panel() {
    assert_eq!(INSET_PERCENT, 12);
    let (corners, center) = wizard_targets(480, 320);
    assert_eq!(corners, [(57, 38), (422, 38), (57, 281), (422, 281)]);
    assert_eq!(center, (240, 160));
}

#[test]
fn targets_on_a_tiny_panel() {
    let (corners, center) = wizard_targets(1, 1);
    assert_eq!(corners, [(0, 0), (0, 0), (0, 0), (0, 0)]);
    assert_eq!(center, (0, 0));
}

#[test]
fn instructions_go_to_the_other_half() {
    assert_eq!(prompt_text_y(38, 320), 240);
    assert_eq!(prompt_text_y(281, 320), 80);
    assert_eq!(prompt_text_y(160, 320), 80);
    assert_eq!(prompt_text_y(159, 320), 240);
}

#[test]
fn hold_counts_down_the_whole_seconds() {
    assert_eq!(RECAL_HOLD_SECS, 5);
    assert_eq!(hold_countdown(0), 6);
    assert_eq!(hold_countdown(1), 5);
    assert_eq!(hold_countdown(999), 5);
    assert_eq!(hold_countdown(4_001), 1);
    assert_eq!(hold_countdown(5_000), 1);
    assert_eq!(hold_countdown(60_000), 1);
    assert!(!hold_complete(4_999));
    assert!(hold_complete(5_000));
}

#[test]
fn only_a_verified_calibration_is_persisted() {
    assert_eq!(MAX_ATTEMPTS, 3);
    let ok = CalibrationOutcome::Calibrated(7u8);
    let fallback = CalibrationOutcome::FellBack(9u8);
    assert!(ok.should_persist());
    assert!(!fallback.should_persist());
    assert_eq!(ok.calibration(), 7);
    assert_eq!(fallback.calibration(), 9);
}

#[test]
fn rounds_retry_until_the_attempts_run_out() {
    assert_eq!(after_round(1, RoundResult::Verified), WizardNext::Done);
    assert_eq!(after_round(1, RoundResult::TimedOut), WizardNext::FallBack);
    assert_eq!(after_round(1, RoundResult::Degenerate), WizardNext::Retry);
    assert_eq!(after_round(2, RoundResult::Rejected), WizardNext::Retry);
    assert_eq!(after_round(3, RoundResult::Rejected), WizardNext::FallBack);
    assert_eq!(after_round(3, RoundResult::Verified), WizardNext::Done);
}
