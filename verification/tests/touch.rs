use namaz_vakti_logic::touch::{
    decode_reading, is_pressed, PositionSampler, PressLatch, SampleAction, DISCARD_SAMPLES,
    POSITION_SAMPLES,
};

#[test]
fn decode_reading_keeps_the_12_bit_value() {
    assert_eq!(decode_reading(0, 0), 0);
    assert_eq!(decode_reading(0x7F, 0xF8), 4095);
    assert_eq!(decode_reading(0x10, 0x00), 512);
    assert_eq!(decode_reading(0x00, 0x0F), 1);
    // The leading bit after the command is not part of the 12-bit value.
    assert_eq!(decode_reading(0xFF, 0xFF), 4095);
    assert_eq!(decode_reading(0x80, 0x00), 0);
}

#[test]
fn pressure_threshold_decides_a_touch() {
    // Untouched: Z1 low, Z2 near full scale.
    assert!(!is_pressed(0, 4095));
    assert!(!is_pressed(300, 3795));
    assert!(is_pressed(301, 3795));
    assert!(is_pressed(1200, 2000));
}

fn run(touches: &[bool], readings: &[(u16, u16)]) -> Option<(u16, u16)> {
    let mut sampler = PositionSampler::new();
    let mut t = touches.iter();
    let mut r = readings.iter();
    let mut action = SampleAction::CheckTouch;
    loop {
        action = match action {
            SampleAction::CheckTouch => sampler.touch_checked(*t.next().unwrap_or(&false)),
            SampleAction::ReadPosition => {
                let (x, y) = *r.next().unwrap();
                sampler.position_read(x, y)
            }
            SampleAction::Done(p) => return p,
        };
    }
}

#[test]
fn untouched_panel_gives_no_position() {
    assert_eq!(run(&[false], &[]), None);
}

#[test]
fn averages_the_readings_after_the_discarded_ones() {
    let readings = [
        (4000, 4000),
        (3000, 3000),
        (100, 200),
        (110, 210),
        (120, 220),
        (130, 230),
        (140, 240),
        (150, 250),
    ];
    assert_eq!(readings.len(), POSITION_SAMPLES);
    assert_eq!(DISCARD_SAMPLES, 2);
    let touches = [true; 9];
    // (100 + ... + 150) / 6 = 125, (200 + ... + 250) / 6 = 225.
    assert_eq!(run(&touches, &readings), Some((125, 225)));
}

#[test]
fn average_rounds_down() {
    let readings = [(0, 0), (0, 0), (1, 2), (1, 2), (1, 2), (1, 2), (1, 2), (2, 3)];
    assert_eq!(run(&[true; 9], &readings), Some((1, 2)));
}

#[test]
fn release_part_way_gives_no_position() {
    let readings = [(100, 100); 8];
    let mut touches = vec![true; 5];
    touches.push(false);
    assert_eq!(run(&touches, &readings), None);
}

#[test]
fn one_press_counts_once() {
    let mut latch = PressLatch::new();
    assert!(latch.sample(true));
    assert!(!latch.sample(true));
    assert!(!latch.sample(true));
    assert!(!latch.sample(false));
    assert!(latch.sample(true));
}
