use namaz_vakti_logic::framebuf::FrameBuf;

#[test]
fn new_buffer_is_filled() {
    let fb = FrameBuf::new(3, 2, 7u16);
    assert_eq!(fb.width(), 3);
    assert_eq!(fb.height(), 2);
    assert_eq!(fb.pixels_slice(), &[7u16; 6]);
}

#[test]
fn set_pixel_writes_row_major_and_clips() {
    let mut fb = FrameBuf::new(3, 2, 0u16);
    fb.set_pixel(2, 1, 5);
    fb.set_pixel(0, 0, 1);
    fb.set_pixel(3, 0, 9);
    fb.set_pixel(-1, 1, 9);
    fb.set_pixel(0, 2, 9);
    fb.set_pixel(1, -4, 9);
    assert_eq!(fb.pixels_slice(), &[1, 0, 0, 0, 0, 5]);
}

#[test]
fn clear_fill_resets_every_pixel() {
    let mut fb = FrameBuf::new(4, 4, 0u16);
    fb.set_pixel(1, 1, 3);
    fb.clear_fill(2);
    assert_eq!(fb.pixels_slice(), &[2u16; 16]);
    assert_eq!(fb.width(), 4);
}

#[test]
fn empty_buffer_has_no_pixels() {
    let mut fb = FrameBuf::new(0, 80, 0u16);
    fb.set_pixel(0, 0, 1);
    assert!(fb.pixels_slice().is_empty());
}
