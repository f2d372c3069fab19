use namaz_vakti_logic::segdisplay::{
    big_time_layout, colon_dots, digit_segments, measure_big_time, Glyph, Rect,
};

fn r(x: i32, y: i32, w: u32, h: u32) -> Rect {
    Rect { x, y, w, h }
}

#[test]
fn eight_lights_every_segment_in_drawing_order() {
    let rects = digit_segments(0, 0, 42, 80, 10, 8);
    assert_eq!(
        rects,
        vec![
            r(10, 0, 22, 10),
            r(0, 10, 10, 35),
            r(32, 10, 10, 35),
            r(10, 35, 22, 10),
            r(0, 45, 10, 35),
            r(32, 45, 10, 35),
            r(10, 70, 22, 10),
        ]
    );
}

#[test]
fn one_lights_the_right_side() {
    let rects = digit_segments(100, 74, 42, 80, 10, 1);
    assert_eq!(rects, vec![r(132, 84, 10, 35), r(132, 119, 10, 35)]);
}

#[test]
fn digit_is_taken_modulo_ten() {
    assert_eq!(digit_segments(0, 0, 42, 80, 10, 11), digit_segments(0, 0, 42, 80, 10, 1));
    assert_eq!(digit_segments(0, 0, 42, 80, 10, 0).len(), 6);
    assert_eq!(digit_segments(0, 0, 42, 80, 10, 7).len(), 3);
}

#[test]
fn colon_dots_sit_a_third_from_each_edge() {
    assert_eq!(colon_dots(5, 0, 10, 80), vec![r(5, 26, 10, 10), r(5, 44, 10, 10)]);
}

#[test]
fn countdown_layout_and_width() {
    let (glyphs, width) = big_time_layout(0, 42, 10, 10, "12:34:56");
    assert_eq!(
        glyphs,
        vec![
            Glyph::Digit { x: 0, digit: 1 },
            Glyph::Digit { x: 52, digit: 2 },
            Glyph::Colon { x: 104 },
            Glyph::Digit { x: 124, digit: 3 },
            Glyph::Digit { x: 176, digit: 4 },
            Glyph::Colon { x: 228 },
            Glyph::Digit { x: 248, digit: 5 },
            Glyph::Digit { x: 300, digit: 6 },
        ]
    );
    assert_eq!(width, 342);
    assert_eq!(measure_big_time("12:34:56", 42, 10, 10), 342);
}

#[test]
fn other_characters_are_skipped() {
    let (glyphs, width) = big_time_layout(10, 42, 10, 10, "1 2");
    assert_eq!(glyphs, vec![Glyph::Digit { x: 10, digit: 1 }, Glyph::Digit { x: 62, digit: 2 }]);
    assert_eq!(width, 94);
    assert_eq!(measure_big_time("1 2", 42, 10, 10), 94);
}

#[test]
fn empty_text_has_no_width() {
    let (glyphs, width) = big_time_layout(0, 42, 10, 10, "");
    assert!(glyphs.is_empty());
    assert_eq!(width, 0);
    assert_eq!(measure_big_time("abc", 42, 10, 10), 0);
}

#[test]
fn layout_starts_anywhere_on_the_line() {
    let (glyphs, width) = big_time_layout(-100, 42, 10, 10, "1:2");
    assert_eq!(
        glyphs,
        vec![Glyph::Digit { x: -100, digit: 1 }, Glyph::Colon { x: -48 }, Glyph::Digit { x: -28, digit: 2 }]
    );
    assert_eq!(width, 114);
    assert_eq!(measure_big_time("1:2", 42, 10, 10), width);
}
