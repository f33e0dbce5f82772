use airquamon::canvas::text_size;
use airquamon::text::Text;
use airquamon::theme::{co2_color, compose_grid, compose_line, mood_of};
use airquamon::{Canvas, ChromaticBuffer, Color, Data, DrawOp, Font, Point, Rect, Size, Theme, Theme1, Theme2, Theme3};

const AREA: Size = Size { width: 296, height: 128 };

fn text_op(op: &DrawOp) -> (String, Point, Font, Color) {
    match op {
        DrawOp::Text { text, at, font, color, .. } => (text.as_str().to_string(), *at, *font, *color),
        other => panic!("not a text step: {:?}", other),
    }
}

fn text(s: &str) -> Text {
    let mut t = Text::new();
    t.push_str(s).unwrap();
    t
}

fn planes(c: &Canvas) -> (Vec<u8>, Vec<u8>) {
    (c.bw_buffer().to_vec(), c.chromatic_buffer().to_vec())
}

#[test]
fn co2_color_threshold_is_strict() {
    assert_eq!(co2_color(800), Color::Black);
    assert_eq!(co2_color(801), Color::Chromatic);
    assert_eq!(co2_color(0), Color::Black);
    assert_eq!(co2_color(u16::MAX), Color::Chromatic);
}

#[test]
fn mood_glyph_follows_threshold() {
    assert_eq!(mood_of(800), '#');
    assert_eq!(mood_of(801), 'U');
}

#[test]
fn grid_draws_high_co2_in_chromatic() {
    let ops = compose_grid(&Data::new(900, 2059, 5742), AREA, false);
    let (text, _, font, color) = text_op(&ops[2]);
    assert_eq!(text, "900");
    assert_eq!(font, Font::Large10x20);
    assert_eq!(color, Color::Chromatic);
}

#[test]
fn grid_draws_normal_co2_in_black() {
    let ops = compose_grid(&Data::new(400, 2059, 5742), AREA, false);
    let (text, _, _, color) = text_op(&ops[2]);
    assert_eq!(text, "400");
    assert_eq!(color, Color::Black);
}

#[test]
fn grid_layout_of_a_reading() {
    let ops = compose_grid(&Data::new(459, 2059, 5742), AREA, false);
    assert_eq!(ops.len(), 1 + 4 + 3 + 4);
    assert!(matches!(ops[0], DrawOp::Clear { color: Color::White }));
    let boxes: Vec<Rect> = ops
        .iter()
        .filter_map(|o| match o {
            DrawOp::Outline { rect, .. } => Some(*rect),
            _ => None,
        })
        .collect();
    assert_eq!(
        boxes,
        vec![
            Rect::new(Point::new(28, 24), Size::new(80, 80)),
            Rect::new(Point::new(108, 24), Size::new(80, 80)),
            Rect::new(Point::new(188, 24), Size::new(80, 80)),
        ]
    );
    // "459" is 30 x 20, the labels "CO2" / "ppm" 18 x 20: the row is 52 x 20.
    assert_eq!(text_op(&ops[2]), ("459".to_string(), Point::new(42, 54), Font::Large10x20, Color::Black));
    assert_eq!(text_op(&ops[3]), ("CO2".to_string(), Point::new(76, 54), Font::Small6x10, Color::Black));
    assert_eq!(text_op(&ops[4]), ("ppm".to_string(), Point::new(76, 64), Font::Small6x10, Color::Black));
    assert_eq!(text_op(&ops[6]).0, "20.6");
    assert_eq!(text_op(&ops[7]).0, "\u{b0}C");
    assert_eq!(text_op(&ops[9]).0, "57.4");
    assert_eq!(text_op(&ops[10]).0, "RH");
    assert_eq!(text_op(&ops[11]).0, "%");
}

#[test]
fn mood_grid_adds_glyph_under_co2() {
    let ops = compose_grid(&Data::new(900, 2059, 5742), AREA, true);
    assert_eq!(ops.len(), 1 + 5 + 3 + 4);
    match &ops[5] {
        DrawOp::Glyph { glyph, color, .. } => {
            assert_eq!(*glyph, 'U');
            assert_eq!(*color, Color::Chromatic);
        }
        other => panic!("not a glyph: {:?}", other),
    }
    let ops = compose_grid(&Data::new(400, 2059, 5742), AREA, true);
    assert!(matches!(ops[5], DrawOp::Glyph { glyph: '#', color: Color::Black, .. }));
}

#[test]
fn line_theme_steps() {
    let ops = compose_line(&Data::new(459, 2059, 5742), AREA);
    assert_eq!(ops.len(), 2);
    match &ops[0] {
        DrawOp::Line { from, to, stroke, color } => {
            assert_eq!(*from, Point::new(5, 64));
            assert_eq!(*to, Point::new(291, 64));
            assert_eq!(*stroke, 4);
            assert_eq!(*color, Color::Chromatic);
        }
        other => panic!("not a line: {:?}", other),
    }
    assert_eq!(
        text_op(&ops[1]),
        ("CO2: 459 ppm | 20.59 \u{b0}C | 57.42 %".to_string(), Point::new(5, 10), Font::Bold8x13, Color::Black)
    );
}

#[test]
fn theme_compose_matches_free_functions() {
    let d = Data::new(459, 2059, 5742);
    assert_eq!(Theme1::new().compose(&d, AREA).len(), 2);
    assert_eq!(Theme2::new().compose(&d, AREA).len(), 12);
    assert_eq!(Theme3::new().compose(&d, AREA).len(), 13);
    assert!(Theme1::new().accepts_data(&Data::new(20000, 0, 0)));
    assert!(!Theme2::new().accepts_data(&Data::new(20000, 0, 0)));
    assert!(!Theme3::new().accepts_data(&Data::new(0, 20000, 0)));
}

#[test]
fn text_size_uses_font_cells() {
    let t = text("CO2");
    assert_eq!(text_size(&t, Font::Small6x10), Size::new(18, 10));
    assert_eq!(text_size(&t, Font::Large10x20), Size::new(30, 20));
    assert_eq!(text_size(&t, Font::Bold8x13), Size::new(24, 13));
    assert_eq!(text_size(&text(""), Font::Large10x20), Size::new(0, 20));
    assert_eq!(text_size(&text("\u{b0}C"), Font::Small6x10), Size::new(12, 10));
}

#[test]
fn new_canvas_is_blank_landscape() {
    let c = Canvas::new();
    assert_eq!(c.size(), Size::new(296, 128));
    let (bw, chromatic) = planes(&c);
    assert_eq!(bw.len(), 4736);
    assert_eq!(chromatic.len(), 4736);
    assert!(bw.iter().chain(chromatic.iter()).all(|b| *b == 0));
}

#[test]
fn clear_fills_both_planes() {
    let mut c = Canvas::new();
    c.clear(Color::White);
    let (bw, chromatic) = planes(&c);
    assert!(bw.iter().all(|b| *b == 0xff) && chromatic.iter().all(|b| *b == 0));
    c.clear(Color::Chromatic);
    let (bw, chromatic) = planes(&c);
    assert!(bw.iter().all(|b| *b == 0xff) && chromatic.iter().all(|b| *b == 0xff));
    c.clear(Color::Black);
    let (bw, chromatic) = planes(&c);
    assert!(bw.iter().all(|b| *b == 0) && chromatic.iter().all(|b| *b == 0));
}

#[test]
fn drawing_text_changes_the_planes() {
    let mut c = Canvas::new();
    c.clear(Color::White);
    let before = planes(&c);
    c.draw_text(&text("459"), Point::new(10, 10), Font::Large10x20, Color::Black, Color::White);
    assert_ne!(planes(&c).0, before.0);
    let mut d = Canvas::new();
    d.clear(Color::White);
    d.draw_text(&text("459"), Point::new(10, 10), Font::Large10x20, Color::Chromatic, Color::White);
    assert_ne!(planes(&d).1, before.1);
}

#[test]
fn grid_redraw_gives_identical_planes() {
    let d = Data::new(900, 2059, 5742);
    let mut fresh = Canvas::new();
    Theme2::new().draw(&d, &mut fresh).unwrap();
    let mut dirty = Canvas::new();
    Theme1::new().draw(&Data::new(1, 2, 3), &mut dirty).unwrap();
    Theme2::new().draw(&d, &mut dirty).unwrap();
    Theme2::new().draw(&d, &mut dirty).unwrap();
    assert_eq!(planes(&fresh), planes(&dirty));
}

#[test]
fn every_theme_draws_the_same_planes_twice() {
    let d = Data::new(459, 2059, 5742);
    let mut a = Canvas::new();
    let mut b = Canvas::new();
    Theme1::new().draw(&d, &mut a).unwrap();
    Theme1::new().draw(&d, &mut b).unwrap();
    assert_eq!(planes(&a), planes(&b));
    let mut a = Canvas::new();
    let mut b = Canvas::new();
    Theme3::new().draw(&d, &mut a).unwrap();
    Theme3::new().draw(&d, &mut b).unwrap();
    assert_eq!(planes(&a), planes(&b));
}

#[test]
fn mood_theme_draws_both_glyphs() {
    let mut c = Canvas::new();
    assert!(Theme3::new().draw(&Data::new(900, 2059, 5742), &mut c).is_ok());
    assert!(Theme3::new().draw(&Data::new(400, 2059, 5742), &mut c).is_ok());
}

#[test]
fn line_theme_marks_chromatic_rule() {
    let mut c = Canvas::new();
    c.clear(Color::White);
    Theme1::new().draw(&Data::new(459, 2059, 5742), &mut c).unwrap();
    assert!(planes(&c).1.iter().any(|b| *b != 0));
}

#[test]
fn drawing_an_outline_changes_the_planes() {
    let mut c = Canvas::new();
    c.clear(Color::White);
    let before = planes(&c);
    c.draw_outline(Rect::new(Point::new(10, 10), Size::new(80, 80)), Color::Black);
    assert_ne!(planes(&c).0, before.0);
    assert_eq!(planes(&c).1, before.1);
}

#[test]
fn drawing_a_glyph_changes_the_planes() {
    let mut c = Canvas::new();
    c.clear(Color::White);
    let before = planes(&c);
    assert!(c.draw_glyph('U', Point::new(10, 10), Color::Chromatic));
    assert_ne!(planes(&c).1, before.1);
}

#[test]
fn drawing_a_line_changes_the_planes() {
    let mut c = Canvas::new();
    c.clear(Color::White);
    let before = planes(&c);
    c.draw_line(Point::new(5, 64), Point::new(291, 64), 4, Color::Black);
    assert_ne!(planes(&c).0, before.0);
}

#[test]
fn missing_glyph_stops_drawing_after_earlier_steps() {
    let mut c = Canvas::new();
    let ops = vec![
        DrawOp::Clear { color: Color::White },
        DrawOp::Glyph { glyph: '\u{4e00}', at: Point::new(10, 10), color: Color::Black },
        DrawOp::Clear { color: Color::Black },
    ];
    assert_eq!(c.render(&ops), Err(airquamon::DrawError::MissingGlyph('\u{4e00}')));
    let (bw, chromatic) = planes(&c);
    assert!(bw.iter().all(|b| *b == 0xff) && chromatic.iter().all(|b| *b == 0));
}

#[test]
fn emoticon_box_comes_from_the_font() {
    assert_eq!(
        airquamon::canvas::emoticon_box(),
        Rect::new(Point::new(0, -13), Size::new(16, 16))
    );
}

#[test]
fn mood_glyph_box_sits_under_the_value_row() {
    let ops = compose_grid(&Data::new(900, 2059, 5742), AREA, true);
    // The column (a 52 x 20 row, 4 pixels, a 16 x 16 glyph) is 52 x 40 and
    // centred in the box at (28, 24): it starts at (42, 44); the glyph's box
    // starts at (60, 68), so the glyph is drawn from 13 pixels lower.
    assert_eq!(text_op(&ops[2]).1, Point::new(42, 44));
    assert!(matches!(ops[5], DrawOp::Glyph { at: Point { x: 60, y: 81 }, .. }));
}

#[test]
fn chromatic_pixels_of_high_co2_stay_in_the_co2_box() {
    let mut c = Canvas::new();
    Theme3::new().draw(&Data::new(900, 2059, 5742), &mut c).unwrap();
    let chromatic = planes(&c).1;
    let mut seen = 0;
    for (i, byte) in chromatic.iter().enumerate() {
        for bit in 0..8 {
            if byte & (0x80 >> bit) != 0 {
                // Buffer row `by`, column `bx` of the 128-pixel-wide panel;
                // the landscape canvas maps (x, y) to (y, 295 - x).
                let (bx, by) = ((i % 16) * 8 + bit, i / 16);
                let (x, y) = (295 - by as i32, bx as i32);
                assert!((28..108).contains(&x) && (24..104).contains(&y), "({}, {})", x, y);
                seen += 1;
            }
        }
    }
    assert!(seen > 0);
}
