use airquamon::geometry::{stack_horizontal, stack_vertical, Point, Rect, Size};

fn rect(x: i32, y: i32, w: u32, h: u32) -> Rect {
    Rect::new(Point::new(x, y), Size::new(w, h))
}

#[test]
fn horizontal_stack_places_items_with_spacing() {
    let s = stack_horizontal(&vec![Size::new(10, 20), Size::new(30, 10)], 4);
    assert_eq!(s.cells, vec![rect(0, 0, 10, 20), rect(14, 5, 30, 10)]);
    assert_eq!(s.size, Size::new(44, 20));
}

#[test]
fn vertical_stack_places_items_with_spacing() {
    let s = stack_vertical(&vec![Size::new(18, 10), Size::new(6, 10)], 0);
    assert_eq!(s.cells, vec![rect(0, 0, 18, 10), rect(6, 10, 6, 10)]);
    assert_eq!(s.size, Size::new(18, 20));
}

#[test]
fn empty_stack_has_no_extent() {
    let s = stack_horizontal(&vec![], 4);
    assert!(s.cells.is_empty());
    assert_eq!(s.size, Size::new(0, 0));
}

#[test]
fn centred_row_stays_inside_reference() {
    let s = stack_horizontal(&vec![Size::new(80, 80), Size::new(80, 80), Size::new(80, 80)], 0);
    let placed = s.align_center(rect(0, 0, 296, 128));
    assert_eq!(placed[0], rect(28, 24, 80, 80));
    for c in placed {
        assert!(c.top_left.x >= 0 && c.top_left.y >= 0);
        assert!(c.top_left.x + c.size.width as i32 <= 296);
        assert!(c.top_left.y + c.size.height as i32 <= 128);
    }
}

#[test]
fn centring_meets_the_middle_pixels() {
    let one = |w, h| stack_horizontal(&vec![Size::new(w, h)], 0);
    assert_eq!(one(44, 20).align_center(rect(0, 0, 100, 40)), vec![rect(28, 10, 44, 20)]);
    // An odd box in an even one: the middle pixel of the box meets the left
    // one of the two middle pixels of the reference.
    assert_eq!(one(3, 3).align_center(rect(10, 10, 8, 8)), vec![rect(12, 12, 3, 3)]);
    assert_eq!(one(4, 4).align_center(rect(10, 10, 9, 9)), vec![rect(13, 13, 4, 4)]);
}

#[test]
fn row_items_share_the_centre_line() {
    let s = stack_horizontal(&vec![Size::new(6, 10), Size::new(6, 19), Size::new(6, 4)], 1);
    assert_eq!(s.cells, vec![rect(0, 5, 6, 10), rect(7, 0, 6, 19), rect(14, 8, 6, 4)]);
    assert_eq!(s.size, Size::new(20, 19));
}

#[test]
fn translate_moves_a_box() {
    assert_eq!(rect(1, 2, 3, 4).translate(Point::new(10, -5)), rect(11, -3, 3, 4));
}
