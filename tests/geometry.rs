use ytesrev::geometry::{
    anchor_rect, margin_rect, split_extent, split_rects, stack_corners, AnchorDirection, Point,
    Position, Rect, SplitAmount,
};
use ytesrev::layout::{ElementPositioning, Orientation};

#[test]
fn into_rect_with_size_examples() {
    let tlc = Position::TopLeftCorner(Point { x: 10, y: 20 });
    assert_eq!(tlc.into_rect_with_size(5, 8), Rect::new(10, 20, 5, 8));

    let center = Position::Center(Point { x: 20, y: 30 });
    assert_eq!(center.into_rect_with_size(4, 10), Rect::new(18, 25, 4, 10));

    let rect = Position::Rect(Rect::new(10, 40, 20, 20));
    assert_eq!(rect.into_rect_with_size(6, 4), Rect::new(17, 48, 6, 4));

    let rect_too_short = Position::Rect(Rect::new(10, 20, 30, 8));
    assert_eq!(rect_too_short.into_rect_with_size(20, 69), Rect::new(15, 20, 20, 8));
}

#[test]
fn into_rect_with_size_unbounded_examples() {
    let tlc = Position::TopLeftCorner(Point { x: 20, y: 50 });
    assert_eq!(tlc.into_rect_with_size_unbounded(2, 7), Rect::new(20, 50, 2, 7));

    let center = Position::Center(Point { x: 50, y: 10 });
    assert_eq!(center.into_rect_with_size_unbounded(2, 8), Rect::new(49, 6, 2, 8));

    let rect = Position::Rect(Rect::new(10, 40, 20, 20));
    assert_eq!(rect.into_rect_with_size_unbounded(6, 4), Rect::new(17, 48, 6, 4));

    let small = Position::Rect(Rect::new(10, 20, 30, 8));
    assert_eq!(small.into_rect_with_size_unbounded(20, 69), Rect::new(15, 20, 20, 69));
}

#[test]
fn coordinates_saturate() {
    let far = Position::Center(Point { x: i32::MIN, y: 0 });
    assert_eq!(far.into_rect_with_size(10, 10).x, i32::MIN);
}

#[test]
fn split_halves() {
    let r = Rect::new(0, 10, 100, 50);
    let (a, b) = split_rects(r, Orientation::Vertical, SplitAmount::Fraction(1, 5));
    assert_eq!(a, Rect::new(0, 10, 100, 10));
    assert_eq!(b, Rect::new(0, 20, 100, 40));
    let (a, b) = split_rects(r, Orientation::Horizontal, SplitAmount::Pixels(30));
    assert_eq!(a, Rect::new(0, 10, 30, 50));
    assert_eq!(b, Rect::new(30, 10, 70, 50));
    assert_eq!(split_extent(SplitAmount::Pixels(500), 40), 40);
    assert_eq!(split_extent(SplitAmount::Fraction(1, 0), 40), 0);
}

#[test]
fn margins_shrink_rect() {
    let r = margin_rect(Rect::new(10, 20, 100, 50), (5, 6, 7, 8));
    assert_eq!(r, Rect::new(16, 25, 86, 38));
    let r = margin_rect(Rect::new(0, 0, 10, 10), (20, 20, 20, 20));
    assert_eq!((r.w, r.h), (0, 0));
}

#[test]
fn anchors_pin_to_sides() {
    let r = Rect::new(0, 0, 100, 50);
    assert_eq!(anchor_rect(AnchorDirection::North, r, 20, 10), Rect::new(40, 0, 20, 10));
    assert_eq!(anchor_rect(AnchorDirection::East, r, 20, 10), Rect::new(80, 20, 20, 10));
    assert_eq!(anchor_rect(AnchorDirection::SouthWest, r, 20, 10), Rect::new(0, 40, 20, 10));
    assert_eq!(anchor_rect(AnchorDirection::SouthEast, r, 20, 10), Rect::new(80, 40, 20, 10));
    // Wider than the region: the odd difference rounds towards zero.
    assert_eq!(anchor_rect(AnchorDirection::North, r, 103, 10).x, -1);
}

#[test]
fn stack_places_elements() {
    let sizes = vec![(10u32, 5u32), (20, 7), (4, 3)];
    let corners = stack_corners(
        Point { x: 100, y: 50 },
        Orientation::Vertical,
        ElementPositioning::Centered,
        2,
        20,
        &sizes,
    );
    assert_eq!(
        corners,
        vec![Point { x: 105, y: 50 }, Point { x: 100, y: 57 }, Point { x: 108, y: 66 }]
    );
    let corners = stack_corners(
        Point { x: 0, y: 0 },
        Orientation::Horizontal,
        ElementPositioning::TopLeftCornered,
        1,
        7,
        &sizes,
    );
    assert_eq!(corners, vec![Point { x: 0, y: 0 }, Point { x: 11, y: 0 }, Point { x: 32, y: 0 }]);
}
