use face_cascade::fixed::{Fixed, ONE_RAW};
use face_cascade::geometry::{Extent, Point, Rect};
use face_cascade::utils::scale_rect;

/// `num / den` for a power of two `den`, which is exact.
fn fx(num: i64, den: i64) -> Fixed {
    Fixed::from_raw(num * (ONE_RAW / den))
}

fn rect(x: i64, y: i64, w: i64, h: i64) -> Rect {
    Rect::new(Point::new(fx(x, 1), fx(y, 1)), Extent::new(fx(w, 1), fx(h, 1)))
}

#[test]
fn constructors_store_their_arguments() {
    let p = Point::new(fx(3, 2), fx(-5, 4));
    assert_eq!(p.x, fx(3, 2));
    assert_eq!(p.y, fx(-5, 4));
    let e = Extent::new(fx(7, 1), fx(9, 1));
    assert_eq!(e.width, fx(7, 1));
    assert_eq!(e.height, fx(9, 1));
    let r = Rect::new(p, e);
    assert_eq!(r.xy, p);
    assert_eq!(r.size, e);
}

#[test]
fn point_operations_are_component_wise() {
    let p = Point::new(fx(3, 1), fx(-4, 1));
    let q = Point::new(fx(1, 2), fx(1, 4));
    assert_eq!(p.offset(fx(1, 1), fx(2, 1)), Point::new(fx(4, 1), fx(-2, 1)));
    assert_eq!(p.scaled(fx(3, 2)), Point::new(fx(9, 2), fx(-6, 1)));
    assert_eq!(p.plus(&q), Point::new(fx(7, 2), fx(-15, 4)));
    assert_eq!(p.minus(&q), Point::new(fx(5, 2), fx(-17, 4)));
}

#[test]
fn intersect_of_overlapping_rects_is_the_overlap() {
    let a = rect(0, 0, 4, 4);
    let b = rect(2, 1, 4, 4);
    assert_eq!(a.intersect(b), rect(2, 1, 2, 3));
    assert_eq!(b.intersect(a), rect(2, 1, 2, 3));
    assert_eq!(a.intersect(b).area(), fx(6, 1));
}

#[test]
fn intersect_with_a_contained_rect_is_that_rect() {
    let outer = rect(-10, -10, 20, 20);
    let inner = rect(-1, 2, 3, 4);
    assert_eq!(outer.intersect(inner), inner);
    assert_eq!(inner.intersect(outer), inner);
    assert_eq!(inner.intersect(inner), inner);
}

#[test]
fn intersect_of_disjoint_rects_has_no_extent() {
    let a = rect(0, 0, 1, 1);
    let b = rect(5, 5, 1, 1);
    let c = a.intersect(b);
    assert_eq!(c.xy, Point::new(fx(5, 1), fx(5, 1)));
    assert_eq!(c.size, Extent::new(Fixed::zero(), Fixed::zero()));
    assert_eq!(c.area(), Fixed::zero());
}

#[test]
fn intersect_of_rects_disjoint_on_one_axis_has_no_area() {
    let a = rect(0, 0, 4, 4);
    let b = rect(1, 10, 2, 2);
    let c = a.intersect(b);
    assert_eq!(c.size, Extent::new(fx(2, 1), Fixed::zero()));
    assert_eq!(c.area(), Fixed::zero());
}

#[test]
fn intersect_of_touching_rects_has_no_area() {
    let a = rect(0, 0, 1, 1);
    let b = rect(1, 0, 1, 1);
    assert_eq!(a.intersect(b).size.width, Fixed::zero());
    assert_eq!(a.intersect(b).area(), Fixed::zero());
}

#[test]
fn area_is_width_times_height() {
    assert_eq!(rect(9, 9, 3, 5).area(), fx(15, 1));
    assert_eq!(Rect::new(Point::new(fx(0, 1), fx(0, 1)), Extent::new(fx(1, 2), fx(1, 4))).area(), fx(1, 8));
    assert_eq!(rect(0, 0, 0, 5).area(), Fixed::zero());
}

#[test]
fn area_does_not_clamp_negative_extents() {
    assert_eq!(rect(0, 0, -2, 3).area(), fx(-6, 1));
    assert_eq!(rect(0, 0, -2, -3).area(), fx(6, 1));
}

#[test]
fn scale_multiplies_corner_and_extent() {
    let r = rect(2, 4, 6, 8);
    let s = r.scale(fx(1, 2), fx(3, 1));
    assert_eq!(s, Rect::new(Point::new(fx(1, 1), fx(12, 1)), Extent::new(fx(3, 1), fx(24, 1))));
    assert_eq!(scale_rect(r, (fx(1, 2), fx(3, 1))), s);
}

#[test]
fn scale_rect_takes_fractions_to_pixels() {
    let bbox = Rect::new(Point::new(fx(1, 4), fx(1, 2)), Extent::new(fx(1, 8), fx(1, 16)));
    let px = scale_rect(bbox, (fx(640, 1), fx(480, 1)));
    assert_eq!(px, Rect::new(Point::new(fx(160, 1), fx(240, 1)), Extent::new(fx(80, 1), fx(30, 1))));
}

#[test]
fn translate_moves_the_corner_only() {
    let r = rect(2, 4, 6, 8);
    assert_eq!(r.translate(fx(-3, 1), fx(1, 2)), Rect::new(Point::new(fx(-1, 1), fx(9, 2)), r.size));
}
