use face_cascade::fixed::{Fixed, ONE_RAW};
use face_cascade::geometry::{Extent, Point, Rect};
use face_cascade::yolov5_face::result::YoloResult;

/// `num / den` for a power of two `den`, which is exact.
fn fx(num: i64, den: i64) -> Fixed {
    Fixed::from_raw(num * (ONE_RAW / den))
}

fn det(x: Fixed, y: Fixed, w: Fixed, h: Fixed) -> YoloResult {
    YoloResult {
        conf: Fixed::one(),
        bbox: Rect::new(Point::new(x, y), Extent::new(w, h)),
        landmarks: [Point::new(Fixed::zero(), Fixed::zero()); 5],
    }
}

fn whole(x: i64, y: i64, w: i64, h: i64) -> YoloResult {
    det(fx(x, 1), fx(y, 1), fx(w, 1), fx(h, 1))
}

#[test]
fn iou_of_a_rect_with_itself_is_one() {
    for a in [
        whole(0, 0, 1, 1),
        whole(-7, 3, 20, 5),
        whole(100, 100, 1280, 720),
        det(fx(1, 4), fx(1, 8), fx(1, 16), fx(3, 32)),
        det(fx(1, 3 << 10), fx(0, 1), fx(1, 1 << 11), fx(1, 1 << 11).plus(Fixed::from_raw(77))),
    ] {
        assert_eq!(a.iou(&a), Fixed::one());
    }
}

#[test]
fn iou_of_disjoint_rects_is_zero() {
    let a = whole(0, 0, 2, 2);
    assert_eq!(a.iou(&whole(5, 5, 2, 2)), Fixed::zero());
    assert_eq!(a.iou(&whole(2, 0, 2, 2)), Fixed::zero());
    assert_eq!(a.iou(&whole(0, -9, 2, 2)), Fixed::zero());
}

#[test]
fn iou_below_the_area_threshold_is_zero() {
    // the overlap is a square of side 2^-12, of area 2^-24 < 2^-23
    let a = whole(0, 0, 1, 1);
    let b = det(fx(1, 1).minus(fx(1, 1 << 12)), fx(1, 1).minus(fx(1, 1 << 12)), fx(1, 1), fx(1, 1));
    assert_eq!(a.bbox.intersect(b.bbox).area(), fx(1, 1 << 24));
    assert_eq!(a.iou(&b), Fixed::zero());
}

#[test]
fn iou_at_the_area_threshold_is_not_cut() {
    // the overlap is 2^-11 by 2^-12, of area exactly 2^-23
    let a = whole(0, 0, 1, 1);
    let b = det(fx(1, 1).minus(fx(1, 1 << 11)), fx(1, 1).minus(fx(1, 1 << 12)), fx(1, 1), fx(1, 1));
    assert_eq!(a.bbox.intersect(b.bbox).area(), Fixed::epsilon());
    assert!(a.iou(&b).gt(Fixed::zero()));
}

#[test]
fn iou_of_a_degenerate_rect_with_itself_is_zero() {
    let flat = whole(3, 3, 5, 0);
    assert_eq!(flat.iou(&flat), Fixed::zero());
    let tiny = det(fx(0, 1), fx(0, 1), fx(1, 1 << 13), fx(1, 1 << 13));
    assert_eq!(tiny.iou(&tiny), Fixed::zero());
    let inverted = whole(3, 3, -5, -5);
    assert_eq!(inverted.iou(&inverted), Fixed::zero());
}

#[test]
fn iou_is_intersection_over_union() {
    // overlap 2, union 4 + 4 - 2
    let a = whole(0, 0, 2, 2);
    let b = whole(1, 0, 2, 2);
    assert_eq!(a.iou(&b).raw(), 1_431_655_765);
    // overlap 1, union 4 + 4 - 1
    let c = whole(1, 1, 2, 2);
    assert_eq!(a.iou(&c).raw(), ONE_RAW / 7);
    // b inside a: overlap 1, union 4
    let d = whole(1, 1, 1, 1);
    assert_eq!(a.iou(&d), fx(1, 4));
}

#[test]
fn iou_is_symmetric() {
    let a = whole(0, 0, 3, 2);
    let b = whole(1, -1, 5, 2);
    assert_eq!(a.iou(&b), b.iou(&a));
    assert_eq!(a.iou(&b), fx(1, 7));
}

#[test]
fn iou_ignores_confidence_and_landmarks() {
    let a = whole(0, 0, 2, 2);
    let mut b = whole(1, 0, 2, 2);
    let before = a.iou(&b);
    b.conf = fx(9, 1);
    b.landmarks[2] = Point::new(fx(5, 1), fx(5, 1));
    assert_eq!(a.iou(&b), before);
}

#[test]
fn iou_tracks_floating_point() {
    let boxes: [(f64, f64, f64, f64); 4] =
        [(0.1, 0.2, 0.3, 0.4), (0.25, 0.3, 0.3, 0.35), (0.0, 0.0, 1.0, 1.0), (0.38, 0.55, 0.1, 0.1)];
    let to_fixed = |v: f64| Fixed::from_raw((v * ONE_RAW as f64).round() as i64);
    for (ax, ay, aw, ah) in boxes {
        for (bx, by, bw, bh) in boxes {
            let iw = ((ax + aw).min(bx + bw) - ax.max(bx)).max(0.0);
            let ih = ((ay + ah).min(by + bh) - ay.max(by)).max(0.0);
            let i = iw * ih;
            let expected = if i < f32::EPSILON as f64 { 0.0 } else { i / (aw * ah + bw * bh - i) };
            let a = det(to_fixed(ax), to_fixed(ay), to_fixed(aw), to_fixed(ah));
            let b = det(to_fixed(bx), to_fixed(by), to_fixed(bw), to_fixed(bh));
            let got = a.iou(&b).raw() as f64 / ONE_RAW as f64;
            assert!((got - expected).abs() < 1e-6, "{got} against {expected}");
        }
    }
}

#[test]
fn iou_of_a_rect_whose_doubled_area_saturates_is_not_one() {
    // 40000 by 40000: the area is representable, twice the area is not
    let huge = whole(0, 0, 40_000, 40_000);
    assert_eq!(huge.bbox.area(), fx(1_600_000_000, 1));
    assert!(huge.iou(&huge).gt(Fixed::one()));
    // 30000 by 30000 is still exact
    let large = whole(0, 0, 30_000, 30_000);
    assert_eq!(large.iou(&large), Fixed::one());
}
