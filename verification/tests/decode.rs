use face_cascade::fixed::{Fixed, ONE_RAW};
use face_cascade::geometry::{Extent, Point, Rect};
use face_cascade::yolov5_face::result::YoloResult;

/// `num / den` for a power of two `den`, which is exact.
fn fx(num: i64, den: i64) -> Fixed {
    Fixed::from_raw(num * (ONE_RAW / den))
}

/// A row with the box `(320, 240, 100, 50)` and the landmarks
/// `(10k + 1, 10k + 2)`.
fn row(obj_conf: Fixed, cls_conf: Fixed) -> [Fixed; 16] {
    let mut r = [Fixed::zero(); 16];
    r[0] = fx(320, 1);
    r[1] = fx(240, 1);
    r[2] = fx(100, 1);
    r[3] = fx(50, 1);
    r[4] = obj_conf;
    for k in 0..5 {
        r[5 + 2 * k] = fx(10 * k as i64 + 1, 1);
        r[6 + 2 * k] = fx(10 * k as i64 + 2, 1);
    }
    r[15] = cls_conf;
    r
}

#[test]
fn accepted_row_is_decoded() {
    let d = YoloResult::new(&row(fx(7, 8), fx(3, 4)), fx(5, 8), (fx(1, 2), fx(1, 4))).unwrap();
    assert_eq!(d.conf, fx(21, 32));
    assert_eq!(
        d.bbox,
        Rect::new(Point::new(fx(135, 1), fx(215, 4)), Extent::new(fx(50, 1), fx(25, 2)))
    );
    for k in 0..5 {
        let k64 = k as i64;
        assert_eq!(d.landmarks[k], Point::new(fx(10 * k64 + 1, 2), fx(10 * k64 + 2, 4)));
    }
}

#[test]
fn unit_scale_keeps_the_box_in_place() {
    let d = YoloResult::new(&row(fx(1, 1), fx(1, 1)), fx(1, 2), (fx(1, 1), fx(1, 1))).unwrap();
    assert_eq!(d.conf, fx(1, 1));
    assert_eq!(d.bbox, Rect::new(Point::new(fx(270, 1), fx(215, 1)), Extent::new(fx(100, 1), fx(50, 1))));
    assert_eq!(d.landmarks[4], Point::new(fx(41, 1), fx(42, 1)));
}

#[test]
fn low_object_confidence_is_rejected() {
    assert!(YoloResult::new(&row(fx(1, 2), fx(1, 1)), fx(5, 8), (fx(1, 1), fx(1, 1))).is_none());
}

#[test]
fn object_confidence_equal_to_the_threshold_is_rejected() {
    // the class confidence would lift the product above the threshold
    assert!(YoloResult::new(&row(fx(5, 8), fx(2, 1)), fx(5, 8), (fx(1, 1), fx(1, 1))).is_none());
}

#[test]
fn low_product_is_rejected() {
    // 0.75 exceeds the threshold, 0.75 * 0.75 does not
    assert!(YoloResult::new(&row(fx(3, 4), fx(3, 4)), fx(5, 8), (fx(1, 1), fx(1, 1))).is_none());
}

#[test]
fn product_equal_to_the_threshold_is_rejected() {
    // 1.25 * 0.5 is exactly the threshold
    assert!(YoloResult::new(&row(fx(5, 4), fx(1, 2)), fx(5, 8), (fx(1, 1), fx(1, 1))).is_none());
}

#[test]
fn product_just_above_the_threshold_is_accepted() {
    let th = fx(5, 8);
    let obj = fx(5, 4);
    let cls = Fixed::from_raw(fx(1, 2).raw() + 1);
    let d = YoloResult::new(&row(obj, cls), th, (fx(1, 1), fx(1, 1))).unwrap();
    assert_eq!(d.conf.raw(), th.raw() + 1);
}

#[test]
fn confidence_at_or_below_any_threshold_is_absent() {
    let obj = fx(7, 8);
    let cls = fx(3, 4);
    let conf = obj.times(cls);
    for extra in [0i64, 1, 1 << 20, 1 << 31] {
        let th = Fixed::from_raw(conf.raw() + extra);
        assert!(YoloResult::new(&row(obj, cls), th, (fx(1, 1), fx(1, 1))).is_none());
    }
    let th = Fixed::from_raw(conf.raw() - 1);
    assert!(YoloResult::new(&row(obj, cls), th, (fx(1, 1), fx(1, 1))).is_some());
}

#[test]
fn make_bbox_turns_centre_form_into_corner_form() {
    let r = YoloResult::make_bbox(fx(10, 1), fx(20, 1), fx(4, 1), fx(5, 1));
    assert_eq!(r, Rect::new(Point::new(fx(8, 1), fx(35, 2)), Extent::new(fx(4, 1), fx(5, 1))));
}
