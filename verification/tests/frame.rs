use face_cascade::display::DisplayMap;
use face_cascade::fixed::{Fixed, ONE_RAW};
use face_cascade::frame::{
    best_face, detector_square, landmark_stage, plan_landmark_stage, CONF_THRESHOLD_RAW,
    CROP_MARGIN_RAW, IOU_THRESHOLD_RAW,
};
use face_cascade::geometry::{Extent, Point, Rect};
use face_cascade::yolov5_face::result::YoloResult;

/// `num / den` for a power of two `den`, which is exact.
fn fx(num: i64, den: i64) -> Fixed {
    Fixed::from_raw(num * (ONE_RAW / den))
}

fn size(w: i64, h: i64) -> (Fixed, Fixed) {
    (fx(w, 1), fx(h, 1))
}

fn face(conf: i64, x: (i64, i64), y: (i64, i64)) -> YoloResult {
    YoloResult {
        conf: fx(conf, 16),
        bbox: Rect::new(Point::new(fx(x.0, x.1), fx(y.0, y.1)), Extent::new(fx(1, 8), fx(1, 8))),
        landmarks: [Point::new(Fixed::zero(), Fixed::zero()); 5],
    }
}

#[test]
fn thresholds_have_their_values() {
    assert_eq!(CONF_THRESHOLD_RAW, (0.6f32 as f64 * ONE_RAW as f64) as i64);
    assert_eq!(CONF_THRESHOLD_RAW as f64 / ONE_RAW as f64, 0.6f32 as f64);
    assert_eq!(IOU_THRESHOLD_RAW, ONE_RAW / 2);
    assert_eq!(CROP_MARGIN_RAW, 3 * ONE_RAW / 2);
}

#[test]
fn detector_square_is_centred_in_the_capture() {
    assert_eq!(
        detector_square(size(1280, 720)),
        Rect::new(Point::new(fx(280, 1), fx(0, 1)), Extent::new(fx(720, 1), fx(720, 1)))
    );
    assert_eq!(
        detector_square(size(480, 640)),
        Rect::new(Point::new(fx(0, 1), fx(80, 1)), Extent::new(fx(480, 1), fx(480, 1)))
    );
    assert_eq!(
        detector_square(size(512, 512)),
        Rect::new(Point::new(fx(0, 1), fx(0, 1)), Extent::new(fx(512, 1), fx(512, 1)))
    );
}

#[test]
fn best_face_of_none_is_none() {
    assert_eq!(best_face(&Vec::new()), None);
}

#[test]
fn best_face_is_the_most_confident() {
    let faces = vec![face(11, (0, 1), (0, 1)), face(15, (0, 1), (0, 1)), face(12, (0, 1), (0, 1))];
    assert_eq!(best_face(&faces), Some(1));
    assert_eq!(best_face(&faces[..1].to_vec()), Some(0));
}

#[test]
fn best_face_of_equals_is_the_last() {
    let faces = vec![
        face(15, (0, 1), (0, 1)),
        face(11, (0, 1), (0, 1)),
        face(15, (0, 1), (0, 1)),
        face(12, (0, 1), (0, 1)),
    ];
    assert_eq!(best_face(&faces), Some(2));
    let by_iterator = faces.iter().enumerate().max_by(|a, b| a.1.conf.raw().cmp(&b.1.conf.raw()));
    assert_eq!(by_iterator.map(|(i, _)| i), Some(2));
}

#[test]
fn landmark_stage_moves_the_crop_into_capture_space() {
    let display = DisplayMap::new(size(1280, 720), size(640, 480));
    assert_eq!(display.scale, fx(1, 2));
    // the box is 90 by 90 pixels at (315, 315) of the 720 by 720 square
    let bbox = Rect::new(Point::new(fx(7, 16), fx(7, 16)), Extent::new(fx(1, 8), fx(1, 8)));
    let stage = landmark_stage(bbox, size(1280, 720), Fixed::from_raw(CROP_MARGIN_RAW), display.scale);
    // side 135, centred on (360, 360) of the square, which starts at x = 280
    assert_eq!(
        stage.crop,
        Rect::new(Point::new(fx(1145, 2), fx(585, 2)), Extent::new(fx(135, 1), fx(135, 1)))
    );
    assert_eq!(
        stage.display_rect,
        Rect::new(Point::new(fx(1145, 4), fx(585, 4)), Extent::new(fx(135, 2), fx(135, 2)))
    );
}

#[test]
fn landmark_stage_near_the_border_stays_inside_the_capture() {
    let bbox = Rect::new(Point::new(fx(15, 16), fx(0, 1)), Extent::new(fx(1, 8), fx(1, 8)));
    let stage = landmark_stage(bbox, size(1280, 720), fx(3, 2), fx(1, 1));
    // the square ends at the right edge of the detector square, x = 1000
    assert_eq!(
        stage.crop,
        Rect::new(Point::new(fx(865, 1), fx(0, 1)), Extent::new(fx(135, 1), fx(135, 1)))
    );
    assert_eq!(stage.display_rect, stage.crop);
}

#[test]
fn plan_without_a_detection_skips_the_landmark_stage() {
    assert_eq!(plan_landmark_stage(&Vec::new(), size(1280, 720), fx(3, 2), fx(1, 2)), None);
}

#[test]
fn plan_uses_the_best_detection() {
    let faces = vec![face(11, (0, 1), (0, 1)), face(15, (7, 16), (7, 16)), face(12, (1, 2), (0, 1))];
    let planned = plan_landmark_stage(&faces, size(1280, 720), fx(3, 2), fx(1, 2));
    assert_eq!(planned, Some(landmark_stage(faces[1].bbox, size(1280, 720), fx(3, 2), fx(1, 2))));
    assert_eq!(planned.unwrap().crop.xy, Point::new(fx(1145, 2), fx(585, 2)));
}

#[test]
fn region_to_outer_moves_by_the_corner() {
    let region = Rect::new(Point::new(fx(1145, 2), fx(585, 2)), Extent::new(fx(135, 1), fx(135, 1)));
    assert_eq!(face_cascade::frame::region_to_outer(Point::new(fx(0, 1), fx(0, 1)), region), region.xy);
    assert_eq!(
        face_cascade::frame::region_to_outer(Point::new(fx(135, 2), fx(-1, 2)), region),
        Point::new(fx(640, 1), fx(292, 1))
    );
}

#[test]
fn display_rect_is_the_crop_seen_through_the_map() {
    let display = DisplayMap::new(size(1280, 720), size(800, 600));
    let bbox = Rect::new(Point::new(fx(3, 16), fx(5, 16)), Extent::new(fx(1, 4), fx(1, 8)));
    let stage = landmark_stage(bbox, size(1280, 720), fx(3, 2), display.scale);
    assert_eq!(display.to_display(stage.crop.xy), stage.display_rect.xy.plus(&display.offset));
    assert_eq!(stage.display_rect.size.width, stage.crop.size.width.times(display.scale));
    assert_eq!(stage.display_rect.size.height, stage.crop.size.height.times(display.scale));
}
