//! What one frame needs between the detector and the landmark model: the
//! best detection, the crop that is cut for it from the capture, and where
//! that crop is shown.

use crate::crop::{lemma_crop_inside_image, mk_face_land_mark_crop_from_bbox, spec_crop_from_bbox};
use crate::display::DisplayMap;
use crate::fixed::Fixed;
use crate::geometry::{Extent, Point, Rect};
use crate::yolov5_face::result::YoloResult;
use vstd::prelude::*;

verus! {

/// Raw value of the confidence threshold of the detector stage: 0.6 as
/// rounded to 24 significant bits.
pub const CONF_THRESHOLD_RAW: i64 = 0x9999_9a00;

/// Raw value of the overlap threshold of the deduplication, 0.5.
pub const IOU_THRESHOLD_RAW: i64 = 0x8000_0000;

/// Raw value of the margin by which the landmark crop exceeds the box, 1.5.
pub const CROP_MARGIN_RAW: i64 = 0x1_8000_0000;

/// The crop of the capture that goes to the landmark model, and the
/// rectangle in which its result is shown. `display_rect` is relative to
/// the corner of the letterboxed image.
#[derive(Clone, Copy, Debug, PartialEq, Eq, Structural)]
pub struct LandmarkStage {
    pub crop: Rect,
    pub display_rect: Rect,
}

/// The centred square of the capture that the detector sees: its side is
/// the shorter side of the capture.
pub open spec fn spec_detector_square(cap_size: (Fixed, Fixed)) -> Rect {
    let side = cap_size.0.spec_min(cap_size.1);
    Rect {
        xy: Point {
            x: cap_size.0.spec_minus(side).spec_halved(),
            y: cap_size.1.spec_minus(side).spec_halved(),
        },
        size: Extent { width: side, height: side },
    }
}

/// Whether `i` is the index of the best detection: none is more confident,
/// and every later one is strictly less confident.
pub open spec fn spec_is_best(faces: Seq<YoloResult>, i: int) -> bool {
    &&& 0 <= i < faces.len()
    &&& forall|j: int| 0 <= j < faces.len() ==> (#[trigger] faces[j]).conf@ <= faces[i].conf@
    &&& forall|j: int| i < j < faces.len() ==> (#[trigger] faces[j]).conf@ < faces[i].conf@
}

/// Index of the best detection, if there is any detection.
pub open spec fn spec_best_face(faces: Seq<YoloResult>) -> Option<int> {
    if faces.len() == 0 {
        None
    } else {
        Some(choose|i: int| spec_is_best(faces, i))
    }
}

/// Every non-empty list has a best detection, and [`spec_best_face`]
/// names it.
pub proof fn lemma_best_face_exists(faces: Seq<YoloResult>)
    requires
        faces.len() > 0,
    ensures
        spec_best_face(faces) matches Some(i) && spec_is_best(faces, i),
    decreases faces.len(),
{
    let last = faces.len() - 1;
    if faces.len() == 1 {
        assert(spec_is_best(faces, 0));
    } else {
        let front = faces.drop_last();
        lemma_best_face_exists(front);
        let b = spec_best_face(front)->0;
        assert(spec_is_best(front, b));
        assert forall|j: int| 0 <= j < last implies (#[trigger] faces[j]) == front[j] by {}
        if faces[last].conf@ >= faces[b].conf@ {
            assert forall|j: int| 0 <= j < faces.len() implies (#[trigger] faces[j]).conf@
                <= faces[last].conf@ by {
                if j < last {
                    assert(front[j].conf@ <= front[b].conf@);
                }
            }
            assert(spec_is_best(faces, last));
        } else {
            assert forall|j: int| 0 <= j < faces.len() implies (#[trigger] faces[j]).conf@
                <= faces[b].conf@ by {
                if j < last {
                    assert(front[j].conf@ <= front[b].conf@);
                }
            }
            assert forall|j: int| b < j < faces.len() implies (#[trigger] faces[j]).conf@
                < faces[b].conf@ by {
                if j < last {
                    assert(front[j].conf@ < front[b].conf@);
                }
            }
            assert(spec_is_best(faces, b));
        }
    }
}

/// A list has no more than one best detection: an index that is the best
/// is the one that [`spec_best_face`] names.
pub proof fn lemma_best_face_unique(faces: Seq<YoloResult>, i: int)
    requires
        spec_is_best(faces, i),
    ensures
        spec_best_face(faces) == Some(i),
{
    let j = choose|j: int| spec_is_best(faces, j);
    assert(spec_is_best(faces, j));
    if i < j {
        assert(faces[j].conf@ < faces[i].conf@);
        assert(faces[i].conf@ <= faces[j].conf@);
    } else if j < i {
        assert(faces[i].conf@ < faces[j].conf@);
        assert(faces[j].conf@ <= faces[i].conf@);
    }
}

/// The landmark stage for a box given in fractions of the detector square.
/// The crop is made inside the detector square and moved by the square's
/// corner into capture space; the display rectangle is the crop scaled by
/// `display_scale`.
pub open spec fn spec_landmark_stage(
    bbox: Rect,
    cap_size: (Fixed, Fixed),
    margin: Fixed,
    display_scale: Fixed,
) -> LandmarkStage {
    let square = spec_detector_square(cap_size);
    let relative = spec_crop_from_bbox(bbox, (square.size.width, square.size.height), margin).region;
    let crop = Rect { xy: relative.xy.spec_plus(square.xy), size: relative.size };
    LandmarkStage {
        crop,
        display_rect: Rect {
            xy: crop.xy.spec_scaled(display_scale),
            size: Extent {
                width: relative.size.width.spec_times(display_scale),
                height: relative.size.height.spec_times(display_scale),
            },
        },
    }
}

/// A point given relative to the corner of `region`, in the space that
/// `region` lies in.
pub open spec fn spec_region_to_outer(p: Point, region: Rect) -> Point {
    p.spec_plus(region.xy)
}

/// Takes a point out of a region: a point given relative to the corner of
/// `region` is moved by that corner. This takes crop-local points to
/// capture space.
pub fn region_to_outer(p: Point, region: Rect) -> (q: Point)
    ensures
        q == spec_region_to_outer(p, region),
{
    p.plus(&region.xy)
}

/// The centred square of the capture that the detector sees.
pub fn detector_square(cap_size: (Fixed, Fixed)) -> (square: Rect)
    ensures
        square == spec_detector_square(cap_size),
{
    let side = cap_size.0.min(cap_size.1);
    Rect {
        xy: Point { x: cap_size.0.minus(side).halved(), y: cap_size.1.minus(side).halved() },
        size: Extent { width: side, height: side },
    }
}

/// Index of the most confident detection; of several equally confident
/// ones, the last. `None` exactly when there is no detection.
pub fn best_face(faces: &Vec<YoloResult>) -> (best: Option<usize>)
    ensures
        best is None <==> faces@.len() == 0,
        best matches Some(i) ==> spec_is_best(faces@, i as int),
        spec_best_face(faces@) == (match best {
            Some(i) => Some(i as int),
            None => None,
        }),
{
    if faces.len() == 0 {
        return None;
    }
    let mut best: usize = 0;
    let mut i: usize = 1;
    while i < faces.len()
        invariant
            1 <= i <= faces.len(),
            best < i,
            forall|j: int| 0 <= j < i ==> (#[trigger] faces@[j]).conf@ <= faces@[best as int].conf@,
            forall|j: int| best < j < i ==> (#[trigger] faces@[j]).conf@ < faces@[best as int].conf@,
        decreases faces.len() - i,
    {
        if faces[i].conf.ge(faces[best].conf) {
            best = i;
        }
        i += 1;
    }
    proof {
        lemma_best_face_unique(faces@, best as int);
    }
    Some(best)
}

/// The landmark stage for one detection box; see [`spec_landmark_stage`].
pub fn landmark_stage(bbox: Rect, cap_size: (Fixed, Fixed), margin: Fixed, display_scale: Fixed) -> (stage:
    LandmarkStage)
    ensures
        stage == spec_landmark_stage(bbox, cap_size, margin, display_scale),
{
    let square = detector_square(cap_size);
    let relative = mk_face_land_mark_crop_from_bbox(
        bbox,
        (square.size.width, square.size.height),
        margin,
    ).region;
    let crop = Rect { xy: relative.xy.plus(&square.xy), size: relative.size };
    let display_size = Extent {
        width: relative.size.width.times(display_scale),
        height: relative.size.height.times(display_scale),
    };
    LandmarkStage { crop, display_rect: Rect { xy: crop.xy.scaled(display_scale), size: display_size } }
}

/// The landmark stage for the best of `faces`, or `None` when there is no
/// detection and the landmark stage is skipped for the frame.
pub fn plan_landmark_stage(
    faces: &Vec<YoloResult>,
    cap_size: (Fixed, Fixed),
    margin: Fixed,
    display_scale: Fixed,
) -> (stage: Option<LandmarkStage>)
    ensures
        stage is None <==> faces@.len() == 0,
        stage == (match spec_best_face(faces@) {
            Some(i) => Some(spec_landmark_stage(faces@[i].bbox, cap_size, margin, display_scale)),
            None => None,
        }),
{
    match best_face(faces) {
        Some(i) => Some(landmark_stage(faces[i].bbox, cap_size, margin, display_scale)),
        None => None,
    }
}

/// The display rectangle of a stage is its crop seen through the display
/// map: drawn relative to the corner of the letterboxed image, it starts
/// where the map puts the crop's corner, and the crop's corner is where the
/// corner of the crop-local space lies in capture space.
pub proof fn lemma_display_rect_follows_the_map(
    bbox: Rect,
    cap_size: (Fixed, Fixed),
    margin: Fixed,
    display: DisplayMap,
)
    ensures
        ({
            let stage = spec_landmark_stage(bbox, cap_size, margin, display.scale);
            &&& spec_region_to_outer(Point { x: Fixed::spec_zero(), y: Fixed::spec_zero() }, stage.crop)
                == stage.crop.xy
            &&& display.spec_to_display(stage.crop.xy) == stage.display_rect.xy.spec_plus(
                display.offset,
            )
            &&& stage.display_rect.size.width == stage.crop.size.width.spec_times(display.scale)
            &&& stage.display_rect.size.height == stage.crop.size.height.spec_times(display.scale)
        }),
{
}

/// The crop that goes to the landmark model lies inside the capture: for a
/// capture with no negative side, the crop is a square with no negative
/// side, its corner has no negative coordinate, and its right and bottom
/// edges do not pass the capture's.
pub proof fn lemma_landmark_crop_inside_capture(
    bbox: Rect,
    cap_size: (Fixed, Fixed),
    margin: Fixed,
    display_scale: Fixed,
)
    requires
        cap_size.0@ >= 0,
        cap_size.1@ >= 0,
    ensures
        ({
            let crop = spec_landmark_stage(bbox, cap_size, margin, display_scale).crop;
            &&& crop.size.width == crop.size.height
            &&& 0 <= crop.size.width@
            &&& 0 <= crop.xy.x@
            &&& 0 <= crop.xy.y@
            &&& crop.spec_right()@ <= cap_size.0@
            &&& crop.spec_bottom()@ <= cap_size.1@
        }),
{
    let square = spec_detector_square(cap_size);
    lemma_crop_inside_image(bbox, (square.size.width, square.size.height), margin);
}

} // verus!
