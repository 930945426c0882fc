//! The square region of an image that is handed to the landmark model.

use crate::fixed::Fixed;
use crate::geometry::{Extent, Point, Rect};
use crate::utils::{scale_rect, spec_scale_rect};
use vstd::prelude::*;

verus! {

/// A square region of an image and the centre of the box it was made for.
#[derive(Clone, Copy, Debug, PartialEq, Eq, Structural)]
pub struct CropSpec {
    pub region: Rect,
    pub center: Point,
}

/// Centre of a rectangle: its corner plus half its extent.
pub open spec fn spec_center(r: Rect) -> Point {
    Point {
        x: r.xy.x.spec_plus(r.size.width.spec_halved()),
        y: r.xy.y.spec_plus(r.size.height.spec_halved()),
    }
}

/// Side of the crop square: the longer side of the box times `margin`,
/// restricted to `[0, min(image width, image height)]`.
pub open spec fn spec_crop_side(px: Rect, img_size: (Fixed, Fixed), margin: Fixed) -> Fixed {
    px.size.width.spec_max(px.size.height).spec_times(margin).spec_clamp(
        Fixed::spec_zero(),
        img_size.0.spec_min(img_size.1),
    )
}

/// Near edge of the crop square along one axis. The square is centred on
/// `center` and moved forward to start no earlier than zero; if it then
/// reaches past `limit`, it is moved back to end at `limit`.
pub open spec fn spec_crop_start(center: Fixed, side: Fixed, limit: Fixed) -> Fixed {
    let start = Fixed::spec_zero().spec_max(center.spec_minus(side.spec_halved()));
    if start.spec_plus(side)@ > limit@ {
        limit.spec_minus(side)
    } else {
        start
    }
}

/// The crop made for `bbox`, a box in fractions of an image of size
/// `img_size`.
pub open spec fn spec_crop_from_bbox(bbox: Rect, img_size: (Fixed, Fixed), margin: Fixed)
    -> CropSpec {
    let px = spec_scale_rect(bbox, img_size);
    let side = spec_crop_side(px, img_size, margin);
    let center = spec_center(px);
    CropSpec {
        region: Rect {
            xy: Point {
                x: spec_crop_start(center.x, side, img_size.0),
                y: spec_crop_start(center.y, side, img_size.1),
            },
            size: Extent { width: side, height: side },
        },
        center,
    }
}

/// Near edge of the crop square along one axis; see [`spec_crop_start`].
fn crop_start(center: Fixed, side: Fixed, limit: Fixed) -> (start: Fixed)
    ensures
        start == spec_crop_start(center, side, limit),
{
    let start = Fixed::zero().max(center.minus(side.halved()));
    if start.plus(side).gt(limit) {
        limit.minus(side)
    } else {
        start
    }
}

/// Derives the square landmark crop from a detection box.
///
/// `bbox` is given in fractions of an image of `img_size` pixels. The box
/// is converted to pixels; the square's side is the longer side of the box
/// times `margin`, at least zero and at most the shorter image side; the
/// square is centred on the box and then kept inside the image on each axis
/// separately, so near a border it is no longer centred on the box.
pub fn mk_face_land_mark_crop_from_bbox(bbox: Rect, img_size: (Fixed, Fixed), margin: Fixed) -> (crop:
    CropSpec)
    ensures
        crop == spec_crop_from_bbox(bbox, img_size, margin),
{
    let px = scale_rect(bbox, img_size);
    let longer = px.size.width.max(px.size.height).times(margin);
    let side = longer.clamp(Fixed::zero(), img_size.0.min(img_size.1));
    let center = Point {
        x: px.xy.x.plus(px.size.width.halved()),
        y: px.xy.y.plus(px.size.height.halved()),
    };
    let left = crop_start(center.x, side, img_size.0);
    let top = crop_start(center.y, side, img_size.1);
    CropSpec {
        region: Rect { xy: Point { x: left, y: top }, size: Extent { width: side, height: side } },
        center,
    }
}

/// The crop is a square that lies inside the image: whenever the image has
/// no negative side, the square's side is between zero and the shorter
/// image side, its corner has no negative coordinate, and its right and
/// bottom edges do not pass the image's.
pub proof fn lemma_crop_inside_image(bbox: Rect, img_size: (Fixed, Fixed), margin: Fixed)
    requires
        img_size.0@ >= 0,
        img_size.1@ >= 0,
    ensures
        ({
            let crop = spec_crop_from_bbox(bbox, img_size, margin);
            &&& crop.region.size.width == crop.region.size.height
            &&& 0 <= crop.region.size.width@ <= img_size.0@
            &&& 0 <= crop.region.size.width@ <= img_size.1@
            &&& 0 <= crop.region.xy.x@
            &&& 0 <= crop.region.xy.y@
            &&& crop.region.spec_right()@ <= img_size.0@
            &&& crop.region.spec_bottom()@ <= img_size.1@
        }),
{
}

/// Where the centred square would reach past the far edge of the image, it
/// ends exactly at that edge: its near edge is the image side minus the
/// square's side, not a recentred position.
pub proof fn lemma_crop_shifts_back_at_far_edge(center: Fixed, side: Fixed, limit: Fixed)
    requires
        Fixed::spec_zero().spec_max(center.spec_minus(side.spec_halved())).spec_plus(side)@
            > limit@,
    ensures
        spec_crop_start(center, side, limit) == limit.spec_minus(side),
        0 <= side@ <= limit@ ==> spec_crop_start(center, side, limit)@ == limit@ - side@,
{
}

} // verus!
