//! One decoded detection and the overlap measure between two of them.

use crate::fixed::{Fixed, EPSILON_RAW, MAX_RAW, ONE_RAW};
use crate::geometry::{Extent, Point, Rect};
use crate::utils::{scale_rect, spec_scale_rect};
use vstd::prelude::*;

verus! {

/// A detection: its confidence, its box and its five landmark points, all
/// in the caller's target space.
#[derive(Clone, Copy, Debug)]
pub struct YoloResult {
    pub conf: Fixed,
    pub bbox: Rect,
    pub landmarks: [Point; 5],
}

/// The rectangle of width `w` and height `h` whose centre is `(cx, cy)`.
pub open spec fn spec_make_bbox(cx: Fixed, cy: Fixed, w: Fixed, h: Fixed) -> Rect {
    Rect {
        xy: Point { x: cx.spec_minus(w.spec_halved()), y: cy.spec_minus(h.spec_halved()) },
        size: Extent { width: w, height: h },
    }
}

/// Confidence of a row: object confidence times class confidence.
pub open spec fn spec_confidence(elem: Seq<Fixed>) -> Fixed {
    elem[4].spec_times(elem[15])
}

/// Whether a row passes the threshold: its object confidence exceeds it,
/// and so does its confidence.
pub open spec fn spec_accepts(elem: Seq<Fixed>, conf_th: Fixed) -> bool {
    elem[4]@ > conf_th@ && spec_confidence(elem)@ > conf_th@
}

/// The `k`-th landmark of a row, scaled into the target space.
pub open spec fn spec_landmark(elem: Seq<Fixed>, scale: (Fixed, Fixed), k: int) -> Point {
    Point { x: elem[5 + 2 * k].spec_times(scale.0), y: elem[6 + 2 * k].spec_times(scale.1) }
}

/// The detection that a row holds, whatever its confidence: the row's
/// centre-form box as a corner-form rectangle, then box and landmarks
/// scaled by `scale`.
pub open spec fn spec_detection(elem: Seq<Fixed>, scale: (Fixed, Fixed)) -> YoloResult {
    YoloResult {
        conf: spec_confidence(elem),
        bbox: spec_scale_rect(spec_make_bbox(elem[0], elem[1], elem[2], elem[3]), scale),
        landmarks: [
            spec_landmark(elem, scale, 0),
            spec_landmark(elem, scale, 1),
            spec_landmark(elem, scale, 2),
            spec_landmark(elem, scale, 3),
            spec_landmark(elem, scale, 4),
        ],
    }
}

/// What decoding a row gives: the detection it holds if the row passes the
/// threshold, and nothing otherwise.
pub open spec fn spec_decode(elem: Seq<Fixed>, conf_th: Fixed, scale: (Fixed, Fixed)) -> Option<
    YoloResult,
> {
    if spec_accepts(elem, conf_th) {
        Some(spec_detection(elem, scale))
    } else {
        None
    }
}

/// Intersection over union of two boxes: the area of their overlap over
/// the area that they cover together, and exactly zero where the overlap's
/// area is below the threshold `2^-23`.
pub open spec fn spec_iou(a: Rect, b: Rect) -> Fixed {
    let i = a.spec_intersect(b).spec_area();
    if i@ < EPSILON_RAW {
        Fixed::spec_zero()
    } else {
        i.spec_over(a.spec_area().spec_plus(b.spec_area()).spec_minus(i))
    }
}

/// A rectangle on which the overlap measure is exact: its width and height
/// are positive, its right and bottom edges are representable, its area is
/// at least `2^-23`, and twice its area is representable.
pub open spec fn spec_regular(a: Rect) -> bool {
    &&& a.size.width@ > 0
    &&& a.size.height@ > 0
    &&& a.xy.x@ + a.size.width@ <= MAX_RAW
    &&& a.xy.y@ + a.size.height@ <= MAX_RAW
    &&& a.spec_area()@ >= EPSILON_RAW
    &&& 2 * a.spec_area()@ <= MAX_RAW
}

/// A row whose confidence does not exceed the threshold decodes to nothing.
pub proof fn lemma_low_confidence_is_absent(
    elem: Seq<Fixed>,
    conf_th: Fixed,
    scale: (Fixed, Fixed),
)
    requires
        spec_confidence(elem)@ <= conf_th@,
    ensures
        spec_decode(elem, conf_th, scale) is None,
{
}

/// A regular rectangle overlaps itself completely: its intersection over
/// union with itself is exactly one.
pub proof fn lemma_iou_with_itself_is_one(a: Rect)
    requires
        spec_regular(a),
    ensures
        spec_iou(a, a) == Fixed::spec_one(),
{
    let area = a.spec_area();
    assert(a.spec_intersect(a) == a);
    assert(area.spec_plus(area).spec_minus(area) == area);
    assert((area@ * ONE_RAW) / area@ == ONE_RAW) by (nonlinear_arith)
        requires
            area@ > 0,
    ;
}

/// Two rectangles whose overlap has an area below `2^-23` have an
/// intersection over union of exactly zero.
pub proof fn lemma_iou_without_overlap_is_zero(a: Rect, b: Rect)
    requires
        a.spec_intersect(b).spec_area()@ < EPSILON_RAW,
    ensures
        spec_iou(a, b) == Fixed::spec_zero(),
{
}

/// The overlap measure does not depend on the order of the two rectangles.
pub proof fn lemma_iou_symmetric(a: Rect, b: Rect)
    ensures
        spec_iou(a, b) == spec_iou(b, a),
{
    assert(a.spec_intersect(b) == b.spec_intersect(a));
}

/// The overlap measure is a ratio between zero and one: for rectangles
/// with no negative extent whose areas have a representable sum, it is
/// neither negative nor greater than one.
pub proof fn lemma_iou_in_unit_range(a: Rect, b: Rect)
    requires
        a.size.width@ >= 0,
        a.size.height@ >= 0,
        b.size.width@ >= 0,
        b.size.height@ >= 0,
        a.spec_area()@ + b.spec_area()@ <= MAX_RAW,
    ensures
        0 <= spec_iou(a, b)@ <= ONE_RAW,
{
    let c = a.spec_intersect(b);
    let i = c.spec_area();
    let one = ONE_RAW as int;
    assert(0 <= c.size.width@ <= a.size.width@ && c.size.width@ <= b.size.width@);
    assert(0 <= c.size.height@ <= a.size.height@ && c.size.height@ <= b.size.height@);
    lemma_area_monotone(c.size, a.size);
    lemma_area_monotone(c.size, b.size);
    if i@ >= EPSILON_RAW {
        let u = a.spec_area().spec_plus(b.spec_area()).spec_minus(i);
        assert(u@ == a.spec_area()@ + b.spec_area()@ - i@);
        assert(0 <= (i@ * one) / u@ <= one) by (nonlinear_arith)
            requires
                0 < i@ <= u@,
                one > 0,
        ;
    }
}

/// An extent that is no larger than another on either axis, and negative
/// on neither, has no larger area, and no negative one.
pub proof fn lemma_area_monotone(inner: Extent, outer: Extent)
    requires
        0 <= inner.width@ <= outer.width@,
        0 <= inner.height@ <= outer.height@,
    ensures
        0 <= inner.width.spec_times(inner.height)@ <= outer.width.spec_times(outer.height)@,
{
    let p = inner.width@ * inner.height@;
    let q = outer.width@ * outer.height@;
    assert(0 <= p <= q) by (nonlinear_arith)
        requires
            0 <= inner.width@ <= outer.width@,
            0 <= inner.height@ <= outer.height@,
            p == inner.width@ * inner.height@,
            q == outer.width@ * outer.height@,
    ;
    assert(0 <= p / (ONE_RAW as int) <= q / (ONE_RAW as int));
}

impl YoloResult {
    /// Decodes one detector row
    /// `[cx, cy, w, h, obj_conf, lm0x, lm0y, .., lm4x, lm4y, cls_conf]`.
    ///
    /// The row is rejected unless its object confidence and then its
    /// confidence, object confidence times class confidence, both exceed
    /// `conf_th`. Otherwise its box is turned from centre form to corner
    /// form, and box and landmarks are scaled component-wise by `scale`.
    pub fn new(elem: &[Fixed; 16], conf_th: Fixed, scale: (Fixed, Fixed)) -> (r: Option<Self>)
        ensures
            r == spec_decode(elem@, conf_th, scale),
            spec_confidence(elem@)@ <= conf_th@ ==> r is None,
            r is Some <==> spec_accepts(elem@, conf_th),
    {
        if elem[4].gt(conf_th) {
            let conf = elem[4].times(elem[15]);
            if conf.gt(conf_th) {
                let bbox = scale_rect(Self::make_bbox(elem[0], elem[1], elem[2], elem[3]), scale);
                return Some(
                    Self {
                        conf,
                        bbox,
                        landmarks: [
                            Point { x: elem[5].times(scale.0), y: elem[6].times(scale.1) },
                            Point { x: elem[7].times(scale.0), y: elem[8].times(scale.1) },
                            Point { x: elem[9].times(scale.0), y: elem[10].times(scale.1) },
                            Point { x: elem[11].times(scale.0), y: elem[12].times(scale.1) },
                            Point { x: elem[13].times(scale.0), y: elem[14].times(scale.1) },
                        ],
                    },
                );
            }
        }
        None
    }

    /// Turns a box from centre form to corner form.
    pub fn make_bbox(cx: Fixed, cy: Fixed, w: Fixed, h: Fixed) -> (r: Rect)
        ensures
            r == spec_make_bbox(cx, cy, w, h),
    {
        Rect {
            xy: Point { x: cx.minus(w.halved()), y: cy.minus(h.halved()) },
            size: Extent { width: w, height: h },
        }
    }

    /// Intersection over union of the boxes of two detections.
    pub fn iou(&self, rhs: &Self) -> (r: Fixed)
        ensures
            r == spec_iou(self.bbox, rhs.bbox),
            self.bbox.spec_intersect(rhs.bbox).spec_area()@ < EPSILON_RAW ==> r@ == 0,
    {
        let i = self.bbox.intersect(rhs.bbox).area();
        if i.lt(Fixed::epsilon()) {
            return Fixed::zero();
        }
        let u = self.bbox.area().plus(rhs.bbox.area()).minus(i);
        i.over(u)
    }
}

} // verus!
