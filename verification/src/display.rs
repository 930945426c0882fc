//! Letterbox fit of the captured image into the display, and the mapping
//! between capture space and display space that follows from it.

use crate::fixed::{
    lemma_over_bounds, lemma_over_error, lemma_product_sign_magnitude, lemma_times_bounds,
    lemma_times_error, magnitude, Fixed, ONE_RAW,
};
use crate::geometry::{Extent, Point};
use vstd::prelude::*;

verus! {

/// The size of the same aspect ratio as `img_size` that fits `display_size`:
/// the full display height if the width that goes with it fits, else the
/// full display width with the height that goes with it.
pub open spec fn spec_padding_fit_img(img_size: (Fixed, Fixed), display_size: (Fixed, Fixed)) -> (
    Fixed,
    Fixed,
) {
    let fit_width = display_size.1.spec_times(img_size.0).spec_over(img_size.1);
    if fit_width@ <= display_size.0@ {
        (fit_width, display_size.1)
    } else {
        (display_size.0, display_size.0.spec_times(img_size.1).spec_over(img_size.0))
    }
}

/// Scales an image of `img_size` to fit inside `display_size` without
/// changing its aspect ratio, cropping or padding.
pub fn padding_fit_img(img_size: (Fixed, Fixed), display_size: (Fixed, Fixed)) -> (fit: (
    Fixed,
    Fixed,
))
    ensures
        fit == spec_padding_fit_img(img_size, display_size),
        fit.0 == display_size.0 || fit.1 == display_size.1,
{
    let fit_width = display_size.1.times(img_size.0).over(img_size.1);
    if fit_width.le(display_size.0) {
        (fit_width, display_size.1)
    } else {
        (display_size.0, display_size.0.times(img_size.1).over(img_size.0))
    }
}

/// The fitted size lies inside the display: for an image and a display
/// with no negative side, neither side of the fitted size is negative or
/// exceeds the display's.
pub proof fn lemma_fit_inside_display(img_size: (Fixed, Fixed), display_size: (Fixed, Fixed))
    requires
        img_size.0@ >= 0,
        img_size.1@ >= 0,
        display_size.0@ >= 0,
        display_size.1@ >= 0,
    ensures
        0 <= spec_padding_fit_img(img_size, display_size).0@ <= display_size.0@,
        0 <= spec_padding_fit_img(img_size, display_size).1@ <= display_size.1@,
{
    let (iw, ih) = img_size;
    let (dw, dh) = display_size;
    let p = dh.spec_times(iw);
    let fit_width = p.spec_over(ih);
    lemma_times_bounds(dh, iw);
    if ih@ > 0 {
        lemma_over_bounds(p, ih);
    }
    if fit_width@ > dw@ {
        let q = dw.spec_times(ih);
        let fit_height = q.spec_over(iw);
        lemma_times_bounds(dw, ih);
        if ih@ == 0 {
            assert(dw@ * ih@ == 0) by (nonlinear_arith)
                requires
                    ih@ == 0,
            ;
            assert(q@ == 0);
            if iw@ != 0 {
                assert((0 * ONE_RAW) / iw@ == 0) by (nonlinear_arith)
                    requires
                        iw@ > 0,
                ;
            }
            assert(fit_height@ == 0);
        } else {
            // (dw + 1) * ih <= fit_width * ih <= p * ONE <= dh * iw
            assert(dw@ * ih@ < dh@ * iw@) by (nonlinear_arith)
                requires
                    fit_width@ >= dw@ + 1,
                    ih@ > 0,
                    dw@ >= 0,
                    fit_width@ * ih@ <= p@ * ONE_RAW,
                    p@ * ONE_RAW <= dh@ * iw@,
            ;
            assert(iw@ > 0) by (nonlinear_arith)
                requires
                    dw@ * ih@ < dh@ * iw@,
                    dw@ >= 0,
                    ih@ > 0,
                    iw@ >= 0,
                    dh@ >= 0,
            ;
            lemma_over_bounds(q, iw);
            assert(fit_height@ <= dh@) by (nonlinear_arith)
                requires
                    fit_height@ * iw@ <= q@ * ONE_RAW,
                    q@ * ONE_RAW <= dw@ * ih@,
                    dw@ * ih@ < dh@ * iw@,
                    iw@ > 0,
            ;
        }
    }
}

/// The fitted size keeps the aspect ratio of the image up to rounding: for
/// an image with positive sides, the cross products `fit width * image
/// height` and `fit height * image width` differ by less than one plus the
/// image's sides, in squared raw units, provided no product and neither
/// side of the fitted size is saturated.
pub proof fn lemma_fit_keeps_aspect(img_size: (Fixed, Fixed), display_size: (Fixed, Fixed))
    requires
        img_size.0@ > 0,
        img_size.1@ > 0,
        display_size.0@ >= 0,
        display_size.1@ >= 0,
        display_size.1.spec_times(img_size.0).spec_unsaturated(),
        display_size.0.spec_times(img_size.1).spec_unsaturated(),
        spec_padding_fit_img(img_size, display_size).0.spec_unsaturated(),
        spec_padding_fit_img(img_size, display_size).1.spec_unsaturated(),
    ensures
        magnitude(
            spec_padding_fit_img(img_size, display_size).0@ * img_size.1@ - spec_padding_fit_img(
                img_size,
                display_size,
            ).1@ * img_size.0@,
        ) < ONE_RAW + img_size.0@ + img_size.1@,
{
    let (iw, ih) = img_size;
    let (dw, dh) = display_size;
    let p = dh.spec_times(iw);
    let fit_width = p.spec_over(ih);
    lemma_times_bounds(dh, iw);
    lemma_times_error(dh, iw);
    if fit_width@ <= dw@ {
        lemma_over_bounds(p, ih);
        lemma_over_error(p, ih);
        assert(p@ * ONE_RAW >= 0);
    } else {
        let q = dw.spec_times(ih);
        lemma_times_bounds(dw, ih);
        lemma_times_error(dw, ih);
        lemma_over_bounds(q, iw);
        lemma_over_error(q, iw);
        assert(q@ * ONE_RAW >= 0);
    }
}

/// How the captured image is placed in the display: the letterboxed size,
/// the scale from capture space to display space, and the offset of the
/// letterboxed image in the display.
#[derive(Clone, Copy, Debug, PartialEq, Eq, Structural)]
pub struct DisplayMap {
    pub size: Extent,
    pub scale: Fixed,
    pub offset: Point,
}

/// The placement of a capture of `cap_size` in a display of `target`: the
/// scale is the fitted width over the capture width, and the offset
/// centres the fitted image in the display.
pub open spec fn spec_display_map(cap_size: (Fixed, Fixed), target: (Fixed, Fixed)) -> DisplayMap {
    let fit = spec_padding_fit_img(cap_size, target);
    DisplayMap {
        size: Extent { width: fit.0, height: fit.1 },
        scale: fit.0.spec_over(cap_size.0),
        offset: Point {
            x: target.0.spec_minus(fit.0).spec_halved(),
            y: target.1.spec_minus(fit.1).spec_halved(),
        },
    }
}

/// The largest raw distance by which a coordinate can miss its starting
/// value after a trip to display space and back: the raw value of one over
/// the raw value of the scale, rounded down, and one more.
pub open spec fn spec_round_trip_tolerance(scale: Fixed) -> int {
    (ONE_RAW as int) / scale@ + 1
}

/// One coordinate `x`, scaled by a positive `scale`, offset, and taken back
/// by removing the offset and dividing by the scale, returns to within the
/// tolerance of where it started, and never further from zero than it
/// started, provided the scaled and the offset value are not saturated.
pub proof fn lemma_coordinate_round_trip(x: Fixed, scale: Fixed, offset: Fixed)
    requires
        scale@ > 0,
        x.spec_times(scale).spec_unsaturated(),
        x.spec_times(scale).spec_plus(offset).spec_unsaturated(),
    ensures
        magnitude(
            x.spec_times(scale).spec_plus(offset).spec_minus(offset).spec_over(scale)@ - x@,
        ) <= spec_round_trip_tolerance(scale),
        magnitude(x.spec_times(scale).spec_plus(offset).spec_minus(offset).spec_over(scale)@)
            <= magnitude(x@),
{
    let s = scale@;
    let one = ONE_RAW as int;
    let xm = magnitude(x@);
    let q = (xm * s) / one;
    let t = x.spec_times(scale);
    lemma_product_sign_magnitude(x@, s);
    assert(magnitude(t@) == q);
    assert(t.spec_plus(offset).spec_minus(offset) == t);
    let b = (q * one) / s;
    let e = one / s;
    assert(q * one <= xm * s && xm * s < q * one + one);
    assert(0 <= b && b <= xm) by (nonlinear_arith)
        requires
            b == (q * one) / s,
            q * one <= xm * s,
            q >= 0,
            s > 0,
            one > 0,
    ;
    assert(one < (e + 1) * s) by (nonlinear_arith)
        requires
            e == one / s,
            s > 0,
    ;
    assert(b >= xm - e - 1) by (nonlinear_arith)
        requires
            b == (q * one) / s,
            xm * s < q * one + one,
            one < (e + 1) * s,
            s > 0,
            q >= 0,
            one > 0,
    ;
    assert(magnitude(t@ * one) == q * one);
    assert(magnitude(t.spec_over(scale)@) == b);
}

/// A point mapped from capture space to display space and back returns to
/// within the tolerance of where it started on each axis, provided the
/// scale is positive and no intermediate value is saturated.
pub proof fn lemma_display_round_trip(m: DisplayMap, p: Point)
    requires
        m.scale@ > 0,
        p.x.spec_times(m.scale).spec_unsaturated(),
        p.y.spec_times(m.scale).spec_unsaturated(),
        m.spec_to_display(p).x.spec_unsaturated(),
        m.spec_to_display(p).y.spec_unsaturated(),
    ensures
        magnitude(m.spec_to_capture(m.spec_to_display(p)).x@ - p.x@)
            <= spec_round_trip_tolerance(m.scale),
        magnitude(m.spec_to_capture(m.spec_to_display(p)).y@ - p.y@)
            <= spec_round_trip_tolerance(m.scale),
{
    lemma_coordinate_round_trip(p.x, m.scale, m.offset.x);
    lemma_coordinate_round_trip(p.y, m.scale, m.offset.y);
}

impl DisplayMap {
    /// A capture-space point in display space: scaled, then offset.
    pub open spec fn spec_to_display(self, p: Point) -> Point {
        p.spec_scaled(self.scale).spec_plus(self.offset)
    }

    /// A display-space point in capture space: the offset taken away, then
    /// divided by the scale.
    pub open spec fn spec_to_capture(self, p: Point) -> Point {
        Point {
            x: p.x.spec_minus(self.offset.x).spec_over(self.scale),
            y: p.y.spec_minus(self.offset.y).spec_over(self.scale),
        }
    }

    /// Places a capture of `cap_size` in a display of `target`.
    pub fn new(cap_size: (Fixed, Fixed), target: (Fixed, Fixed)) -> (m: DisplayMap)
        ensures
            m == spec_display_map(cap_size, target),
    {
        let fit = padding_fit_img(cap_size, target);
        DisplayMap {
            size: Extent { width: fit.0, height: fit.1 },
            scale: fit.0.over(cap_size.0),
            offset: Point {
                x: target.0.minus(fit.0).halved(),
                y: target.1.minus(fit.1).halved(),
            },
        }
    }

    /// Maps a capture-space point to display space.
    pub fn to_display(&self, p: Point) -> (q: Point)
        ensures
            q == self.spec_to_display(p),
    {
        p.scaled(self.scale).plus(&self.offset)
    }

    /// Maps a display-space point back to capture space.
    pub fn to_capture(&self, p: Point) -> (q: Point)
        ensures
            q == self.spec_to_capture(p),
    {
        Point {
            x: p.x.minus(self.offset.x).over(self.scale),
            y: p.y.minus(self.offset.y).over(self.scale),
        }
    }
}

} // verus!
