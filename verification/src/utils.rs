//! Small helpers shared by the stages.

use crate::fixed::Fixed;
use crate::geometry::Rect;
use vstd::prelude::*;

verus! {

/// `r` with corner and extent multiplied component-wise by `scale`.
pub open spec fn spec_scale_rect(r: Rect, scale: (Fixed, Fixed)) -> Rect {
    r.spec_scale(scale.0, scale.1)
}

/// Moves a rectangle into another coordinate space by scaling its corner
/// and its extent component-wise.
pub fn scale_rect(r: Rect, scale: (Fixed, Fixed)) -> (out: Rect)
    ensures
        out == spec_scale_rect(r, scale),
        out.xy.x == r.xy.x.spec_times(scale.0),
        out.xy.y == r.xy.y.spec_times(scale.1),
        out.size.width == r.size.width.spec_times(scale.0),
        out.size.height == r.size.height.spec_times(scale.1),
{
    r.scale(scale.0, scale.1)
}

} // verus!
