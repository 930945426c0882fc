//! Decoding of the landmark model's output.

use crate::fixed::{Fixed, HALF_RAW};
use vstd::prelude::*;

verus! {

/// The landmarks of one face: `points` holds, for each landmark, its
/// position in the space it was scaled to and its depth as the model gave
/// it.
#[derive(Clone, Debug)]
pub struct FaceLandmarkResult {
    pub points: Vec<(Fixed, Fixed, Fixed)>,
    pub score: Fixed,
    pub tongue: Fixed,
}

/// The landmark model's fixed shapes.
#[derive(Clone, Copy, Debug)]
pub struct FaceLandmark {}

/// The scale from the model's input square to a target of size `scale_to`:
/// each side of the target over the side of the input.
pub open spec fn spec_mark_scale(scale_to: (Fixed, Fixed)) -> (Fixed, Fixed) {
    (
        scale_to.0.spec_over(Fixed::spec_from_int(FaceLandmark::INPUT_SIZE as int)),
        scale_to.1.spec_over(Fixed::spec_from_int(FaceLandmark::INPUT_SIZE as int)),
    )
}

/// The `i`-th landmark of the flat output `marks`, three values to a
/// landmark: `x` and `y` scaled by `pos_scale`, and the depth unchanged.
pub open spec fn spec_mark(marks: Seq<Fixed>, pos_scale: (Fixed, Fixed), i: int) -> (
    Fixed,
    Fixed,
    Fixed,
) {
    (pos_scale.0.spec_times(marks[3 * i]), pos_scale.1.spec_times(marks[3 * i + 1]), marks[3 * i + 2])
}

/// Whether `points` are the landmarks of `marks` scaled to `scale_to`.
pub open spec fn spec_marks_scaled(
    points: Seq<(Fixed, Fixed, Fixed)>,
    marks: Seq<Fixed>,
    scale_to: (Fixed, Fixed),
) -> bool {
    &&& points.len() == FaceLandmark::MARKS_NUM
    &&& forall|i: int|
        0 <= i < points.len() ==> #[trigger] points[i] == spec_mark(marks, spec_mark_scale(scale_to), i)
}

impl FaceLandmark {
    /// Side of the model's square input, in pixels.
    pub const INPUT_SIZE: usize = 256;

    /// Number of landmarks in the model's output.
    pub const MARKS_NUM: usize = 478;

    /// Decodes the landmark model's output for one crop.
    ///
    /// `marks` is the flat landmark tensor, three values to a landmark;
    /// `score` is the face score after the logistic function, and `tongue`
    /// the tongue output. A score below one half means that the crop holds
    /// no face, and nothing is returned. Otherwise the landmark positions
    /// are scaled from the model's input square to `scale_to`.
    pub fn proc_image(marks: &Vec<Fixed>, score: Fixed, tongue: Fixed, scale_to: (Fixed, Fixed)) -> (r:
        Option<FaceLandmarkResult>)
        requires
            marks@.len() == 3 * FaceLandmark::MARKS_NUM,
        ensures
            r is None <==> score@ < HALF_RAW,
            r matches Some(res) ==> res.score == score && res.tongue == tongue && spec_marks_scaled(
                res.points@,
                marks@,
                scale_to,
            ),
    {
        if score.lt(Fixed::half()) {
            return None;
        }
        let pos_scale = (
            scale_to.0.over(Fixed::from_usize(Self::INPUT_SIZE)),
            scale_to.1.over(Fixed::from_usize(Self::INPUT_SIZE)),
        );
        let mut points: Vec<(Fixed, Fixed, Fixed)> = Vec::new();
        let mut i: usize = 0;
        while i < Self::MARKS_NUM
            invariant
                i <= FaceLandmark::MARKS_NUM,
                marks@.len() == 3 * FaceLandmark::MARKS_NUM,
                pos_scale == spec_mark_scale(scale_to),
                points@.len() == i,
                forall|k: int|
                    0 <= k < i ==> #[trigger] points@[k] == spec_mark(marks@, spec_mark_scale(scale_to), k),
            decreases FaceLandmark::MARKS_NUM - i,
        {
            let p = (
                pos_scale.0.times(marks[3 * i]),
                pos_scale.1.times(marks[3 * i + 1]),
                marks[3 * i + 2],
            );
            points.push(p);
            i += 1;
        }
        Some(FaceLandmarkResult { points, score, tongue })
    }
}

} // verus!
