//! Post-processing of the face detector's output: every row is decoded,
//! and the decoded detections are deduplicated greedily, in row order.

pub mod result;

use crate::fixed::Fixed;
use crate::yolov5_face::result::{spec_decode, spec_iou, YoloResult};
use vstd::prelude::*;

verus! {

/// Whether detection `d` overlaps the kept detection `k` beyond `iou_th`.
pub open spec fn spec_overlaps(d: YoloResult, k: YoloResult, iou_th: Fixed) -> bool {
    spec_iou(d.bbox, k.bbox)@ > iou_th@
}

/// Index of the first kept detection at or after `start` that `d`
/// overlaps beyond `iou_th`, or the length of `kept` if there is none.
pub open spec fn spec_first_overlap_from(
    kept: Seq<YoloResult>,
    d: YoloResult,
    iou_th: Fixed,
    start: int,
) -> int
    decreases kept.len() - start,
{
    if start >= kept.len() {
        kept.len() as int
    } else if spec_overlaps(d, kept[start], iou_th) {
        start
    } else {
        spec_first_overlap_from(kept, d, iou_th, start + 1)
    }
}

/// Index of the first kept detection that `d` overlaps beyond `iou_th`, or
/// the length of `kept` if there is none.
pub open spec fn spec_first_overlap(kept: Seq<YoloResult>, d: YoloResult, iou_th: Fixed) -> int {
    spec_first_overlap_from(kept, d, iou_th, 0)
}

/// The kept list after `d` has been offered to it. Only the first kept
/// detection that `d` overlaps decides: `d` takes its slot if `d` is the
/// more confident of the two and is dropped otherwise. If `d` overlaps no
/// kept detection, it is appended.
pub open spec fn spec_nms_append(kept: Seq<YoloResult>, d: YoloResult, iou_th: Fixed) -> Seq<
    YoloResult,
> {
    let k = spec_first_overlap(kept, d, iou_th);
    if k == kept.len() {
        kept.push(d)
    } else if d.conf@ > kept[k].conf@ {
        kept.update(k, d)
    } else {
        kept
    }
}

/// The kept list after all of `rows` have been decoded and offered in
/// order, starting from an empty list.
pub open spec fn spec_keep_all(
    rows: Seq<[Fixed; 16]>,
    conf_th: Fixed,
    iou_th: Fixed,
    scale: (Fixed, Fixed),
) -> Seq<YoloResult>
    decreases rows.len(),
{
    if rows.len() == 0 {
        Seq::empty()
    } else {
        let kept = spec_keep_all(rows.drop_last(), conf_th, iou_th, scale);
        match spec_decode(rows.last()@, conf_th, scale) {
            Some(d) => spec_nms_append(kept, d, iou_th),
            None => kept,
        }
    }
}

/// The scale that takes detector pixels to fractions of the detector's
/// input: one over the input width, and one over the input height.
pub open spec fn spec_pos_scale(input_shape: (usize, usize)) -> (Fixed, Fixed) {
    (
        Fixed::spec_one().spec_over(Fixed::spec_from_int(input_shape.0 as int)),
        Fixed::spec_one().spec_over(Fixed::spec_from_int(input_shape.1 as int)),
    )
}

/// What [`spec_first_overlap`] returns: an index `k` in `0..=kept.len()`
/// such that `d` overlaps no kept detection before `k`, and overlaps the
/// one at `k` if `k` is an index of the list.
pub proof fn lemma_first_overlap(kept: Seq<YoloResult>, d: YoloResult, iou_th: Fixed)
    ensures
        0 <= spec_first_overlap(kept, d, iou_th) <= kept.len(),
        forall|j: int|
            0 <= j < spec_first_overlap(kept, d, iou_th) ==> !spec_overlaps(d, #[trigger] kept[j], iou_th),
        spec_first_overlap(kept, d, iou_th) < kept.len() ==> spec_overlaps(
            d,
            kept[spec_first_overlap(kept, d, iou_th)],
            iou_th,
        ),
{
    lemma_first_overlap_from(kept, d, iou_th, 0);
}

proof fn lemma_first_overlap_from(kept: Seq<YoloResult>, d: YoloResult, iou_th: Fixed, start: int)
    requires
        0 <= start <= kept.len(),
    ensures
        start <= spec_first_overlap_from(kept, d, iou_th, start) <= kept.len(),
        forall|j: int|
            start <= j < spec_first_overlap_from(kept, d, iou_th, start) ==> !spec_overlaps(
                d,
                #[trigger] kept[j],
                iou_th,
            ),
        spec_first_overlap_from(kept, d, iou_th, start) < kept.len() ==> spec_overlaps(
            d,
            kept[spec_first_overlap_from(kept, d, iou_th, start)],
            iou_th,
        ),
    decreases kept.len() - start,
{
    if start < kept.len() && !spec_overlaps(d, kept[start], iou_th) {
        lemma_first_overlap_from(kept, d, iou_th, start + 1);
    }
}

/// The scan for the first overlap finds `k` when `d` overlaps the kept
/// detection at `k` and none before it, and finds nothing when `k` is the
/// length of the list and `d` overlaps none.
pub proof fn lemma_first_overlap_is(kept: Seq<YoloResult>, d: YoloResult, iou_th: Fixed, k: int)
    requires
        0 <= k <= kept.len(),
        forall|j: int| 0 <= j < k ==> !spec_overlaps(d, #[trigger] kept[j], iou_th),
        k < kept.len() ==> spec_overlaps(d, kept[k], iou_th),
    ensures
        spec_first_overlap(kept, d, iou_th) == k,
{
    lemma_first_overlap(kept, d, iou_th);
}

/// A detection that overlaps no kept detection beyond the threshold is
/// appended: the list grows by exactly that one entry, at its end.
pub proof fn lemma_append_without_overlap(kept: Seq<YoloResult>, d: YoloResult, iou_th: Fixed)
    requires
        forall|j: int| 0 <= j < kept.len() ==> !spec_overlaps(d, #[trigger] kept[j], iou_th),
    ensures
        spec_nms_append(kept, d, iou_th) == kept.push(d),
        spec_nms_append(kept, d, iou_th).len() == kept.len() + 1,
{
    lemma_first_overlap_is(kept, d, iou_th, kept.len() as int);
}

/// A detection whose first overlap is the kept detection at `k` takes that
/// slot if it is the more confident and changes nothing otherwise; in
/// either case the list keeps its length and every other slot.
pub proof fn lemma_first_overlap_decides(
    kept: Seq<YoloResult>,
    d: YoloResult,
    iou_th: Fixed,
    k: int,
)
    requires
        0 <= k < kept.len(),
        forall|j: int| 0 <= j < k ==> !spec_overlaps(d, #[trigger] kept[j], iou_th),
        spec_overlaps(d, kept[k], iou_th),
    ensures
        d.conf@ > kept[k].conf@ ==> spec_nms_append(kept, d, iou_th) == kept.update(k, d),
        d.conf@ <= kept[k].conf@ ==> spec_nms_append(kept, d, iou_th) == kept,
        spec_nms_append(kept, d, iou_th).len() == kept.len(),
{
    lemma_first_overlap_is(kept, d, iou_th, k);
}

/// Offering a detection never shortens the list and lengthens it by at
/// most one; every slot that was there before holds what it held or the
/// offered detection, and a new slot holds the offered detection.
pub proof fn lemma_nms_append_keeps_slots(kept: Seq<YoloResult>, d: YoloResult, iou_th: Fixed)
    ensures
        kept.len() <= spec_nms_append(kept, d, iou_th).len() <= kept.len() + 1,
        forall|j: int|
            0 <= j < kept.len() ==> {
                ||| (#[trigger] spec_nms_append(kept, d, iou_th)[j]) == kept[j]
                ||| spec_nms_append(kept, d, iou_th)[j] == d
            },
        spec_nms_append(kept, d, iou_th).len() == kept.len() + 1 ==> spec_nms_append(
            kept,
            d,
            iou_th,
        ).last() == d,
{
    lemma_first_overlap(kept, d, iou_th);
}

/// Every detection that is kept for a frame is more confident than the
/// confidence threshold.
pub proof fn lemma_kept_exceed_threshold(
    rows: Seq<[Fixed; 16]>,
    conf_th: Fixed,
    iou_th: Fixed,
    scale: (Fixed, Fixed),
)
    ensures
        forall|j: int|
            0 <= j < spec_keep_all(rows, conf_th, iou_th, scale).len() ==> (#[trigger] spec_keep_all(
                rows,
                conf_th,
                iou_th,
                scale,
            )[j]).conf@ > conf_th@,
    decreases rows.len(),
{
    if rows.len() > 0 {
        let kept = spec_keep_all(rows.drop_last(), conf_th, iou_th, scale);
        lemma_kept_exceed_threshold(rows.drop_last(), conf_th, iou_th, scale);
        match spec_decode(rows.last()@, conf_th, scale) {
            Some(d) => {
                lemma_nms_append_keeps_slots(kept, d, iou_th);
            },
            None => {},
        }
    }
}

/// Every detection that is kept for a frame is the detection that one of
/// the frame's rows holds, and that row passes the confidence threshold.
pub proof fn lemma_kept_come_from_rows(
    rows: Seq<[Fixed; 16]>,
    conf_th: Fixed,
    iou_th: Fixed,
    scale: (Fixed, Fixed),
)
    ensures
        forall|j: int|
            0 <= j < spec_keep_all(rows, conf_th, iou_th, scale).len() ==> exists|r: int|
                0 <= r < rows.len() && spec_decode(rows[r]@, conf_th, scale) == Some(
                    #[trigger] spec_keep_all(rows, conf_th, iou_th, scale)[j],
                ),
    decreases rows.len(),
{
    if rows.len() > 0 {
        let front = rows.drop_last();
        let kept = spec_keep_all(front, conf_th, iou_th, scale);
        let all = spec_keep_all(rows, conf_th, iou_th, scale);
        lemma_kept_come_from_rows(front, conf_th, iou_th, scale);
        assert forall|j: int| 0 <= j < kept.len() implies exists|r: int|
            0 <= r < rows.len() && spec_decode(rows[r]@, conf_th, scale) == Some(
                #[trigger] kept[j],
            ) by {
            let r = choose|r: int|
                0 <= r < front.len() && spec_decode(front[r]@, conf_th, scale) == Some(kept[j]);
            assert(rows[r] == front[r]);
        }
        match spec_decode(rows.last()@, conf_th, scale) {
            Some(d) => {
                lemma_nms_append_keeps_slots(kept, d, iou_th);
                assert forall|j: int| 0 <= j < all.len() implies exists|r: int|
                    0 <= r < rows.len() && spec_decode(rows[r]@, conf_th, scale) == Some(
                        #[trigger] all[j],
                    ) by {
                    if j < kept.len() && all[j] == kept[j] {
                        let r = choose|r: int|
                            0 <= r < rows.len() && spec_decode(rows[r]@, conf_th, scale) == Some(
                                kept[j],
                            );
                        assert(spec_decode(rows[r]@, conf_th, scale) == Some(all[j]));
                    } else {
                        assert(all[j] == d);
                        assert(spec_decode(rows[rows.len() - 1]@, conf_th, scale) == Some(all[j]));
                    }
                }
            },
            None => {},
        }
    }
}

/// No more detections are kept for a frame than it has rows.
pub proof fn lemma_kept_at_most_rows(
    rows: Seq<[Fixed; 16]>,
    conf_th: Fixed,
    iou_th: Fixed,
    scale: (Fixed, Fixed),
)
    ensures
        spec_keep_all(rows, conf_th, iou_th, scale).len() <= rows.len(),
    decreases rows.len(),
{
    if rows.len() > 0 {
        let kept = spec_keep_all(rows.drop_last(), conf_th, iou_th, scale);
        lemma_kept_at_most_rows(rows.drop_last(), conf_th, iou_th, scale);
        match spec_decode(rows.last()@, conf_th, scale) {
            Some(d) => {
                lemma_nms_append_keeps_slots(kept, d, iou_th);
            },
            None => {},
        }
    }
}

/// Offers `result` to the kept list.
///
/// The list is scanned in order for the first entry that `result` overlaps
/// beyond `iou_th`. If there is one, `result` replaces it in its slot when
/// `result` is strictly more confident, and is dropped otherwise; later
/// entries are not looked at. If there is none, `result` is appended.
pub fn nms_append(results: &mut Vec<YoloResult>, result: YoloResult, iou_th: Fixed)
    ensures
        final(results)@ == spec_nms_append(old(results)@, result, iou_th),
        (forall|j: int|
            0 <= j < old(results)@.len() ==> !spec_overlaps(result, #[trigger] old(results)@[j], iou_th))
            ==> final(results)@ == old(results)@.push(result),
{
    let mut i: usize = 0;
    while i < results.len()
        invariant
            i <= results.len(),
            results@ == old(results)@,
            spec_first_overlap(results@, result, iou_th) == spec_first_overlap_from(
                results@,
                result,
                iou_th,
                i as int,
            ),
        decreases results.len() - i,
    {
        if result.iou(&results[i]).gt(iou_th) {
            if result.conf.gt(results[i].conf) {
                results[i] = result;
            }
            return ;
        }
        i += 1;
    }
    results.push(result);
    proof {
        if forall|j: int|
            0 <= j < old(results)@.len() ==> !spec_overlaps(result, #[trigger] old(results)@[j], iou_th) {
            lemma_append_without_overlap(old(results)@, result, iou_th);
        }
    }
}

/// The detector's fixed shapes and the scale derived from them.
#[derive(Clone, Copy, Debug)]
pub struct YoloV5Face {
    /// Width and height of the detector's input, in pixels.
    pub input_shape: (usize, usize),
    /// Batch size, number of rows and row length of the detector's output.
    pub output_shape: (usize, usize, usize),
    /// Takes detector pixels to fractions of the detector's input.
    pub pos_scale: (Fixed, Fixed),
}

impl YoloV5Face {
    /// Records the detector's shapes and derives the position scale from
    /// the input shape.
    pub fn new(input_shape: (usize, usize), output_shape: (usize, usize, usize)) -> (r: Self)
        ensures
            r.input_shape == input_shape,
            r.output_shape == output_shape,
            r.pos_scale == spec_pos_scale(input_shape),
    {
        let pos_scale = (
            Fixed::one().over(Fixed::from_usize(input_shape.0)),
            Fixed::one().over(Fixed::from_usize(input_shape.1)),
        );
        Self { input_shape, output_shape, pos_scale }
    }

    /// Turns the rows of one frame's detector output into the kept list:
    /// each row is decoded against `conf_th` with the position scale, and
    /// each decoded detection is offered to the list with `iou_th`, in row
    /// order, starting from an empty list.
    pub fn proc_image(&self, rows: &Vec<[Fixed; 16]>, conf_th: Fixed, iou_th: Fixed) -> (kept: Vec<
        YoloResult,
    >)
        ensures
            kept@ == spec_keep_all(rows@, conf_th, iou_th, self.pos_scale),
    {
        let mut all_results: Vec<YoloResult> = Vec::new();
        let mut i: usize = 0;
        while i < rows.len()
            invariant
                i <= rows.len(),
                all_results@ == spec_keep_all(rows@.take(i as int), conf_th, iou_th, self.pos_scale),
            decreases rows.len() - i,
        {
            proof {
                assert(rows@.take(i + 1).drop_last() == rows@.take(i as int));
            }
            if let Some(e) = YoloResult::new(&rows[i], conf_th, self.pos_scale) {
                nms_append(&mut all_results, e, iou_th);
            }
            i += 1;
        }
        proof {
            assert(rows@.take(rows.len() as int) == rows@);
        }
        all_results
    }
}

} // verus!
