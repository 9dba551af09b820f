use vstd::prelude::*;

verus! {

/// One detected face region, in the detector's own numbers: corner
/// coordinates in pixel space (neither rounded nor clamped, and not
/// necessarily ordered) and a confidence.
#[derive(Clone, Copy, Debug)]
pub struct BBox<T> {
    pub x1: T,
    pub y1: T,
    pub x2: T,
    pub y2: T,
    pub prob: T,
}

/// The detector's outputs do not have the expected shape: the coordinate
/// output must hold exactly four values per score.
#[derive(Clone, Copy, Debug, PartialEq, Eq)]
pub enum DecodeError {
    LengthMismatch { coordinates: usize, scores: usize },
}

/// The `i`-th box: the `i`-th run of four coordinates, read as
/// (y1, x1, y2, x2), with the `i`-th score.
pub open spec fn box_at<T>(coordinates: Seq<T>, scores: Seq<T>, i: int) -> BBox<T> {
    BBox {
        y1: coordinates[4 * i],
        x1: coordinates[4 * i + 1],
        y2: coordinates[4 * i + 2],
        x2: coordinates[4 * i + 3],
        prob: scores[i],
    }
}

/// Pairs the detector's coordinate output with its score output, one box per
/// score, in output order, with no filtering or reordering. Fails when the
/// coordinates are not exactly four per score.
pub fn decode_boxes<T: Copy>(coordinates: &Vec<T>, scores: &Vec<T>) -> (r: Result<
    Vec<BBox<T>>,
    DecodeError,
>)
    ensures
        r.is_ok() <==> coordinates@.len() == 4 * scores@.len(),
        r matches Err(e) ==> e == (DecodeError::LengthMismatch {
            coordinates: coordinates@.len() as usize,
            scores: scores@.len() as usize,
        }),
        r matches Ok(boxes) ==> boxes@.len() == scores@.len() && forall|i: int|
            0 <= i < boxes@.len() ==> #[trigger] boxes@[i] == box_at(coordinates@, scores@, i),
{
    let nc = coordinates.len();
    let ns = scores.len();
    if nc % 4 != 0 || nc / 4 != ns {
        return Err(DecodeError::LengthMismatch { coordinates: nc, scores: ns });
    }
    let mut boxes: Vec<BBox<T>> = Vec::with_capacity(ns);
    let mut i: usize = 0;
    while i < ns
        invariant
            nc == coordinates@.len(),
            ns == scores@.len(),
            nc == 4 * ns,
            i <= ns,
            boxes@.len() == i,
            forall|j: int| 0 <= j < i ==> #[trigger] boxes@[j] == box_at(coordinates@, scores@, j),
        decreases ns - i,
    {
        let b = BBox {
            y1: coordinates[4 * i],
            x1: coordinates[4 * i + 1],
            y2: coordinates[4 * i + 2],
            x2: coordinates[4 * i + 3],
            prob: scores[i],
        };
        boxes.push(b);
        i = i + 1;
    }
    Ok(boxes)
}

} // verus!
