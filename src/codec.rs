use vstd::prelude::*;
use crate::frame::{FrameView, PixelFrame};

verus! {

/// The detector's image input: a `[height, width, 3]` tensor whose elements
/// are the frame's channel values in (B, G, R) order, unscaled. Values are
/// held as bytes; the inference runtime takes each one as a float.
pub struct InputTensor {
    pub shape: [u64; 3],
    pub values: Vec<u8>,
}

/// The byte sequence with the channels of every pixel reversed: element `k`
/// is channel `2 - k % 3` of pixel `k / 3`.
pub open spec fn bgr_of(pixels: Seq<u8>) -> Seq<u8> {
    Seq::new(pixels.len(), |k: int| pixels[k - k % 3 + (2 - k % 3)])
}

/// The tensor that encodes a frame.
pub open spec fn encoded(f: FrameView) -> (Seq<u64>, Seq<u8>) {
    (seq![f.height as u64, f.width as u64, 3u64], bgr_of(f.pixels))
}

impl InputTensor {
    /// A tensor with no elements, to be filled by `encode_into`.
    pub fn empty() -> (r: InputTensor)
        ensures
            r.shape@ == seq![0u64, 0u64, 0u64],
            r.values@.len() == 0,
    {
        InputTensor { shape: [0, 0, 0], values: Vec::new() }
    }
}

/// Encodes `frame` into `tensor`, reusing its buffer: whatever the tensor
/// held before is replaced, never appended to.
pub fn encode_into(frame: &PixelFrame, tensor: &mut InputTensor)
    requires
        frame.wf(),
    ensures
        final(tensor).shape@ == encoded(frame@).0,
        final(tensor).values@ == encoded(frame@).1,
        final(tensor).values@.len() == frame@.width * frame@.height * 3,
{
    let pixels = frame.pixels();
    let n = pixels.len();
    tensor.values.clear();
    let mut p: usize = 0;
    while p < n
        invariant
            pixels@ == frame@.pixels,
            n == pixels@.len(),
            n % 3 == 0,
            p % 3 == 0,
            p <= n,
            tensor.values@.len() == p,
            forall|k: int| 0 <= k < p ==> tensor.values@[k] == #[trigger] bgr_of(pixels@)[k],
        decreases n - p,
    {
        tensor.values.push(pixels[p + 2]);
        tensor.values.push(pixels[p + 1]);
        tensor.values.push(pixels[p]);
        proof {
            assert((p + 0) % 3 == 0 && (p + 1) % 3 == 1 && (p + 2) % 3 == 2) by {
                assert(p % 3 == 0);
            }
        }
        p = p + 3;
    }
    assert(tensor.values@ =~= bgr_of(pixels@));
    tensor.shape = [frame.height() as u64, frame.width() as u64, 3];
    assert(tensor.shape@ =~= encoded(frame@).0);
}

/// Encodes `frame` into a fresh tensor.
pub fn encode(frame: &PixelFrame) -> (r: InputTensor)
    requires
        frame.wf(),
    ensures
        r.shape@ == encoded(frame@).0,
        r.values@ == encoded(frame@).1,
        r.values@.len() == frame@.width * frame@.height * 3,
{
    let mut t = InputTensor::empty();
    encode_into(frame, &mut t);
    t
}

} // verus!
