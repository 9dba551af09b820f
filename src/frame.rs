use vstd::prelude::*;
use vstd::arithmetic::div_mod::{
    lemma_div_pos_is_pos, lemma_fundamental_div_mod, lemma_mod_pos_bound, lemma_multiply_divide_lt,
};

verus! {

/// What a frame is, mathematically: its dimensions and its row-major RGB bytes.
pub ghost struct FrameView {
    pub width: nat,
    pub height: nat,
    pub pixels: Seq<u8>,
}

/// A well-formed frame holds exactly three bytes per pixel.
pub open spec fn frame_wf(v: FrameView) -> bool {
    v.pixels.len() == v.width * v.height * 3
}

/// Flat index of channel `ch` of the pixel at row `r`, column `c`.
pub open spec fn byte_index(width: nat, r: int, c: int, ch: int) -> int {
    (r * width + c) * 3 + ch
}

/// Number of bytes a `width` by `height` frame occupies, when it fits in `usize`.
pub fn frame_byte_count(width: u32, height: u32) -> (r: Option<usize>)
    ensures
        r.is_some() <==> width as nat * height as nat * 3 <= usize::MAX,
        r matches Some(n) ==> n == width as nat * height as nat * 3,
{
    let w = width as u128;
    let h = height as u128;
    proof {
        assert(w * h <= 0xffff_ffffu128 * 0xffff_ffffu128) by (nonlinear_arith)
            requires
                w <= 0xffff_ffffu128,
                h <= 0xffff_ffffu128,
        ;
    }
    let n = w * h * 3;
    if n <= usize::MAX as u128 {
        Some(n as usize)
    } else {
        None
    }
}

/// Column of the pixel that byte `k` belongs to.
pub open spec fn pixel_col(width: nat, k: int) -> int {
    (k / 3) % (width as int)
}

/// Row of the pixel that byte `k` belongs to.
pub open spec fn pixel_row(width: nat, k: int) -> int {
    (k / 3) / (width as int)
}

/// Every byte of a well-formed frame belongs to a pixel inside the frame.
pub proof fn lemma_pixel_in_frame(width: nat, height: nat, k: int)
    requires
        0 <= k < width * height * 3,
    ensures
        width > 0,
        height > 0,
        0 <= pixel_col(width, k) < width,
        0 <= pixel_row(width, k) < height,
        k == byte_index(width, pixel_row(width, k), pixel_col(width, k), k % 3),
{
    let w = width as int;
    let h = height as int;
    assert(w > 0 && h > 0 && k < 3 * (w * h)) by (nonlinear_arith)
        requires
            0 <= k < w * h * 3,
            w >= 0,
            h >= 0,
    ;
    lemma_multiply_divide_lt(k, 3, w * h);
    let p = k / 3;
    lemma_div_pos_is_pos(k, 3);
    lemma_multiply_divide_lt(p, w, h);
    lemma_div_pos_is_pos(p, w);
    lemma_mod_pos_bound(p, w);
    lemma_fundamental_div_mod(p, w);
    lemma_fundamental_div_mod(k, 3);
    assert(k == (p / w * w + p % w) * 3 + k % 3) by (nonlinear_arith)
        requires
            p == w * (p / w) + p % w,
            k == 3 * p + k % 3,
    ;
}

/// An image captured from the camera: `height` rows of `width` pixels, each
/// stored as three bytes (R, G, B), rows one after the other.
pub struct PixelFrame {
    pub(crate) width: u32,
    pub(crate) height: u32,
    pub(crate) pixels: Vec<u8>,
}

impl View for PixelFrame {
    type V = FrameView;

    closed spec fn view(&self) -> FrameView {
        FrameView { width: self.width as nat, height: self.height as nat, pixels: self.pixels@ }
    }
}

impl PixelFrame {
    pub open spec fn wf(&self) -> bool {
        frame_wf(self@)
    }

    /// Wraps a row-major RGB buffer; `None` unless it holds exactly
    /// `width * height * 3` bytes.
    pub fn new(width: u32, height: u32, pixels: Vec<u8>) -> (r: Option<PixelFrame>)
        ensures
            r.is_some() <==> pixels@.len() == width as nat * height as nat * 3,
            r matches Some(f) ==> f.wf() && f@ == (FrameView {
                width: width as nat,
                height: height as nat,
                pixels: pixels@,
            }),
    {
        let len = pixels.len();
        match frame_byte_count(width, height) {
            Some(n) if n == len => Some(PixelFrame { width, height, pixels }),
            _ => None,
        }
    }

    /// A frame of the given size with every pixel set to `color`; `None` when
    /// its byte count does not fit in memory addresses.
    pub fn filled(width: u32, height: u32, color: [u8; 3]) -> (r: Option<PixelFrame>)
        ensures
            r.is_some() <==> width as nat * height as nat * 3 <= usize::MAX,
            r matches Some(f) ==> f.wf() && f@.width == width && f@.height == height
                && forall|k: int| 0 <= k < f@.pixels.len() ==> f@.pixels[k] == color@[k % 3],
    {
        let n = match frame_byte_count(width, height) {
            Some(n) => n,
            None => return None,
        };
        let mut pixels: Vec<u8> = Vec::with_capacity(n);
        let mut k: usize = 0;
        while k < n
            invariant
                k <= n,
                pixels@.len() == k,
                forall|j: int| 0 <= j < k ==> pixels@[j] == color@[j % 3],
            decreases n - k,
        {
            pixels.push(color[k % 3]);
            k = k + 1;
        }
        Some(PixelFrame { width, height, pixels })
    }

    pub fn width(&self) -> (r: u32)
        ensures
            r == self@.width,
    {
        self.width
    }

    pub fn height(&self) -> (r: u32)
        ensures
            r == self@.height,
    {
        self.height
    }

    pub fn pixels(&self) -> (r: &Vec<u8>)
        ensures
            r@ == self@.pixels,
    {
        &self.pixels
    }

    pub fn into_pixels(self) -> (r: Vec<u8>)
        ensures
            r@ == self@.pixels,
    {
        self.pixels
    }
}

} // verus!
