use vstd::prelude::*;
use vstd::arithmetic::div_mod::lemma_fundamental_div_mod_converse;
use image::imageops::flip_horizontal_in_place;
use image::{ImageBuffer, Rgb};
use crate::frame::{byte_index, frame_wf, lemma_pixel_in_frame, pixel_col, pixel_row, FrameView, PixelFrame};

verus! {

/// The byte that byte `k` comes from once each row is reversed: same row and
/// channel, column `width - 1 - c` in place of column `c`.
pub open spec fn mirror_index(width: nat, k: int) -> int {
    byte_index(width, pixel_row(width, k), width - 1 - pixel_col(width, k), k % 3)
}

/// The frame mirrored horizontally.
pub open spec fn mirror_of(f: FrameView) -> FrameView {
    FrameView {
        width: f.width,
        height: f.height,
        pixels: Seq::new(f.pixels.len(), |k: int| f.pixels[mirror_index(f.width, k)]),
    }
}

/// The byte that a byte of the frame is mirrored from lies in the frame, at
/// the same row and channel and the opposite column.
pub proof fn lemma_mirror_index(width: nat, height: nat, k: int)
    requires
        0 <= k < width * height * 3,
    ensures
        0 <= mirror_index(width, k) < width * height * 3,
        pixel_row(width, mirror_index(width, k)) == pixel_row(width, k),
        pixel_col(width, mirror_index(width, k)) == width - 1 - pixel_col(width, k),
        mirror_index(width, k) % 3 == k % 3,
{
    lemma_pixel_in_frame(width, height, k);
    let w = width as int;
    let h = height as int;
    let r = pixel_row(width, k);
    let c = w - 1 - pixel_col(width, k);
    let ch = k % 3;
    let m = mirror_index(width, k);
    assert(0 <= m < w * h * 3) by (nonlinear_arith)
        requires
            m == (r * w + c) * 3 + ch,
            0 <= r < h,
            0 <= c < w,
            0 <= ch < 3,
    ;
    assert(0 <= r * w + c) by (nonlinear_arith)
        requires
            0 <= r,
            0 <= c,
            0 < w,
    ;
    lemma_fundamental_div_mod_converse(m, 3, r * w + c, ch);
    lemma_fundamental_div_mod_converse(r * w + c, w, r, c);
}

/// Mirroring a frame twice gives back the frame it started from.
pub proof fn lemma_mirror_involution(f: FrameView)
    requires
        frame_wf(f),
    ensures
        mirror_of(mirror_of(f)) == f,
{
    let once = mirror_of(f);
    let twice = mirror_of(once);
    assert forall|k: int| 0 <= k < f.pixels.len() implies twice.pixels[k] == f.pixels[k] by {
        lemma_pixel_in_frame(f.width, f.height, k);
        lemma_mirror_index(f.width, f.height, k);
        let m = mirror_index(f.width, k);
        lemma_mirror_index(f.width, f.height, m);
        assert(mirror_index(f.width, m) == k);
    }
    assert(twice.pixels =~= f.pixels);
}

/// Relies on image::imageops::flip_horizontal_in_place, on an
/// image::ImageBuffer of RGB bytes: within every row, the pixel at column `c`
/// and the one at column `width - 1 - c` trade places. image::ImageBuffer::from_raw
/// accepts the buffer because it holds `width * height * 3` bytes, and
/// into_raw hands the same buffer back.
#[verifier::external_body]
fn flip_in_place(frame: &mut PixelFrame)
    requires
        old(frame).wf(),
    ensures
        final(frame)@ == mirror_of(old(frame)@),
{
    let pixels = std::mem::take(&mut frame.pixels);
    let mut img = ImageBuffer::<Rgb<u8>, Vec<u8>>::from_raw(frame.width, frame.height, pixels)
        .expect("a frame holds width * height * 3 bytes");
    flip_horizontal_in_place(&mut img);
    frame.pixels = img.into_raw();
}

/// Mirrors the frame horizontally, in place.
pub fn mirror_horizontal(frame: &mut PixelFrame)
    requires
        old(frame).wf(),
    ensures
        final(frame).wf(),
        final(frame)@ == mirror_of(old(frame)@),
{
    flip_in_place(frame);
}

/// A frame laid out for the display: row-major RGB bytes with the sizes and
/// strides the window needs.
pub struct DisplayImage {
    pub width: u32,
    pub height: u32,
    /// Bytes from one pixel to the next.
    pub pixel_stride: u32,
    /// Bytes from one row to the next.
    pub row_stride: u32,
    pub bytes: Vec<u8>,
}

/// Mirrors the frame and hands over its bytes, channel order unchanged, with
/// the layout of a packed RGB image. `None` when a row's byte count does not
/// fit the display's 32-bit stride.
pub fn adapt_for_display(frame: PixelFrame) -> (r: Option<DisplayImage>)
    requires
        frame.wf(),
    ensures
        r is None <==> frame@.width * 3 > u32::MAX,
        r matches Some(d) ==> d.width == frame@.width && d.height == frame@.height
            && d.pixel_stride == 3 && d.row_stride == frame@.width * 3
            && d.bytes@ == mirror_of(frame@).pixels,
{
    let w = frame.width();
    let h = frame.height();
    if w > u32::MAX / 3 {
        return None;
    }
    let mut frame = frame;
    mirror_horizontal(&mut frame);
    Some(DisplayImage {
        width: w,
        height: h,
        pixel_stride: 3,
        row_stride: w * 3,
        bytes: frame.into_pixels(),
    })
}

} // verus!
