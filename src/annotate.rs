use vstd::prelude::*;
use image::{ImageBuffer, Rgb};
use imageproc::drawing::draw_filled_rect_mut;
use imageproc::rect::Rect;
use crate::frame::{lemma_pixel_in_frame, pixel_col, pixel_row, FrameView, PixelFrame};

verus! {

/// A detection in whole pixels: origin (`left`, `top`) and size (`width`,
/// `height`). It may reach outside the frame, and a size below one means the
/// box covers nothing.
#[derive(Clone, Copy, Debug, PartialEq, Eq)]
pub struct PixelBox {
    pub left: i64,
    pub top: i64,
    pub width: i64,
    pub height: i64,
}

/// A non-empty rectangle that lies inside the frame it was clipped to.
#[derive(Clone, Copy, Debug, PartialEq, Eq)]
pub struct ClippedRect {
    pub left: u32,
    pub top: u32,
    pub width: u32,
    pub height: u32,
}

/// Whether the box covers the pixel at column `x`, row `y`.
pub open spec fn box_covers(b: PixelBox, x: int, y: int) -> bool {
    b.left <= x < b.left + b.width && b.top <= y < b.top + b.height
}

/// Whether the rectangle covers the pixel at column `x`, row `y`.
pub open spec fn rect_covers(r: ClippedRect, x: int, y: int) -> bool {
    r.left <= x < r.left + r.width && r.top <= y < r.top + r.height
}

/// Whether some box of `boxes` covers the pixel at column `x`, row `y`.
pub open spec fn covered_by(boxes: Seq<PixelBox>, x: int, y: int) -> bool {
    exists|i: int| 0 <= i < boxes.len() && box_covers(#[trigger] boxes[i], x, y)
}

/// The pixels of `f` after painting with `color` every pixel that `covered`
/// holds of; all other bytes stay as they were.
pub open spec fn painted(f: FrameView, covered: spec_fn(int, int) -> bool, color: [u8; 3]) -> Seq<
    u8,
> {
    Seq::new(
        f.pixels.len(),
        |k: int|
            if covered(pixel_col(f.width, k), pixel_row(f.width, k)) {
                color@[k % 3]
            } else {
                f.pixels[k]
            },
    )
}

/// Clips a box to a `frame_width` by `frame_height` frame: the part of the box
/// inside the frame, or `None` when that part is empty.
pub fn clip_box(b: PixelBox, frame_width: u32, frame_height: u32) -> (r: Option<ClippedRect>)
    ensures
        r is None <==> forall|x: int, y: int|
            0 <= x < frame_width && 0 <= y < frame_height ==> !box_covers(b, x, y),
        r matches Some(c) ==> c.width > 0 && c.height > 0 && c.left + c.width <= frame_width
            && c.top + c.height <= frame_height && forall|x: int, y: int|
            0 <= x < frame_width && 0 <= y < frame_height ==> (box_covers(b, x, y)
                <==> rect_covers(c, x, y)),
{
    let x0: i128 = if b.left < 0 { 0 } else { b.left as i128 };
    let y0: i128 = if b.top < 0 { 0 } else { b.top as i128 };
    let bx1: i128 = b.left as i128 + b.width as i128;
    let by1: i128 = b.top as i128 + b.height as i128;
    let x1: i128 = if bx1 > frame_width as i128 { frame_width as i128 } else { bx1 };
    let y1: i128 = if by1 > frame_height as i128 { frame_height as i128 } else { by1 };
    if x1 <= x0 || y1 <= y0 {
        assert forall|x: int, y: int|
            0 <= x < frame_width && 0 <= y < frame_height implies !box_covers(b, x, y) by {}
        None
    } else {
        let c = ClippedRect {
            left: x0 as u32,
            top: y0 as u32,
            width: (x1 - x0) as u32,
            height: (y1 - y0) as u32,
        };
        assert(box_covers(b, x0 as int, y0 as int));
        Some(c)
    }
}

/// Relies on imageproc::drawing::draw_filled_rect_mut, on an image::ImageBuffer
/// of RGB bytes: every pixel of the rectangle, which lies inside the image,
/// takes `color`, and no other byte changes. image::ImageBuffer::from_raw
/// accepts the buffer because it holds `width * height * 3` bytes, and
/// into_raw hands the same buffer back.
#[verifier::external_body]
fn fill_rect(frame: &mut PixelFrame, rect: ClippedRect, color: [u8; 3])
    requires
        old(frame).wf(),
        old(frame)@.width <= i32::MAX,
        old(frame)@.height <= i32::MAX,
        rect.width > 0,
        rect.height > 0,
        rect.left + rect.width <= old(frame)@.width,
        rect.top + rect.height <= old(frame)@.height,
    ensures
        final(frame)@.width == old(frame)@.width,
        final(frame)@.height == old(frame)@.height,
        final(frame)@.pixels == painted(old(frame)@, |x: int, y: int| rect_covers(rect, x, y), color),
{
    let pixels = std::mem::take(&mut frame.pixels);
    let mut img = ImageBuffer::<Rgb<u8>, Vec<u8>>::from_raw(frame.width, frame.height, pixels)
        .expect("a frame holds width * height * 3 bytes");
    let r = Rect::at(rect.left as i32, rect.top as i32).of_size(rect.width, rect.height);
    draw_filled_rect_mut(&mut img, r, Rgb(color));
    frame.pixels = img.into_raw();
}

/// Draws every box onto the frame as a filled rectangle of `color`, clipped
/// to the frame; a box that clips to nothing is skipped. A pixel ends up with
/// `color` exactly when some box covers it; every other byte is unchanged.
pub fn annotate(frame: &mut PixelFrame, boxes: &Vec<PixelBox>, color: [u8; 3])
    requires
        old(frame).wf(),
        old(frame)@.width <= i32::MAX,
        old(frame)@.height <= i32::MAX,
    ensures
        final(frame).wf(),
        final(frame)@.width == old(frame)@.width,
        final(frame)@.height == old(frame)@.height,
        final(frame)@.pixels == painted(old(frame)@, |x: int, y: int| covered_by(boxes@, x, y), color),
        boxes@.len() == 0 ==> final(frame)@ == old(frame)@,
{
    let ghost orig = frame@;
    let w = frame.width();
    let h = frame.height();
    let mut i: usize = 0;
    while i < boxes.len()
        invariant
            frame.wf(),
            orig.width == w && orig.height == h,
            orig.width <= i32::MAX && orig.height <= i32::MAX,
            frame@.width == w && frame@.height == h,
            i <= boxes@.len(),
            frame@.pixels == painted(orig, |x: int, y: int| covered_by(boxes@.take(i as int), x, y), color),
        decreases boxes@.len() - i,
    {
        let b = boxes[i];
        let ghost before = frame@;
        match clip_box(b, w, h) {
            Some(c) => {
                fill_rect(frame, c, color);
            },
            None => {},
        }
        proof {
            let next = boxes@.take(i + 1);
            assert forall|k: int| 0 <= k < frame@.pixels.len() implies frame@.pixels[k]
                == painted(orig, |x: int, y: int| covered_by(next, x, y), color)[k] by {
                lemma_pixel_in_frame(orig.width, orig.height, k);
                let x = pixel_col(orig.width, k);
                let y = pixel_row(orig.width, k);
                assert(next[i as int] == b);
                if covered_by(boxes@.take(i as int), x, y) {
                    let j = choose|j: int| 0 <= j < i && box_covers(#[trigger] boxes@.take(i as int)[j], x, y);
                    assert(next[j] == boxes@.take(i as int)[j]);
                }
                if covered_by(next, x, y) && !box_covers(b, x, y) {
                    let j = choose|j: int| 0 <= j < i + 1 && box_covers(#[trigger] next[j], x, y);
                    assert(boxes@.take(i as int)[j] == next[j]);
                }
            }
            assert(frame@.pixels =~= painted(orig, |x: int, y: int| covered_by(next, x, y), color));
        }
        i = i + 1;
    }
    proof {
        assert(boxes@.take(boxes@.len() as int) =~= boxes@);
        if boxes@.len() == 0 {
            assert(frame@.pixels =~= orig.pixels);
        }
    }
}

} // verus!
