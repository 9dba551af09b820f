use facecam::annotate::{annotate, clip_box, ClippedRect, PixelBox};
use facecam::codec::{encode, encode_into, InputTensor};
use facecam::decode::{decode_boxes, BBox, DecodeError};
use facecam::frame::PixelFrame;
use facecam::orient::{adapt_for_display, mirror_horizontal};

const GREEN: [u8; 3] = [0, 255, 0];

fn frame_of(width: u32, height: u32, pixels: Vec<u8>) -> PixelFrame {
    PixelFrame::new(width, height, pixels).expect("buffer of the right length")
}

fn pixel_box(b: &BBox<f32>) -> PixelBox {
    PixelBox {
        left: b.x1.round() as i64,
        top: b.y1.round() as i64,
        width: (b.x2 - b.x1).round() as i64,
        height: (b.y2 - b.y1).round() as i64,
    }
}

fn pixel_at(frame: &PixelFrame, x: u32, y: u32) -> [u8; 3] {
    let k = ((y * frame.width() + x) * 3) as usize;
    let p = frame.pixels();
    [p[k], p[k + 1], p[k + 2]]
}

#[test]
fn frame_rejects_wrong_length() {
    assert!(PixelFrame::new(2, 2, vec![0; 11]).is_none());
    assert!(PixelFrame::new(2, 2, vec![0; 13]).is_none());
    assert!(PixelFrame::new(2, 2, vec![0; 12]).is_some());
    assert!(PixelFrame::new(0, 5, vec![]).is_some());
}

#[test]
fn filled_frame_repeats_color() {
    let f = PixelFrame::filled(3, 2, [1, 2, 3]).unwrap();
    assert_eq!(f.width(), 3);
    assert_eq!(f.height(), 2);
    assert_eq!(f.pixels().len(), 18);
    assert_eq!(pixel_at(&f, 2, 1), [1, 2, 3]);
}

#[test]
fn encode_has_frame_shape() {
    let f = PixelFrame::filled(5, 3, [7, 8, 9]).unwrap();
    let t = encode(&f);
    assert_eq!(t.shape, [3, 5, 3]);
    assert_eq!(t.values.len(), 5 * 3 * 3);
}

#[test]
fn encode_reverses_channels() {
    let f = frame_of(1, 1, vec![10, 20, 30]);
    let t = encode(&f);
    assert_eq!(t.shape, [1, 1, 3]);
    assert_eq!(t.values, vec![30, 20, 10]);
    let as_floats: Vec<f32> = t.values.iter().map(|&v| v as f32).collect();
    assert_eq!(as_floats, vec![30.0, 20.0, 10.0]);
}

#[test]
fn encode_keeps_pixel_order() {
    let f = frame_of(2, 1, vec![1, 2, 3, 4, 5, 6]);
    assert_eq!(encode(&f).values, vec![3, 2, 1, 6, 5, 4]);
}

#[test]
fn encode_into_replaces_previous_contents() {
    let mut t = InputTensor::empty();
    encode_into(&frame_of(2, 2, vec![9; 12]), &mut t);
    assert_eq!(t.values.len(), 12);
    encode_into(&frame_of(1, 1, vec![10, 20, 30]), &mut t);
    assert_eq!(t.shape, [1, 1, 3]);
    assert_eq!(t.values, vec![30, 20, 10]);
}

#[test]
fn decode_pairs_coordinates_with_scores() {
    let coords: Vec<f32> = vec![1.0, 2.0, 3.0, 4.0, 5.0, 6.0, 7.0, 8.0];
    let scores: Vec<f32> = vec![0.9, 0.4];
    let boxes = decode_boxes(&coords, &scores).unwrap();
    assert_eq!(boxes.len(), 2);
    let b = boxes[0];
    assert_eq!((b.y1, b.x1, b.y2, b.x2, b.prob), (1.0, 2.0, 3.0, 4.0, 0.9));
    let b = boxes[1];
    assert_eq!((b.y1, b.x1, b.y2, b.x2, b.prob), (5.0, 6.0, 7.0, 8.0, 0.4));
}

#[test]
fn decode_empty_outputs() {
    let none: Vec<f32> = vec![];
    assert_eq!(decode_boxes(&none, &none).unwrap().len(), 0);
}

#[test]
fn decode_rejects_length_mismatch() {
    let coords: Vec<f32> = vec![1.0, 2.0, 3.0, 4.0, 5.0, 6.0, 7.0];
    let scores: Vec<f32> = vec![0.9, 0.4];
    assert_eq!(
        decode_boxes(&coords, &scores).unwrap_err(),
        DecodeError::LengthMismatch { coordinates: 7, scores: 2 }
    );
    let coords: Vec<f32> = vec![1.0, 2.0, 3.0, 4.0, 5.0, 6.0, 7.0, 8.0];
    let scores: Vec<f32> = vec![0.9];
    assert_eq!(
        decode_boxes(&coords, &scores).unwrap_err(),
        DecodeError::LengthMismatch { coordinates: 8, scores: 1 }
    );
    let scores: Vec<f32> = vec![0.9, 0.4, 0.3];
    assert!(decode_boxes(&coords, &scores).is_err());
}

#[test]
fn annotate_nothing_leaves_frame_unchanged() {
    let pixels: Vec<u8> = (0..48u8).collect();
    let mut f = frame_of(4, 4, pixels.clone());
    annotate(&mut f, &vec![], GREEN);
    assert_eq!(f.pixels(), &pixels);
}

#[test]
fn annotate_clips_box_to_frame() {
    let b = BBox { x1: -5.0f32, y1: 0.0, x2: 10.0, y2: 10.0, prob: 0.9 };
    let pb = pixel_box(&b);
    assert_eq!(clip_box(pb, 8, 12), Some(ClippedRect { left: 0, top: 0, width: 8, height: 10 }));
    let mut f = PixelFrame::filled(8, 12, [0, 0, 0]).unwrap();
    annotate(&mut f, &vec![pb], GREEN);
    for y in 0..12 {
        for x in 0..8 {
            let want = if y < 10 { GREEN } else { [0, 0, 0] };
            assert_eq!(pixel_at(&f, x, y), want, "pixel ({}, {})", x, y);
        }
    }
}

#[test]
fn clip_skips_empty_and_outside_boxes() {
    let outside = PixelBox { left: 10, top: 0, width: 3, height: 3 };
    assert_eq!(clip_box(outside, 8, 8), None);
    let flat = PixelBox { left: 1, top: 1, width: 0, height: 3 };
    assert_eq!(clip_box(flat, 8, 8), None);
    let inverted = PixelBox { left: 4, top: 4, width: -2, height: -2 };
    assert_eq!(clip_box(inverted, 8, 8), None);
    let huge = PixelBox { left: i64::MIN, top: i64::MIN, width: i64::MAX, height: i64::MAX };
    assert_eq!(clip_box(huge, 8, 8), None);
    let all = PixelBox { left: -3, top: -3, width: i64::MAX, height: i64::MAX };
    assert_eq!(clip_box(all, 8, 6), Some(ClippedRect { left: 0, top: 0, width: 8, height: 6 }));
}

#[test]
fn annotate_overwrites_only_covered_pixels() {
    let pixels: Vec<u8> = (0..27u8).collect();
    let mut f = frame_of(3, 3, pixels.clone());
    let boxes = vec![
        PixelBox { left: 1, top: 1, width: 1, height: 1 },
        PixelBox { left: 5, top: 5, width: 2, height: 2 },
    ];
    annotate(&mut f, &boxes, [200, 201, 202]);
    let mut want = pixels;
    want[12] = 200;
    want[13] = 201;
    want[14] = 202;
    assert_eq!(f.pixels(), &want);
}

#[test]
fn mirror_swaps_columns() {
    let mut f = frame_of(3, 1, vec![1, 2, 3, 4, 5, 6, 7, 8, 9]);
    mirror_horizontal(&mut f);
    assert_eq!(f.pixels(), &vec![7, 8, 9, 4, 5, 6, 1, 2, 3]);
}

#[test]
fn mirror_twice_is_identity() {
    let pixels: Vec<u8> = (0..60u8).collect();
    let mut f = frame_of(5, 4, pixels.clone());
    mirror_horizontal(&mut f);
    assert_ne!(f.pixels(), &pixels);
    mirror_horizontal(&mut f);
    assert_eq!(f.pixels(), &pixels);
}

#[test]
fn display_layout_of_mirrored_frame() {
    let f = frame_of(2, 2, vec![1, 1, 1, 2, 2, 2, 3, 3, 3, 4, 4, 4]);
    let d = adapt_for_display(f).unwrap();
    assert_eq!((d.width, d.height, d.pixel_stride, d.row_stride), (2, 2, 3, 6));
    assert_eq!(d.bytes, vec![2, 2, 2, 1, 1, 1, 4, 4, 4, 3, 3, 3]);
}

#[test]
fn end_to_end_black_frame_one_box() {
    let mut f = PixelFrame::filled(4, 4, [0, 0, 0]).unwrap();
    let tensor = encode(&f);
    assert_eq!(tensor.shape, [4, 4, 3]);
    // a stand-in detector that finds one face whatever the input
    let coords: Vec<f32> = vec![0.0, 0.0, 2.0, 2.0];
    let scores: Vec<f32> = vec![0.99];
    let boxes: Vec<PixelBox> = decode_boxes(&coords, &scores).unwrap().iter().map(pixel_box).collect();
    annotate(&mut f, &boxes, GREEN);
    for y in 0..4 {
        for x in 0..4 {
            let want = if x < 2 && y < 2 { GREEN } else { [0, 0, 0] };
            assert_eq!(pixel_at(&f, x, y), want, "pixel ({}, {})", x, y);
        }
    }
}
