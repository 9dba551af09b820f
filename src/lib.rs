//! Per-frame logic of a face-detection camera viewer: frame layout, tensor
//! encoding, decoding of detector output, box annotation and display adaptation.

pub mod frame;
pub mod decode;
pub mod codec;
pub mod annotate;
pub mod orient;
