//! Decoding of SER astronomical video captures into single-frame images.
//!
//! A SER container is a fixed 178-byte preamble followed by raw frames of
//! equal size. The library parses the preamble, cuts the stream into frames,
//! rebuilds the little-endian samples of each frame and describes the image
//! file that each frame becomes. Reading the capture and writing the image
//! files is left to the caller.

pub mod bytes;
pub mod decode;
pub mod naming;
pub mod ser;
pub mod stream;
