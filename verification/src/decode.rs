//! What a decoder hands out: image descriptions, sample arrays and failures.

use crate::bytes::{decode_samples_u16, decode_samples_u32, decode_samples_u8, samples_u16, samples_u32};
use crate::ser::SerHeader;
use vstd::prelude::*;

verus! {

/// Why a decode stopped.
#[derive(Debug, Clone, Copy, PartialEq, Eq, Structural)]
pub enum DecodeError {
    /// The stream ended before the header or a frame was complete.
    TruncatedInput,
    /// The header declares a pixel depth other than 8, 16 or 32 bits.
    UnsupportedPixelDepth,
    /// An image file could not be created, opened or written.
    OutputWriteFailure,
}

/// The sample type of an image.
#[derive(Debug, Clone, Copy, PartialEq, Eq, Structural)]
pub enum ImageType {
    /// Unsigned 8-bit samples.
    UnsignedByte,
    /// Unsigned 16-bit samples.
    UnsignedShort,
    /// Unsigned 32-bit samples.
    UnsignedLong,
}

impl ImageType {
    /// The sample type of a pixel depth in bits, if the depth is supported.
    pub open spec fn spec_for_depth(depth: int) -> Option<ImageType> {
        if depth == 8 {
            Some(ImageType::UnsignedByte)
        } else if depth == 16 {
            Some(ImageType::UnsignedShort)
        } else if depth == 32 {
            Some(ImageType::UnsignedLong)
        } else {
            None
        }
    }

    /// Bytes taken by one sample.
    pub open spec fn spec_bytes_per_sample(self) -> int {
        match self {
            ImageType::UnsignedByte => 1,
            ImageType::UnsignedShort => 2,
            ImageType::UnsignedLong => 4,
        }
    }

    /// The sample type of a pixel depth in bits. Depths other than 8, 16 and
    /// 32 are refused.
    pub fn for_depth(depth: i32) -> (r: Result<ImageType, DecodeError>)
        ensures
            r == match Self::spec_for_depth(depth as int) {
                Some(t) => Ok::<ImageType, DecodeError>(t),
                None => Err::<ImageType, DecodeError>(DecodeError::UnsupportedPixelDepth),
            },
    {
        if depth == 8 {
            Ok(ImageType::UnsignedByte)
        } else if depth == 16 {
            Ok(ImageType::UnsignedShort)
        } else if depth == 32 {
            Ok(ImageType::UnsignedLong)
        } else {
            Err(DecodeError::UnsupportedPixelDepth)
        }
    }

    /// Bytes taken by one sample.
    pub fn bytes_per_sample(self) -> (n: u64)
        ensures
            n == self.spec_bytes_per_sample(),
    {
        match self {
            ImageType::UnsignedByte => 1,
            ImageType::UnsignedShort => 2,
            ImageType::UnsignedLong => 4,
        }
    }
}

/// The pixel data of one image, in the sample width of its type.
#[derive(Debug, Clone, PartialEq, Eq)]
pub enum Samples {
    /// 8-bit samples.
    Bytes(Vec<u8>),
    /// 16-bit samples.
    Shorts(Vec<u16>),
    /// 32-bit samples.
    Longs(Vec<u32>),
}

impl Samples {
    /// The sample type of the array.
    pub open spec fn spec_image_type(&self) -> ImageType {
        match self {
            Samples::Bytes(_) => ImageType::UnsignedByte,
            Samples::Shorts(_) => ImageType::UnsignedShort,
            Samples::Longs(_) => ImageType::UnsignedLong,
        }
    }

    /// The sample values, in order.
    pub open spec fn spec_values(&self) -> Seq<int> {
        match self {
            Samples::Bytes(v) => Seq::new(v@.len(), |i: int| v@[i] as int),
            Samples::Shorts(v) => Seq::new(v@.len(), |i: int| v@[i] as int),
            Samples::Longs(v) => Seq::new(v@.len(), |i: int| v@[i] as int),
        }
    }

    /// The number of samples.
    pub open spec fn spec_len(&self) -> nat {
        match self {
            Samples::Bytes(v) => v@.len(),
            Samples::Shorts(v) => v@.len(),
            Samples::Longs(v) => v@.len(),
        }
    }

    /// Whether the array holds exactly the samples of `frame` read as
    /// little-endian values of type `t`.
    pub open spec fn is_decoding_of(&self, t: ImageType, frame: Seq<u8>) -> bool {
        match self {
            Samples::Bytes(v) => t == ImageType::UnsignedByte && v@ == frame,
            Samples::Shorts(v) => t == ImageType::UnsignedShort && v@ == samples_u16(frame),
            Samples::Longs(v) => t == ImageType::UnsignedLong && v@ == samples_u32(frame),
        }
    }

    /// Rebuilds the samples of a frame: one per byte, per pair of bytes or
    /// per four bytes, least-significant byte first.
    pub fn decode(t: ImageType, frame: &[u8]) -> (samples: Samples)
        ensures
            samples.is_decoding_of(t, frame@),
            samples.spec_image_type() == t,
    {
        match t {
            ImageType::UnsignedByte => Samples::Bytes(decode_samples_u8(frame)),
            ImageType::UnsignedShort => Samples::Shorts(decode_samples_u16(frame)),
            ImageType::UnsignedLong => Samples::Longs(decode_samples_u32(frame)),
        }
    }

    /// The sample type of the array.
    pub fn image_type(&self) -> (t: ImageType)
        ensures
            t == self.spec_image_type(),
    {
        match self {
            Samples::Bytes(_) => ImageType::UnsignedByte,
            Samples::Shorts(_) => ImageType::UnsignedShort,
            Samples::Longs(_) => ImageType::UnsignedLong,
        }
    }

    /// The number of samples.
    pub fn len(&self) -> (n: usize)
        ensures
            n == self.spec_len(),
    {
        match self {
            Samples::Bytes(v) => v.len(),
            Samples::Shorts(v) => v.len(),
            Samples::Longs(v) => v.len(),
        }
    }
}

/// One image file to write: where it goes, its declared dimensions and its
/// pixel data, row by row.
#[derive(Debug, Clone, PartialEq, Eq)]
pub struct FrameImage {
    /// Path of the image file.
    pub path: String,
    /// Number of rows: the first declared dimension.
    pub height: usize,
    /// Samples per row: the second declared dimension.
    pub width: usize,
    /// The pixel data, `height` rows of `width` samples.
    pub samples: Samples,
}

/// The result of decoding a whole capture held in memory: the images of the
/// frames that were complete, in stream order, and the failure that stopped
/// the decode, if one did.
#[derive(Debug, Clone, PartialEq, Eq)]
pub struct Decoded {
    /// The header of the capture; `None` when the stream ended within it.
    pub header: Option<SerHeader>,
    /// One image per decoded frame, frame 0 first.
    pub images: Vec<FrameImage>,
    /// `None` when every frame that the header announces was decoded.
    pub failure: Option<DecodeError>,
}

/// A container format whose frames become single-frame image files.
pub trait Decode {
    /// The captures that the format's invariants admit.
    spec fn admits(input: Seq<u8>) -> bool;

    /// Decodes the capture `input`, known as `source`, into the images to
    /// write under the directory `output`.
    fn decode_to_dir(source: &str, input: &[u8], output: &str) -> (decoded: Decoded)
        requires
            Self::admits(input@),
    ;
}

} // verus!
