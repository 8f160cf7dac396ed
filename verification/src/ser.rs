//! The SER container: its header and its frames.

use crate::bytes::{i32_le_bytes, le_i32_at, lemma_i32_le_round_trip, read_i32_le};
use crate::decode::{Decode, DecodeError, Decoded, FrameImage, ImageType, Samples};
use crate::naming::{output_path, spec_output_path};
use crate::stream::{
    lemma_read_keeps_course, lemma_write_keeps_course, stands_at, steps_left, Action, DecodeState,
    Event,
};
use vstd::prelude::*;
use vstd::slice::{slice_subrange, slice_to_vec};
use vstd::string::StringExecFns;

verus! {

/// Number of bytes in the fixed preamble of a SER container.
pub const HEADER_LEN: usize = 178;

/// The fields of the preamble that drive decoding.
#[derive(Debug, Clone, PartialEq, Eq)]
pub struct SerHeader {
    /// Where the capture came from; informational only.
    pub name: String,
    /// Colour mode code; carried along, not interpreted.
    pub color: i32,
    /// Declared byte order; carried along, not consulted: frame samples are
    /// always read least-significant byte first.
    pub endianess: i32,
    /// Samples per row.
    pub width: i32,
    /// Rows per frame.
    pub height: i32,
    /// Bits per sample.
    pub pixel_depth: i32,
    /// Number of frames that follow the preamble.
    pub frame_count: i32,
}

impl SerHeader {
    /// Whether the record holds the six integers that `bytes` carries at
    /// the fixed offsets of the preamble, under the name `name`.
    pub open spec fn is_parse_of(&self, name: Seq<char>, bytes: Seq<u8>) -> bool {
        &&& self.name@ == name
        &&& self.color == le_i32_at(bytes, 18)
        &&& self.endianess == le_i32_at(bytes, 22)
        &&& self.width == le_i32_at(bytes, 26)
        &&& self.height == le_i32_at(bytes, 30)
        &&& self.pixel_depth == le_i32_at(bytes, 34)
        &&& self.frame_count == le_i32_at(bytes, 38)
    }

    /// Both dimensions are positive.
    pub open spec fn has_valid_dimensions(&self) -> bool {
        self.width > 0 && self.height > 0
    }

    /// The pixel depth is one of 8, 16 and 32.
    pub open spec fn has_supported_depth(&self) -> bool {
        ImageType::spec_for_depth(self.pixel_depth as int).is_some()
    }

    /// Bytes in one frame: `width * height * (pixel_depth / 8)`.
    pub open spec fn spec_frame_len(&self) -> int {
        self.width * self.height * (self.pixel_depth / 8)
    }

    /// Number of frames to decode: the declared count, or none where the
    /// declared count is negative.
    pub open spec fn spec_frame_total(&self) -> int {
        if self.frame_count > 0 {
            self.frame_count as int
        } else {
            0
        }
    }

    /// The bytes of frame `i` within a whole capture.
    pub open spec fn spec_frame(&self, input: Seq<u8>, i: int) -> Seq<u8> {
        input.subrange(
            HEADER_LEN + i * self.spec_frame_len(),
            HEADER_LEN + (i + 1) * self.spec_frame_len(),
        )
    }

    /// Whether `k` is the number of frames that a capture of `stream_len`
    /// bytes yields: the complete frames at its start, up to the number that
    /// the header announces.
    pub open spec fn frames_decoded(&self, k: int, stream_len: int) -> bool {
        &&& 0 <= k <= self.spec_frame_total()
        &&& HEADER_LEN + k * self.spec_frame_len() <= stream_len
        &&& (k == self.spec_frame_total() || HEADER_LEN + (k + 1) * self.spec_frame_len()
            > stream_len)
    }

    /// Whether `image` is the image of frame `index`, whose bytes are
    /// `frame`, to be written under the directory `output`: its path carries
    /// the index, its declared dimensions are the header's height and width,
    /// in that order, and its samples are those of the frame.
    pub open spec fn is_image_of(
        &self,
        image: FrameImage,
        index: int,
        frame: Seq<u8>,
        output: Seq<char>,
    ) -> bool {
        &&& 0 <= index
        &&& image.path@ == spec_output_path(output, index as nat)
        &&& image.height == self.height
        &&& image.width == self.width
        &&& ImageType::spec_for_depth(self.pixel_depth as int) matches Some(t)
        &&& image.samples.is_decoding_of(t, frame)
    }

    /// Whether `images` are the images of the first frames of the capture
    /// `input`, in stream order.
    pub open spec fn holds_first_frames(
        &self,
        images: Seq<FrameImage>,
        input: Seq<u8>,
        output: Seq<char>,
    ) -> bool {
        forall|i: int|
            0 <= i < images.len() ==> #[trigger] self.is_image_of(
                images[i],
                i,
                self.spec_frame(input, i),
                output,
            )
    }

    /// Whether `images` and `failure` are the outcome of decoding the whole
    /// capture `input` under the directory `output`. With an unsupported
    /// pixel depth there is no image. Otherwise there is one image for each
    /// complete frame, in stream order, and the decode fails as truncated
    /// exactly when these are fewer than the header announces.
    pub open spec fn is_decoding(
        &self,
        images: Seq<FrameImage>,
        failure: Option<DecodeError>,
        input: Seq<u8>,
        output: Seq<char>,
    ) -> bool {
        if !self.has_supported_depth() {
            images.len() == 0 && failure == Some(DecodeError::UnsupportedPixelDepth)
        } else {
            &&& self.frames_decoded(images.len() as int, input.len() as int)
            &&& self.holds_first_frames(images, input, output)
            &&& failure == if images.len() == self.spec_frame_total() {
                None
            } else {
                Some(DecodeError::TruncatedInput)
            }
        }
    }

    /// Reads the header record from the start of a stream. Exactly the
    /// first 178 bytes are consulted; a shorter stream is truncated.
    pub fn parse(name: &str, bytes: &[u8]) -> (r: Result<SerHeader, DecodeError>)
        ensures
            bytes@.len() < HEADER_LEN ==> r == Err::<SerHeader, DecodeError>(
                DecodeError::TruncatedInput,
            ),
            bytes@.len() >= HEADER_LEN ==> r.is_ok() && r.unwrap().is_parse_of(name@, bytes@),
    {
        if bytes.len() < HEADER_LEN {
            return Err(DecodeError::TruncatedInput);
        }
        Ok(
            SerHeader {
                name: String::from_str(name),
                color: read_i32_le(bytes, 18),
                endianess: read_i32_le(bytes, 22),
                width: read_i32_le(bytes, 26),
                height: read_i32_le(bytes, 30),
                pixel_depth: read_i32_le(bytes, 34),
                frame_count: read_i32_le(bytes, 38),
            },
        )
    }

    /// Whether both dimensions are positive.
    pub fn dimensions_valid(&self) -> (ok: bool)
        ensures
            ok == self.has_valid_dimensions(),
    {
        self.width > 0 && self.height > 0
    }
}

/// A SER capture whose header has been read and accepted.
#[derive(Debug, Clone)]
pub struct SerFile {
    header: SerHeader,
}

impl SerFile {
    /// The header of the capture.
    pub closed spec fn spec_header(&self) -> SerHeader {
        self.header
    }

    /// The header's dimensions are positive and its pixel depth is
    /// supported.
    pub open spec fn wf(&self) -> bool {
        self.spec_header().has_valid_dimensions() && self.spec_header().has_supported_depth()
    }

    /// Whether a capture may be decoded whole: its header, if complete,
    /// declares positive dimensions.
    pub fn is_admitted(input: &[u8]) -> (ok: bool)
        ensures
            ok == <SerFile as Decode>::admits(input@),
    {
        if input.len() < HEADER_LEN {
            true
        } else {
            read_i32_le(input, 26) > 0 && read_i32_le(input, 30) > 0
        }
    }

    /// Accepts a header for decoding. A pixel depth other than 8, 16 or 32
    /// is refused.
    pub fn new(header: SerHeader) -> (r: Result<SerFile, DecodeError>)
        requires
            header.has_valid_dimensions(),
        ensures
            header.has_supported_depth() ==> r.is_ok() && r.unwrap().spec_header() == header
                && r.unwrap().wf(),
            !header.has_supported_depth() ==> r == Err::<SerFile, DecodeError>(
                DecodeError::UnsupportedPixelDepth,
            ),
    {
        match ImageType::for_depth(header.pixel_depth) {
            Ok(_) => Ok(SerFile { header }),
            Err(e) => Err(e),
        }
    }

    /// The header of the capture.
    pub fn header(&self) -> (h: &SerHeader)
        ensures
            *h == self.spec_header(),
    {
        &self.header
    }

    /// The sample type of every frame.
    pub fn image_type(&self) -> (t: ImageType)
        requires
            self.wf(),
        ensures
            ImageType::spec_for_depth(self.spec_header().pixel_depth as int) == Some(t),
    {
        if self.header.pixel_depth == 8 {
            ImageType::UnsignedByte
        } else if self.header.pixel_depth == 16 {
            ImageType::UnsignedShort
        } else {
            ImageType::UnsignedLong
        }
    }

    /// Bytes in one frame.
    pub fn frame_len(&self) -> (n: u64)
        requires
            self.wf(),
        ensures
            n == self.spec_header().spec_frame_len(),
            n > 0,
    {
        let w: u64 = self.header.width as u64;
        let h: u64 = self.header.height as u64;
        let t: ImageType = self.image_type();
        let b: u64 = t.bytes_per_sample();
        assert(w * h <= 0x7fff_ffff * 0x7fff_ffff && w * h > 0) by (nonlinear_arith)
            requires
                0 < w <= 0x7fff_ffff,
                0 < h <= 0x7fff_ffff,
        ;
        let pixels: u64 = w * h;
        assert(pixels * b <= 0x7fff_ffff * 0x7fff_ffff * 4 && pixels * b > 0) by (nonlinear_arith)
            requires
                0 < pixels <= 0x7fff_ffff * 0x7fff_ffff,
                0 < b <= 4,
        ;
        pixels * b
    }

    /// Number of frames to decode.
    pub fn frame_count(&self) -> (n: u32)
        ensures
            n == self.spec_header().spec_frame_total(),
    {
        if self.header.frame_count > 0 {
            self.header.frame_count as u32
        } else {
            0
        }
    }

    /// Decodes the frame that stands at the start of `stream` into the
    /// image of frame `index` under the directory `output`. A stream
    /// shorter than one frame is truncated.
    pub fn decode_frame(&self, index: u32, stream: &[u8], output: &str) -> (r: Result<
        FrameImage,
        DecodeError,
    >)
        requires
            self.wf(),
        ensures
            stream@.len() < self.spec_header().spec_frame_len() ==> r == Err::<
                FrameImage,
                DecodeError,
            >(DecodeError::TruncatedInput),
            stream@.len() >= self.spec_header().spec_frame_len() ==> r.is_ok()
                && self.spec_header().is_image_of(
                r.unwrap(),
                index as int,
                stream@.subrange(0, self.spec_header().spec_frame_len()),
                output@,
            ),
            r.is_ok() ==> r.unwrap().samples.spec_len() == self.spec_header().width
                * self.spec_header().height,
    {
        let len64: u64 = self.frame_len();
        let available: usize = stream.len();
        if (available as u64) < len64 {
            return Err(DecodeError::TruncatedInput);
        }
        let len: usize = len64 as usize;
        let frame: &[u8] = slice_subrange(stream, 0, len);
        let t: ImageType = self.image_type();
        let samples: Samples = Samples::decode(t, frame);
        proof {
            let pixels: int = self.header.width * self.header.height;
            assert(frame@.len() == pixels * t.spec_bytes_per_sample());
        }
        Ok(
            FrameImage {
                path: output_path(output, index),
                height: self.header.height as usize,
                width: self.header.width as usize,
                samples,
            },
        )
    }
}

impl Decode for SerFile {
    /// A capture whose header is complete declares positive dimensions.
    open spec fn admits(input: Seq<u8>) -> bool {
        input.len() >= HEADER_LEN ==> le_i32_at(input, 26) > 0 && le_i32_at(input, 30) > 0
    }

    /// Decodes a whole capture held in memory: the header, then one image
    /// per frame for as long as the stream holds complete frames.
    fn decode_to_dir(source: &str, input: &[u8], output: &str) -> (decoded: Decoded)
        ensures
            input@.len() < HEADER_LEN ==> decoded.header.is_none() && decoded.images@.len() == 0
                && decoded.failure == Some(DecodeError::TruncatedInput),
            input@.len() >= HEADER_LEN ==> decoded.header.is_some()
                && decoded.header.unwrap().is_parse_of(source@, input@)
                && decoded.header.unwrap().is_decoding(
                decoded.images@,
                decoded.failure,
                input@,
                output@,
            ),
    {
        let header: SerHeader = match SerHeader::parse(source, input) {
            Ok(h) => h,
            Err(e) => {
                return Decoded { header: None, images: Vec::new(), failure: Some(e) };
            },
        };
        let available: usize = input.len();
        let mut images: Vec<FrameImage> = Vec::new();
        let mut offset: usize = 0;
        let start: (DecodeState, Action) = DecodeState::start();
        let mut state: DecodeState = start.0;
        let mut action: Action = start.1;
        loop
            invariant
                available == input@.len(),
                available >= HEADER_LEN,
                header.is_parse_of(source@, input@),
                header.has_valid_dimensions(),
                state.wf(),
                0 <= offset <= available,
                stands_at(header, state, action, images@, offset as int, source@, input@, output@),
            decreases steps_left(state, header.spec_frame_total()),
        {
            match action {
                Action::Read(len) => {
                    let left: usize = available - offset;
                    let take: usize = if len < left as u64 {
                        len as usize
                    } else {
                        left
                    };
                    let bytes: Vec<u8> = slice_to_vec(slice_subrange(input, offset, offset + take));
                    let ghost before: DecodeState = state;
                    let ghost read: Vec<u8> = bytes;
                    assert(before == DecodeState::AwaitingHeader ==> le_i32_at(bytes@, 26)
                        == le_i32_at(input@, 26) && le_i32_at(bytes@, 30) == le_i32_at(input@, 30));
                    let next: (DecodeState, Action) = state.step(
                        Event::Bytes(bytes),
                        source,
                        output,
                    );
                    proof {
                        lemma_read_keeps_course(
                            header,
                            before,
                            len,
                            images@,
                            offset as int,
                            source@,
                            input@,
                            output@,
                            read,
                            next.0,
                            next.1,
                        );
                    }
                    offset = offset + take;
                    state = next.0;
                    action = next.1;
                },
                Action::Write(image) => {
                    let ghost before: DecodeState = state;
                    let ghost written: Seq<FrameImage> = images@;
                    let next: (DecodeState, Action) = state.step(Event::Written, source, output);
                    proof {
                        lemma_write_keeps_course(
                            header,
                            before,
                            image,
                            written,
                            offset as int,
                            source@,
                            input@,
                            output@,
                            next.0,
                            next.1,
                        );
                    }
                    images.push(image);
                    state = next.0;
                    action = next.1;
                },
                Action::Finish => {
                    return Decoded { header: Some(header), images, failure: None };
                },
                Action::Fail(e) => {
                    return Decoded { header: Some(header), images, failure: Some(e) };
                },
            }
        }
    }
}

/// A frame of a header with positive dimensions and a supported depth has
/// at least one byte: `width * height` samples of one, two or four bytes.
pub proof fn lemma_frame_len_positive(header: SerHeader)
    requires
        header.has_valid_dimensions(),
        header.has_supported_depth(),
    ensures
        header.spec_frame_len() > 0,
        header.spec_frame_len() <= u64::MAX,
        header.width * header.height > 0,
        ImageType::spec_for_depth(header.pixel_depth as int) matches Some(t)
            && header.spec_frame_len() == header.width * header.height
            * t.spec_bytes_per_sample(),
{
    let w: int = header.width as int;
    let h: int = header.height as int;
    assert(w * h > 0) by (nonlinear_arith)
        requires
            w > 0,
            h > 0,
    ;
    let b: int = header.pixel_depth as int / 8;
    assert(b == 1 || b == 2 || b == 4);
    assert(w * h <= 0x7fff_ffff * 0x7fff_ffff) by (nonlinear_arith)
        requires
            0 < w <= 0x7fff_ffff,
            0 < h <= 0x7fff_ffff,
    ;
    assert(0 < (w * h) * b <= 0x7fff_ffff * 0x7fff_ffff * 4) by (nonlinear_arith)
        requires
            0 < w * h <= 0x7fff_ffff * 0x7fff_ffff,
            0 < b <= 4,
    ;
}

/// The number of frames that a capture yields is determined by its length:
/// two counts that both fit are equal.
pub proof fn lemma_frames_decoded_unique(header: SerHeader, j: int, k: int, stream_len: int)
    requires
        header.has_valid_dimensions(),
        header.has_supported_depth(),
        header.frames_decoded(j, stream_len),
        header.frames_decoded(k, stream_len),
    ensures
        j == k,
{
    lemma_frame_len_positive(header);
    let len: int = header.spec_frame_len();
    if j < k {
        assert((j + 1) * len <= k * len) by (nonlinear_arith)
            requires
                j + 1 <= k,
                len > 0,
        ;
    }
    if k < j {
        assert((k + 1) * len <= j * len) by (nonlinear_arith)
            requires
                k + 1 <= j,
                len > 0,
        ;
    }
}

/// Frame count: a capture that holds every frame its header announces
/// decodes without failure into exactly that many images, and image `i`
/// goes to the path of index `i`. A header that announces no frame gives no
/// image.
pub proof fn lemma_complete_capture_decodes_every_frame(
    header: SerHeader,
    images: Seq<FrameImage>,
    failure: Option<DecodeError>,
    input: Seq<u8>,
    output: Seq<char>,
)
    requires
        header.has_valid_dimensions(),
        header.has_supported_depth(),
        input.len() >= HEADER_LEN + header.spec_frame_total() * header.spec_frame_len(),
        header.is_decoding(images, failure, input, output),
    ensures
        images.len() == header.spec_frame_total(),
        failure.is_none(),
        forall|i: int|
            0 <= i < images.len() ==> (#[trigger] images[i]).path@ == spec_output_path(
                output,
                i as nat,
            ),
{
    lemma_frame_len_positive(header);
    let len: int = header.spec_frame_len();
    let total: int = header.spec_frame_total();
    let k: int = images.len() as int;
    if k < total {
        assert((k + 1) * len <= total * len) by (nonlinear_arith)
            requires
                k + 1 <= total,
                len > 0,
        ;
    }
    assert forall|i: int| 0 <= i < images.len() implies (#[trigger] images[i]).path@
        == spec_output_path(output, i as nat) by {
        assert(header.is_image_of(images[i], i, header.spec_frame(input, i), output));
    }
}

/// Truncation: a capture with a complete header that is shorter than the
/// frames its header announces fails as truncated. There is an image for
/// each complete frame before the cut and none for the incomplete one; a
/// capture that ends within its first frame gives no image at all.
pub proof fn lemma_short_capture_is_truncated(
    header: SerHeader,
    images: Seq<FrameImage>,
    failure: Option<DecodeError>,
    input: Seq<u8>,
    output: Seq<char>,
)
    requires
        header.has_valid_dimensions(),
        header.has_supported_depth(),
        input.len() >= HEADER_LEN,
        input.len() < HEADER_LEN + header.spec_frame_total() * header.spec_frame_len(),
        header.is_decoding(images, failure, input, output),
    ensures
        failure == Some(DecodeError::TruncatedInput),
        images.len() < header.spec_frame_total(),
        HEADER_LEN + images.len() * header.spec_frame_len() <= input.len(),
        input.len() < HEADER_LEN + (images.len() + 1) * header.spec_frame_len(),
        input.len() < HEADER_LEN + header.spec_frame_len() ==> images.len() == 0,
{
    lemma_frame_len_positive(header);
    let len: int = header.spec_frame_len();
    let k: int = images.len() as int;
    if k >= 1 {
        assert(k * len >= len) by (nonlinear_arith)
            requires
                k >= 1,
                len > 0,
        ;
    }
}

/// Repeatability: two decodes of one capture into one directory agree. They
/// give as many images and the same outcome, and image for image the same
/// path, the same dimensions and the same samples, so that a second run
/// writes to the files of the first and to no others.
pub proof fn lemma_decoding_is_repeatable(
    header: SerHeader,
    first: Seq<FrameImage>,
    first_failure: Option<DecodeError>,
    second: Seq<FrameImage>,
    second_failure: Option<DecodeError>,
    input: Seq<u8>,
    output: Seq<char>,
)
    requires
        header.has_valid_dimensions(),
        header.is_decoding(first, first_failure, input, output),
        header.is_decoding(second, second_failure, input, output),
    ensures
        first.len() == second.len(),
        first_failure == second_failure,
        forall|i: int|
            0 <= i < first.len() ==> {
                &&& (#[trigger] first[i]).path@ == second[i].path@
                &&& first[i].height == second[i].height
                &&& first[i].width == second[i].width
                &&& first[i].samples.spec_image_type() == second[i].samples.spec_image_type()
                &&& first[i].samples.spec_values() == second[i].samples.spec_values()
            },
{
    if header.has_supported_depth() {
        lemma_frames_decoded_unique(
            header,
            first.len() as int,
            second.len() as int,
            input.len() as int,
        );
        assert forall|i: int| 0 <= i < first.len() implies {
            &&& (#[trigger] first[i]).path@ == second[i].path@
            &&& first[i].height == second[i].height
            &&& first[i].width == second[i].width
            &&& first[i].samples.spec_image_type() == second[i].samples.spec_image_type()
            &&& first[i].samples.spec_values() == second[i].samples.spec_values()
        } by {
            let frame = header.spec_frame(input, i);
            assert(header.is_image_of(first[i], i, frame, output));
            assert(header.is_image_of(second[i], i, frame, output));
            assert(first[i].samples.spec_values() =~= second[i].samples.spec_values());
        }
    }
}

/// Unsupported depth: with a pixel depth other than 8, 16 and 32 the decode
/// fails for that reason and gives no image.
pub proof fn lemma_unsupported_depth_gives_no_image(
    header: SerHeader,
    images: Seq<FrameImage>,
    failure: Option<DecodeError>,
    input: Seq<u8>,
    output: Seq<char>,
)
    requires
        header.pixel_depth != 8 && header.pixel_depth != 16 && header.pixel_depth != 32,
        header.is_decoding(images, failure, input, output),
    ensures
        images.len() == 0,
        failure == Some(DecodeError::UnsupportedPixelDepth),
{
}

/// Dimension fidelity: every image of a decode declares the header's height
/// and width, in that order, and holds `width * height` samples of the type
/// that the pixel depth calls for.
pub proof fn lemma_images_keep_dimensions(
    header: SerHeader,
    images: Seq<FrameImage>,
    failure: Option<DecodeError>,
    input: Seq<u8>,
    output: Seq<char>,
    i: int,
)
    requires
        header.has_valid_dimensions(),
        header.has_supported_depth(),
        header.is_decoding(images, failure, input, output),
        0 <= i < images.len(),
    ensures
        images[i].height == header.height,
        images[i].width == header.width,
        images[i].samples.spec_len() == header.width * header.height,
        Some(images[i].samples.spec_image_type()) == ImageType::spec_for_depth(
            header.pixel_depth as int,
        ),
{
    lemma_frame_len_positive(header);
    let len: int = header.spec_frame_len();
    let k: int = images.len() as int;
    let frame = header.spec_frame(input, i);
    assert(header.is_image_of(images[i], i, frame, output));
    assert((i + 1) * len <= k * len) by (nonlinear_arith)
        requires
            i + 1 <= k,
            len > 0,
    ;
    assert(i * len >= 0) by (nonlinear_arith)
        requires
            i >= 0,
            len > 0,
    ;
    assert((i + 1) * len == i * len + len) by (nonlinear_arith);
    assert(frame.len() == len);
    let pixels: int = header.width * header.height;
    let t = ImageType::spec_for_depth(header.pixel_depth as int).unwrap();
    assert(len == pixels * t.spec_bytes_per_sample());
}

/// A preamble in which six integers have been placed at the fixed offsets:
/// `buf` with the bytes from 18 up to 42 replaced by the little-endian bytes
/// of the six values, in the order of the record's fields.
pub open spec fn place_fields(
    buf: Seq<u8>,
    color: i32,
    endianess: i32,
    width: i32,
    height: i32,
    pixel_depth: i32,
    frame_count: i32,
) -> Seq<u8> {
    Seq::new(
        buf.len(),
        |i: int|
            if 18 <= i < 22 {
                i32_le_bytes(color)[i - 18]
            } else if 22 <= i < 26 {
                i32_le_bytes(endianess)[i - 22]
            } else if 26 <= i < 30 {
                i32_le_bytes(width)[i - 26]
            } else if 30 <= i < 34 {
                i32_le_bytes(height)[i - 30]
            } else if 34 <= i < 38 {
                i32_le_bytes(pixel_depth)[i - 34]
            } else if 38 <= i < 42 {
                i32_le_bytes(frame_count)[i - 38]
            } else {
                buf[i]
            },
    )
}

/// The value read at `at` is `v` wherever the four bytes there are the
/// little-endian bytes of `v`.
pub proof fn lemma_le_i32_at_placed(bytes: Seq<u8>, at: int, v: i32)
    requires
        0 <= at,
        at + 4 <= bytes.len(),
        forall|k: int| 0 <= k < 4 ==> bytes[at + k] == i32_le_bytes(v)[k],
    ensures
        le_i32_at(bytes, at) == v,
{
    lemma_i32_le_round_trip(v);
    assert(bytes[at + 0] == i32_le_bytes(v)[0]);
    assert(bytes[at + 1] == i32_le_bytes(v)[1]);
    assert(bytes[at + 2] == i32_le_bytes(v)[2]);
    assert(bytes[at + 3] == i32_le_bytes(v)[3]);
}

/// Header round trip: whatever six integers are placed at the fixed offsets
/// of a buffer of at least 178 bytes, a record parsed from that buffer holds
/// exactly those six integers, whatever the bytes around them.
pub proof fn lemma_header_round_trip(
    header: SerHeader,
    name: Seq<char>,
    buf: Seq<u8>,
    color: i32,
    endianess: i32,
    width: i32,
    height: i32,
    pixel_depth: i32,
    frame_count: i32,
)
    requires
        buf.len() >= HEADER_LEN,
        header.is_parse_of(
            name,
            place_fields(buf, color, endianess, width, height, pixel_depth, frame_count),
        ),
    ensures
        header.color == color,
        header.endianess == endianess,
        header.width == width,
        header.height == height,
        header.pixel_depth == pixel_depth,
        header.frame_count == frame_count,
{
    let placed = place_fields(buf, color, endianess, width, height, pixel_depth, frame_count);
    lemma_le_i32_at_placed(placed, 18, color);
    lemma_le_i32_at_placed(placed, 22, endianess);
    lemma_le_i32_at_placed(placed, 26, width);
    lemma_le_i32_at_placed(placed, 30, height);
    lemma_le_i32_at_placed(placed, 34, pixel_depth);
    lemma_le_i32_at_placed(placed, 38, frame_count);
}

/// Only the bytes from 18 up to 42 decide the six integers: two buffers that
/// agree there give records that agree on all six.
pub proof fn lemma_header_ignores_reserved_bytes(
    a: SerHeader,
    b: SerHeader,
    name_a: Seq<char>,
    name_b: Seq<char>,
    bytes_a: Seq<u8>,
    bytes_b: Seq<u8>,
)
    requires
        bytes_a.len() >= HEADER_LEN,
        bytes_b.len() >= HEADER_LEN,
        forall|i: int| 18 <= i < 42 ==> bytes_a[i] == bytes_b[i],
        a.is_parse_of(name_a, bytes_a),
        b.is_parse_of(name_b, bytes_b),
    ensures
        a.color == b.color,
        a.endianess == b.endianess,
        a.width == b.width,
        a.height == b.height,
        a.pixel_depth == b.pixel_depth,
        a.frame_count == b.frame_count,
{
}

} // verus!
