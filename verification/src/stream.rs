//! Decoding a capture piece by piece: the caller reads the stream and writes
//! the image files, and is told at each step what to do next.

use crate::bytes::le_i32_at;
use crate::decode::{Decode, DecodeError, FrameImage, ImageType};
use crate::ser::{lemma_frame_len_positive, SerFile, SerHeader, HEADER_LEN};
use vstd::prelude::*;

verus! {

/// What the caller is asked to do next.
#[derive(Debug, Clone, PartialEq, Eq)]
pub enum Action {
    /// Read exactly this many bytes from the capture, or all that is left
    /// if the stream ends before, and hand them over.
    Read(u64),
    /// Write this image file and report whether that worked.
    Write(FrameImage),
    /// Stop: every frame has been written.
    Finish,
    /// Stop: the decode has failed.
    Fail(DecodeError),
}

/// What the caller reports back.
#[derive(Debug, Clone, PartialEq, Eq)]
pub enum Event {
    /// The bytes that were read.
    Bytes(Vec<u8>),
    /// The image file was written.
    Written,
    /// The image file could not be created, opened or written.
    WriteFailed,
}

/// Where a decode stands.
#[derive(Debug, Clone)]
pub enum DecodeState {
    /// The header has been asked for.
    AwaitingHeader,
    /// The bytes of frame `index` have been asked for.
    AwaitingFrame { file: SerFile, index: u32 },
    /// The image of frame `index` has been handed out for writing.
    AwaitingWrite { file: SerFile, index: u32 },
    /// Every frame has been written.
    Finished,
    /// The decode has failed.
    Failed(DecodeError),
}

/// What follows once the frames before `index` are written: the read of
/// frame `index` if the header announces it, the end otherwise.
pub open spec fn is_turn_to_frame(
    file: SerFile,
    index: int,
    post: DecodeState,
    action: Action,
) -> bool {
    if index < file.spec_header().spec_frame_total() {
        &&& post == (DecodeState::AwaitingFrame { file, index: index as u32 })
        &&& action == Action::Read(file.spec_header().spec_frame_len() as u64)
    } else {
        post == DecodeState::Finished && action == Action::Finish
    }
}

/// The decode has failed with `error`: the state and the action both carry
/// it.
pub open spec fn is_failure(error: DecodeError, post: DecodeState, action: Action) -> bool {
    post == DecodeState::Failed(error) && action == Action::Fail(error)
}

/// Whether a decode of the capture `input`, whose header is `header`, can
/// stand at `state` with `action` pending, once `images` have been handed
/// out and written and `offset` bytes have been read: the images are those
/// of the first frames, the reads have followed the stream without a gap,
/// and a decode that is over has the outcome of the whole capture.
pub open spec fn stands_at(
    header: SerHeader,
    state: DecodeState,
    action: Action,
    images: Seq<FrameImage>,
    offset: int,
    source: Seq<char>,
    input: Seq<u8>,
    output: Seq<char>,
) -> bool {
    match state {
        DecodeState::AwaitingHeader => {
            &&& action == Action::Read(HEADER_LEN as u64)
            &&& offset == 0
            &&& images.len() == 0
        },
        DecodeState::AwaitingFrame { file, index } => {
            &&& file.wf()
            &&& file.spec_header().is_parse_of(source, input)
            &&& index < header.spec_frame_total()
            &&& images.len() == index
            &&& offset == HEADER_LEN + index * header.spec_frame_len()
            &&& offset <= input.len()
            &&& action == Action::Read(header.spec_frame_len() as u64)
            &&& header.holds_first_frames(images, input, output)
        },
        DecodeState::AwaitingWrite { file, index } => {
            &&& file.wf()
            &&& file.spec_header().is_parse_of(source, input)
            &&& index < header.spec_frame_total()
            &&& images.len() == index
            &&& offset == HEADER_LEN + (index + 1) * header.spec_frame_len()
            &&& offset <= input.len()
            &&& action matches Action::Write(image)
            &&& header.is_image_of(image, index as int, header.spec_frame(input, index as int), output)
            &&& header.holds_first_frames(images, input, output)
        },
        DecodeState::Finished => {
            &&& action == Action::Finish
            &&& header.is_decoding(images, None, input, output)
        },
        DecodeState::Failed(error) => {
            &&& action == Action::Fail(error)
            &&& header.is_decoding(images, Some(error), input, output)
        },
    }
}

/// A bound on the steps that a decode of `total` frames has left.
pub open spec fn steps_left(state: DecodeState, total: int) -> int {
    match state {
        DecodeState::AwaitingHeader => 2 * total + 2,
        DecodeState::AwaitingFrame { index, .. } => 2 * (total - index) + 1,
        DecodeState::AwaitingWrite { index, .. } => 2 * (total - index),
        DecodeState::Finished => 0,
        DecodeState::Failed(_) => 0,
    }
}

/// Where a read of `len` bytes at `offset` ends in a stream of `stream_len`
/// bytes: after `len` bytes, or at the end of the stream if that comes first.
pub open spec fn read_end(offset: int, len: int, stream_len: int) -> int {
    if offset + len < stream_len {
        offset + len
    } else {
        stream_len
    }
}

/// A read that follows the stream keeps the decode on course: where a decode
/// of `input` stands at a pending read, and the bytes handed over are those
/// that the stream holds next, the step leads to a state at which the decode
/// of `input` stands again, that many bytes further on.
pub proof fn lemma_read_keeps_course(
    header: SerHeader,
    state: DecodeState,
    len: u64,
    images: Seq<FrameImage>,
    offset: int,
    source: Seq<char>,
    input: Seq<u8>,
    output: Seq<char>,
    bytes: Vec<u8>,
    post: DecodeState,
    next: Action,
)
    requires
        input.len() >= HEADER_LEN,
        header.is_parse_of(source, input),
        header.has_valid_dimensions(),
        0 <= offset <= input.len(),
        stands_at(header, state, Action::Read(len), images, offset, source, input, output),
        bytes@ == input.subrange(offset, read_end(offset, len as int, input.len() as int)),
        state.steps_to(Event::Bytes(bytes), source, output, post, next),
    ensures
        stands_at(
            header,
            post,
            next,
            images,
            read_end(offset, len as int, input.len() as int),
            source,
            input,
            output,
        ),
{
    let frame_len: int = header.spec_frame_len();
    match state {
        DecodeState::AwaitingHeader => {
            assert(bytes@ == input.subrange(0, HEADER_LEN as int));
        },
        DecodeState::AwaitingFrame { file, index } => {
            lemma_frame_len_positive(header);
            assert((index + 1) * frame_len == index * frame_len + frame_len) by (nonlinear_arith);
            if bytes@.len() >= frame_len {
                assert(bytes@.subrange(0, frame_len) =~= header.spec_frame(input, index as int));
            }
        },
        _ => {},
    }
}

/// A write that worked keeps the decode on course: where a decode of `input`
/// stands at a pending write, the step on its success leads to a state at
/// which the decode stands again, the image now among those written.
pub proof fn lemma_write_keeps_course(
    header: SerHeader,
    state: DecodeState,
    image: FrameImage,
    images: Seq<FrameImage>,
    offset: int,
    source: Seq<char>,
    input: Seq<u8>,
    output: Seq<char>,
    post: DecodeState,
    next: Action,
)
    requires
        input.len() >= HEADER_LEN,
        header.is_parse_of(source, input),
        header.has_valid_dimensions(),
        stands_at(header, state, Action::Write(image), images, offset, source, input, output),
        state.steps_to(Event::Written, source, output, post, next),
    ensures
        stands_at(header, post, next, images.push(image), offset, source, input, output),
{
}

/// A write that failed ends the decode with that failure, whatever came
/// before.
pub proof fn lemma_failed_write_ends_decode(
    state: DecodeState,
    source: Seq<char>,
    output: Seq<char>,
    post: DecodeState,
    next: Action,
)
    requires
        state.steps_to(Event::WriteFailed, source, output, post, next),
    ensures
        post == DecodeState::Failed(DecodeError::OutputWriteFailure),
        next == Action::Fail(DecodeError::OutputWriteFailure),
{
}

impl DecodeState {
    /// A state that carries a capture carries an accepted header and the
    /// index of a frame that the header announces.
    pub open spec fn wf(&self) -> bool {
        match self {
            DecodeState::AwaitingFrame { file, index } => file.wf() && *index
                < file.spec_header().spec_frame_total(),
            DecodeState::AwaitingWrite { file, index } => file.wf() && *index
                < file.spec_header().spec_frame_total(),
            _ => true,
        }
    }

    /// Whether `event` answers the action that led to this state: bytes
    /// answer a read, and a header read must show positive dimensions; the
    /// fate of the file answers a write. A decode that is over takes no
    /// event.
    pub open spec fn accepts(&self, event: Event) -> bool {
        match (self, event) {
            (DecodeState::AwaitingHeader, Event::Bytes(bytes)) => <SerFile as Decode>::admits(
                bytes@,
            ),
            (DecodeState::AwaitingFrame { .. }, Event::Bytes(_)) => true,
            (DecodeState::AwaitingWrite { .. }, Event::Written) => true,
            (DecodeState::AwaitingWrite { .. }, Event::WriteFailed) => true,
            _ => false,
        }
    }

    /// Whether `post` and `action` follow from this state on `event`, for
    /// the capture known as `source` and the output directory `output`.
    pub open spec fn steps_to(
        &self,
        event: Event,
        source: Seq<char>,
        output: Seq<char>,
        post: DecodeState,
        action: Action,
    ) -> bool {
        match (self, event) {
            (DecodeState::AwaitingHeader, Event::Bytes(bytes)) => {
                if bytes@.len() < HEADER_LEN {
                    is_failure(DecodeError::TruncatedInput, post, action)
                } else if ImageType::spec_for_depth(le_i32_at(bytes@, 34)).is_none() {
                    is_failure(DecodeError::UnsupportedPixelDepth, post, action)
                } else if le_i32_at(bytes@, 38) > 0 {
                    &&& post matches DecodeState::AwaitingFrame { file, index }
                    &&& index == 0
                    &&& file.wf()
                    &&& file.spec_header().is_parse_of(source, bytes@)
                    &&& action == Action::Read(file.spec_header().spec_frame_len() as u64)
                } else {
                    post == DecodeState::Finished && action == Action::Finish
                }
            },
            (DecodeState::AwaitingFrame { file, index }, Event::Bytes(bytes)) => {
                if bytes@.len() < file.spec_header().spec_frame_len() {
                    is_failure(DecodeError::TruncatedInput, post, action)
                } else {
                    &&& post == (DecodeState::AwaitingWrite { file: *file, index: *index })
                    &&& action matches Action::Write(image)
                    &&& file.spec_header().is_image_of(
                        image,
                        *index as int,
                        bytes@.subrange(0, file.spec_header().spec_frame_len()),
                        output,
                    )
                }
            },
            (DecodeState::AwaitingWrite { file, index }, Event::Written) => is_turn_to_frame(
                *file,
                *index + 1,
                post,
                action,
            ),
            (DecodeState::AwaitingWrite { .. }, Event::WriteFailed) => is_failure(
                DecodeError::OutputWriteFailure,
                post,
                action,
            ),
            _ => false,
        }
    }

    /// The start of a decode: the header is asked for.
    pub fn start() -> (r: (DecodeState, Action))
        ensures
            r.0 == DecodeState::AwaitingHeader,
            r.1 == Action::Read(HEADER_LEN as u64),
    {
        (DecodeState::AwaitingHeader, Action::Read(HEADER_LEN as u64))
    }

    /// Moves on to frame `index`, or ends the decode after the last frame.
    fn turn_to_frame(file: SerFile, index: u32) -> (r: (DecodeState, Action))
        requires
            file.wf(),
        ensures
            is_turn_to_frame(file, index as int, r.0, r.1),
            r.0.wf(),
    {
        if index < file.frame_count() {
            let len: u64 = file.frame_len();
            (DecodeState::AwaitingFrame { file, index }, Action::Read(len))
        } else {
            (DecodeState::Finished, Action::Finish)
        }
    }

    /// Takes the answer to the last action and says what to do next.
    pub fn step(self, event: Event, source: &str, output: &str) -> (r: (DecodeState, Action))
        requires
            self.wf(),
            self.accepts(event),
        ensures
            self.steps_to(event, source@, output@, r.0, r.1),
            r.0.wf(),
    {
        match (self, event) {
            (DecodeState::AwaitingHeader, Event::Bytes(bytes)) => {
                let header: SerHeader = match SerHeader::parse(source, bytes.as_slice()) {
                    Ok(h) => h,
                    Err(e) => {
                        return (DecodeState::Failed(e), Action::Fail(e));
                    },
                };
                match SerFile::new(header) {
                    Ok(file) => Self::turn_to_frame(file, 0),
                    Err(e) => (DecodeState::Failed(e), Action::Fail(e)),
                }
            },
            (DecodeState::AwaitingFrame { file, index }, Event::Bytes(bytes)) => {
                match file.decode_frame(index, bytes.as_slice(), output) {
                    Ok(image) => (DecodeState::AwaitingWrite { file, index }, Action::Write(image)),
                    Err(e) => (DecodeState::Failed(e), Action::Fail(e)),
                }
            },
            (DecodeState::AwaitingWrite { file, index }, Event::Written) => Self::turn_to_frame(
                file,
                index + 1,
            ),
            (DecodeState::AwaitingWrite { file, index }, Event::WriteFailed) => (
                DecodeState::Failed(DecodeError::OutputWriteFailure),
                Action::Fail(DecodeError::OutputWriteFailure),
            ),
            _ => (DecodeState::Finished, Action::Finish),
        }
    }
}

} // verus!
