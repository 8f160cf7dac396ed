use lunalign::decode::{Decode, DecodeError, FrameImage, Samples};
use lunalign::ser::SerFile;
use lunalign::stream::{Action, DecodeState, Event};

fn capture_bytes(width: i32, height: i32, depth: i32, frames: i32, payload: &[u8]) -> Vec<u8> {
    let mut buf = vec![0u8; 178];
    let mut at = 26;
    for v in [width, height, depth, frames] {
        buf[at..at + 4].copy_from_slice(&v.to_le_bytes());
        at += 4;
    }
    buf.extend_from_slice(payload);
    buf
}

/// Runs a decode over a capture held in memory. Writes succeed until
/// `fail_write_at` images have been written.
fn run(input: &[u8], fail_write_at: Option<usize>) -> (Vec<FrameImage>, Result<(), DecodeError>) {
    let mut written = Vec::new();
    let mut offset = 0usize;
    let (mut state, mut action) = DecodeState::start();
    loop {
        let event = match action {
            Action::Read(len) => {
                let left = (input.len() - offset) as u64;
                let take = if len < left { len } else { left } as usize;
                let bytes = input[offset..offset + take].to_vec();
                offset += take;
                Event::Bytes(bytes)
            }
            Action::Write(image) => {
                if fail_write_at == Some(written.len()) {
                    Event::WriteFailed
                } else {
                    written.push(image);
                    Event::Written
                }
            }
            Action::Finish => return (written, Ok(())),
            Action::Fail(e) => return (written, Err(e)),
        };
        let next = state.step(event, "cap.ser", "out");
        state = next.0;
        action = next.1;
    }
}

#[test]
fn stream_starts_by_asking_for_the_header() {
    let (state, action) = DecodeState::start();
    assert!(matches!(state, DecodeState::AwaitingHeader));
    assert_eq!(action, Action::Read(178));
}

#[test]
fn stream_asks_for_one_frame_at_a_time() {
    let input = capture_bytes(3, 2, 16, 2, &[0u8; 24]);
    let (state, _) = DecodeState::start();
    let (state, action) = state.step(Event::Bytes(input[..178].to_vec()), "cap.ser", "out");
    assert_eq!(action, Action::Read(12));
    match &state {
        DecodeState::AwaitingFrame { file, index } => {
            assert_eq!(*index, 0);
            assert_eq!(file.header().name, "cap.ser");
            assert_eq!(file.header().height, 2);
        }
        _ => panic!("the first frame should be awaited"),
    }
    let (state, action) = state.step(Event::Bytes(input[178..190].to_vec()), "cap.ser", "out");
    match &action {
        Action::Write(image) => {
            assert_eq!(image.path, "out/decoded_0000.fits");
            assert_eq!((image.height, image.width), (2, 3));
            assert_eq!(image.samples, Samples::Shorts(vec![0; 6]));
        }
        _ => panic!("the first image should be handed out"),
    }
    assert!(matches!(state, DecodeState::AwaitingWrite { index: 0, .. }));
    let (state, action) = state.step(Event::Written, "cap.ser", "out");
    assert_eq!(action, Action::Read(12));
    assert!(matches!(state, DecodeState::AwaitingFrame { index: 1, .. }));
    let (state, _) = state.step(Event::Bytes(input[190..].to_vec()), "cap.ser", "out");
    let (state, action) = state.step(Event::Written, "cap.ser", "out");
    assert_eq!(action, Action::Finish);
    assert!(matches!(state, DecodeState::Finished));
}

#[test]
fn stream_writes_one_image_per_frame() {
    let payload: Vec<u8> = (0u8..40).collect();
    let input = capture_bytes(2, 2, 16, 5, &payload);
    let (written, result) = run(&input, None);
    assert_eq!(result, Ok(()));
    assert_eq!(written.len(), 5);
    for (i, image) in written.iter().enumerate() {
        assert_eq!(image.path, format!("out/decoded_{:04}.fits", i));
    }
}

#[test]
fn stream_agrees_with_whole_capture_decode() {
    let payload: Vec<u8> = (0u8..30).collect();
    for frames in [0, 1, 3, 4] {
        let input = capture_bytes(2, 1, 32, frames, &payload);
        let whole = SerFile::decode_to_dir("cap.ser", &input, "out");
        let (written, result) = run(&input, None);
        assert_eq!(written, whole.images);
        assert_eq!(result.err(), whole.failure);
    }
}

#[test]
fn stream_zero_frames_finishes_at_once() {
    let (written, result) = run(&capture_bytes(2, 2, 8, 0, &[]), None);
    assert_eq!(result, Ok(()));
    assert!(written.is_empty());
}

#[test]
fn stream_short_header_is_truncated() {
    let input = capture_bytes(2, 2, 8, 1, &[]);
    let (written, result) = run(&input[..50], None);
    assert_eq!(result, Err(DecodeError::TruncatedInput));
    assert!(written.is_empty());
}

#[test]
fn stream_short_frame_is_truncated_and_not_written() {
    let input = capture_bytes(2, 2, 8, 3, &[1, 2, 3, 4, 5, 6, 7]);
    let (written, result) = run(&input, None);
    assert_eq!(result, Err(DecodeError::TruncatedInput));
    assert_eq!(written.len(), 1);
    assert_eq!(written[0].samples, Samples::Bytes(vec![1, 2, 3, 4]));
    let (written, result) = run(&capture_bytes(2, 2, 8, 1, &[1, 2, 3]), None);
    assert_eq!(result, Err(DecodeError::TruncatedInput));
    assert!(written.is_empty());
}

#[test]
fn stream_depth_12_fails_before_any_frame() {
    let input = capture_bytes(2, 2, 12, 2, &[0u8; 32]);
    let (state, _) = DecodeState::start();
    let (state, action) = state.step(Event::Bytes(input[..178].to_vec()), "cap.ser", "out");
    assert_eq!(action, Action::Fail(DecodeError::UnsupportedPixelDepth));
    assert!(matches!(state, DecodeState::Failed(DecodeError::UnsupportedPixelDepth)));
    let (written, result) = run(&input, None);
    assert_eq!(result, Err(DecodeError::UnsupportedPixelDepth));
    assert!(written.is_empty());
}

#[test]
fn stream_write_failure_stops_the_decode() {
    let input = capture_bytes(1, 1, 8, 3, &[1, 2, 3]);
    let (written, result) = run(&input, Some(1));
    assert_eq!(result, Err(DecodeError::OutputWriteFailure));
    assert_eq!(written.len(), 1);
}
