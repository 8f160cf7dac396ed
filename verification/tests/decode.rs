use lunalign::bytes::{
    decode_samples_u16, decode_samples_u32, decode_samples_u8, read_i32_le, read_u16_le,
    read_u32_le,
};
use lunalign::decode::{Decode, DecodeError, Decoded, FrameImage, ImageType, Samples};
use lunalign::naming::{frame_file_name, output_path, push_zero_padded};
use lunalign::ser::{SerFile, SerHeader, HEADER_LEN};

fn header_bytes(fill: u8, fields: [i32; 6]) -> Vec<u8> {
    let mut buf = vec![fill; 178];
    let mut at = 18;
    for v in fields {
        buf[at..at + 4].copy_from_slice(&v.to_le_bytes());
        at += 4;
    }
    buf
}

fn capture(width: i32, height: i32, depth: i32, frames: i32, payload: &[u8]) -> Vec<u8> {
    let mut buf = header_bytes(0, [0, 0, width, height, depth, frames]);
    buf.extend_from_slice(payload);
    buf
}

#[test]
fn header_length_is_178() {
    assert_eq!(HEADER_LEN, 178);
}

#[test]
fn header_round_trip() {
    let buf = header_bytes(0, [3, 1, 640, 480, 16, 25]);
    let h = SerHeader::parse("moon.ser", &buf).unwrap();
    assert_eq!(h.name, "moon.ser");
    assert_eq!(h.color, 3);
    assert_eq!(h.endianess, 1);
    assert_eq!(h.width, 640);
    assert_eq!(h.height, 480);
    assert_eq!(h.pixel_depth, 16);
    assert_eq!(h.frame_count, 25);
}

#[test]
fn header_ignores_reserved_bytes() {
    let fields = [8, 0, 1920, 1080, 8, 1000];
    let a = SerHeader::parse("a", &header_bytes(0x00, fields)).unwrap();
    let b = SerHeader::parse("a", &header_bytes(0xff, fields)).unwrap();
    assert_eq!(a, b);
    assert_eq!(b.width, 1920);
    assert_eq!(b.frame_count, 1000);
}

#[test]
fn header_keeps_negative_and_extreme_values() {
    let fields = [-1, i32::MIN, i32::MAX, -2, 0x0102_0304, -123_456_789];
    let h = SerHeader::parse("x", &header_bytes(7, fields)).unwrap();
    assert_eq!(
        [h.color, h.endianess, h.width, h.height, h.pixel_depth, h.frame_count],
        fields
    );
}

#[test]
fn header_reads_only_the_first_178_bytes() {
    let mut buf = header_bytes(0, [0, 0, 2, 2, 8, 1]);
    buf.extend_from_slice(&[9, 9, 9, 9]);
    let h = SerHeader::parse("x", &buf).unwrap();
    assert_eq!(h.width, 2);
    assert_eq!(h.frame_count, 1);
}

#[test]
fn header_short_stream_is_truncated() {
    let buf = header_bytes(0, [0, 0, 2, 2, 8, 1]);
    assert_eq!(SerHeader::parse("x", &buf[..177]), Err(DecodeError::TruncatedInput));
    assert_eq!(SerHeader::parse("x", &[]), Err(DecodeError::TruncatedInput));
    assert!(SerHeader::parse("x", &buf[..178]).is_ok());
}

#[test]
fn header_dimensions_valid() {
    let ok = SerHeader::parse("x", &header_bytes(0, [0, 0, 1, 1, 8, 0])).unwrap();
    assert!(ok.dimensions_valid());
    let zero_w = SerHeader::parse("x", &header_bytes(0, [0, 0, 0, 1, 8, 0])).unwrap();
    assert!(!zero_w.dimensions_valid());
    let neg_h = SerHeader::parse("x", &header_bytes(0, [0, 0, 1, -1, 8, 0])).unwrap();
    assert!(!neg_h.dimensions_valid());
}

#[test]
fn little_endian_reads() {
    let b = [0x78, 0x56, 0x34, 0x12, 0xff, 0xff, 0xff, 0xff, 0x00, 0x00, 0x00, 0x80];
    assert_eq!(read_u16_le(&b, 0), 0x5678);
    assert_eq!(read_u16_le(&b, 2), 0x1234);
    assert_eq!(read_u32_le(&b, 0), 0x1234_5678);
    assert_eq!(read_u32_le(&b, 4), u32::MAX);
    assert_eq!(read_i32_le(&b, 0), 0x1234_5678);
    assert_eq!(read_i32_le(&b, 4), -1);
    assert_eq!(read_i32_le(&b, 8), i32::MIN);
    assert_eq!(read_i32_le(&b, 1), i32::from_le_bytes([0x56, 0x34, 0x12, 0xff]));
}

#[test]
fn samples_depth_8_are_the_bytes() {
    let frame = [0u8, 1, 127, 128, 255];
    assert_eq!(decode_samples_u8(&frame), vec![0u8, 1, 127, 128, 255]);
    assert_eq!(decode_samples_u8(&[]), Vec::<u8>::new());
}

#[test]
fn samples_depth_16_least_significant_first() {
    assert_eq!(decode_samples_u16(&[0x34, 0x12]), vec![0x1234u16]);
    assert_eq!(
        decode_samples_u16(&[0x34, 0x12, 0xff, 0xff, 0x00, 0x80]),
        vec![0x1234u16, 0xffff, 0x8000]
    );
}

#[test]
fn samples_depth_32_least_significant_first() {
    assert_eq!(decode_samples_u32(&[0x78, 0x56, 0x34, 0x12]), vec![0x1234_5678u32]);
    assert_eq!(
        decode_samples_u32(&[0x78, 0x56, 0x34, 0x12, 0xff, 0xff, 0xff, 0xff]),
        vec![0x1234_5678u32, u32::MAX]
    );
}

#[test]
fn samples_drop_an_incomplete_group() {
    assert_eq!(decode_samples_u16(&[1, 0, 2]), vec![1u16]);
    assert_eq!(decode_samples_u32(&[1, 0, 0, 0, 2, 0, 0]), vec![1u32]);
    assert_eq!(decode_samples_u16(&[1]), Vec::<u16>::new());
}

#[test]
fn samples_decode_by_type() {
    let frame = [0x78, 0x56, 0x34, 0x12];
    let bytes = Samples::decode(ImageType::UnsignedByte, &frame);
    assert_eq!(bytes, Samples::Bytes(vec![0x78, 0x56, 0x34, 0x12]));
    assert_eq!(bytes.len(), 4);
    assert_eq!(bytes.image_type(), ImageType::UnsignedByte);
    let shorts = Samples::decode(ImageType::UnsignedShort, &frame);
    assert_eq!(shorts, Samples::Shorts(vec![0x5678, 0x1234]));
    assert_eq!(shorts.len(), 2);
    assert_eq!(shorts.image_type(), ImageType::UnsignedShort);
    let longs = Samples::decode(ImageType::UnsignedLong, &frame);
    assert_eq!(longs, Samples::Longs(vec![0x1234_5678]));
    assert_eq!(longs.len(), 1);
    assert_eq!(longs.image_type(), ImageType::UnsignedLong);
}

#[test]
fn image_type_for_depth() {
    assert_eq!(ImageType::for_depth(8), Ok(ImageType::UnsignedByte));
    assert_eq!(ImageType::for_depth(16), Ok(ImageType::UnsignedShort));
    assert_eq!(ImageType::for_depth(32), Ok(ImageType::UnsignedLong));
    for depth in [12, 0, -8, 24, 64, 7, 9] {
        assert_eq!(ImageType::for_depth(depth), Err(DecodeError::UnsupportedPixelDepth));
    }
    assert_eq!(ImageType::UnsignedByte.bytes_per_sample(), 1);
    assert_eq!(ImageType::UnsignedShort.bytes_per_sample(), 2);
    assert_eq!(ImageType::UnsignedLong.bytes_per_sample(), 4);
}

#[test]
fn file_names_are_zero_padded_to_four_digits() {
    assert_eq!(frame_file_name(0), "decoded_0000.fits");
    assert_eq!(frame_file_name(7), "decoded_0007.fits");
    assert_eq!(frame_file_name(42), "decoded_0042.fits");
    assert_eq!(frame_file_name(999), "decoded_0999.fits");
    assert_eq!(frame_file_name(9999), "decoded_9999.fits");
}

#[test]
fn file_names_keep_longer_indices_whole() {
    assert_eq!(frame_file_name(10000), "decoded_10000.fits");
    assert_eq!(frame_file_name(123456), "decoded_123456.fits");
    assert_eq!(frame_file_name(u32::MAX), "decoded_4294967295.fits");
}

#[test]
fn file_names_agree_with_std_formatting() {
    for i in [0u32, 1, 9, 10, 99, 100, 1000, 1001, 9999, 10000, 65535, 2147483647] {
        assert_eq!(frame_file_name(i), format!("decoded_{:04}.fits", i));
    }
}

#[test]
fn push_zero_padded_appends() {
    let mut s = String::from("n=");
    push_zero_padded(&mut s, 5, 3);
    assert_eq!(s, "n=005");
    push_zero_padded(&mut s, 0, 0);
    assert_eq!(s, "n=0050");
    push_zero_padded(&mut s, 1234, 2);
    assert_eq!(s, "n=00501234");
}

#[test]
fn output_path_joins_directory_and_name() {
    assert_eq!(output_path("./process/input_fits", 3), "./process/input_fits/decoded_0003.fits");
    assert_eq!(output_path("out", 0), "out/decoded_0000.fits");
}

fn open(width: i32, height: i32, depth: i32, frames: i32) -> SerFile {
    let h = SerHeader::parse("t", &header_bytes(0, [0, 0, width, height, depth, frames])).unwrap();
    SerFile::new(h).unwrap()
}

#[test]
fn ser_file_refuses_unsupported_depth() {
    let h = SerHeader::parse("t", &header_bytes(0, [0, 0, 4, 4, 12, 1])).unwrap();
    assert_eq!(SerFile::new(h).err(), Some(DecodeError::UnsupportedPixelDepth));
}

#[test]
fn ser_file_frame_len_and_count() {
    let f = open(640, 480, 16, 25);
    assert_eq!(f.frame_len(), 614_400);
    assert_eq!(f.frame_count(), 25);
    assert_eq!(f.image_type(), ImageType::UnsignedShort);
    assert_eq!(f.header().width, 640);
    assert_eq!(open(3, 2, 8, 0).frame_len(), 6);
    assert_eq!(open(3, 2, 32, -4).frame_len(), 24);
    assert_eq!(open(3, 2, 32, -4).frame_count(), 0);
    assert_eq!(open(i32::MAX, i32::MAX, 32, 1).frame_len(), 4 * 2147483647u64 * 2147483647u64);
}

#[test]
fn decode_frame_declares_height_then_width() {
    let f = open(3, 2, 16, 1);
    let stream: Vec<u8> = (0u8..12).collect();
    let image = f.decode_frame(5, &stream, "out").unwrap();
    assert_eq!(image.path, "out/decoded_0005.fits");
    assert_eq!(image.height, 2);
    assert_eq!(image.width, 3);
    assert_eq!(image.samples.len(), 6);
    assert_eq!(
        image.samples,
        Samples::Shorts(vec![0x0100, 0x0302, 0x0504, 0x0706, 0x0908, 0x0b0a])
    );
}

#[test]
fn decode_frame_takes_the_frame_at_the_start() {
    let f = open(2, 1, 8, 2);
    let image = f.decode_frame(0, &[10, 20, 30, 40], "d").unwrap();
    assert_eq!(image.samples, Samples::Bytes(vec![10, 20]));
}

#[test]
fn decode_frame_short_stream_is_truncated() {
    let f = open(2, 2, 32, 1);
    assert_eq!(f.decode_frame(0, &[0u8; 15], "d"), Err(DecodeError::TruncatedInput));
    assert_eq!(f.decode_frame(0, &[], "d"), Err(DecodeError::TruncatedInput));
    assert!(f.decode_frame(0, &[0u8; 16], "d").is_ok());
}

#[test]
fn decode_ignores_the_endianness_flag() {
    let mut a = header_bytes(0, [0, 0, 1, 1, 16, 1]);
    a.extend_from_slice(&[0x34, 0x12]);
    let mut b = header_bytes(0, [0, 1, 1, 1, 16, 1]);
    b.extend_from_slice(&[0x34, 0x12]);
    let da = SerFile::decode_to_dir("s", &a, "o");
    let db = SerFile::decode_to_dir("s", &b, "o");
    assert_eq!(da.images, db.images);
    assert_eq!(da.images[0].samples, Samples::Shorts(vec![0x1234]));
}

#[test]
fn decode_whole_capture_gives_one_image_per_frame() {
    let payload: Vec<u8> = (1u8..=12).collect();
    let input = capture(2, 2, 8, 3, &payload);
    assert!(SerFile::is_admitted(&input));
    let d = SerFile::decode_to_dir("cap.ser", &input, "out");
    assert_eq!(d.failure, None);
    assert_eq!(d.header.as_ref().unwrap().name, "cap.ser");
    assert_eq!(d.header.as_ref().unwrap().frame_count, 3);
    assert_eq!(d.images.len(), 3);
    for (i, image) in d.images.iter().enumerate() {
        assert_eq!(image.path, format!("out/decoded_{:04}.fits", i));
        assert_eq!((image.height, image.width), (2, 2));
        let first = (4 * i + 1) as u8;
        assert_eq!(
            image.samples,
            Samples::Bytes(vec![first, first + 1, first + 2, first + 3])
        );
    }
}

#[test]
fn decode_whole_capture_depth_32() {
    let input = capture(1, 2, 32, 1, &[0x78, 0x56, 0x34, 0x12, 1, 0, 0, 0]);
    let d = SerFile::decode_to_dir("c", &input, "o");
    assert_eq!(d.failure, None);
    assert_eq!(
        d.images,
        vec![FrameImage {
            path: String::from("o/decoded_0000.fits"),
            height: 2,
            width: 1,
            samples: Samples::Longs(vec![0x1234_5678, 1]),
        }]
    );
}

#[test]
fn decode_zero_frames_succeeds_with_no_image() {
    let d = SerFile::decode_to_dir("c", &capture(4, 4, 16, 0, &[]), "o");
    assert_eq!(d.failure, None);
    assert!(d.images.is_empty());
    let d = SerFile::decode_to_dir("c", &capture(4, 4, 16, -3, &[1, 2, 3]), "o");
    assert_eq!(d.failure, None);
    assert!(d.images.is_empty());
}

#[test]
fn decode_leaves_trailing_bytes_alone() {
    let d = SerFile::decode_to_dir("c", &capture(1, 1, 8, 2, &[5, 6, 7, 8]), "o");
    assert_eq!(d.failure, None);
    assert_eq!(d.images.len(), 2);
    assert_eq!(d.images[1].samples, Samples::Bytes(vec![6]));
}

#[test]
fn decode_truncated_first_frame_gives_no_image() {
    let d = SerFile::decode_to_dir("c", &capture(2, 2, 16, 1, &[0u8; 7]), "o");
    assert_eq!(d.failure, Some(DecodeError::TruncatedInput));
    assert!(d.images.is_empty());
    assert!(d.header.is_some());
}

#[test]
fn decode_truncated_later_frame_keeps_earlier_images() {
    let d = SerFile::decode_to_dir("c", &capture(2, 1, 8, 3, &[1, 2, 3, 4, 5]), "o");
    assert_eq!(d.failure, Some(DecodeError::TruncatedInput));
    assert_eq!(d.images.len(), 2);
    assert_eq!(d.images[0].samples, Samples::Bytes(vec![1, 2]));
    assert_eq!(d.images[1].samples, Samples::Bytes(vec![3, 4]));
    assert_eq!(d.images[1].path, "o/decoded_0001.fits");
}

#[test]
fn decode_truncated_header() {
    let input = capture(2, 2, 8, 1, &[]);
    let d = SerFile::decode_to_dir("c", &input[..100], "o");
    assert_eq!(
        d,
        Decoded { header: None, images: vec![], failure: Some(DecodeError::TruncatedInput) }
    );
}

#[test]
fn decode_depth_12_is_unsupported() {
    let d = SerFile::decode_to_dir("c", &capture(2, 2, 12, 2, &[0u8; 64]), "o");
    assert_eq!(d.failure, Some(DecodeError::UnsupportedPixelDepth));
    assert!(d.images.is_empty());
    assert_eq!(d.header.unwrap().pixel_depth, 12);
}

#[test]
fn decode_twice_gives_the_same_images() {
    let payload: Vec<u8> = (0u8..16).collect();
    let input = capture(2, 2, 16, 2, &payload);
    let first = SerFile::decode_to_dir("c", &input, "o");
    let second = SerFile::decode_to_dir("c", &input, "o");
    assert_eq!(first, second);
    assert_eq!(second.images.len(), 2);
    assert_ne!(second.images[0].path, second.images[1].path);
}

#[test]
fn admission_asks_for_positive_dimensions() {
    assert!(SerFile::is_admitted(&capture(1, 1, 8, 0, &[])));
    assert!(SerFile::is_admitted(&capture(1, 1, 12, 0, &[])));
    assert!(SerFile::is_admitted(&[0u8; 10]));
    assert!(!SerFile::is_admitted(&capture(0, 1, 8, 0, &[])));
    assert!(!SerFile::is_admitted(&capture(1, 0, 8, 0, &[])));
    assert!(!SerFile::is_admitted(&capture(-1, -1, 8, 0, &[])));
}
