use bagimages::common::cursor::Cursor;
use bagimages::common::error::AppError;
use bagimages::sensor_msgs::{Header, Image};

fn push_chunk(out: &mut Vec<u8>, body: &[u8]) {
    out.extend_from_slice(&(body.len() as u32).to_le_bytes());
    out.extend_from_slice(body);
}

fn header_bytes(seq: u32, sec: u32, nsec: u32, frame_id: &str) -> Vec<u8> {
    let mut out = Vec::new();
    out.extend_from_slice(&seq.to_le_bytes());
    out.extend_from_slice(&sec.to_le_bytes());
    out.extend_from_slice(&nsec.to_le_bytes());
    push_chunk(&mut out, frame_id.as_bytes());
    out
}

fn image_bytes(
    seq: u32,
    sec: u32,
    nsec: u32,
    frame_id: &str,
    height: u32,
    width: u32,
    encoding: &str,
    endian: u8,
    step: u32,
    redundant: u32,
    pixels: &[u8],
) -> Vec<u8> {
    let mut out = header_bytes(seq, sec, nsec, frame_id);
    out.extend_from_slice(&height.to_le_bytes());
    out.extend_from_slice(&width.to_le_bytes());
    push_chunk(&mut out, encoding.as_bytes());
    out.push(endian);
    out.extend_from_slice(&step.to_le_bytes());
    out.extend_from_slice(&redundant.to_le_bytes());
    out.extend_from_slice(pixels);
    out
}

#[test]
fn header_round_trips() {
    let data = header_bytes(42, 7, 250_000_000, "camera_frame");
    let mut c = Cursor::new(&data);
    let h = Header::from_reader(&mut c).unwrap();
    assert_eq!(h.seq, 42);
    assert_eq!(h.stamp, 7u64 * 1_000_000_000 + 250_000_000);
    assert_eq!(h.frame_id, "camera_frame");
}

#[test]
fn header_keeps_unicode_frame_id() {
    let data = header_bytes(1, 0, 0, "caméra");
    let mut c = Cursor::new(&data);
    let h = Header::from_reader(&mut c).unwrap();
    assert_eq!(h.frame_id, "caméra");
}

#[test]
fn header_truncated_fails_out_of_bounds() {
    let data = header_bytes(42, 7, 9, "frame");
    let mut c = Cursor::new(&data[..10]);
    assert!(matches!(Header::from_reader(&mut c), Err(AppError::OutOfBounds)));
}

#[test]
fn header_invalid_utf8_frame_id_fails() {
    let mut data = Vec::new();
    data.extend_from_slice(&1u32.to_le_bytes());
    data.extend_from_slice(&0u32.to_le_bytes());
    data.extend_from_slice(&0u32.to_le_bytes());
    data.extend_from_slice(&2u32.to_le_bytes());
    data.extend_from_slice(&[0xffu8, 0xfe]);
    let mut c = Cursor::new(&data);
    assert!(matches!(Header::from_reader(&mut c), Err(AppError::InvalidUtf8String)));
}

#[test]
fn image_round_trips_every_field() {
    let pixels: Vec<u8> = (0..12u8).collect();
    // height 2, step 6: the pixel matrix is height * step = 12 bytes.
    let data = image_bytes(5, 100, 42, "cam", 2, 2, "rgb8", 0, 6, 12, &pixels);
    let mut c = Cursor::new(&data);
    let img = Image::from_reader(&mut c).unwrap();
    assert_eq!(img.header.seq, 5);
    assert_eq!(img.header.stamp, 100_000_000_042);
    assert_eq!(img.header.frame_id, "cam");
    assert_eq!(img.height, 2);
    assert_eq!(img.width, 2);
    assert_eq!(img.encoding, "rgb8");
    assert!(!img.is_bigendian);
    assert_eq!(img.step, 6);
    assert_eq!(img.data, pixels);
    assert_eq!(img.data.len() as u64, img.height as u64 * img.step as u64);
}

#[test]
fn image_redundant_length_field_is_discarded() {
    let pixels = [1u8, 2, 3];
    // The redundant length field carries nonsense; decoding ignores its value.
    let a = image_bytes(1, 0, 0, "f", 1, 1, "rgb8", 1, 3, 0xdead_beef, &pixels);
    let mut c = Cursor::new(&a);
    let img = Image::from_reader(&mut c).unwrap();
    assert!(img.is_bigendian);
    assert_eq!(img.data, &pixels);
}

#[test]
fn image_pixel_data_shorter_than_declared_fails() {
    let pixels = [1u8, 2, 3];
    let data = image_bytes(1, 0, 0, "f", 2, 1, "rgb8", 0, 3, 6, &pixels);
    // height * step = 6 but only 3 pixel bytes follow.
    let mut c = Cursor::new(&data);
    assert!(matches!(Image::from_reader(&mut c), Err(AppError::OutOfBounds)));
}

#[test]
fn image_invalid_utf8_encoding_fails() {
    let mut data = header_bytes(1, 0, 0, "f");
    data.extend_from_slice(&1u32.to_le_bytes());
    data.extend_from_slice(&1u32.to_le_bytes());
    data.extend_from_slice(&1u32.to_le_bytes());
    data.push(0x80);
    data.push(0);
    data.extend_from_slice(&3u32.to_le_bytes());
    data.extend_from_slice(&0u32.to_le_bytes());
    data.extend_from_slice(&[1u8, 2, 3]);
    let mut c = Cursor::new(&data);
    assert!(matches!(Image::from_reader(&mut c), Err(AppError::InvalidUtf8String)));
}

#[test]
fn ros_type_is_the_image_type_string() {
    assert_eq!(Image::ros_type(), "sensor_msgs/Image");
}
