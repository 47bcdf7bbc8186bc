use rustray::image::{encode_png, ImageError};

const SIGNATURE: [u8; 8] = [137, 80, 78, 71, 13, 10, 26, 10];

#[test]
fn zero_width_is_refused() {
    assert_eq!(encode_png(0, 4, &vec![]), Err(ImageError::ZeroWidth));
}

#[test]
fn zero_height_is_refused() {
    assert_eq!(encode_png(4, 0, &vec![]), Err(ImageError::ZeroHeight));
}

#[test]
fn zero_width_is_reported_before_zero_height() {
    assert_eq!(encode_png(0, 0, &vec![]), Err(ImageError::ZeroWidth));
}

#[test]
fn short_buffer_is_refused() {
    assert_eq!(encode_png(2, 2, &vec![0; 11]), Err(ImageError::BufferSize));
}

#[test]
fn long_buffer_is_refused() {
    assert_eq!(encode_png(1, 1, &vec![0; 4]), Err(ImageError::BufferSize));
}

#[test]
fn single_pixel_is_framed_as_png() {
    let pixels = vec![255, 128, 0];
    let file = encode_png(1, 1, &pixels).unwrap();
    assert_eq!(file[..8], SIGNATURE);
    assert_ne!(file, pixels);
    assert_eq!(&file[12..16], b"IHDR");
    assert_eq!(file[16..24], [0, 0, 0, 1, 0, 0, 0, 1]);
    assert_eq!(&file[file.len() - 8..file.len() - 4], b"IEND");
}

#[test]
fn header_records_size_and_colour_type() {
    let pixels = vec![7; 3 * 3 * 2];
    let file = encode_png(3, 2, &pixels).unwrap();
    assert_eq!(file[16..24], [0, 0, 0, 3, 0, 0, 0, 2]);
    // bit depth 8, colour type 2 (truecolour)
    assert_eq!(file[24..26], [8, 2]);
}

#[test]
fn same_image_gives_same_file() {
    let pixels: Vec<u8> = (0..48).collect();
    assert_eq!(encode_png(4, 4, &pixels), encode_png(4, 4, &pixels));
}

#[test]
fn large_image_is_framed_as_png() {
    let (width, height) = (64u32, 48u32);
    let pixels: Vec<u8> = (0..3 * width * height).map(|i| (i % 251) as u8).collect();
    let file = encode_png(width, height, &pixels).unwrap();
    assert_eq!(file[..8], SIGNATURE);
    assert_eq!(file[16..24], [0, 0, 0, 64, 0, 0, 0, 48]);
}
