//! Framing a finished 8-bit RGB buffer as a PNG file.

use vstd::prelude::*;

verus! {

#[verifier::external_type_specification]
#[verifier::external_body]
pub struct ExEncodingError(png::EncodingError);

/// The bytes of the PNG file that the png crate, with its default options, writes
/// for an 8-bit RGB image of the given size whose rows are `data`.
pub uninterp spec fn png_rgb8(width: u32, height: u32, data: Seq<u8>) -> Seq<u8>;

/// Relies on png's `Encoder` (`new`, `set_color`, `set_depth`, `write_header`) and
/// `Writer` (`write_image_data`, `finish`) writing into memory: the output depends
/// on the size and the pixel bytes alone. `write_image_data` computes the expected
/// length in `usize`, which the requirement on `data` keeps from overflowing.
/// With a non-zero size, 8-bit RGB (a valid colour and depth pair), a buffer of the
/// expected length, sequence validation left off and a `Vec` as the sink (whose
/// writes do not fail), none of these calls returns an error.
#[verifier::external_body]
fn encode_rgb8(width: u32, height: u32, data: &[u8]) -> (r: Result<Vec<u8>, png::EncodingError>)
    requires
        data@.len() == 3 * width * height,
    ensures
        width > 0 && height > 0 ==> r is Ok,
        r matches Ok(b) ==> b@ == png_rgb8(width, height, data@),
{
    let mut out: Vec<u8> = Vec::new();
    let mut encoder = png::Encoder::new(&mut out, width, height);
    encoder.set_color(png::ColorType::Rgb);
    encoder.set_depth(png::BitDepth::Eight);
    let mut writer = encoder.write_header()?;
    writer.write_image_data(data)?;
    writer.finish()?;
    Ok(out)
}

/// Why an image could not be framed as PNG.
#[derive(Clone, Copy, Debug, PartialEq, Eq, Structural)]
pub enum ImageError {
    /// The image is zero pixels wide.
    ZeroWidth,
    /// The image is zero pixels high.
    ZeroHeight,
    /// The buffer does not hold three bytes for each pixel.
    BufferSize,
    /// The encoder reported a failure of its own; a buffer that matches a non-zero
    /// size never gives one.
    Encoding,
}

/// Frames `image`, three bytes (red, green, blue) per pixel, row after row from
/// the top, as the PNG file of a `width` by `height` image.
pub fn encode_png(width: u32, height: u32, image: &Vec<u8>) -> (r: Result<Vec<u8>, ImageError>)
    ensures
        width == 0 ==> r == Err::<Vec<u8>, ImageError>(ImageError::ZeroWidth),
        width > 0 && height == 0 ==> r == Err::<Vec<u8>, ImageError>(ImageError::ZeroHeight),
        width > 0 && height > 0 && image@.len() != 3 * width * height
            ==> r == Err::<Vec<u8>, ImageError>(ImageError::BufferSize),
        width > 0 && height > 0 && image@.len() == 3 * width * height ==> (r matches Ok(b)
            && b@ == png_rgb8(width, height, image@)),
{
    if width == 0 {
        return Err(ImageError::ZeroWidth);
    }
    if height == 0 {
        return Err(ImageError::ZeroHeight);
    }
    let w: u128 = width as u128;
    let h: u128 = height as u128;
    assert(w * h <= 0xFFFF_FFFFu128 * 0xFFFF_FFFFu128) by (nonlinear_arith)
        requires
            w <= 0xFFFF_FFFFu128,
            h <= 0xFFFF_FFFFu128,
    ;
    assert(3 * (w * h) == 3 * width * height) by (nonlinear_arith)
        requires
            w == width,
            h == height,
    ;
    if image.len() as u128 != 3 * (w * h) {
        return Err(ImageError::BufferSize);
    }
    match encode_rgb8(width, height, image.as_slice()) {
        Ok(b) => Ok(b),
        Err(_) => Err(ImageError::Encoding),
    }
}

} // verus!
