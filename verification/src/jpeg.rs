use vstd::prelude::*;

use crate::buffer::ImBuffer;
use crate::error::ImageError;
use crate::pixel::RGBPixel;

verus! {

/// Relies on jpeg_decoder::Decoder: `decode` yields the raw interleaved
/// pixel bytes of the bitstream, and `info` its pixel dimensions once
/// decoding has succeeded. Every failure is collapsed into `None`; nothing
/// is assumed about the bytes that come back on success.
#[verifier::external_body]
fn decode_jpeg_bytes(data: &[u8]) -> (r: Option<(Vec<u8>, u16, u16)>) {
    let mut decoder = jpeg_decoder::Decoder::new(data);
    match decoder.decode() {
        Ok(pixels) => match decoder.info() {
            Some(info) => Some((pixels, info.width, info.height)),
            None => None,
        },
        Err(_) => None,
    }
}

impl ImBuffer<RGBPixel> {
    /// Decodes a JPEG bitstream into a color buffer with channel maximum 255.
    /// Fails with `Decode` when the bitstream cannot be decoded at all, and
    /// with `MalformedInput` when the decoder's output is not a whole number
    /// of RGB triplets matching the decoded dimensions (as for a grayscale or
    /// CMYK bitstream).
    pub fn from_jpeg(data: &[u8]) -> (r: Result<Self, ImageError>)
        ensures
            (r matches Ok(b) ==> b.wf() && b.dims.max == 255),
            (r matches Err(e) ==> e == ImageError::Decode || e == ImageError::MalformedInput),
    {
        match decode_jpeg_bytes(data) {
            None => Err(ImageError::Decode),
            Some((pixels, w, h)) => Self::construct(pixels, w as u32, h as u32),
        }
    }
}

} // verus!
