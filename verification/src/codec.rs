//! The decode side of the transcoder: source bytes are decoded into an RGBA
//! pixel buffer, or rejected with the format-cause failure. The decoding
//! itself is the image codec's work and is taken on trust; everything around
//! it is verified. The encode side (WebP, with a floating-point quality knob)
//! lives outside this crate and takes the pixel buffer from here.

use vstd::prelude::*;
use crate::outcome::TranscodeError;

verus! {

/// A decoded image: RGBA pixels, four bytes per pixel, row by row.
#[derive(Clone, Debug)]
pub struct DecodedImage {
    pub width: u32,
    pub height: u32,
    pub pixels: Vec<u8>,
}

impl DecodedImage {
    /// The buffer holds exactly four bytes for each of the width * height
    /// pixels.
    pub open spec fn wf(&self) -> bool {
        self.pixels@.len() == 4 * (self.width as int) * (self.height as int)
    }
}

/// The RGBA decoding of a byte string, if the bytes are a well-formed image of
/// a supported format: width, height, and the pixel bytes. Which value this is
/// for given bytes is the codec's definition and is not restated here; it
/// depends on the bytes alone.
pub uninterp spec fn rgba_decoding_of(data: Seq<u8>) -> Option<(u32, u32, Seq<u8>)>;

/// Relies on image::load_from_memory and image::DynamicImage::to_rgba8: the
/// decoding is a function of the input bytes alone, and the buffer they return
/// is allocated at exactly width * height four-byte pixels (the decoders
/// allocate the pixel region exactly, and the RGBA cast rebuilds it from the
/// pixel region alone).
#[verifier::external_body]
fn decode_rgba_bytes(data: &Vec<u8>) -> (decoded: Option<DecodedImage>)
    ensures
        match decoded {
            Some(img) => rgba_decoding_of(data@) == Some((img.width, img.height, img.pixels@))
                && img.wf(),
            None => rgba_decoding_of(data@) is None,
        },
{
    match image::load_from_memory(data.as_slice()) {
        Ok(img) => {
            let rgba = img.to_rgba8();
            let (width, height) = rgba.dimensions();
            Some(DecodedImage { width, height, pixels: rgba.into_raw() })
        },
        Err(_) => None,
    }
}

/// Decodes source bytes into RGBA pixels: exactly the byte strings with a
/// decoding decode, and every other input fails with the format cause, never
/// silently.
pub fn decode_image(data: &Vec<u8>) -> (decoded: Result<DecodedImage, TranscodeError>)
    ensures
        match decoded {
            Ok(img) => rgba_decoding_of(data@) == Some((img.width, img.height, img.pixels@))
                && img.wf(),
            Err(e) => e == TranscodeError::DecodeFailed && rgba_decoding_of(data@) is None,
        },
{
    match decode_rgba_bytes(data) {
        Some(img) => Ok(img),
        None => Err(TranscodeError::DecodeFailed),
    }
}

} // verus!
