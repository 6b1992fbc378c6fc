//! Still-image post-processing: cropping the fixed-height watermark band
//! off the bottom of a downloaded image and re-encoding it as JPEG.
//!
//! Decoding, cropping and encoding are deterministic work of the `image`
//! crate, named and called behind trusted wrappers; this library's own
//! decisions — how tall the result must be, when an image is too short,
//! which error each stage raises — are verified, and the contract of
//! `strip_watermark` fixes the result for every outcome of the crate's.
use vstd::prelude::*;

verus! {

use crate::media::IFunnyLink;

/// The height, in pixels, of the watermark band the source site overlays
/// at the bottom of still images.
pub const WATERMARK_HEIGHT: u32 = 20;

/// The width and height, in pixels, of the image that decoding these
/// bytes yields; `None` when they do not decode. Decoding (with the
/// format auto-detected from the content) is a function of the bytes
/// alone.
pub uninterp spec fn decoded_dims(bytes: Seq<u8>) -> Option<(u32, u32)>;

/// The bytes of the JPEG encoding of the top-left `w` by `h` crop of the
/// image these bytes decode to; `None` when the bytes do not decode or
/// the encoder refuses. A function of its arguments alone.
pub uninterp spec fn cropped_jpeg(bytes: Seq<u8>, w: u32, h: u32) -> Option<Seq<u8>>;

/// Relies on `image::io::Reader::with_guessed_format` and
/// `Reader::decode`: decodes the bytes as an image whose format is
/// auto-detected from their content and reads its dimensions off;
/// `None` when the bytes are not a decodable image. (Guessing the format
/// of an in-memory buffer does not fail with an I/O error.)
#[verifier::external_body]
fn read_dims(bytes: &Vec<u8>) -> (r: Option<(u32, u32)>)
    ensures
        r == decoded_dims(bytes@),
{
    let img = image::io::Reader::new(std::io::Cursor::new(bytes.as_slice()))
        .with_guessed_format()
        .ok()?
        .decode()
        .ok()?;
    Some((img.width(), img.height()))
}

/// Relies on `image::io::Reader::decode` (as in `read_dims`),
/// `DynamicImage::crop_imm` and `DynamicImage::write_to` with the JPEG
/// output format: decodes the bytes, crops the `w` by `h` view at the
/// top-left corner (`crop_imm` clamps out-of-range dimensions and does
/// not panic), and JPEG-encodes the crop. The last clause holds because
/// `crop_imm` keeps dimensions that lie within the source exactly, and a
/// JPEG of one pixel or more decodes to the dimensions it was written
/// with.
#[verifier::external_body]
fn crop_encode(bytes: &Vec<u8>, w: u32, h: u32) -> (r: Option<Vec<u8>>)
    ensures
        r is Some <==> cropped_jpeg(bytes@, w, h) is Some,
        r matches Some(v) ==> Some(v@) == cropped_jpeg(bytes@, w, h),
        (r matches Some(v) && decoded_dims(bytes@) matches Some(d) && 1 <= w <= d.0 && 1 <= h
            <= d.1) ==> decoded_dims(r.unwrap()@) == Some((w, h)),
{
    let img = image::io::Reader::new(std::io::Cursor::new(bytes.as_slice()))
        .with_guessed_format()
        .ok()?
        .decode()
        .ok()?;
    let cropped = img.crop_imm(0, 0, w, h);
    let mut cur = std::io::Cursor::new(Vec::new());
    match cropped.write_to(&mut cur, image::ImageFormat::Jpeg) {
        Ok(()) => Some(cur.into_inner()),
        Err(_) => None,
    }
}

/// Why a still image could not be processed.
#[derive(Debug, Clone, Copy, PartialEq, Eq, Structural)]
pub enum StillError {
    /// The fetched bytes are not a decodable image.
    DecodeFailed,
    /// The image is shorter than the watermark band, so the band cannot
    /// be cropped off. (An image exactly as tall as the band proceeds,
    /// to a zero-height crop.)
    TooShort,
    /// Re-encoding the cropped image as JPEG failed.
    EncodeFailed,
}

impl StillError {
    /// A short description of the error, for reporting at the process edge.
    pub fn describe(&self) -> (r: &'static str)
        ensures
            self is DecodeFailed ==> r@ == "image decoding failed"@,
            self is TooShort ==> r@ == "image shorter than the watermark band"@,
            self is EncodeFailed ==> r@ == "JPEG encoding failed"@,
    {
        match self {
            StillError::DecodeFailed => "image decoding failed",
            StillError::TooShort => "image shorter than the watermark band",
            StillError::EncodeFailed => "JPEG encoding failed",
        }
    }
}

/// The height of a still once the watermark band is cropped off the
/// bottom: exactly `WATERMARK_HEIGHT` less than the source height, defined
/// only when the source is at least that tall.
pub fn cropped_height(h: u32) -> (r: Option<u32>)
    ensures
        h >= WATERMARK_HEIGHT ==> r == Some((h - WATERMARK_HEIGHT) as u32),
        h < WATERMARK_HEIGHT ==> r is None,
{
    if h >= WATERMARK_HEIGHT {
        Some(h - WATERMARK_HEIGHT)
    } else {
        None
    }
}

/// What processing a still's bytes must yield, stage by stage:
/// undecodable bytes fail with `DecodeFailed`, an image shorter than the
/// band with `TooShort`; otherwise the result is exactly the named
/// crop-and-encode of the bytes at the source width and the reduced
/// height, `EncodeFailed` when the encoder refuses.
pub open spec fn still_output_model(bytes: Seq<u8>) -> Result<Seq<u8>, StillError> {
    match decoded_dims(bytes) {
        None => Err(StillError::DecodeFailed),
        Some(d) => {
            if d.1 < WATERMARK_HEIGHT {
                Err(StillError::TooShort)
            } else {
                match cropped_jpeg(bytes, d.0, (d.1 - WATERMARK_HEIGHT) as u32) {
                    Some(o) => Ok(o),
                    None => Err(StillError::EncodeFailed),
                }
            }
        },
    }
}

/// Turns the fetched bytes of a still image into the bytes of its JPEG
/// re-encoding with the watermark band cropped off the bottom; the width
/// is kept. The result is exactly `still_output_model` of the bytes —
/// every success and every error is fixed — and a successful result
/// decodes to the source width and the source height less the band.
pub fn strip_watermark(bytes: &Vec<u8>) -> (r: Result<Vec<u8>, StillError>)
    ensures
        r matches Ok(v) ==> Ok::<Seq<u8>, StillError>(v@) == still_output_model(bytes@),
        r matches Err(e) ==> Err::<Seq<u8>, StillError>(e) == still_output_model(bytes@),
        decoded_dims(bytes@) matches Some(d) ==> (d.0 >= 1 && d.1 > WATERMARK_HEIGHT && r is Ok)
            ==> decoded_dims(r.unwrap()@) == Some((d.0, (d.1 - WATERMARK_HEIGHT) as u32)),
{
    let (w, h) = match read_dims(bytes) {
        Some(d) => d,
        None => {
            return Err(StillError::DecodeFailed);
        },
    };
    let new_h = match cropped_height(h) {
        Some(nh) => nh,
        None => {
            return Err(StillError::TooShort);
        },
    };
    match crop_encode(bytes, w, new_h) {
        Some(out) => Ok(out),
        None => Err(StillError::EncodeFailed),
    }
}

/// The bytes a download must write for a reference, from the bytes its
/// URL served: a video's bytes pass through verbatim; a still's are
/// processed by `strip_watermark`, so its result is exactly
/// `still_output_model` and a success decodes to the source width and
/// the reduced height.
pub fn download_output(link: &IFunnyLink, bytes: Vec<u8>) -> (r: Result<Vec<u8>, StillError>)
    ensures
        link@ is Moving ==> r is Ok && r.unwrap()@ == bytes@,
        link@ is Still ==> {
            &&& (r matches Ok(v) ==> Ok::<Seq<u8>, StillError>(v@) == still_output_model(bytes@))
            &&& (r matches Err(e) ==> Err::<Seq<u8>, StillError>(e) == still_output_model(
                bytes@,
            ))
            &&& (decoded_dims(bytes@) matches Some(d) ==> (d.0 >= 1 && d.1 > WATERMARK_HEIGHT
                && r is Ok) ==> decoded_dims(r.unwrap()@) == Some(
                (d.0, (d.1 - WATERMARK_HEIGHT) as u32),
            ))
        },
{
    match link {
        IFunnyLink::Moving(_) => Ok(bytes),
        IFunnyLink::Still(_) => strip_watermark(&bytes),
    }
}

} // verus!
