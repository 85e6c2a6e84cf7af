use vstd::prelude::*;

use image::{RgbImage, RgbaImage};

verus! {

/// A decoded RGB image, held as image's `RgbImage` (three samples per pixel).
#[verifier::external_body]
pub struct RgbCapture {
    pub image: RgbImage,
}

/// A decoded RGBA image, held as image's `RgbaImage` (four samples per pixel).
#[verifier::external_body]
pub struct RgbaCapture {
    pub image: RgbaImage,
}

/// Width in pixels of an RGB image.
pub uninterp spec fn rgb_width(img: RgbCapture) -> u32;

/// Height in pixels of an RGB image.
pub uninterp spec fn rgb_height(img: RgbCapture) -> u32;

/// The packed samples an RGB image holds, three per pixel, row-major.
pub uninterp spec fn rgb_samples(img: RgbCapture) -> Seq<u8>;

/// Width in pixels of an RGBA image.
pub uninterp spec fn rgba_width(img: RgbaCapture) -> u32;

/// Height in pixels of an RGBA image.
pub uninterp spec fn rgba_height(img: RgbaCapture) -> u32;

/// The packed samples an RGBA image holds, four per pixel, row-major.
pub uninterp spec fn rgba_samples(img: RgbaCapture) -> Seq<u8>;

/// Relies on image's `ImageBuffer::from_raw`: it keeps the buffer as the
/// image's samples with the given dimensions when the buffer holds at least
/// three samples per pixel, and gives `None` otherwise.
#[verifier::external_body]
pub(crate) fn rgb_from_raw(width: u32, height: u32, buf: Vec<u8>) -> (r: Option<RgbCapture>)
    ensures
        r.is_some() <==> width * height * 3 <= buf@.len(),
        r matches Some(img) ==> rgb_width(img) == width && rgb_height(img) == height
            && rgb_samples(img) == buf@,
{
    RgbImage::from_raw(width, height, buf).map(|image| RgbCapture { image })
}

/// Relies on image's `ImageBuffer::from_raw`: it keeps the buffer as the
/// image's samples with the given dimensions when the buffer holds at least
/// four samples per pixel, and gives `None` otherwise.
#[verifier::external_body]
pub(crate) fn rgba_from_raw(width: u32, height: u32, buf: Vec<u8>) -> (r: Option<RgbaCapture>)
    ensures
        r.is_some() <==> width * height * 4 <= buf@.len(),
        r matches Some(img) ==> rgba_width(img) == width && rgba_height(img) == height
            && rgba_samples(img) == buf@,
{
    RgbaImage::from_raw(width, height, buf).map(|image| RgbaCapture { image })
}

} // verus!
