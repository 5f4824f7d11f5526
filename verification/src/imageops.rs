//! Trusted bindings to the `image` crate for the two operations the library
//! does not compute itself: decoding raw bytes and high-quality resampling.

use crate::raster::RgbImg;
use vstd::prelude::*;

verus! {

#[verifier::external_type_specification]
#[verifier::external_body]
pub struct ExImageError(image::ImageError);

/// A decoded RGB pixel buffer, as a mathematical value.
pub struct RgbData {
    pub width: int,
    pub height: int,
    pub data: Seq<u8>,
}

/// What decoding a byte stream as a raster image yields: decoding is a pure
/// function of the bytes, `None` when they are not a valid supported image.
pub uninterp spec fn decoded_rgb(bytes: Seq<u8>) -> Option<RgbData>;

/// What Lanczos3 resampling of an RGB buffer to a target size yields: a pure
/// function of the source pixels, their dimensions and the target
/// dimensions.
pub uninterp spec fn lanczos3_resized(
    data: Seq<u8>,
    sw: int,
    sh: int,
    tw: int,
    th: int,
) -> Seq<u8>;

/// Relies on `image::load_from_memory` and `DynamicImage::to_rgb8`: decoding
/// succeeds or fails deterministically on the bytes alone, and an RGB8
/// buffer holds exactly `3 * width * height` bytes.
#[verifier::external_body]
pub(crate) fn decode_rgb(bytes: &[u8]) -> (res: Result<RgbImg, image::ImageError>)
    ensures
        res is Ok <==> decoded_rgb(bytes@) is Some,
        (res matches Ok(img) ==> {
            &&& decoded_rgb(bytes@) matches Some(d)
            &&& img.width as int == d.width
            &&& img.height as int == d.height
            &&& img.data@ == d.data
            &&& img.wf()
        }),
{
    let img = image::load_from_memory(bytes)?;
    let buf = img.to_rgb8();
    let (width, height) = (buf.width(), buf.height());
    Ok(RgbImg { width, height, data: buf.into_raw() })
}

/// Relies on `image::imageops::resize` with `FilterType::Lanczos3`: the
/// result is a pure function of the source pixels and the target size, an
/// RGB8 buffer with exactly the requested dimensions.
#[verifier::external_body]
pub(crate) fn lanczos_resize(src: &RgbImg, tw: u32, th: u32) -> (res: RgbImg)
    requires
        src.wf(),
        1 <= tw <= src.width,
        1 <= th <= src.height,
    ensures
        res.wf(),
        res.width == tw,
        res.height == th,
        res.data@ == lanczos3_resized(
            src.data@,
            src.width as int,
            src.height as int,
            tw as int,
            th as int,
        ),
{
    let buf = image::RgbImage::from_raw(src.width, src.height, src.data.clone()).unwrap();
    let out = image::imageops::resize(&buf, tw, th, image::imageops::FilterType::Lanczos3);
    RgbImg { width: tw, height: th, data: out.into_raw() }
}

} // verus!
