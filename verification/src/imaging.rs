//! Trusted boundary to the `image` crate: byte-stream decode, nearest-neighbor
//! scaling, and JPEG encode, each behind a contract over plain values.

use crate::bitmap::Bitmap;
use vstd::prelude::*;

verus! {

/// What `image::load_from_memory` makes of a byte stream: `None` where the
/// bytes are not a decodable bitmap, else the width, the height, and the RGBA
/// channel bytes of the decoded pixel grid.
pub uninterp spec fn image_decoded(bytes: Seq<u8>) -> Option<(u32, u32, Seq<u8>)>;

/// Relies on `image::load_from_memory`: the container format is auto-detected
/// from the content and the decode depends on the bytes alone; and on
/// `DynamicImage::to_rgba8` / `ImageBuffer::into_raw`: the raw buffer holds
/// exactly four channel bytes per pixel of the decoded grid.
#[verifier::external_body]
pub(crate) fn decode_image_bytes(bytes: &Vec<u8>) -> (r: Option<Bitmap>)
    ensures
        r is Some <==> image_decoded(bytes@) is Some,
        (r matches Some(bm) ==> image_decoded(bytes@) == Some((bm.width, bm.height, bm.data@))
            && bm.wf()),
{
    match image::load_from_memory(bytes) {
        Ok(img) => {
            let rgba = img.to_rgba8();
            let (width, height) = rgba.dimensions();
            Some(Bitmap { width, height, data: rgba.into_raw() })
        },
        Err(_) => None,
    }
}

/// What `DynamicImage::resize` with `FilterType::Nearest` makes of an RGBA
/// pixel grid and a bounding box: the width, the height, and the RGBA channel
/// bytes of the scaled grid.
pub uninterp spec fn nearest_resized(w: u32, h: u32, data: Seq<u8>, bound_w: u32, bound_h: u32) -> (
    u32,
    u32,
    Seq<u8>,
);

/// Relies on `DynamicImage::resize` with `FilterType::Nearest`: it keeps the
/// aspect ratio, scales to the largest size that fits within the given bounds,
/// leaves each side at least one pixel, and depends on the pixels and bounds
/// alone; and on `RgbaImage::from_raw` (which accepts a buffer of exactly
/// `4 * width * height` bytes) and `to_rgba8` / `into_raw` for the way back.
#[verifier::external_body]
pub(crate) fn resize_to_fit(bm: Bitmap, bound_w: u32, bound_h: u32) -> (r: Bitmap)
    requires
        bm.wf(),
        1 <= bm.width,
        1 <= bm.height,
        1 <= bound_w,
        1 <= bound_h,
    ensures
        (r.width, r.height, r.data@) == nearest_resized(
            bm.width,
            bm.height,
            bm.data@,
            bound_w,
            bound_h,
        ),
        r.wf(),
        1 <= r.width <= bound_w,
        1 <= r.height <= bound_h,
{
    let buffer = image::RgbaImage::from_raw(bm.width, bm.height, bm.data).unwrap();
    let scaled = image::DynamicImage::ImageRgba8(buffer).resize(
        bound_w,
        bound_h,
        image::imageops::FilterType::Nearest,
    );
    let rgba = scaled.to_rgba8();
    let (width, height) = rgba.dimensions();
    Bitmap { width, height, data: rgba.into_raw() }
}

/// What the JPEG encoder makes of an RGB pixel grid: `None` where a side is
/// zero or beyond the format's limit, else the bytes of the encoded stream.
pub uninterp spec fn jpeg_encoded(w: u32, h: u32, rgb: Seq<u8>) -> Option<Seq<u8>>;

/// Relies on `image::codecs::jpeg::JpegEncoder::encode` with `Rgb8` pixels
/// writing to an in-memory buffer: it fails exactly when a side is zero or
/// above 65535, depends on the pixels and dimensions alone, and panics only
/// on a buffer whose length does not match the dimensions, which the
/// precondition rules out.
#[verifier::external_body]
pub(crate) fn encode_jpeg_rgb(width: u32, height: u32, rgb: &Vec<u8>) -> (r: Option<Vec<u8>>)
    requires
        rgb@.len() == 3 * (width as int) * (height as int),
    ensures
        r is Some <==> jpeg_encoded(width, height, rgb@) is Some,
        (r matches Some(b) ==> jpeg_encoded(width, height, rgb@) == Some(b@)),
        (1 <= width <= 65535 && 1 <= height <= 65535) ==> r is Some,
        !(1 <= width <= 65535 && 1 <= height <= 65535) ==> r is None,
{
    let mut out: Vec<u8> = Vec::new();
    let mut encoder = image::codecs::jpeg::JpegEncoder::new(&mut out);
    match encoder.encode(rgb, width, height, image::ExtendedColorType::Rgb8) {
        Ok(()) => Some(out),
        Err(_) => None,
    }
}

} // verus!
