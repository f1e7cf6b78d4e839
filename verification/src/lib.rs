//! Composites a base64-encoded logo image onto a fixed-size colored banner.
//!
//! The pipeline: a data-URI-style base64 payload is decoded to raw bytes, the
//! bytes are decoded to a pixel grid, the grid is scaled down to fit a bounding
//! box and centered over a solid-color canvas with an alpha cutoff, and the
//! canvas is re-encoded as a JPEG carried in a fresh base64 payload. The
//! storage upload around this is a thin collaborator kept out of this crate.

use vstd::prelude::*;

mod bitmap;
mod codec;
mod color;
mod compositor;
mod imaging;

pub use bitmap::Bitmap;
pub use bitmap::chan_at;
pub use bitmap::rgb_of;
pub use codec::EncodedImage;
pub use codec::base64_decoded;
pub use codec::base64_encoded;
pub use codec::data_uri_of;
pub use codec::decimal_of;
pub use codec::decode_base64_to_image;
pub use codec::decoded_bytes_of;
pub use codec::encode_image_to_base64;
pub use codec::extension_of;
pub use codec::extract_extension_from_base64_metadata;
pub use codec::first_at;
pub use codec::found_at;
pub use codec::payload_of;
pub use codec::wf_extension;
pub use color::Color;
pub use color::css_color_of;
pub use color::parse_color;
pub use compositor::composed_chan;
pub use compositor::composite;
pub use compositor::composite_data;
pub use compositor::fitted;
pub use compositor::in_logo_rect;
pub use compositor::lemma_alpha_cutoff;
pub use compositor::lemma_composite_chan;
pub use compositor::offset_x;
pub use compositor::offset_y;
pub use imaging::image_decoded;
pub use imaging::jpeg_encoded;
pub use imaging::nearest_resized;

verus! {

/// Width of the banner canvas, in pixels.
pub const BACKGROUND_IMAGE_WIDTH: u32 = 1400;

/// Height of the banner canvas, in pixels.
pub const BACKGROUND_IMAGE_HEIGHT: u32 = 400;

/// Widest a placed logo may be, in pixels.
pub const MAX_LOGO_WIDTH: u32 = 1000;

/// Tallest a placed logo may be, in pixels.
pub const MAX_LOGO_HEIGHT: u32 = 300;

/// A logo pixel at least this opaque is copied verbatim; anything more
/// transparent is replaced by the canvas fill.
pub const ALPHA_OPAQUE_THRESHOLD: u8 = 200;

/// What can go wrong while re-coloring a logo's background.
#[derive(Clone, Debug, Default, PartialEq, Eq, PartialOrd, Ord, Structural)]
pub enum S3Error {
    /// The color specification matches no recognized grammar.
    #[default]
    ColorParseError,
    /// The raw bytes are not a decodable bitmap.
    ImageDecodeError,
    /// The pixel grid could not be serialized to the output format.
    ImageEncodeError,
    /// A stored artifact could not be read back.
    NotFoundError,
    /// The base64 payload's metadata prefix is not shaped like a data URI.
    MetadataFormatError,
}

/// Base URL under which uploaded images become publicly readable.
pub const BASE_BUCKET_URL: &'static str = "https://images-robinbrick.s3.eu-west-1.amazonaws.com/";

/// Name of the bucket the uploads go to.
pub const DEFAULT_BUCKET_NAME: &'static str = "images-robinbrick";

/// Join the base bucket url and the image name
pub fn get_image_url_from_image_name(image_name: &str) -> (r: String)
    ensures
        r@ == BASE_BUCKET_URL@ + image_name@,
{
    let mut url = String::from_str(BASE_BUCKET_URL);
    url.append(image_name);
    url
}

/// The outcome of re-coloring a payload, stage by stage: the color text is
/// parsed, the payload's bytes are decoded, the bytes become a pixel grid,
/// the grid is fitted and composited over the fill, and the canvas leaves as
/// a JPEG in a fresh base64 payload. The first stage to fail names the error.
pub open spec fn change_background_spec(img: Seq<char>, color: Seq<char>) -> Result<
    Seq<char>,
    S3Error,
> {
    match css_color_of(color) {
        Option::None => Result::Err(S3Error::ColorParseError),
        Option::Some(t) => match decoded_bytes_of(img) {
            Option::None => Result::Err(S3Error::MetadataFormatError),
            Option::Some(bytes) => match image_decoded(bytes) {
                Option::None => Result::Err(S3Error::ImageDecodeError),
                Option::Some(dim) => {
                    let f = fitted(dim.0, dim.1, dim.2);
                    let canvas = composite_data(
                        f.0 as int,
                        f.1 as int,
                        f.2,
                        Color { r: t.0, g: t.1, b: t.2 },
                    );
                    match jpeg_encoded(
                        BACKGROUND_IMAGE_WIDTH,
                        BACKGROUND_IMAGE_HEIGHT,
                        rgb_of(canvas),
                    ) {
                        Option::None => Result::Err(S3Error::ImageEncodeError),
                        Option::Some(jpeg) => Result::Ok(data_uri_of("jpeg"@, base64_encoded(jpeg))),
                    }
                },
            },
        },
    }
}

/// Changes the background color of the image (Also the most repeat colors)
/// Always returns a JPG, carried in a fresh base64 payload with a
/// `data:image/jpeg;base64,` prefix.
pub fn change_background<'a>(encoded_image: EncodedImage<'a>, color_hex: &str) -> (r: Result<
    String,
    S3Error,
>)
    ensures
        r is Ok <==> change_background_spec(encoded_image.bytes@, color_hex@) is Ok,
        (r matches Ok(s) ==> change_background_spec(encoded_image.bytes@, color_hex@) == Ok::<
            Seq<char>,
            S3Error,
        >(s@)),
        (r matches Err(e) ==> change_background_spec(encoded_image.bytes@, color_hex@) == Err::<
            Seq<char>,
            S3Error,
        >(e)),
{
    let fill = match parse_color(color_hex) {
        Ok(c) => c,
        Err(e) => {
            return Err(e);
        },
    };
    let decoded = match decode_base64_to_image(encoded_image) {
        Ok(t) => t,
        Err(e) => {
            return Err(e);
        },
    };
    let logo = match imaging::decode_image_bytes(&decoded.0) {
        Some(bm) => bm,
        None => {
            return Err(S3Error::ImageDecodeError);
        },
    };
    let canvas = composite(logo, fill);
    let rgb = canvas.rgb_bytes();
    let jpeg = match imaging::encode_jpeg_rgb(BACKGROUND_IMAGE_WIDTH, BACKGROUND_IMAGE_HEIGHT, &rgb)
        {
        Some(b) => b,
        None => {
            return Err(S3Error::ImageEncodeError);
        },
    };
    proof {
        reveal_strlit("jpeg");
        assert(wf_extension("jpeg"@)) by {
            assert forall|i: int| 0 <= i < "jpeg"@.len() implies "jpeg"@[i] != ';' && "jpeg"@[i]
                != '/' && "jpeg"@[i] != ',' by {
                assert("jpeg"@.len() == 4);
            }
        }
    }
    Ok(encode_image_to_base64(&jpeg, "jpeg"))
}

} // verus!
