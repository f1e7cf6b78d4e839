use base64::Engine;
use logo_banner::EncodedImage;
use logo_banner::S3Error;
use logo_banner::change_background;
use logo_banner::decode_base64_to_image;

/// A base64 image payload carrying a PNG of one solid RGBA color.
fn png_data_uri(width: u32, height: u32, rgba: [u8; 4]) -> String {
    let mut raw: Vec<u8> = Vec::new();
    for _ in 0..width * height {
        raw.extend_from_slice(&rgba);
    }
    let img = image::RgbaImage::from_raw(width, height, raw).unwrap();
    let mut png: Vec<u8> = Vec::new();
    img.write_to(&mut std::io::Cursor::new(&mut png), image::ImageFormat::Png)
        .unwrap();
    let mut s = String::from("data:image/png;base64,");
    s.push_str(&base64::engine::general_purpose::STANDARD.encode(&png));
    s
}

#[test]
fn change_background_test() {
    let base64_str = png_data_uri(40, 20, [120, 30, 60, 255]);
    assert!(matches!(
        change_background(EncodedImage { bytes: &base64_str }, "#ff0"),
        Ok(_)
    ));
}

#[test]
fn change_background_output_decodes() {
    let base64_str = png_data_uri(10, 10, [200, 10, 10, 255]);
    let out = change_background(EncodedImage { bytes: &base64_str }, "#00f").unwrap();
    assert!(out.starts_with("data:image/jpeg;base64,"));
    let (jpeg_bytes, _) = decode_base64_to_image(EncodedImage { bytes: &out }).unwrap();
    let banner = image::load_from_memory(&jpeg_bytes).unwrap();
    assert_eq!((banner.width(), banner.height()), (1400, 400));
    // a corner pixel holds the fill, blue, up to JPEG loss
    let rgba = banner.to_rgba8();
    let corner = rgba.get_pixel(0, 0);
    assert!(corner.0[0] < 30 && corner.0[1] < 30 && corner.0[2] > 225);
}

#[test]
fn change_background_rejects_bad_color() {
    let base64_str = png_data_uri(4, 4, [1, 2, 3, 255]);
    let r = change_background(EncodedImage { bytes: &base64_str }, "#ff");
    assert_eq!(r, Err(S3Error::ColorParseError));
}

#[test]
fn change_background_rejects_bad_metadata() {
    let r = change_background(EncodedImage { bytes: "no delimiters here" }, "#fff");
    assert_eq!(r, Err(S3Error::MetadataFormatError));
}

#[test]
fn change_background_rejects_non_image() {
    let not_an_image = base64::engine::general_purpose::STANDARD.encode(b"plain text");
    let payload = format!("data:image/png;base64,{not_an_image}");
    let r = change_background(EncodedImage { bytes: &payload }, "#fff");
    assert_eq!(r, Err(S3Error::ImageDecodeError));
}

#[test]
fn change_background_is_deterministic() {
    let base64_str = png_data_uri(7, 5, [9, 99, 199, 128]);
    let first = change_background(EncodedImage { bytes: &base64_str }, "teal").unwrap();
    let second = change_background(EncodedImage { bytes: &base64_str }, "teal").unwrap();
    assert_eq!(first, second);
}
