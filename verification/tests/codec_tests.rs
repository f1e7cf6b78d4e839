use base64::Engine;
use logo_banner::EncodedImage;
use logo_banner::S3Error;
use logo_banner::decode_base64_to_image;
use logo_banner::encode_image_to_base64;
use logo_banner::extract_extension_from_base64_metadata;
use logo_banner::get_image_url_from_image_name;
use logo_banner::BASE_BUCKET_URL;

#[test]
fn extract_extension_png() {
    let r = extract_extension_from_base64_metadata("data:image/png;base64,iVBORw0KGgo=");
    assert_eq!(r.unwrap(), "png");
}

#[test]
fn extract_extension_jpeg() {
    let r = extract_extension_from_base64_metadata("data:image/jpeg;base64,/9j/4AAQ");
    assert_eq!(r.unwrap(), "jpeg");
}

#[test]
fn extract_extension_missing_semicolon() {
    let r = extract_extension_from_base64_metadata("data:image/png-base64,AAAA");
    assert_eq!(r, Err(S3Error::MetadataFormatError));
}

#[test]
fn extract_extension_missing_slash() {
    let r = extract_extension_from_base64_metadata("data:imagepng;base64,AAAA");
    assert_eq!(r, Err(S3Error::MetadataFormatError));
}

#[test]
fn round_trip_bytes() {
    let bytes: Vec<u8> = (0u16..=255u16).map(|b| b as u8).collect();
    let payload = encode_image_to_base64(&bytes, "png");
    let (decoded, name) = decode_base64_to_image(EncodedImage { bytes: &payload }).unwrap();
    assert_eq!(decoded, bytes);
    assert!(name.ends_with(".png"));
}

#[test]
fn encode_empty_payload() {
    let bytes: Vec<u8> = Vec::new();
    assert_eq!(encode_image_to_base64(&bytes, "png"), "data:image/png;base64,");
}

#[test]
fn encode_known_payload() {
    let bytes: Vec<u8> = vec![77, 97, 110];
    assert_eq!(encode_image_to_base64(&bytes, "png"), "data:image/png;base64,TWFu");
}

#[test]
fn decode_rejects_bad_base64() {
    let r = decode_base64_to_image(EncodedImage { bytes: "data:image/png;base64,!!!" });
    assert_eq!(r, Err(S3Error::MetadataFormatError));
}

#[test]
fn decode_rejects_missing_comma() {
    let r = decode_base64_to_image(EncodedImage { bytes: "data:image/png;base64" });
    assert_eq!(r, Err(S3Error::MetadataFormatError));
}

#[test]
fn decode_suggests_numbered_name() {
    let bytes: Vec<u8> = vec![1, 2, 3];
    let payload = encode_image_to_base64(&bytes, "jpeg");
    let (_, name) = decode_base64_to_image(EncodedImage { bytes: &payload }).unwrap();
    let stem = name.strip_suffix(".jpeg").expect("name should end with the extension");
    stem.parse::<u64>().expect("name should start with a number");
}

#[test]
fn decode_agrees_with_raw_base64() {
    let text = "data:image/png;base64,AAEC/w==";
    let (decoded, _) = decode_base64_to_image(EncodedImage { bytes: text }).unwrap();
    let raw = base64::engine::general_purpose::STANDARD.decode("AAEC/w==").unwrap();
    assert_eq!(decoded, raw);
    assert_eq!(decoded, vec![0u8, 1, 2, 255]);
}

#[test]
fn image_url_joins() {
    let url = get_image_url_from_image_name("logo.png");
    assert_eq!(url, format!("{BASE_BUCKET_URL}logo.png"));
    assert_eq!(url, "https://images-robinbrick.s3.eu-west-1.amazonaws.com/logo.png");
}
