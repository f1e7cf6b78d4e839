use logo_banner::Color;
use logo_banner::S3Error;
use logo_banner::parse_color;

#[test]
fn parse_color_short_hex() {
    assert_eq!(parse_color("#ff0"), Ok(Color { r: 255, g: 255, b: 0 }));
}

#[test]
fn parse_color_rejects_garbage() {
    assert_eq!(parse_color("not-a-color"), Err(S3Error::ColorParseError));
}

#[test]
fn parse_color_long_hex() {
    assert_eq!(parse_color("#102030"), Ok(Color { r: 16, g: 32, b: 48 }));
}

#[test]
fn parse_color_named() {
    assert_eq!(parse_color("red"), Ok(Color { r: 255, g: 0, b: 0 }));
}
