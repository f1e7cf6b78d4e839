//! Canvas fill colors and the text form they are written in.

use crate::S3Error;
use std::str::FromStr;
use vstd::prelude::*;

verus! {

/// An opaque fill color: red, green and blue channels, each 0 to 255. The
/// canvas is always fully opaque, so no alpha channel is kept.
#[derive(Clone, Copy, Debug, PartialEq, Eq, Structural)]
pub struct Color {
    pub r: u8,
    pub g: u8,
    pub b: u8,
}

/// What `css_color_parser` makes of a color specification: `None` where the
/// text matches no recognized grammar, else the red, green and blue channels
/// of the parsed color.
pub uninterp spec fn css_color_of(s: Seq<char>) -> Option<(u8, u8, u8)>;

/// Relies on `css_color_parser::Color::from_str`: it parses hex and CSS named
/// colors, depends on the text alone, and handles every input without
/// panicking. The alpha channel of the parsed color is dropped, since the
/// canvas fill is always fully opaque.
#[verifier::external_body]
fn parse_css_color(text: &str) -> (r: Option<Color>)
    ensures
        r is Some <==> css_color_of(text@) is Some,
        (r matches Some(c) ==> css_color_of(text@) == Some((c.r, c.g, c.b))),
{
    match css_color_parser::Color::from_str(text) {
        Ok(c) => Some(Color { r: c.r, g: c.g, b: c.b }),
        Err(_) => None,
    }
}

/// Parse a human-readable color specification (`#rgb`, `#rrggbb`, or a CSS
/// named color) into the canvas fill color; any other text is a
/// `ColorParseError`.
pub fn parse_color(text: &str) -> (r: Result<Color, S3Error>)
    ensures
        r is Ok <==> css_color_of(text@) is Some,
        (r matches Ok(c) ==> css_color_of(text@) == Some((c.r, c.g, c.b))),
        r is Err ==> r == Err::<Color, S3Error>(S3Error::ColorParseError),
{
    match parse_css_color(text) {
        Some(c) => Ok(c),
        None => Err(S3Error::ColorParseError),
    }
}

} // verus!
