//! The core algorithm: scale a logo down to its bounding box, center it on a
//! solid-color canvas, and merge pixels with an alpha cutoff.

use crate::bitmap::Bitmap;
use crate::bitmap::chan_at;
use crate::color::Color;
use crate::imaging::nearest_resized;
use crate::imaging::resize_to_fit;
use crate::ALPHA_OPAQUE_THRESHOLD;
use crate::BACKGROUND_IMAGE_HEIGHT;
use crate::BACKGROUND_IMAGE_WIDTH;
use crate::MAX_LOGO_HEIGHT;
use crate::MAX_LOGO_WIDTH;
use vstd::arithmetic::div_mod::lemma_fundamental_div_mod_converse;
use vstd::prelude::*;

verus! {

/// Column of the canvas where a logo `lw` pixels wide starts: the logo is
/// centered, with both halves truncated toward zero.
pub open spec fn offset_x(lw: int) -> int {
    (BACKGROUND_IMAGE_WIDTH as int) / 2 - lw / 2
}

/// Row of the canvas where a logo `lh` pixels tall starts.
pub open spec fn offset_y(lh: int) -> int {
    (BACKGROUND_IMAGE_HEIGHT as int) / 2 - lh / 2
}

/// Whether canvas position `(x, y)` falls within the placed rectangle of a
/// centered logo with dimensions `lw` by `lh`.
pub open spec fn in_logo_rect(lw: int, lh: int, x: int, y: int) -> bool {
    offset_x(lw) <= x < offset_x(lw) + lw && offset_y(lh) <= y < offset_y(lh) + lh
}

/// The channel byte `c` the composited canvas holds at `(x, y)`: within the
/// placed rectangle a near-opaque logo pixel is copied with its alpha forced
/// fully opaque; everywhere else stands the fill color, fully opaque.
pub open spec fn composed_chan(
    lw: int,
    lh: int,
    ldata: Seq<u8>,
    fill: Color,
    x: int,
    y: int,
    c: int,
) -> u8 {
    if in_logo_rect(lw, lh, x, y) && chan_at(
        lw,
        ldata,
        x - offset_x(lw),
        y - offset_y(lh),
        3,
    ) >= ALPHA_OPAQUE_THRESHOLD {
        if c == 3 {
            255u8
        } else {
            chan_at(lw, ldata, x - offset_x(lw), y - offset_y(lh), c)
        }
    } else {
        if c == 0 {
            fill.r
        } else if c == 1 {
            fill.g
        } else if c == 2 {
            fill.b
        } else {
            255u8
        }
    }
}

/// All channel bytes of the composited canvas, row by row.
pub open spec fn composite_data(lw: int, lh: int, ldata: Seq<u8>, fill: Color) -> Seq<u8> {
    Seq::new(
        (4 * (BACKGROUND_IMAGE_WIDTH as int) * (BACKGROUND_IMAGE_HEIGHT as int)) as nat,
        |i: int|
            composed_chan(
                lw,
                lh,
                ldata,
                fill,
                (i / 4) % (BACKGROUND_IMAGE_WIDTH as int),
                (i / 4) / (BACKGROUND_IMAGE_WIDTH as int),
                i % 4,
            ),
    )
}

/// The logo as placed: a logo already within the bounding box is kept as it
/// is and never enlarged; a logo without pixels stays empty; an oversized
/// logo is scaled down by the nearest-neighbor resize.
pub open spec fn fitted(w: u32, h: u32, data: Seq<u8>) -> (u32, u32, Seq<u8>) {
    if w == 0 || h == 0 {
        (0u32, 0u32, Seq::<u8>::empty())
    } else if w <= MAX_LOGO_WIDTH && h <= MAX_LOGO_HEIGHT {
        (w, h, data)
    } else {
        nearest_resized(w, h, data, MAX_LOGO_WIDTH, MAX_LOGO_HEIGHT)
    }
}

/// The composited canvas pins every channel byte: position `(x, y)` holds the
/// channel `composed_chan` names.
pub proof fn lemma_composite_chan(
    lw: int,
    lh: int,
    ldata: Seq<u8>,
    fill: Color,
    x: int,
    y: int,
    c: int,
)
    requires
        0 <= x < BACKGROUND_IMAGE_WIDTH,
        0 <= y < BACKGROUND_IMAGE_HEIGHT,
        0 <= c < 4,
    ensures
        composite_data(lw, lh, ldata, fill)[4 * (y * (BACKGROUND_IMAGE_WIDTH as int) + x) + c]
            == composed_chan(lw, lh, ldata, fill, x, y, c),
{
    lemma_fundamental_div_mod_converse(
        4 * (y * (BACKGROUND_IMAGE_WIDTH as int) + x) + c,
        4,
        y * (BACKGROUND_IMAGE_WIDTH as int) + x,
        c,
    );
    lemma_fundamental_div_mod_converse(
        y * (BACKGROUND_IMAGE_WIDTH as int) + x,
        BACKGROUND_IMAGE_WIDTH as int,
        y,
        x,
    );
}

/// Inside the placed rectangle a logo pixel whose alpha reaches the threshold
/// is copied verbatim with its alpha forced fully opaque; a more transparent
/// logo pixel, and every canvas position outside the rectangle, takes the
/// fill color, fully opaque.
pub proof fn lemma_alpha_cutoff(lw: int, lh: int, ldata: Seq<u8>, fill: Color, x: int, y: int)
    ensures
        in_logo_rect(lw, lh, x, y) && chan_at(
            lw,
            ldata,
            x - offset_x(lw),
            y - offset_y(lh),
            3,
        ) >= ALPHA_OPAQUE_THRESHOLD ==> composed_chan(lw, lh, ldata, fill, x, y, 0) == chan_at(
            lw,
            ldata,
            x - offset_x(lw),
            y - offset_y(lh),
            0,
        ) && composed_chan(lw, lh, ldata, fill, x, y, 1) == chan_at(
            lw,
            ldata,
            x - offset_x(lw),
            y - offset_y(lh),
            1,
        ) && composed_chan(lw, lh, ldata, fill, x, y, 2) == chan_at(
            lw,
            ldata,
            x - offset_x(lw),
            y - offset_y(lh),
            2,
        ) && composed_chan(lw, lh, ldata, fill, x, y, 3) == 255,
        !(in_logo_rect(lw, lh, x, y) && chan_at(
            lw,
            ldata,
            x - offset_x(lw),
            y - offset_y(lh),
            3,
        ) >= ALPHA_OPAQUE_THRESHOLD) ==> composed_chan(lw, lh, ldata, fill, x, y, 0) == fill.r
            && composed_chan(lw, lh, ldata, fill, x, y, 1) == fill.g && composed_chan(
            lw,
            lh,
            ldata,
            fill,
            x,
            y,
            2,
        ) == fill.b && composed_chan(lw, lh, ldata, fill, x, y, 3) == 255,
{
}

/// Fill the canvas pixel by pixel from a logo already within the bounding box.
fn place_logo(logo: &Bitmap, fill: Color) -> (res: Bitmap)
    requires
        logo.wf(),
        logo.width <= MAX_LOGO_WIDTH,
        logo.height <= MAX_LOGO_HEIGHT,
    ensures
        res.width == BACKGROUND_IMAGE_WIDTH,
        res.height == BACKGROUND_IMAGE_HEIGHT,
        res.wf(),
        res.data@ == composite_data(logo.width as int, logo.height as int, logo.data@, fill),
{
    let lw: u32 = logo.width;
    let lh: u32 = logo.height;
    let ox: u32 = BACKGROUND_IMAGE_WIDTH / 2 - lw / 2;
    let oy: u32 = BACKGROUND_IMAGE_HEIGHT / 2 - lh / 2;
    let ghost cd: Seq<u8> = composite_data(lw as int, lh as int, logo.data@, fill);
    let mut data: Vec<u8> = Vec::new();
    let mut y: u32 = 0;
    while y < BACKGROUND_IMAGE_HEIGHT
        invariant
            logo.wf(),
            lw == logo.width,
            lh == logo.height,
            lw <= MAX_LOGO_WIDTH,
            lh <= MAX_LOGO_HEIGHT,
            ox == offset_x(lw as int),
            oy == offset_y(lh as int),
            y <= BACKGROUND_IMAGE_HEIGHT,
            cd == composite_data(lw as int, lh as int, logo.data@, fill),
            data@.len() == 5600 * y,
            data@ == cd.take(5600 * (y as int)),
        decreases BACKGROUND_IMAGE_HEIGHT - y,
    {
        let mut x: u32 = 0;
        while x < BACKGROUND_IMAGE_WIDTH
            invariant
                logo.wf(),
                lw == logo.width,
                lh == logo.height,
                lw <= MAX_LOGO_WIDTH,
                lh <= MAX_LOGO_HEIGHT,
                ox == offset_x(lw as int),
                oy == offset_y(lh as int),
                y < BACKGROUND_IMAGE_HEIGHT,
                x <= BACKGROUND_IMAGE_WIDTH,
                cd == composite_data(lw as int, lh as int, logo.data@, fill),
                data@.len() == 5600 * y + 4 * x,
                data@ == cd.take(5600 * (y as int) + 4 * (x as int)),
            decreases BACKGROUND_IMAGE_WIDTH - x,
        {
            let r: u8;
            let g: u8;
            let b: u8;
            let a: u8;
            if x >= ox && y >= oy && x < ox + lw && y < oy + lh {
                let p = logo.pixel(x - ox, y - oy);
                if p.3 >= ALPHA_OPAQUE_THRESHOLD {
                    r = p.0;
                    g = p.1;
                    b = p.2;
                    a = 255;
                } else {
                    r = fill.r;
                    g = fill.g;
                    b = fill.b;
                    a = 255;
                }
            } else {
                r = fill.r;
                g = fill.g;
                b = fill.b;
                a = 255;
            }
            proof {
                assert forall|c: int| 0 <= c < 4 implies cd[5600 * (y as int) + 4 * (x as int) + c]
                    == composed_chan(
                    lw as int,
                    lh as int,
                    logo.data@,
                    fill,
                    x as int,
                    y as int,
                    c,
                ) by {
                    lemma_composite_chan(
                        lw as int,
                        lh as int,
                        logo.data@,
                        fill,
                        x as int,
                        y as int,
                        c,
                    );
                }
            }
            data.push(r);
            data.push(g);
            data.push(b);
            data.push(a);
            x = x + 1;
            proof {
                assert(data@ =~= cd.take(5600 * (y as int) + 4 * (x as int)));
            }
        }
        y = y + 1;
    }
    let res = Bitmap { width: BACKGROUND_IMAGE_WIDTH, height: BACKGROUND_IMAGE_HEIGHT, data };
    proof {
        assert(res.data@ =~= cd);
    }
    res
}

/// Composite a logo onto the fixed-size banner canvas: the logo is scaled
/// down to fit the bounding box (never enlarged), centered with truncating
/// halves, and merged pixel by pixel under the alpha cutoff; the canvas is
/// always exactly `BACKGROUND_IMAGE_WIDTH` by `BACKGROUND_IMAGE_HEIGHT`.
pub fn composite(logo: Bitmap, fill: Color) -> (res: Bitmap)
    requires
        logo.wf(),
    ensures
        res.width == BACKGROUND_IMAGE_WIDTH,
        res.height == BACKGROUND_IMAGE_HEIGHT,
        res.wf(),
        (res.data@ == {
            let f = fitted(logo.width, logo.height, logo.data@);
            composite_data(f.0 as int, f.1 as int, f.2, fill)
        }),
        (forall|x: int, y: int, c: int|
            0 <= x < BACKGROUND_IMAGE_WIDTH && 0 <= y < BACKGROUND_IMAGE_HEIGHT && 0 <= c < 4
                ==> res.chan(x, y, c) == {
                let f = fitted(logo.width, logo.height, logo.data@);
                composed_chan(f.0 as int, f.1 as int, f.2, fill, x, y, c)
            }),
{
    let ghost f = fitted(logo.width, logo.height, logo.data@);
    let res = if logo.width == 0 || logo.height == 0 {
        let empty = Bitmap { width: 0, height: 0, data: Vec::new() };
        proof {
            assert(empty.data@.len() == 0);
            assert(empty.wf());
        }
        place_logo(&empty, fill)
    } else if logo.width <= MAX_LOGO_WIDTH && logo.height <= MAX_LOGO_HEIGHT {
        place_logo(&logo, fill)
    } else {
        let scaled = resize_to_fit(logo, MAX_LOGO_WIDTH, MAX_LOGO_HEIGHT);
        place_logo(&scaled, fill)
    };
    proof {
        assert forall|x: int, y: int, c: int|
            0 <= x < BACKGROUND_IMAGE_WIDTH && 0 <= y < BACKGROUND_IMAGE_HEIGHT && 0 <= c
                < 4 implies res.chan(x, y, c) == composed_chan(
            f.0 as int,
            f.1 as int,
            f.2,
            fill,
            x,
            y,
            c,
        ) by {
            lemma_composite_chan(f.0 as int, f.1 as int, f.2, fill, x, y, c);
        }
    }
    res
}

} // verus!
