//! In-memory pixel grids: explicit dimensions and four channel bytes per pixel.

use vstd::arithmetic::div_mod::lemma_fundamental_div_mod_converse;
use vstd::prelude::*;

verus! {

/// The red, green and blue bytes of every pixel of an RGBA channel sequence,
/// in row order, with the alpha byte of each pixel dropped.
pub open spec fn rgb_of(data: Seq<u8>) -> Seq<u8> {
    Seq::new(((data.len() / 4) * 3) as nat, |i: int| data[(i / 3) * 4 + i % 3])
}

/// The channel byte of the pixel at column `x`, row `y` of a grid `w` pixels
/// wide whose channels are stored row by row in `data`; `c` selects the
/// channel, `0` red through `3` alpha.
pub open spec fn chan_at(w: int, data: Seq<u8>, x: int, y: int, c: int) -> u8 {
    data[4 * (y * w + x) + c]
}

/// A decoded pixel grid. `data` holds the channels of the pixels row by row,
/// top to bottom; each pixel contributes four bytes: red, green, blue, alpha.
pub struct Bitmap {
    pub width: u32,
    pub height: u32,
    pub data: Vec<u8>,
}

impl Bitmap {
    /// The data holds exactly four bytes for every pixel of the grid.
    pub open spec fn wf(self) -> bool {
        self.data@.len() == 4 * (self.width as int) * (self.height as int)
    }

    /// The channel byte `c` of this grid's pixel at `(x, y)`.
    pub open spec fn chan(self, x: int, y: int, c: int) -> u8 {
        chan_at(self.width as int, self.data@, x, y, c)
    }

    /// The four channel bytes of the pixel at `(x, y)`.
    pub fn pixel(&self, x: u32, y: u32) -> (p: (u8, u8, u8, u8))
        requires
            self.wf(),
            x < self.width,
            y < self.height,
        ensures
            p.0 == self.chan(x as int, y as int, 0),
            p.1 == self.chan(x as int, y as int, 1),
            p.2 == self.chan(x as int, y as int, 2),
            p.3 == self.chan(x as int, y as int, 3),
    {
        let n: usize = self.data.len();
        proof {
            lemma_pixel_index(self.width as int, self.height as int, x as int, y as int);
            assert(4 * (y as int * self.width as int + x as int) + 3 < n);
        }
        let base: usize = 4 * (y as usize * self.width as usize + x as usize);
        (self.data[base], self.data[base + 1], self.data[base + 2], self.data[base + 3])
    }

    /// The red, green and blue bytes of every pixel in row order, the alpha
    /// channel dropped, as the fixed output format wants them.
    pub fn rgb_bytes(&self) -> (r: Vec<u8>)
        ensures
            r@ == rgb_of(self.data@),
    {
        let n: usize = self.data.len();
        let pixels: usize = n / 4;
        let mut out: Vec<u8> = Vec::new();
        let mut p: usize = 0;
        while p < pixels
            invariant
                n == self.data@.len(),
                pixels == n / 4,
                p <= pixels,
                out@.len() == 3 * p,
                forall|j: int| 0 <= j < out@.len() ==> out@[j] == self.data@[(j / 3) * 4 + j % 3],
            decreases pixels - p,
        {
            let base: usize = 4 * p;
            out.push(self.data[base]);
            out.push(self.data[base + 1]);
            out.push(self.data[base + 2]);
            proof {
                assert forall|j: int| 3 * p <= j < out@.len() implies out@[j] == self.data@[(j / 3)
                    * 4 + j % 3] by {
                    lemma_fundamental_div_mod_converse(j, 3, p as int, j - 3 * (p as int));
                }
            }
            p = p + 1;
        }
        assert(out@ =~= rgb_of(self.data@));
        out
    }
}

/// Every pixel of a `w` by `h` grid sits strictly inside the `4 * w * h`
/// channel bytes that store it.
pub proof fn lemma_pixel_index(w: int, h: int, x: int, y: int)
    by (nonlinear_arith)
    requires
        0 <= x < w,
        0 <= y < h,
    ensures
        0 <= 4 * (y * w + x),
        4 * (y * w + x) + 3 < 4 * w * h,
{
}

} // verus!
