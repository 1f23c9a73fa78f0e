//! The monochrome framebuffer and what a display driver reads from it.

use vstd::prelude::*;

verus! {

/// The 64x32 framebuffer, with a flag raised whenever it changes.
pub struct Renderer {
    /// Rows of pixels, top to bottom; `buffer[y][x]` is lit when true.
    pub buffer: [[bool; 64]; 32],
    /// Raised by every change; the display driver lowers it after a redraw.
    pub redraw: bool,
}

/// The lit pixels among the first `i` pixels in row-major order, as
/// `(column, row)` pairs in that order.
pub open spec fn lit_upto(pixels: Seq<Seq<bool>>, i: int) -> Seq<(usize, usize)>
    decreases i,
{
    if i <= 0 {
        Seq::empty()
    } else {
        let prev = lit_upto(pixels, i - 1);
        let (c, r) = ((i - 1) % 64, (i - 1) / 64);
        if pixels[r][c] {
            prev.push((c as usize, r as usize))
        } else {
            prev
        }
    }
}

impl Renderer {
    /// The framebuffer as rows of pixels.
    pub open spec fn pixels(&self) -> Seq<Seq<bool>> {
        Seq::new(32, |r: int| self.buffer@[r]@)
    }

    /// A dark framebuffer with no pending redraw.
    pub fn new() -> (r: Renderer)
        ensures
            r.pixels() == crate::machine::blank_pixels(),
            !r.redraw,
    {
        let r = Renderer { buffer: [[false; 64]; 32], redraw: false };
        assert(r.pixels() =~~= crate::machine::blank_pixels());
        r
    }

    /// The lit pixels as `(column, row)` pairs, row by row from the top and
    /// left to right within a row.
    pub fn lit_pixels(&self) -> (r: Vec<(usize, usize)>)
        ensures
            r@ == lit_upto(self.pixels(), 2048),
    {
        let mut out: Vec<(usize, usize)> = Vec::new();
        let mut y: usize = 0;
        while y < 32
            invariant
                y <= 32,
                out@ == lit_upto(self.pixels(), (y * 64) as int),
            decreases 32 - y,
        {
            let row = self.buffer[y];
            let mut x: usize = 0;
            while x < 64
                invariant
                    y < 32,
                    x <= 64,
                    row@ == self.pixels()[y as int],
                    out@ == lit_upto(self.pixels(), (y * 64 + x) as int),
                decreases 64 - x,
            {
                let i: Ghost<int> = Ghost((y * 64 + x) as int);
                assert(i@ % 64 == x as int && i@ / 64 == y as int);
                if row[x] {
                    out.push((x, y));
                }
                x = x + 1;
            }
            y = y + 1;
        }
        out
    }
}

} // verus!
