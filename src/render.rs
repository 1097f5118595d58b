//! The order in which a render emits its output: the PPM header, then one
//! line per pixel, row by row from the top, each row from left to right.
use vstd::prelude::*;
use vstd::arithmetic::div_mod::lemma_fundamental_div_mod_converse;
use crate::ppm::{Rgb, header, image, pixel_line, pixel_lines, write_color, write_header};

verus! {

/// Where a render stands: how many rows and columns the image has, and which
/// pixel comes next.
pub struct RenderState {
    pub width: u32,
    pub height: u32,
    pub row: u32,
    pub col: u32,
}

impl RenderState {
    /// The next pixel lies inside the image, or the render is done.
    pub open spec fn wf(&self) -> bool {
        &&& self.width >= 1
        &&& self.height >= 1
        &&& self.col < self.width
        &&& self.row <= self.height
        &&& self.row == self.height ==> self.col == 0
    }

    /// How many pixels have been emitted.
    pub open spec fn emitted(&self) -> int {
        self.row * self.width + self.col
    }

    /// How many pixels the image has.
    pub open spec fn total(&self) -> int {
        self.width * self.height
    }

    /// Writes the header of a `width` by `height` image and points at its
    /// top-left pixel.
    pub fn start(out: &mut Vec<u8>, width: u32, height: u32) -> (r: RenderState)
        requires
            width >= 1,
            height >= 1,
        ensures
            r.wf(),
            r.width == width,
            r.height == height,
            r.emitted() == 0,
            final(out)@ == old(out)@ + header(width as nat, height as nat),
    {
        write_header(out, width, height);
        RenderState { width, height, row: 0, col: 0 }
    }

    /// Whether every pixel has been emitted.
    pub fn is_done(&self) -> (r: bool)
        requires
            self.wf(),
        ensures
            r == (self.emitted() == self.total()),
    {
        proof {
            lemma_emitted_bounds(self);
        }
        self.row == self.height
    }

    /// The column and row of the pixel that comes next.
    pub fn next_pixel(&self) -> (r: (u32, u32))
        requires
            self.wf(),
            self.emitted() < self.total(),
        ensures
            r.0 == self.col,
            r.1 == self.row,
            r.0 < self.width,
            r.1 < self.height,
            self.emitted() == r.1 * self.width + r.0,
    {
        proof {
            lemma_emitted_bounds(self);
        }
        (self.col, self.row)
    }

    /// Writes the line of the next pixel and moves on; returns whether that
    /// pixel finished its row.
    pub fn emit(&mut self, out: &mut Vec<u8>, p: Rgb) -> (row_done: bool)
        requires
            old(self).wf(),
            old(self).emitted() < old(self).total(),
        ensures
            final(self).wf(),
            final(self).width == old(self).width,
            final(self).height == old(self).height,
            final(self).emitted() == old(self).emitted() + 1,
            row_done == (old(self).col + 1 == old(self).width),
            final(out)@ == old(out)@ + pixel_line(p),
    {
        proof {
            lemma_emitted_bounds(&*self);
        }
        write_color(out, p);
        if self.col + 1 == self.width {
            let ghost w = self.width as int;
            let ghost r = self.row as int;
            self.col = 0;
            self.row = self.row + 1;
            assert((r + 1) * w == r * w + (w - 1) + 1) by (nonlinear_arith);
            true
        } else {
            self.col = self.col + 1;
            false
        }
    }
}

/// A well-formed state has emitted no more pixels than the image has, and
/// all of them exactly when its row has run past the last one.
pub proof fn lemma_emitted_bounds(s: &RenderState)
    requires
        s.wf(),
    ensures
        0 <= s.emitted() <= s.total(),
        s.emitted() == s.total() <==> s.row == s.height,
{
    let w = s.width as int;
    let h = s.height as int;
    let r = s.row as int;
    let c = s.col as int;
    assert(0 <= r * w) by (nonlinear_arith)
        requires 0 <= r, 0 <= w;
    if r < h {
        assert(r * w + c < h * w) by (nonlinear_arith)
            requires r < h, 0 <= c < w;
    }
    assert(w * h == h * w) by (nonlinear_arith);
}

/// Pixels go out in row-major order: after `k` pixels, the next one is
/// column `k % width` of row `k / width`.
pub proof fn lemma_row_major(s: &RenderState)
    requires
        s.wf(),
    ensures
        s.col == s.emitted() % (s.width as int),
        s.row == s.emitted() / (s.width as int),
{
    lemma_fundamental_div_mod_converse(
        s.emitted(),
        s.width as int,
        s.row as int,
        s.col as int,
    );
}

/// Encodes a `width` by `height` image whose pixels are given in row-major
/// order; `None` where their number does not match the dimensions.
pub fn encode(width: u32, height: u32, pixels: &Vec<Rgb>) -> (r: Option<Vec<u8>>)
    requires
        width >= 1,
        height >= 1,
    ensures
        r.is_some() <==> pixels@.len() == width as int * height as int,
        r matches Some(bytes) ==> bytes@ == image(width as nat, height as nat, pixels@),
{
    proof {
        let w = width as int;
        let h = height as int;
        assert(w * h <= 0xffff_ffff * 0xffff_ffff) by (nonlinear_arith)
            requires 0 <= w <= 0xffff_ffff, 0 <= h <= 0xffff_ffff;
    }
    if pixels.len() as u64 != width as u64 * height as u64 {
        return None;
    }
    let mut out: Vec<u8> = Vec::new();
    let mut state = RenderState::start(&mut out, width, height);
    let mut i: usize = 0;
    while i < pixels.len()
        invariant
            state.wf(),
            state.width == width,
            state.height == height,
            state.emitted() == i,
            i <= pixels@.len(),
            pixels@.len() == width as int * height as int,
            out@ == header(width as nat, height as nat) + pixel_lines(pixels@.subrange(0, i as int)),
        decreases pixels@.len() - i,
    {
        let p = pixels[i];
        state.emit(&mut out, p);
        proof {
            let next = pixels@.subrange(0, i + 1);
            assert(next.drop_last() =~= pixels@.subrange(0, i as int));
            assert(next.last() == p);
        }
        i = i + 1;
    }
    assert(pixels@.subrange(0, i as int) =~= pixels@);
    Some(out)
}

} // verus!
