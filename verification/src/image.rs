//! A pixel buffer of three bytes per pixel, row by row.

use crate::fixed::{Fp, SCALE};
use crate::vecmath::{Color3F, Color3U8, Vec3};
use vstd::prelude::*;

verus! {

pub const IMAGE_PIXEL_SIZE: usize = 3;

pub struct Image {
    pub width: u32,
    pub height: u32,
    pub pixels: Vec<[u8; 3]>,
}

/// The cell of a line of `n` cells in which the fraction `c` falls: the whole
/// part of `c * n`, at least the first and at most the last cell.
pub open spec fn spec_cell(c: Fp, n: int) -> int {
    if c.raw <= 0 {
        0
    } else if (c.raw * n) / (SCALE as int) >= n {
        n - 1
    } else {
        (c.raw * n) / (SCALE as int)
    }
}

fn cell(c: Fp, n: u32) -> (r: u32)
    requires
        n > 0,
    ensures
        r == spec_cell(c, n as int),
        r < n,
{
    if c.raw <= 0 {
        0
    } else {
        assert(0 <= c.raw * n <= 0x7fff_ffff_ffff_ffff * 0xffff_ffff) by (nonlinear_arith)
            requires
                0 < c.raw <= 0x7fff_ffff_ffff_ffff,
                0 < n <= 0xffff_ffff,
        ;
        let scaled: u128 = (c.raw as u128) * (n as u128) / (SCALE as u128);
        if scaled >= n as u128 {
            n - 1
        } else {
            scaled as u32
        }
    }
}

impl Image {
    /// The buffer holds one pixel for every column of every row.
    pub open spec fn wf(self) -> bool {
        self.pixels@.len() == self.width * self.height
    }

    /// Where the pixel of a row and a column stands in the buffer.
    pub open spec fn spec_index(self, row: int, col: int) -> int {
        row * self.width + col
    }

    /// The colour of the pixel in whose cell `(u, v)` falls.
    pub open spec fn spec_pixel_at_uv(self, u: Fp, v: Fp) -> Color3F {
        let col = spec_cell(u, self.width as int);
        let row = spec_cell(v, self.height as int);
        let p = self.pixels@[self.spec_index(row, col)];
        (Vec3 { x: p@[0], y: p@[1], z: p@[2] }).spec_to_color()
    }

    /// A black image.
    pub fn new(width: u32, height: u32) -> (r: Image)
        requires
            width * height <= usize::MAX,
        ensures
            r.wf(),
            r.width == width,
            r.height == height,
            forall|i: int| 0 <= i < r.pixels@.len() ==> r.pixels@[i]@ == seq![0u8, 0u8, 0u8],
    {
        assert(width * height <= 0xffff_ffff * 0xffff_ffff) by (nonlinear_arith)
            requires
                width <= 0xffff_ffff,
                height <= 0xffff_ffff,
        ;
        let size: usize = ((width as u64) * (height as u64)) as usize;
        let mut pixels: Vec<[u8; 3]> = Vec::new();
        let mut i: usize = 0;
        while i < size
            invariant
                i <= size,
                pixels@.len() == i,
                forall|k: int| 0 <= k < i ==> pixels@[k]@ == seq![0u8, 0u8, 0u8],
            decreases size - i,
        {
            pixels.push([0, 0, 0]);
            i += 1;
        }
        Image { width, height, pixels }
    }

    /// The index of a pixel, which lies within the buffer.
    fn index_of(&self, row: u32, col: u32) -> (r: usize)
        requires
            self.wf(),
            row < self.height,
            col < self.width,
        ensures
            r == self.spec_index(row as int, col as int),
            r < self.pixels@.len(),
    {
        assert(row * self.width + col < self.width * self.height) by (nonlinear_arith)
            requires
                row < self.height,
                col < self.width,
        ;
        assert(self.width * self.height <= 0xffff_ffff * 0xffff_ffff) by (nonlinear_arith)
            requires
                self.width <= 0xffff_ffff,
                self.height <= 0xffff_ffff,
        ;
        let len = self.pixels.len();
        let wide: u64 = (row as u64) * (self.width as u64) + (col as u64);
        assert(wide < len);
        wide as usize
    }

    /// The colour of the pixel in whose cell `(u, v)` falls, `u` running
    /// along a row and `v` down the rows, both from zero to one.
    pub fn pixel_at_uv(&self, u: Fp, v: Fp) -> (r: Color3F)
        requires
            self.wf(),
            self.width > 0,
            self.height > 0,
        ensures
            r == self.spec_pixel_at_uv(u, v),
    {
        let w = cell(u, self.width);
        let h = cell(v, self.height);
        let index = self.index_of(h, w);
        let pixel: Color3U8 = Vec3::from_array(self.pixels[index]);
        pixel.to_color()
    }

    pub fn write_pixel(&mut self, row: u32, col: u32, pixel: Color3U8)
        requires
            old(self).wf(),
            row < old(self).height,
            col < old(self).width,
        ensures
            final(self).wf(),
            final(self).width == old(self).width,
            final(self).height == old(self).height,
            final(self).pixels@ == old(self).pixels@.update(
                old(self).spec_index(row as int, col as int),
                final(self).pixels@[old(self).spec_index(row as int, col as int)],
            ),
            final(self).pixels@[old(self).spec_index(row as int, col as int)]@ == seq![
                pixel.x,
                pixel.y,
                pixel.z,
            ],
    {
        let index = self.index_of(row, col);
        self.pixels.set(index, pixel.to_array());
    }

    /// Copies a row of pixels into the image. Of a row longer than the image
    /// is wide, what lies beyond the width is left out.
    pub fn write_row(&mut self, row_index: u32, row: &[[u8; 3]])
        requires
            old(self).wf(),
            row_index < old(self).height,
        ensures
            final(self).wf(),
            final(self).width == old(self).width,
            final(self).height == old(self).height,
            final(self).pixels@ == spec_with_row(
                old(self).pixels@,
                old(self).spec_index(row_index as int, 0),
                spec_copied(row@.len() as int, old(self).width as int),
                row@,
            ),
    {
        let ghost before = self.pixels@;
        if self.width == 0 {
            assert(self.pixels@ =~= spec_with_row(before, self.spec_index(row_index as int, 0), 0, row@));
            return ;
        }
        let pixel_start = self.index_of(row_index, 0);
        assert(row_index * self.width + self.width <= self.width * self.height)
            by (nonlinear_arith)
            requires
                row_index < self.height,
        ;
        let mut i: usize = 0;
        while i < row.len() && (i as u64) < (self.width as u64)
            invariant
                self.wf(),
                self.width == old(self).width,
                self.height == old(self).height,
                before == old(self).pixels@,
                pixel_start == old(self).spec_index(row_index as int, 0),
                pixel_start + self.width <= self.pixels@.len(),
                i <= row@.len(),
                i <= self.width,
                self.pixels@ =~= spec_with_row(before, pixel_start as int, i as int, row@),
            decreases row@.len() - i,
        {
            let len = self.pixels.len();
            assert(pixel_start + i < len);
            self.pixels.set(pixel_start + i, row[i]);
            i += 1;
        }
    }
}

/// How many pixels of a row of `len` pixels go into an image `width` wide.
pub open spec fn spec_copied(len: int, width: int) -> int {
    if len < width {
        len
    } else {
        width
    }
}

/// The buffer with `count` pixels from `start` on taken from `row`.
pub open spec fn spec_with_row(
    pixels: Seq<[u8; 3]>,
    start: int,
    count: int,
    row: Seq<[u8; 3]>,
) -> Seq<[u8; 3]> {
    Seq::new(
        pixels.len(),
        |k: int|
            if start <= k < start + count {
                row[k - start]
            } else {
                pixels[k]
            },
    )
}

} // verus!
