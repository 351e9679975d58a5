//! Surface colours: one colour, a checkerboard in space, or an image.

use crate::fixed::{floor_raw, fp, Fp, SCALE};
use crate::image::Image;
use crate::vecmath::{Color3F, Vec3, Vec3F};
use vstd::prelude::*;

verus! {

pub struct TextureSolidColor {
    pub color: Color3F,
}

pub struct TextureChecker {
    pub odd_color: Color3F,
    pub even_color: Color3F,
    pub inv_scale: Fp,
}

pub struct TextureImage {
    pub image: Image,
}

pub enum Texture {
    Solid(TextureSolidColor),
    Checker(TextureChecker),
    Image(TextureImage),
}

impl TextureSolidColor {
    pub fn new(color: Color3F) -> (r: Self)
        ensures
            r.color == color,
    {
        Self { color }
    }

    pub fn value(&self) -> (r: Color3F)
        ensures
            r == self.color,
    {
        self.color
    }
}

impl TextureChecker {
    /// The whole part of a coordinate in units of the checker's scale.
    pub open spec fn spec_cell(self, c: Fp) -> int {
        floor_raw(c.spec_mul(self.inv_scale).raw as int)
    }

    /// Whether a position falls in a cell whose three whole parts sum to an
    /// even number.
    pub open spec fn spec_is_even(self, pos: Vec3F) -> bool {
        (self.spec_cell(pos.x) + self.spec_cell(pos.y) + self.spec_cell(pos.z)) % 2 == 0
    }

    pub open spec fn spec_value(self, pos: Vec3F) -> Color3F {
        if self.spec_is_even(pos) {
            self.even_color
        } else {
            self.odd_color
        }
    }

    pub fn new(odd_color: Color3F, even_color: Color3F, scale: Fp) -> (r: Self)
        ensures
            r.odd_color == odd_color,
            r.even_color == even_color,
            r.inv_scale == fp(SCALE as int).spec_div(scale),
    {
        Self { odd_color, even_color, inv_scale: Fp::one().div(scale) }
    }

    /// The colour of the cell of space in which `pos` lies.
    pub fn value(&self, pos: Vec3F) -> (r: Color3F)
        ensures
            r == self.spec_value(pos),
    {
        let xi: i64 = pos.x.mul(self.inv_scale).floor();
        let yi: i64 = pos.y.mul(self.inv_scale).floor();
        let zi: i64 = pos.z.mul(self.inv_scale).floor();
        let sum: i128 = (xi as i128) + (yi as i128) + (zi as i128);
        // Lifting the sum by an even number keeps its parity.
        let lifted: i128 = sum + 0x1_0000_0000_0000_0000_0000i128;
        let is_even = lifted % 2 == 0;
        if is_even {
            self.even_color
        } else {
            self.odd_color
        }
    }
}

impl TextureImage {
    pub open spec fn wf(self) -> bool {
        self.image.wf()
    }

    /// Cyan where the image is empty; else the pixel at `u` along the row
    /// and `1 - v` down the rows, both clamped to `[0, 1]`.
    pub open spec fn spec_value(self, u: Fp, v: Fp) -> Color3F {
        let zero = fp(0);
        let one = fp(SCALE as int);
        if self.image.width == 0 || self.image.height == 0 {
            Vec3 { x: zero, y: one, z: one }
        } else {
            self.image.spec_pixel_at_uv(
                u.spec_clamp(zero, one),
                one.spec_sub(v.spec_clamp(zero, one)),
            )
        }
    }

    /// A texture that shows the given image.
    pub fn new(image: Image) -> (r: Self)
        ensures
            r.image == image,
    {
        Self { image }
    }

    pub fn value(&self, u: Fp, v: Fp) -> (r: Color3F)
        requires
            self.wf(),
        ensures
            r == self.spec_value(u, v),
    {
        if self.image.width == 0 || self.image.height == 0 {
            return Vec3::new(Fp::zero(), Fp::one(), Fp::one());
        }
        let u = u.clamp(Fp::zero(), Fp::one());
        let v = Fp::one().sub(v.clamp(Fp::zero(), Fp::one()));
        self.image.pixel_at_uv(u, v)
    }
}

impl Texture {
    pub open spec fn wf(self) -> bool {
        match self {
            Texture::Image(tex) => tex.wf(),
            _ => true,
        }
    }

    pub open spec fn spec_value(self, u: Fp, v: Fp, pos: Vec3F) -> Color3F {
        match self {
            Texture::Solid(tex) => tex.color,
            Texture::Checker(tex) => tex.spec_value(pos),
            Texture::Image(tex) => tex.spec_value(u, v),
        }
    }

    /// The colour at surface coordinates `(u, v)` and position `pos`.
    pub fn value(&self, u: Fp, v: Fp, pos: Vec3F) -> (r: Color3F)
        requires
            self.wf(),
        ensures
            r == self.spec_value(u, v, pos),
    {
        match self {
            Texture::Solid(tex) => tex.value(),
            Texture::Checker(tex) => tex.value(pos),
            Texture::Image(tex) => tex.value(u, v),
        }
    }
}

} // verus!
