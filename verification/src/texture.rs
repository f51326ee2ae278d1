//! Surface colours.

use vstd::prelude::*;
use crate::scalar::Scalar;
use crate::vec3::{Color, Point3, Vec3};

verus! {

/// A colour for every point of a surface.
pub trait Texture: Send + Sync {
    /// Whether `c` is the colour that the texture may have at surface
    /// coordinates `(u, v)` and position `point`. A texture that says
    /// nothing of itself admits every colour.
    open spec fn may_color(&self, u: Scalar, v: Scalar, point: Point3, c: Color) -> bool {
        true
    }

    /// The colour at surface coordinates `(u, v)` and position `point`.
    fn value(&self, u: Scalar, v: Scalar, point: Point3) -> (c: Color)
        ensures
            self.may_color(u, v, point, c),
    ;
}

/// One colour everywhere.
#[derive(Clone, Copy, Debug)]
pub struct SolidColor {
    pub color_value: Color,
}

impl SolidColor {
    pub fn new(color: Color) -> (s: SolidColor)
        ensures
            s.color_value == color,
    {
        SolidColor { color_value: color }
    }

    /// The colour with the given red, green and blue.
    pub fn from_rbg(r: Scalar, g: Scalar, b: Scalar) -> (s: SolidColor)
        ensures
            s.color_value == (Vec3 { x: r, y: g, z: b }),
    {
        SolidColor { color_value: Vec3::new(r, g, b) }
    }
}

impl Texture for SolidColor {
    open spec fn may_color(&self, u: Scalar, v: Scalar, point: Point3, c: Color) -> bool {
        c == self.color_value
    }

    fn value(&self, u: Scalar, v: Scalar, point: Point3) -> (c: Color) {
        self.color_value
    }
}

/// Two textures in a checker pattern.
pub struct CheckerTexture<T: Texture, U: Texture> {
    pub odd: T,
    pub even: U,
}

impl<T: Texture, U: Texture> CheckerTexture<T, U> {
    pub fn new(odd: T, even: U) -> (checker: Self)
        ensures
            checker.odd == odd,
            checker.even == even,
    {
        Self { odd, even }
    }

    /// The colour at a point of the pattern, given `sines`, the product of
    /// the sines of the point's scaled coordinates: that of the odd texture
    /// where the product is negative, that of the even texture elsewhere.
    pub fn pick(&self, sines: Scalar, u: Scalar, v: Scalar, point: Point3) -> (c: Color)
        ensures
            sines.spec_lt(Scalar::spec_zero()) ==> self.odd.may_color(u, v, point, c),
            !sines.spec_lt(Scalar::spec_zero()) ==> self.even.may_color(u, v, point, c),
    {
        if sines.lt(Scalar::zero()) {
            self.odd.value(u, v, point)
        } else {
            self.even.value(u, v, point)
        }
    }
}

/// A decoded picture: rows of pixels from the top, three bytes to the pixel.
pub struct ImageTexture {
    pub data: Vec<u8>,
    pub width: u32,
    pub height: u32,
}

impl ImageTexture {
    /// Where the pixel in column `i` and row `j` starts in the data. A column
    /// or row beyond the picture counts as the last one.
    pub open spec fn texel_index(self, i: int, j: int) -> int {
        let column = if i >= self.width { self.width - 1 } else { i };
        let row = if j >= self.height { self.height - 1 } else { j };
        3 * column + 3 * self.width * row
    }

    /// Whether the picture has a pixel to give for column `i` and row `j`:
    /// it is not empty, and the data reach to the end of that pixel.
    pub open spec fn has_texel(self, i: int, j: int) -> bool {
        self.width > 0 && self.height > 0 && self.texel_index(i, j) + 2 < self.data@.len()
    }

    pub fn new(data: Vec<u8>, width: u32, height: u32) -> (t: ImageTexture)
        ensures
            t.data == data,
            t.width == width,
            t.height == height,
    {
        ImageTexture { data, width, height }
    }

    /// The red, green and blue of the pixel nearest to column `i` and row
    /// `j`, or `None` where the picture has none to give.
    pub fn texel(&self, i: usize, j: usize) -> (rgb: Option<(u8, u8, u8)>)
        ensures
            rgb is Some <==> self.has_texel(i as int, j as int),
            rgb is Some ==> {
                let at = self.texel_index(i as int, j as int);
                rgb->0 == (self.data@[at], self.data@[at + 1], self.data@[at + 2])
            },
    {
        if self.width == 0 || self.height == 0 {
            return None;
        }
        let w: u128 = self.width as u128;
        let h: u128 = self.height as u128;
        let column: u128 = if i as u128 >= w { w - 1 } else { i as u128 };
        let row: u128 = if j as u128 >= h { h - 1 } else { j as u128 };
        assert(3 * w * row <= 3 * 0x1_0000_0000 * 0x1_0000_0000) by (nonlinear_arith)
            requires
                w < 0x1_0000_0000,
                row < 0x1_0000_0000,
        ;
        let at: u128 = 3 * column + 3 * w * row;
        if at + 2 < self.data.len() as u128 {
            let k: usize = at as usize;
            Some((self.data[k], self.data[k + 1], self.data[k + 2]))
        } else {
            None
        }
    }
}

} // verus!
