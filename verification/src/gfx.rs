//! Colors and the pixels of a surface. A blended color component is rounded toward the
//! component that the blend starts from.

use vstd::prelude::*;

verus! {

/// A color of the screen.
#[derive(Clone, Copy, Debug, PartialEq, Eq, Structural)]
pub struct Color {
    pub r: u8,
    pub g: u8,
    pub b: u8,
}

/// A linear color gradient.
#[derive(Clone, Copy, Debug, PartialEq, Eq)]
pub struct Gradient {
    /// A color at the position 0.0. Normally used as a topmost value.
    pub zero: Color,
    /// A color at the position 1.0. Normally used as a bottommost value.
    pub one: Color,
}

/// The value at the fraction `num / denom` of the way from `zero` to `one`, limited to what
/// a color holds.
pub open spec fn mixed(zero: u8, one: u8, num: int, denom: int) -> u8 {
    let v = zero + crate::obj::div_trunc((one - zero) * num, denom);
    if v < 0 {
        0u8
    } else if v > 255 {
        255u8
    } else {
        v as u8
    }
}

/// A trait for color or color gradient. The color at the particular position can be
/// calculated with `blend` method.
pub trait Blend {
    /// The color at the position `num / denom`.
    spec fn blend_spec(&self, num: int, denom: int) -> Color;

    /// Calculates the color at the position `num / denom`.
    fn blend(&self, num: i32, denom: i32) -> (c: Color)
        requires
            denom > 0,
        ensures
            c == self.blend_spec(num as int, denom as int),
    ;
}

impl Blend for Color {
    open spec fn blend_spec(&self, num: int, denom: int) -> Color {
        *self
    }

    fn blend(&self, num: i32, denom: i32) -> (c: Color) {
        *self
    }
}

/// Calculates one component of a blended color.
fn mix(zero: u8, one: u8, num: i32, denom: i32) -> (v: u8)
    requires
        denom > 0,
    ensures
        v == mixed(zero, one, num as int, denom as int),
{
    let part: i64 = crate::obj::mul_div(one as i64 - zero as i64, num as i64, denom as i64);
    let v: i128 = zero as i128 + part as i128;
    if v < 0 {
        0
    } else if v > 255 {
        255
    } else {
        v as u8
    }
}

impl Blend for Gradient {
    open spec fn blend_spec(&self, num: int, denom: int) -> Color {
        Color {
            r: mixed(self.zero.r, self.one.r, num, denom),
            g: mixed(self.zero.g, self.one.g, num, denom),
            b: mixed(self.zero.b, self.one.b, num, denom),
        }
    }

    fn blend(&self, num: i32, denom: i32) -> (c: Color) {
        Color {
            r: mix(self.zero.r, self.one.r, num, denom),
            g: mix(self.zero.g, self.one.g, num, denom),
            b: mix(self.zero.b, self.one.b, num, denom),
        }
    }
}

/// The pixels of a surface, row by row.
pub struct SurfacePixels {
    /// The number of pixels in a row.
    pub width: usize,
    /// The number of rows.
    pub height: usize,
    /// The pixels, the rows one after the other.
    pub pixels: Vec<Color>,
}

/// The place of the pixel `(x, y)` among the pixels of a surface is within them, and no
/// other pixel has it.
pub proof fn lemma_pixel_index(width: int, height: int, x: int, y: int, px: int, py: int)
    requires
        0 <= x < width,
        0 <= y < height,
        0 <= px < width,
        0 <= py < height,
    ensures
        0 <= y * width + x < width * height,
        (y * width + x == py * width + px) <==> (x == px && y == py),
{
    assert(0 <= y * width + x < width * height) by (nonlinear_arith)
        requires
            0 <= x < width,
            0 <= y < height,
    ;
    if y < py {
        assert(y * width + x < py * width + px) by (nonlinear_arith)
            requires
                0 <= x < width,
                0 <= px,
                y < py,
        ;
    }
    if py < y {
        assert(py * width + px < y * width + x) by (nonlinear_arith)
            requires
                0 <= px < width,
                0 <= x,
                py < y,
        ;
    }
}

impl SurfacePixels {
    /// A surface is well formed if it has a pixel for each place of each row.
    pub open spec fn wf(&self) -> bool {
        self.pixels@.len() == self.width * self.height
    }

    /// The pixel at `(x, y)`.
    pub open spec fn at(&self, x: int, y: int) -> Color {
        self.pixels@[y * self.width + x]
    }

    /// True if the surface has the size of the other one, and the same pixels but for those
    /// that the condition names, for which the second function gives the color.
    pub open spec fn painted(
        &self,
        before: &SurfacePixels,
        hit: spec_fn(int, int) -> bool,
        color: spec_fn(int, int) -> Color,
    ) -> bool {
        &&& self.wf()
        &&& self.width == before.width
        &&& self.height == before.height
        &&& forall|x: int, y: int|
            0 <= x < self.width && 0 <= y < self.height ==> #[trigger] self.at(x, y) == if hit(
                x,
                y,
            ) {
                color(x, y)
            } else {
                before.at(x, y)
            }
    }

    /// Returns a surface of the given size with every pixel of the given color, or nothing
    /// if the machine cannot hold as many pixels.
    pub fn new(width: usize, height: usize, color: Color) -> (r: Option<SurfacePixels>)
        ensures
            match r {
                Some(s) => s.wf() && s.width == width && s.height == height && forall|
                    x: int,
                    y: int,
                |
                    0 <= x < width && 0 <= y < height ==> #[trigger] s.at(x, y) == color,
                None => width * height > usize::MAX,
            },
    {
        assert(0 <= width * height <= 0xffff_ffff_ffff_ffff * 0xffff_ffff_ffff_ffff)
            by (nonlinear_arith)
            requires
                0 <= width <= 0xffff_ffff_ffff_ffff,
                0 <= height <= 0xffff_ffff_ffff_ffff,
        ;
        let total: u128 = (width as u128) * (height as u128);
        if total > usize::MAX as u128 {
            return None;
        }
        let n: usize = total as usize;
        let mut pixels: Vec<Color> = Vec::new();
        let mut i: usize = 0;
        while i < n
            invariant
                0 <= i <= n,
                pixels@.len() == i,
                forall|k: int| 0 <= k < i ==> pixels@[k] == color,
            decreases n - i,
        {
            pixels.push(color);
            i += 1;
        }
        let s = SurfacePixels { width: width, height: height, pixels: pixels };
        assert forall|x: int, y: int| 0 <= x < width && 0 <= y < height implies #[trigger] s.at(
            x,
            y,
        ) == color by {
            lemma_pixel_index(width as int, height as int, x, y, x, y);
        }
        Some(s)
    }

    /// Returns the pixel at `(x, y)`, if the surface has one there.
    pub fn get_pixel(&self, x: usize, y: usize) -> (c: Option<Color>)
        requires
            self.wf(),
        ensures
            c == if x < self.width && y < self.height {
                Some(self.at(x as int, y as int))
            } else {
                None
            },
    {
        if x < self.width && y < self.height {
            proof {
                lemma_pixel_index(
                    self.width as int,
                    self.height as int,
                    x as int,
                    y as int,
                    x as int,
                    y as int,
                );
            }
            let n: usize = self.pixels.len();
            assert(0 <= y * self.width <= y * self.width + x < n) by (nonlinear_arith)
                requires
                    0 <= y * self.width + x < n,
                    0 <= x,
                    0 <= y,
                    0 <= self.width,
            ;
            Some(self.pixels[y * self.width + x])
        } else {
            None
        }
    }

    /// Sets the pixel at `(x, y)` to the color. A place outside the surface has no pixel, and
    /// nothing is set.
    pub fn put_pixel(&mut self, x: usize, y: usize, c: Color)
        requires
            old(self).wf(),
        ensures
            final(self).painted(old(self), |px: int, py: int| px == x && py == y, |px: int, py: int| c),
    {
        if x < self.width && y < self.height {
            proof {
                lemma_pixel_index(
                    self.width as int,
                    self.height as int,
                    x as int,
                    y as int,
                    x as int,
                    y as int,
                );
            }
            let n: usize = self.pixels.len();
            assert(0 <= y * self.width <= y * self.width + x < n) by (nonlinear_arith)
                requires
                    0 <= y * self.width + x < n,
                    0 <= x,
                    0 <= y,
                    0 <= self.width,
            ;
            let i: usize = y * self.width + x;
            self.pixels.set(i, c);
            assert forall|px: int, py: int|
                0 <= px < self.width && 0 <= py < self.height implies #[trigger] self.at(px, py)
                == if px == x && py == y {
                c
            } else {
                old(self).at(px, py)
            } by {
                lemma_pixel_index(self.width as int, self.height as int, x as int, y as int, px, py);
                lemma_pixel_index(self.width as int, self.height as int, px, py, px, py);
            }
        }
    }
}

} // verus!
