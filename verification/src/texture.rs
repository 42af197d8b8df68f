//! Surface colours: what a material looks up at a hit.

use vstd::prelude::*;
use std::sync::Arc;
use crate::perlin::Perlin;
use crate::scalar::{Scalar, ONE_BITS};
use crate::vec3::Color3;

verus! {

/// One colour everywhere.
#[derive(Debug)]
pub struct Solid {
    pub albedo: Color3,
}

/// Two textures in alternating cubes of side `1 / inv_scale`.
#[derive(Debug)]
pub struct CheckerTexture {
    pub inv_scale: Scalar,
    pub even: Arc<Textures>,
    pub odd: Arc<Textures>,
}

/// A decoded picture: `height` rows of `width` linear colours, top row first.
#[derive(Debug)]
pub struct ImageTexture {
    pub width: u32,
    pub height: u32,
    pub pixels: Vec<Color3>,
}

/// A noise field, sampled at `scale` times the point.
#[derive(Debug)]
pub struct NoiseTexture {
    pub noise: Perlin,
    pub scale: Scalar,
}

/// The textures a material can carry.
#[derive(Debug)]
pub enum Textures {
    Checkered(CheckerTexture),
    Solid(Solid),
    Img(ImageTexture),
    Noise(NoiseTexture),
}

/// Cyan, the colour that stands in for a picture that could not be had.
pub open spec fn missing_colour() -> Color3 {
    Color3 { x: Scalar { bits: 0 }, y: Scalar { bits: ONE_BITS }, z: Scalar { bits: ONE_BITS } }
}

/// Whether `t` is the texture of the one colour `albedo`.
pub open spec fn is_solid(t: Arc<Textures>, albedo: Color3) -> bool {
    *t == Textures::Solid(Solid { albedo })
}

impl Solid {
    /// The colour.
    pub fn value(&self) -> (c: Color3)
        ensures
            c == self.albedo,
    {
        self.albedo
    }
}

impl CheckerTexture {
    /// The texture of the cube with the integer coordinates `x`, `y`, `z`:
    /// `even` where their sum is even, else `odd`.
    pub open spec fn spec_pick(&self, x: i32, y: i32, z: i32) -> Arc<Textures> {
        if (x + y + z) % 2 == 0 {
            self.even
        } else {
            self.odd
        }
    }

    /// The texture of the cube with the integer coordinates `x`, `y`, `z`.
    pub fn pick(&self, x: i32, y: i32, z: i32) -> (t: &Arc<Textures>)
        ensures
            *t == self.spec_pick(x, y, z),
    {
        let odd_count: u8 = (if x % 2 != 0 { 1u8 } else { 0u8 }) + (if y % 2 != 0 { 1u8 } else { 0u8 })
            + (if z % 2 != 0 { 1u8 } else { 0u8 });
        if odd_count % 2 == 0 {
            &self.even
        } else {
            &self.odd
        }
    }
}

impl ImageTexture {
    /// Whether there is one colour for each place of the picture.
    pub open spec fn well_formed(&self) -> bool {
        self.pixels.len() == self.width * self.height
    }

    /// The colour in column `i` of row `j`.
    pub open spec fn spec_pixel(&self, i: u32, j: u32) -> Color3
        recommends
            self.well_formed(),
            i < self.width,
            j < self.height,
    {
        self.pixels[j * self.width + i]
    }

    /// The picture with the given rows, or `None` unless `pixels` holds
    /// `width * height` colours.
    pub fn new(width: u32, height: u32, pixels: Vec<Color3>) -> (t: Option<ImageTexture>)
        ensures
            t.is_some() <==> pixels.len() == width * height,
            t matches Some(image) ==> image.well_formed() && image.width == width && image.height
                == height && image.pixels == pixels,
    {
        assert(width * height <= 0xffff_ffff * 0xffff_ffff) by (nonlinear_arith)
            requires
                width <= 0xffff_ffff,
                height <= 0xffff_ffff,
        ;
        let wanted: u64 = (width as u64) * (height as u64);
        if pixels.len() as u64 == wanted {
            Some(ImageTexture { width, height, pixels })
        } else {
            None
        }
    }

    /// The colour in column `i` of row `j`; cyan for a picture without rows.
    pub fn pixel(&self, i: u32, j: u32) -> (c: Color3)
        requires
            self.well_formed(),
            self.height > 0 ==> i < self.width && j < self.height,
        ensures
            c == (if self.height == 0 { missing_colour() } else { self.spec_pixel(i, j) }),
    {
        if self.height == 0 {
            return Color3 { x: Scalar::zero(), y: Scalar::one(), z: Scalar::one() };
        }
        assert(j * self.width + i < self.width * self.height) by (nonlinear_arith)
            requires
                i < self.width,
                j < self.height,
        ;
        assert(j * self.width + i < 0xffff_ffff * 0xffff_ffff) by (nonlinear_arith)
            requires
                i < self.width <= 0xffff_ffff,
                j < self.height <= 0xffff_ffff,
        ;
        let at: u64 = (j as u64) * (self.width as u64) + (i as u64);
        self.pixels[at as usize]
    }
}

impl Textures {
    /// A texture of one colour.
    pub fn solid_color(albedo: Color3) -> (t: Arc<Textures>)
        ensures
            is_solid(t, albedo),
    {
        Arc::new(Textures::Solid(Solid { albedo }))
    }

    /// A texture of the one colour with the given parts.
    pub fn rgb(red: Scalar, green: Scalar, blue: Scalar) -> (t: Arc<Textures>)
        ensures
            is_solid(t, Color3 { x: red, y: green, z: blue }),
    {
        Textures::solid_color(Color3 { x: red, y: green, z: blue })
    }

    /// A checker of `even` and `odd`, in cubes whose side is the reciprocal of
    /// `inv_scale`.
    pub fn checker(inv_scale: Scalar, even: Arc<Textures>, odd: Arc<Textures>) -> (t: Arc<Textures>)
        ensures
            *t == Textures::Checkered(CheckerTexture { inv_scale, even, odd }),
    {
        Arc::new(Textures::Checkered(CheckerTexture { inv_scale, even, odd }))
    }

    /// The texture of a decoded picture; solid cyan where there is none, so
    /// that a missing asset shows and the render goes on.
    pub fn image(decoded: Option<ImageTexture>) -> (t: Arc<Textures>)
        ensures
            (match decoded {
                Some(image) => *t == Textures::Img(image),
                None => is_solid(t, missing_colour()),
            }),
    {
        match decoded {
            Some(image) => Arc::new(Textures::Img(image)),
            None => Textures::rgb(Scalar::zero(), Scalar::one(), Scalar::one()),
        }
    }

    /// A noise texture over the given field.
    pub fn noise(scale: Scalar, noise: Perlin) -> (t: Arc<Textures>)
        ensures
            *t == Textures::Noise(NoiseTexture { noise, scale }),
    {
        Arc::new(Textures::Noise(NoiseTexture { noise, scale }))
    }
}

} // verus!
