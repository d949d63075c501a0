//! The canonical splat record: a union of every encoding variant the file
//! formats use for color, opacity, scale and rotation.
//!
//! Scalars that a file format stores as binary32 or binary16 numbers are held
//! as their bit patterns (`u32` for binary32, `u16` for binary16). The record
//! model never computes with those bits; it only says where each one belongs.

use vstd::prelude::*;

verus! {

/// Three binary32 bit patterns (x, y, z).
#[derive(Clone, Copy, Debug, PartialEq, Eq, Structural)]
pub struct Vec3 {
    pub x: u32,
    pub y: u32,
    pub z: u32,
}

/// Four binary32 bit patterns (x, y, z, w).
#[derive(Clone, Copy, Debug, PartialEq, Eq, Structural)]
pub struct Vec4 {
    pub x: u32,
    pub y: u32,
    pub z: u32,
    pub w: u32,
}

/// A quaternion as binary32 bit patterns, scalar part first.
#[derive(Clone, Copy, Debug, PartialEq, Eq, Structural)]
pub struct Quat {
    pub w: u32,
    pub x: u32,
    pub y: u32,
    pub z: u32,
}

/// A color triple of bytes.
#[derive(Clone, Copy, Debug, PartialEq, Eq, Structural)]
pub struct Rgb {
    pub r: u8,
    pub g: u8,
    pub b: u8,
}

/// The encoding variants in which a source format states a splat's color.
#[derive(Clone, Debug, PartialEq)]
pub enum Color {
    /// A DC term plus the higher-order coefficient block, as binary32 bits.
    SphericalHarmonic(Vec3, Vec<u32>),
    /// A DC term alone, as binary32 bits.
    FirstOrderSphericalHarmonic(Vec3),
    /// A linear RGB triple in [0, 1], as binary32 bits.
    LinearFloat(Vec3),
    /// A linear RGB triple of bytes.
    LinearU8(Rgb),
}

/// The encoding variants in which a source format states a splat's opacity.
#[derive(Clone, Copy, Debug, PartialEq, Eq, Structural)]
pub enum Opacity {
    /// A linear value in [0, 1], as binary32 bits.
    LinearFloat(u32),
    /// A linear byte.
    LinearU8(u8),
    /// A pre-sigmoid value, as binary32 bits.
    LogitFloat(u32),
}

/// The encoding variants in which a source format states a splat's scale.
#[derive(Clone, Copy, Debug, PartialEq, Eq, Structural)]
pub enum Scale {
    /// Pre-exponential components, as binary32 bits.
    Exponent(Vec3),
    /// World-unit components, as binary32 bits.
    LinearFloat(Vec3),
}

/// The canonical splat record that every codec translates through.
#[derive(Clone, Debug, PartialEq)]
pub struct UberSplat {
    pub position: Vec3,
    pub normal: Option<Vec3>,
    pub color: Color,
    pub opacity: Opacity,
    pub scale: Scale,
    pub rotation: Quat,
}

impl UberSplat {
    /// Builds a record from its parts.
    pub fn new(
        position: Vec3,
        normal: Option<Vec3>,
        color: Color,
        opacity: Opacity,
        scale: Scale,
        rotation: Quat,
    ) -> (u: UberSplat)
        ensures
            u == (UberSplat { position, normal, color, opacity, scale, rotation }),
    {
        UberSplat { position, normal, color, opacity, scale, rotation }
    }
}

/// The failure taxonomy of the library.
#[derive(Clone, Copy, Debug, PartialEq, Eq, Structural)]
pub enum SplatError {
    /// Detection exhausted all candidates.
    UnrecognizedFormat,
    /// A size that fits no record grid, or a broken schema.
    MalformedLayout,
    /// A canonical field holds an encoding the active codec cannot linearize.
    UnsupportedVariant,
    /// The codec implements only one direction of translation.
    UnsupportedDirection,
    /// An underlying read or write failed.
    IOFailure,
}

} // verus!
