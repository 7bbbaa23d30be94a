use vstd::prelude::*;

verus! {

/// What a draw record depicts.
#[derive(Clone, Copy, Debug, PartialEq, Eq, Structural)]
pub enum ShapeKind {
    Particle,
    Projectile,
}

/// A color with 8-bit channels.
#[derive(Clone, Copy, Debug, PartialEq, Eq, Structural)]
pub struct Rgba {
    pub r: u8,
    pub g: u8,
    pub b: u8,
    pub a: u8,
}

/// One filled circle to be drawn, in milli-pixels.
#[derive(Clone, Copy, Debug, PartialEq, Eq, Structural)]
pub struct DrawRecord {
    pub kind: ShapeKind,
    pub x: i64,
    pub y: i64,
    pub radius: i64,
    pub color: Rgba,
}

/// Light blue, slightly translucent.
pub open spec fn particle_rgba() -> Rgba {
    Rgba { r: 102, g: 179, b: 255, a: 230 }
}

/// Opaque red.
pub open spec fn projectile_rgba() -> Rgba {
    Rgba { r: 230, g: 41, b: 56, a: 255 }
}

pub fn particle_color() -> (c: Rgba)
    ensures
        c == particle_rgba(),
{
    Rgba { r: 102, g: 179, b: 255, a: 230 }
}

pub fn projectile_color() -> (c: Rgba)
    ensures
        c == projectile_rgba(),
{
    Rgba { r: 230, g: 41, b: 56, a: 255 }
}

} // verus!
