//! Lengths, vectors and the rectangles that entities occupy.
//!
//! Every length, position and speed is a whole number of sub-pixel units,
//! `UNIT` of them to the pixel.

use vstd::prelude::*;

verus! {

/// Sub-pixel units per pixel.
pub const UNIT: i32 = 256;

/// Microseconds per second: elapsed time is counted in microseconds.
pub const MICROS: i32 = 1_000_000;

/// The quotient `a / b` rounded toward zero, for a positive divisor.
pub open spec fn trunc_div(a: int, b: int) -> int {
    if a >= 0 {
        a / b
    } else {
        -((-a) / b)
    }
}

/// A pair of lengths: a size, a velocity, a displacement.
#[derive(Clone, Copy, Debug, PartialEq, Eq, Structural)]
pub struct Vec2 {
    pub x: i32,
    pub y: i32,
}

/// A triple of lengths: a position or a scale, with its depth.
#[derive(Clone, Copy, Debug, PartialEq, Eq, Structural)]
pub struct Vec3 {
    pub x: i32,
    pub y: i32,
    pub z: i32,
}

impl Vec2 {
    pub fn new(x: i32, y: i32) -> (v: Vec2)
        ensures
            v == (Vec2 { x, y }),
    {
        Vec2 { x, y }
    }
}

impl Vec3 {
    pub fn new(x: i32, y: i32, z: i32) -> (v: Vec3)
        ensures
            v == (Vec3 { x, y, z }),
    {
        Vec3 { x, y, z }
    }

    /// The origin.
    pub open spec fn zero() -> Vec3 {
        Vec3 { x: 0, y: 0, z: 0 }
    }
}

/// Where a rectangle is and how large: its centre and its width, height and depth.
#[derive(Clone, Copy, Debug, PartialEq, Eq, Structural)]
pub struct Transform {
    pub translation: Vec3,
    pub scale: Vec3,
}

impl Transform {
    /// One pixel cubed, at the origin.
    pub open spec fn identity() -> Transform {
        Transform {
            translation: Vec3::zero(),
            scale: Vec3 { x: UNIT, y: UNIT, z: UNIT },
        }
    }

    /// Width and height of the rectangle.
    pub open spec fn size(self) -> Vec2 {
        Vec2 { x: self.scale.x, y: self.scale.y }
    }
}

impl Default for Transform {
    fn default() -> (t: Transform)
        ensures
            t == Transform::identity(),
    {
        Transform {
            translation: Vec3 { x: 0, y: 0, z: 0 },
            scale: Vec3 { x: UNIT, y: UNIT, z: UNIT },
        }
    }
}

/// A rectangle together with what it is: the ball, a wall, a goal.
#[derive(Debug, PartialEq, Eq)]
pub struct Sprite<T> {
    pub component: T,
    pub transform: Transform,
}

impl<T: Copy> Clone for Sprite<T> {
    fn clone(&self) -> (sprite: Self)
        ensures
            sprite == *self,
    {
        *self
    }
}

impl<T: Copy> Copy for Sprite<T> {}

/// Width and height of the field of play, as the host reports them.
#[derive(Clone, Copy, Debug, PartialEq, Eq, Structural)]
pub struct Playfield {
    pub width: i32,
    pub height: i32,
}

impl Playfield {
    /// Both sides are positive.
    pub open spec fn wf(self) -> bool {
        self.width > 0 && self.height > 0
    }

    /// The field of the given width and height, if both are positive.
    pub fn new(width: i32, height: i32) -> (field: Option<Playfield>)
        ensures
            field == if width > 0 && height > 0 {
                Some(Playfield { width, height })
            } else {
                None
            },
    {
        if width > 0 && height > 0 {
            Some(Playfield { width, height })
        } else {
            None
        }
    }
}

} // verus!
