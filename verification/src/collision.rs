//! Overlap of two axis-aligned rectangles, and the side on which they meet.

use crate::geometry::{Sprite, Transform, Vec2, Vec3};
use bevy::math::{IVec2, IVec3};
use bevy::sprite::collide_aabb;
use vstd::prelude::*;

verus! {

/// The side of the second rectangle that the first one has run into;
/// `Inside` where no side can be told.
#[derive(Clone, Copy, Debug, PartialEq, Eq, Structural)]
pub enum Collision {
    Left,
    Right,
    Top,
    Bottom,
    Inside,
}

/// The largest whole number up to which `f32` holds every whole number: 2^24.
pub const REACH: i32 = 16_777_216;

/// The edges of the rectangle, doubled, lie within `REACH` in both axes: the
/// rectangle lies within 2^23 units of the origin.
pub open spec fn within_reach(pos: Vec3, size: Vec2) -> bool {
    &&& -REACH <= 2 * pos.x - size.x <= REACH
    &&& -REACH <= 2 * pos.x + size.x <= REACH
    &&& -REACH <= 2 * pos.y - size.y <= REACH
    &&& -REACH <= 2 * pos.y + size.y <= REACH
}

/// The interiors of the two rectangles meet. Each rectangle reaches half its
/// size to either side of its centre; both sides of each comparison are
/// doubled so that no half appears.
pub open spec fn overlaps(a_pos: Vec3, a_size: Vec2, b_pos: Vec3, b_size: Vec2) -> bool {
    &&& 2 * a_pos.x - a_size.x < 2 * b_pos.x + b_size.x
    &&& 2 * a_pos.x + a_size.x > 2 * b_pos.x - b_size.x
    &&& 2 * a_pos.y - a_size.y < 2 * b_pos.y + b_size.y
    &&& 2 * a_pos.y + a_size.y > 2 * b_pos.y - b_size.y
}

/// What `bevy::sprite::collide_aabb::collide` answers for two rectangles
/// given by centre and size.
pub uninterp spec fn collision_of(a_pos: Vec3, a_size: Vec2, b_pos: Vec3, b_size: Vec2) -> Option<
    Collision,
>;

/// What running rectangle `a` into rectangle `b` answers.
pub open spec fn touch(a: Transform, b: Transform) -> Option<Collision> {
    collision_of(a.translation, a.size(), b.translation, b.size())
}

/// Both rectangles lie within reach.
pub open spec fn comparable(a: Transform, b: Transform) -> bool {
    within_reach(a.translation, a.size()) && within_reach(b.translation, b.size())
}

/// The interiors of `a` and `b` meet.
pub open spec fn overlap(a: Transform, b: Transform) -> bool {
    overlaps(a.translation, a.size(), b.translation, b.size())
}

/// If both lie within reach, `a` runs into `b` exactly when the two overlap.
pub open spec fn faithful(a: Transform, b: Transform) -> bool {
    comparable(a, b) ==> (touch(a, b).is_some() <==> overlap(a, b))
}

/// `a` and `b` lie within reach and their interiors do not meet.
pub open spec fn apart(a: Transform, b: Transform) -> bool {
    comparable(a, b) && !overlap(a, b)
}

/// The rectangle `a` lies apart from every one of `colliders`.
pub open spec fn clear_of<C>(a: Transform, colliders: Seq<Sprite<C>>) -> bool {
    forall|j: int| 0 <= j < colliders.len() ==> apart(a, (#[trigger] colliders[j]).transform)
}

/// Calls `bevy::sprite::collide_aabb::collide` on the two rectangles, their
/// integer coordinates converted to `f32` by `IVec3::as_vec3` and
/// `IVec2::as_vec2`, and hands its answer on, variant for variant.
///
/// Trusted, not proved: the answer depends on the four arguments alone, and
/// for rectangles within reach it is `Some` exactly when the two overlap.
/// `collide` halves the sizes, adds the halves to the centres and subtracts
/// them, and answers `Some` when the four comparisons of `overlaps` hold of
/// those edges. Within reach every centre, size and edge is a multiple of one
/// half of at most 2^23, which `f32` holds without rounding, so the
/// comparisons come out as they do on the integers. Beyond reach they are
/// made on rounded values.
#[verifier::external_body]
pub(crate) fn collide(a_pos: Vec3, a_size: Vec2, b_pos: Vec3, b_size: Vec2) -> (hit: Option<
    Collision,
>)
    ensures
        hit == collision_of(a_pos, a_size, b_pos, b_size),
        within_reach(a_pos, a_size) && within_reach(b_pos, b_size) ==> (hit.is_some() <==> overlaps(
            a_pos,
            a_size,
            b_pos,
            b_size,
        )),
{
    match collide_aabb::collide(
        IVec3::new(a_pos.x, a_pos.y, a_pos.z).as_vec3(),
        IVec2::new(a_size.x, a_size.y).as_vec2(),
        IVec3::new(b_pos.x, b_pos.y, b_pos.z).as_vec3(),
        IVec2::new(b_size.x, b_size.y).as_vec2(),
    ) {
        Some(collide_aabb::Collision::Left) => Some(Collision::Left),
        Some(collide_aabb::Collision::Right) => Some(Collision::Right),
        Some(collide_aabb::Collision::Top) => Some(Collision::Top),
        Some(collide_aabb::Collision::Bottom) => Some(Collision::Bottom),
        Some(collide_aabb::Collision::Inside) => Some(Collision::Inside),
        None => None,
    }
}

} // verus!
