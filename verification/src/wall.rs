//! The two walls along the top and the bottom of the field.

use crate::geometry::{trunc_div, Playfield, Sprite, Transform, Vec3, UNIT};
use crate::reset::{latest, phase_of, Phase, Reset};
use vstd::prelude::*;

verus! {

/// Which of the two walls.
#[derive(Clone, Copy, Debug, PartialEq, Eq, Structural)]
pub enum Wall {
    Top,
    Bottom,
}

impl Wall {
    /// How thick a wall is: twenty pixels.
    pub const THICKNESS: i32 = 20 * UNIT;
}

/// The wall as a reset on `field` leaves it: as wide as the field, lying
/// along the inside of its upper or lower edge.
pub open spec fn wall_reset(wall: Sprite<Wall>, field: Playfield) -> Sprite<Wall> {
    let y_offset = trunc_div(field.height - Wall::THICKNESS, 2);
    Sprite {
        component: wall.component,
        transform: Transform {
            translation: Vec3 {
                x: 0,
                y: match wall.component {
                    Wall::Top => y_offset as i32,
                    Wall::Bottom => (-y_offset) as i32,
                },
                z: 0,
            },
            scale: Vec3 { x: field.width, y: Wall::THICKNESS, z: UNIT },
        },
    }
}

/// The wall after the reset coordinator has read `signals`: reset once if any
/// signal waits, else untouched.
pub open spec fn wall_reset_by(signals: Seq<Reset>, field: Playfield, wall: Sprite<Wall>) -> Sprite<
    Wall,
> {
    match phase_of(signals) {
        Phase::Idle => wall,
        Phase::Resetting => wall_reset(wall, field),
    }
}

/// Lays every wall out anew if a reset signal waits; does nothing if none does.
pub fn wall_reset_system(resets: &Vec<Reset>, field: &Playfield, walls: &mut Vec<Sprite<Wall>>)
    requires
        field.wf(),
    ensures
        final(walls)@.len() == old(walls)@.len(),
        forall|i: int|
            0 <= i < old(walls)@.len() ==> #[trigger] final(walls)@[i] == wall_reset_by(
                resets@,
                *field,
                old(walls)@[i],
            ),
{
    if latest(resets).is_none() {
        return ;
    }
    let n: usize = walls.len();
    let mut i: usize = 0;
    while i < n
        invariant
            field.wf(),
            i <= n,
            n == walls@.len(),
            n == old(walls)@.len(),
            forall|k: int| 0 <= k < i ==> #[trigger] walls@[k] == wall_reset(old(walls)@[k], *field),
            forall|k: int| i <= k < n ==> #[trigger] walls@[k] == old(walls)@[k],
        decreases n - i,
    {
        walls[i].transform.scale = Vec3::new(field.width, Wall::THICKNESS, UNIT);

        let y_offset: i32 = (field.height - Wall::THICKNESS) / 2;
        let y_position: i32 = match walls[i].component {
            Wall::Top => y_offset,
            Wall::Bottom => -y_offset,
        };
        walls[i].transform.translation = Vec3::new(0, y_position, 0);
        i += 1;
    }
}

/// Adds the two walls, top first, each one pixel large at the origin until
/// the first reset.
pub fn spawn_walls(walls: &mut Vec<Sprite<Wall>>)
    ensures
        final(walls)@ == old(walls)@.push(
            Sprite { component: Wall::Top, transform: Transform::identity() },
        ).push(Sprite { component: Wall::Bottom, transform: Transform::identity() }),
{
    spawn_wall(walls, Wall::Top);
    spawn_wall(walls, Wall::Bottom);
}

fn spawn_wall(walls: &mut Vec<Sprite<Wall>>, wall: Wall)
    ensures
        final(walls)@ == old(walls)@.push(
            Sprite { component: wall, transform: Transform::identity() },
        ),
{
    walls.push(Sprite { component: wall, transform: Transform::default() });
}

} // verus!
