//! The ball: how it moves, how it bounces off what it runs into, and where a
//! reset puts it.

use crate::collision::{apart, clear_of, collide, faithful, touch, Collision};
use crate::direction::{Direction, ONE};
use crate::geometry::{trunc_div, Playfield, Sprite, Transform, Vec2, Vec3, MICROS, UNIT};
use crate::reset::{latest, phase_of, Phase, Reset};
use vstd::prelude::*;

verus! {

/// How fast the ball travels, in units per second, and which way.
#[derive(Clone, Copy, Debug, PartialEq, Eq, Structural)]
pub struct Ball {
    pub speed: i32,
    pub direction: Direction,
}

impl Ball {
    /// The speed is not negative and the direction has length one.
    pub open spec fn wf(self) -> bool {
        self.speed >= 0 && self.direction.is_unit()
    }

    /// At rest, facing up and to the right.
    pub open spec fn at_rest() -> Ball {
        Ball { speed: 0, direction: Direction::diagonal() }
    }

    /// Speed times direction, each component rounded toward zero.
    pub open spec fn spec_velocity(self) -> Vec2 {
        Vec2 {
            x: trunc_div(self.speed * self.direction.x, ONE as int) as i32,
            y: trunc_div(self.speed * self.direction.y, ONE as int) as i32,
        }
    }

    /// Whether a hit on `collision` turns the ball round in x: it does when the
    /// ball still travels into the side it has hit.
    pub open spec fn reflects_x(self, collision: Collision) -> bool {
        match collision {
            Collision::Left => self.direction.x > 0,
            Collision::Right => self.direction.x < 0,
            _ => false,
        }
    }

    /// Whether a hit on `collision` turns the ball round in y.
    pub open spec fn reflects_y(self, collision: Collision) -> bool {
        match collision {
            Collision::Top => self.direction.y < 0,
            Collision::Bottom => self.direction.y > 0,
            _ => false,
        }
    }

    /// The ball after meeting an obstacle with the given outcome: unchanged
    /// without a hit, else with the component negated that the hit turns round.
    pub open spec fn bounced(self, hit: Option<Collision>) -> Ball {
        match hit {
            None => self,
            Some(collision) => Ball {
                speed: self.speed,
                direction: self.direction.flipped(
                    self.reflects_x(collision),
                    self.reflects_y(collision),
                ),
            },
        }
    }

    /// A bounce changes neither the speed nor the length of the direction.
    pub proof fn lemma_bounce_keeps_length(self, hit: Option<Collision>)
        requires
            self.wf(),
        ensures
            self.bounced(hit).wf(),
            self.bounced(hit).speed == self.speed,
            self.bounced(hit).direction.norm_squared() == self.direction.norm_squared(),
    {
        match hit {
            None => {},
            Some(collision) => {
                self.direction.lemma_flip_keeps_length(
                    self.reflects_x(collision),
                    self.reflects_y(collision),
                );
            },
        }
    }

    /// A second hit on the same side changes nothing more: once turned round,
    /// the ball no longer travels into that side.
    pub proof fn lemma_bounce_twice_is_once(self, collision: Collision)
        requires
            self.wf(),
        ensures
            self.bounced(Some(collision)).bounced(Some(collision)) == self.bounced(Some(collision)),
    {
        self.direction.lemma_flip_keeps_length(
            self.reflects_x(collision),
            self.reflects_y(collision),
        );
    }

    /// The ball of the given speed and direction, if the speed is not negative
    /// and the direction has length one.
    pub fn new(speed: i32, direction: Direction) -> (ball: Option<Ball>)
        ensures
            ball == if (Ball { speed, direction }).wf() {
                Some(Ball { speed, direction })
            } else {
                None
            },
    {
        match Direction::new(direction.x, direction.y) {
            Some(unit) => if speed >= 0 {
                Some(Ball { speed, direction: unit })
            } else {
                None
            },
            None => None,
        }
    }

    /// Speed times direction.
    pub fn velocity(&self) -> (v: Vec2)
        requires
            self.wf(),
        ensures
            v == self.spec_velocity(),
            v.x == trunc_div(self.speed * self.direction.x, ONE as int),
            v.y == trunc_div(self.speed * self.direction.y, ONE as int),
            -self.speed <= v.x <= self.speed,
            -self.speed <= v.y <= self.speed,
    {
        proof {
            self.direction.lemma_components_bounded();
        }
        Vec2 {
            x: scaled(self.speed, self.direction.x),
            y: scaled(self.speed, self.direction.y),
        }
    }

    /// Turns the ball round as a hit on `collision` asks.
    pub fn bounce(&mut self, collision: Collision)
        requires
            old(self).wf(),
        ensures
            *final(self) == old(self).bounced(Some(collision)),
            final(self).wf(),
    {
        proof {
            self.lemma_bounce_keeps_length(Some(collision));
            self.direction.lemma_components_bounded();
        }
        let (reflect_x, reflect_y) = match collision {
            Collision::Left => (self.direction.x > 0, false),
            Collision::Right => (self.direction.x < 0, false),
            Collision::Top => (false, self.direction.y < 0),
            Collision::Bottom => (false, self.direction.y > 0),
            _ => (false, false),
        };
        if reflect_x {
            self.direction.x = -self.direction.x;
        }
        if reflect_y {
            self.direction.y = -self.direction.y;
        }
    }
}

impl Default for Ball {
    fn default() -> (ball: Ball)
        ensures
            ball == Ball::at_rest(),
            ball.wf(),
    {
        proof {
            Direction::lemma_diagonal_is_unit();
        }
        Ball { speed: 0, direction: Direction { x: 707_107, y: 707_107 } }
    }
}

/// `speed` times a direction component of at most `ONE`, rounded toward zero.
fn scaled(speed: i32, part: i32) -> (r: i32)
    requires
        speed >= 0,
        -ONE <= part <= ONE,
    ensures
        r == trunc_div(speed * part, ONE as int),
        -speed <= r <= speed,
{
    proof {
        let s = speed as int;
        let p = part as int;
        assert(-s * 1_000_000 <= s * p <= s * 1_000_000) by (nonlinear_arith)
            requires
                s >= 0,
                -1_000_000 <= p <= 1_000_000,
        ;
    }
    let wide: i64 = (speed as i64) * (part as i64);
    let quotient: i64 = wide / (ONE as i64);
    quotient as i32
}

/// Every ball of `balls` is well formed.
pub open spec fn balls_wf(balls: Seq<Sprite<Ball>>) -> bool {
    forall|i: int| 0 <= i < balls.len() ==> (#[trigger] balls[i]).component.wf()
}

/// The ball as a reset on `field` leaves it: in the centre, a twentieth of
/// the field's height wide and high, at a speed of two thirds of that height
/// per second. Its direction stays as it was.
pub open spec fn ball_reset(ball: Sprite<Ball>, field: Playfield) -> Sprite<Ball> {
    Sprite {
        component: Ball { speed: (2 * field.height / 3) as i32, direction: ball.component.direction },
        transform: Transform {
            translation: Vec3::zero(),
            scale: Vec3 { x: (field.height / 20) as i32, y: (field.height / 20) as i32, z: UNIT },
        },
    }
}

/// The ball after the reset coordinator has read `signals`: reset once if any
/// signal waits, else untouched.
pub open spec fn ball_reset_by(signals: Seq<Reset>, field: Playfield, ball: Sprite<Ball>) -> Sprite<
    Ball,
> {
    match phase_of(signals) {
        Phase::Idle => ball,
        Phase::Resetting => ball_reset(ball, field),
    }
}

/// How far a body of the given velocity travels in `dt` microseconds, rounded
/// toward zero.
pub open spec fn displacement(velocity: int, dt: u32) -> int {
    trunc_div(velocity * dt, MICROS as int)
}

/// Where the ball's centre is after `dt` microseconds, in x and y.
pub open spec fn destination(ball: Sprite<Ball>, dt: u32) -> (int, int) {
    (
        ball.transform.translation.x + displacement(ball.component.spec_velocity().x as int, dt),
        ball.transform.translation.y + displacement(ball.component.spec_velocity().y as int, dt),
    )
}

/// The ball's destination after `dt` microseconds is a position that `i32` holds.
pub open spec fn can_advance(ball: Sprite<Ball>, dt: u32) -> bool {
    &&& i32::MIN <= destination(ball, dt).0 <= i32::MAX
    &&& i32::MIN <= destination(ball, dt).1 <= i32::MAX
}

/// The ball moved to its destination, nothing else changed.
pub open spec fn advanced(ball: Sprite<Ball>, dt: u32) -> Sprite<Ball> {
    Sprite {
        component: ball.component,
        transform: Transform {
            translation: Vec3 {
                x: destination(ball, dt).0 as i32,
                y: destination(ball, dt).1 as i32,
                z: ball.transform.translation.z,
            },
            scale: ball.transform.scale,
        },
    }
}

/// The ball component after the ball has been run into the first `n` of
/// `colliders` in turn, bouncing off each as `Ball::bounced` says. The ball
/// does not move meanwhile.
pub open spec fn bounced_off<C>(ball: Sprite<Ball>, colliders: Seq<Sprite<C>>, n: nat) -> Ball
    decreases n,
{
    if n == 0 {
        ball.component
    } else {
        bounced_off(ball, colliders, (n - 1) as nat).bounced(
            touch(ball.transform, colliders[n - 1].transform),
        )
    }
}

/// However many obstacles a ball bounces off, it keeps its speed and the
/// length of its direction.
pub proof fn lemma_bounces_keep_length<C>(ball: Sprite<Ball>, colliders: Seq<Sprite<C>>, n: nat)
    requires
        ball.component.wf(),
    ensures
        bounced_off(ball, colliders, n).wf(),
        bounced_off(ball, colliders, n).speed == ball.component.speed,
        bounced_off(ball, colliders, n).direction.norm_squared()
            == ball.component.direction.norm_squared(),
    decreases n,
{
    if n > 0 {
        lemma_bounces_keep_length(ball, colliders, (n - 1) as nat);
        bounced_off(ball, colliders, (n - 1) as nat).lemma_bounce_keeps_length(
            touch(ball.transform, colliders[n - 1].transform),
        );
    }
}

/// A ball that hits none of the first `n` obstacles is left as it was.
pub proof fn lemma_no_hit_no_bounce<C>(ball: Sprite<Ball>, colliders: Seq<Sprite<C>>, n: nat)
    requires
        forall|j: int| 0 <= j < n ==> touch(ball.transform, (#[trigger] colliders[j]).transform).is_none(),
    ensures
        bounced_off(ball, colliders, n) == ball.component,
    decreases n,
{
    if n > 0 {
        lemma_no_hit_no_bounce(ball, colliders, (n - 1) as nat);
        assert(touch(ball.transform, colliders[n - 1].transform).is_none());
    }
}

/// Adds a ball at rest: one pixel large, at the origin, facing up and right.
pub fn spawn_ball(balls: &mut Vec<Sprite<Ball>>)
    ensures
        final(balls)@ == old(balls)@.push(
            Sprite { component: Ball::at_rest(), transform: Transform::identity() },
        ),
{
    balls.push(Sprite { component: Ball::default(), transform: Transform::default() });
}

/// Lays every ball out anew if a reset signal waits; does nothing if none does.
pub fn ball_reset_system(resets: &Vec<Reset>, field: &Playfield, balls: &mut Vec<Sprite<Ball>>)
    requires
        field.wf(),
    ensures
        final(balls)@.len() == old(balls)@.len(),
        forall|i: int|
            0 <= i < old(balls)@.len() ==> #[trigger] final(balls)@[i] == ball_reset_by(
                resets@,
                *field,
                old(balls)@[i],
            ),
        balls_wf(old(balls)@) ==> balls_wf(final(balls)@),
{
    if latest(resets).is_none() {
        return ;
    }
    let n: usize = balls.len();
    let mut i: usize = 0;
    while i < n
        invariant
            field.wf(),
            i <= n,
            n == balls@.len(),
            n == old(balls)@.len(),
            forall|k: int| 0 <= k < i ==> #[trigger] balls@[k] == ball_reset(old(balls)@[k], *field),
            forall|k: int| i <= k < n ==> #[trigger] balls@[k] == old(balls)@[k],
        decreases n - i,
    {
        balls[i].component.speed = ((field.height as i64) * 2 / 3) as i32;

        let ball_width: i32 = field.height / 20;
        balls[i].transform.scale = Vec3::new(ball_width, ball_width, UNIT);

        balls[i].transform.translation = Vec3::new(0, 0, 0);
        i += 1;
    }
}

/// How far a body of the given velocity travels in `dt` microseconds.
fn travelled(velocity: i32, dt: u32) -> (d: i64)
    ensures
        d == displacement(velocity as int, dt),
        -9_223_372_036_855 <= d <= 9_223_372_036_855,
{
    proof {
        let v = velocity as int;
        let t = dt as int;
        assert(-0x8000_0000 * 0xffff_ffff <= v * t <= 0x8000_0000 * 0xffff_ffff)
            by (nonlinear_arith)
            requires
                -0x8000_0000 <= v <= 0x7fff_ffff,
                0 <= t <= 0xffff_ffff,
        ;
    }
    let wide: i64 = (velocity as i64) * (dt as i64);
    wide / (MICROS as i64)
}

/// Whether the ball's destination after `dt` microseconds is a position that
/// `i32` holds.
pub fn fits(ball: &Sprite<Ball>, dt: u32) -> (ok: bool)
    requires
        ball.component.wf(),
    ensures
        ok == can_advance(*ball, dt),
{
    let velocity = ball.component.velocity();
    let x: i64 = ball.transform.translation.x as i64 + travelled(velocity.x, dt);
    let y: i64 = ball.transform.translation.y as i64 + travelled(velocity.y, dt);
    -0x8000_0000 <= x && x <= 0x7fff_ffff && -0x8000_0000 <= y && y <= 0x7fff_ffff
}

/// Moves every ball along its velocity for `dt` microseconds.
pub fn ball_movement_system(dt: u32, balls: &mut Vec<Sprite<Ball>>)
    requires
        balls_wf(old(balls)@),
        forall|i: int| 0 <= i < old(balls)@.len() ==> can_advance(#[trigger] old(balls)@[i], dt),
    ensures
        final(balls)@.len() == old(balls)@.len(),
        forall|i: int|
            0 <= i < old(balls)@.len() ==> #[trigger] final(balls)@[i] == advanced(
                old(balls)@[i],
                dt,
            ),
        balls_wf(final(balls)@),
{
    let n: usize = balls.len();
    let mut i: usize = 0;
    while i < n
        invariant
            i <= n,
            n == balls@.len(),
            n == old(balls)@.len(),
            balls_wf(old(balls)@),
            forall|k: int| 0 <= k < n ==> can_advance(#[trigger] old(balls)@[k], dt),
            forall|k: int| 0 <= k < i ==> #[trigger] balls@[k] == advanced(old(balls)@[k], dt),
            forall|k: int| i <= k < n ==> #[trigger] balls@[k] == old(balls)@[k],
        decreases n - i,
    {
        assert(can_advance(old(balls)@[i as int], dt));
        let velocity = balls[i].component.velocity();
        let x: i64 = balls[i].transform.translation.x as i64 + travelled(velocity.x, dt);
        let y: i64 = balls[i].transform.translation.y as i64 + travelled(velocity.y, dt);
        balls[i].transform.translation.x = x as i32;
        balls[i].transform.translation.y = y as i32;
        i += 1;
    }
}

/// Runs every ball into every collider and turns it round where it bounces.
/// Neither moves; a ball that lies apart from every collider is left as it was.
pub fn ball_collision_system<C>(balls: &mut Vec<Sprite<Ball>>, colliders: &Vec<Sprite<C>>)
    requires
        balls_wf(old(balls)@),
    ensures
        final(balls)@.len() == old(balls)@.len(),
        forall|i: int|
            0 <= i < old(balls)@.len() ==> #[trigger] final(balls)@[i] == (Sprite {
                component: bounced_off(old(balls)@[i], colliders@, colliders@.len()),
                transform: old(balls)@[i].transform,
            }),
        forall|i: int|
            0 <= i < old(balls)@.len() && clear_of(old(balls)@[i].transform, colliders@)
                ==> #[trigger] final(balls)@[i] == old(balls)@[i],
        forall|i: int, j: int|
            0 <= i < old(balls)@.len() && 0 <= j < colliders@.len() ==> faithful(
                (#[trigger] old(balls)@[i]).transform,
                (#[trigger] colliders@[j]).transform,
            ),
        balls_wf(final(balls)@),
{
    let n: usize = balls.len();
    let m: usize = colliders.len();
    let mut i: usize = 0;
    while i < n
        invariant
            i <= n,
            n == balls@.len(),
            n == old(balls)@.len(),
            m == colliders@.len(),
            balls_wf(old(balls)@),
            forall|k: int|
                0 <= k < i ==> #[trigger] balls@[k] == (Sprite {
                    component: bounced_off(old(balls)@[k], colliders@, m as nat),
                    transform: old(balls)@[k].transform,
                }),
            forall|k: int|
                0 <= k < i && clear_of(old(balls)@[k].transform, colliders@)
                    ==> #[trigger] balls@[k] == old(balls)@[k],
            forall|k: int, j: int|
                0 <= k < i && 0 <= j < m ==> faithful(
                    (#[trigger] old(balls)@[k]).transform,
                    (#[trigger] colliders@[j]).transform,
                ),
            forall|k: int| 0 <= k < i ==> (#[trigger] balls@[k]).component.wf(),
            forall|k: int| i <= k < n ==> #[trigger] balls@[k] == old(balls)@[k],
        decreases n - i,
    {
        let ghost start = balls@[i as int];
        let ball_transform = balls[i].transform;
        let mut ball = balls[i].component;
        let mut j: usize = 0;
        while j < m
            invariant
                j <= m,
                m == colliders@.len(),
                start.component.wf(),
                start.transform == ball_transform,
                ball == bounced_off(start, colliders@, j as nat),
                ball.wf(),
                forall|k: int|
                    0 <= k < j ==> faithful(ball_transform, (#[trigger] colliders@[k]).transform),
            decreases m - j,
        {
            let collider_transform = colliders[j].transform;
            let collision = collide(
                ball_transform.translation,
                Vec2::new(ball_transform.scale.x, ball_transform.scale.y),
                collider_transform.translation,
                Vec2::new(collider_transform.scale.x, collider_transform.scale.y),
            );
            match collision {
                Some(collision) => ball.bounce(collision),
                None => {},
            }
            j += 1;
        }
        proof {
            if clear_of(start.transform, colliders@) {
                assert forall|k: int| 0 <= k < m implies touch(
                    start.transform,
                    (#[trigger] colliders@[k]).transform,
                ).is_none() by {
                    assert(faithful(ball_transform, colliders@[k].transform));
                    assert(apart(start.transform, colliders@[k].transform));
                }
                lemma_no_hit_no_bounce(start, colliders@, m as nat);
            }
        }
        balls[i].component = ball;
        i += 1;
    }
}

} // verus!
