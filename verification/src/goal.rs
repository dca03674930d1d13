//! The two goals at the ends of the field, and the points they give.

use crate::ball::Ball;
use crate::collision::{apart, clear_of, collide, faithful, touch};
use crate::geometry::{trunc_div, Playfield, Sprite, Transform, Vec2, Vec3, UNIT};
use crate::reset::{latest, phase_of, Phase, Reset};
use crate::score::{Player, Score};
use vstd::prelude::*;

verus! {

/// A goal, and the player who gets the point when the ball reaches it.
#[derive(Clone, Copy, Debug, PartialEq, Eq, Structural)]
pub struct Goal {
    pub player: Player,
}

impl Goal {
    /// How deep a goal is: twenty pixels.
    pub const THICKNESS: i32 = 20 * UNIT;
}

/// The goal as a reset on `field` leaves it: as high as the field, lying
/// along the inside of one of its ends.
pub open spec fn goal_reset(goal: Sprite<Goal>, field: Playfield) -> Sprite<Goal> {
    let x_offset = trunc_div(field.width - Goal::THICKNESS, 2);
    Sprite {
        component: goal.component,
        transform: Transform {
            translation: Vec3 {
                x: match goal.component.player {
                    Player::Left => x_offset as i32,
                    Player::Right => (-x_offset) as i32,
                },
                y: 0,
                z: 0,
            },
            scale: Vec3 { x: Goal::THICKNESS, y: field.height, z: UNIT },
        },
    }
}

/// The goal after the reset coordinator has read `signals`: reset once if any
/// signal waits, else untouched.
pub open spec fn goal_reset_by(signals: Seq<Reset>, field: Playfield, goal: Sprite<Goal>) -> Sprite<
    Goal,
> {
    match phase_of(signals) {
        Phase::Idle => goal,
        Phase::Resetting => goal_reset(goal, field),
    }
}

/// The ball at `ball` is in `goal`, and the point goes to `player`.
pub open spec fn scores(ball: Transform, goal: Sprite<Goal>, player: Player) -> bool {
    goal.component.player == player && touch(ball, goal.transform).is_some()
}

/// How many of the first `n` goals give `player` a point for the ball at `ball`.
pub open spec fn goals_hit(ball: Transform, goals: Seq<Sprite<Goal>>, player: Player, n: nat) -> nat
    decreases n,
{
    if n == 0 {
        0
    } else {
        goals_hit(ball, goals, player, (n - 1) as nat) + if scores(ball, goals[n - 1], player) {
            1nat
        } else {
            0nat
        }
    }
}

/// How many points the first `n` balls win for `player`: one for every ball
/// and every goal of that player that the ball is in.
pub open spec fn points_won(
    balls: Seq<Sprite<Ball>>,
    goals: Seq<Sprite<Goal>>,
    player: Player,
    n: nat,
) -> nat
    decreases n,
{
    if n == 0 {
        0
    } else {
        points_won(balls, goals, player, (n - 1) as nat) + goals_hit(
            balls[n - 1].transform,
            goals,
            player,
            goals.len(),
        )
    }
}

/// `n` reset signals in a row.
pub open spec fn signals(n: nat) -> Seq<Reset> {
    Seq::new(n, |i: int| Reset)
}

/// A ball wins at most one point from each goal.
pub proof fn lemma_goals_hit_bounded(
    ball: Transform,
    goals: Seq<Sprite<Goal>>,
    n: nat,
)
    ensures
        goals_hit(ball, goals, Player::Left, n) + goals_hit(ball, goals, Player::Right, n) <= n,
    decreases n,
{
    if n > 0 {
        lemma_goals_hit_bounded(ball, goals, (n - 1) as nat);
    }
}

/// The first `n` balls win at most one point from each goal.
pub proof fn lemma_points_bounded(balls: Seq<Sprite<Ball>>, goals: Seq<Sprite<Goal>>, n: nat)
    ensures
        points_won(balls, goals, Player::Left, n) + points_won(balls, goals, Player::Right, n) <= n
            * goals.len(),
    decreases n,
{
    if n > 0 {
        lemma_points_bounded(balls, goals, (n - 1) as nat);
        lemma_goals_hit_bounded(balls[n - 1].transform, goals, goals.len());
        assert((n - 1) * goals.len() + goals.len() == n * goals.len()) by (nonlinear_arith);
    }
}

/// Adds the two goals, the left player's first, each one pixel large at the
/// origin until the first reset.
pub fn spawn_goals(goals: &mut Vec<Sprite<Goal>>)
    ensures
        final(goals)@ == old(goals)@.push(
            Sprite { component: Goal { player: Player::Left }, transform: Transform::identity() },
        ).push(
            Sprite { component: Goal { player: Player::Right }, transform: Transform::identity() },
        ),
{
    spawn_goal(goals, Player::Left);
    spawn_goal(goals, Player::Right);
}

fn spawn_goal(goals: &mut Vec<Sprite<Goal>>, player: Player)
    ensures
        final(goals)@ == old(goals)@.push(
            Sprite { component: Goal { player }, transform: Transform::identity() },
        ),
{
    goals.push(Sprite { component: Goal { player }, transform: Transform::default() });
}

/// Lays every goal out anew if a reset signal waits; does nothing if none does.
pub fn goal_reset_system(resets: &Vec<Reset>, field: &Playfield, goals: &mut Vec<Sprite<Goal>>)
    requires
        field.wf(),
    ensures
        final(goals)@.len() == old(goals)@.len(),
        forall|i: int|
            0 <= i < old(goals)@.len() ==> #[trigger] final(goals)@[i] == goal_reset_by(
                resets@,
                *field,
                old(goals)@[i],
            ),
{
    if latest(resets).is_none() {
        return ;
    }
    let n: usize = goals.len();
    let mut i: usize = 0;
    while i < n
        invariant
            field.wf(),
            i <= n,
            n == goals@.len(),
            n == old(goals)@.len(),
            forall|k: int| 0 <= k < i ==> #[trigger] goals@[k] == goal_reset(old(goals)@[k], *field),
            forall|k: int| i <= k < n ==> #[trigger] goals@[k] == old(goals)@[k],
        decreases n - i,
    {
        goals[i].transform.scale = Vec3::new(Goal::THICKNESS, field.height, UNIT);

        let x_offset: i32 = (field.width - Goal::THICKNESS) / 2;
        let x_position: i32 = match goals[i].component.player {
            Player::Left => x_offset,
            Player::Right => -x_offset,
        };
        goals[i].transform.translation = Vec3::new(x_position, 0, 0);
        i += 1;
    }
}

/// Gives a point for every ball in a goal, to the player the goal belongs to,
/// and sends one reset signal with each point. Balls apart from every goal
/// change nothing.
pub fn goal_collision_system(
    resets: &mut Vec<Reset>,
    balls: &Vec<Sprite<Ball>>,
    goals: &Vec<Sprite<Goal>>,
    score: &mut Score,
)
    requires
        old(score).left + balls@.len() * goals@.len() <= u64::MAX,
        old(score).right + balls@.len() * goals@.len() <= u64::MAX,
    ensures
        final(score).left == old(score).left + points_won(
            balls@,
            goals@,
            Player::Left,
            balls@.len(),
        ),
        final(score).right == old(score).right + points_won(
            balls@,
            goals@,
            Player::Right,
            balls@.len(),
        ),
        final(resets)@ == old(resets)@ + signals(
            points_won(balls@, goals@, Player::Left, balls@.len()) + points_won(
                balls@,
                goals@,
                Player::Right,
                balls@.len(),
            ),
        ),
        final(score).left >= old(score).left,
        final(score).right >= old(score).right,
        forall|i: int, j: int|
            0 <= i < balls@.len() && 0 <= j < goals@.len() ==> faithful(
                (#[trigger] balls@[i]).transform,
                (#[trigger] goals@[j]).transform,
            ),
        (forall|i: int| 0 <= i < balls@.len() ==> clear_of((#[trigger] balls@[i]).transform, goals@))
            ==> *final(score) == *old(score) && final(resets)@ == old(resets)@,
{
    let n: usize = balls.len();
    let m: usize = goals.len();
    let ghost mut left: nat = 0;
    let ghost mut right: nat = 0;
    let mut i: usize = 0;
    while i < n
        invariant
            i <= n,
            n == balls@.len(),
            m == goals@.len(),
            old(score).left + n * m <= u64::MAX,
            old(score).right + n * m <= u64::MAX,
            left == points_won(balls@, goals@, Player::Left, i as nat),
            right == points_won(balls@, goals@, Player::Right, i as nat),
            left + right <= i * m,
            score.left == old(score).left + left,
            score.right == old(score).right + right,
            resets@ == old(resets)@ + signals(left + right),
            forall|k: int, j: int|
                0 <= k < i && 0 <= j < m ==> faithful(
                    (#[trigger] balls@[k]).transform,
                    (#[trigger] goals@[j]).transform,
                ),
            (forall|k: int| 0 <= k < i ==> clear_of((#[trigger] balls@[k]).transform, goals@))
                ==> left + right == 0,
        decreases n - i,
    {
        let ball_transform = balls[i].transform;
        let ghost mut hit_left: nat = 0;
        let ghost mut hit_right: nat = 0;
        let mut j: usize = 0;
        while j < m
            invariant
                i < n,
                j <= m,
                n == balls@.len(),
                m == goals@.len(),
                ball_transform == balls@[i as int].transform,
                old(score).left + n * m <= u64::MAX,
                old(score).right + n * m <= u64::MAX,
                hit_left == goals_hit(ball_transform, goals@, Player::Left, j as nat),
                hit_right == goals_hit(ball_transform, goals@, Player::Right, j as nat),
                left + right <= i * m,
                hit_left + hit_right <= j,
                score.left == old(score).left + left + hit_left,
                score.right == old(score).right + right + hit_right,
                resets@ == old(resets)@ + signals(left + right + hit_left + hit_right),
                forall|k: int|
                    0 <= k < j ==> faithful(ball_transform, (#[trigger] goals@[k]).transform),
                (forall|k: int| 0 <= k < j ==> apart(ball_transform, (#[trigger] goals@[k]).transform))
                    ==> hit_left + hit_right == 0,
            decreases m - j,
        {
            let goal_transform = goals[j].transform;
            let collision = collide(
                ball_transform.translation,
                Vec2::new(ball_transform.scale.x, ball_transform.scale.y),
                goal_transform.translation,
                Vec2::new(goal_transform.scale.x, goal_transform.scale.y),
            );

            if collision.is_some() {
                proof {
                    assert(i * m + j < n * m) by (nonlinear_arith)
                        requires
                            i < n,
                            j < m,
                    ;
                    assert(!apart(ball_transform, goals@[j as int].transform));
                }
                let player = goals[j].component.player;
                score.award(player);
                proof {
                    match player {
                        Player::Left => {
                            hit_left = hit_left + 1;
                        },
                        Player::Right => {
                            hit_right = hit_right + 1;
                        },
                    }
                }
                resets.push(Reset);
                assert(resets@ =~= old(resets)@ + signals(left + right + hit_left + hit_right));
            }
            j += 1;
        }
        proof {
            assert(i * m + m == (i + 1) * m) by (nonlinear_arith);
            if forall|k: int| 0 <= k <= i ==> clear_of((#[trigger] balls@[k]).transform, goals@) {
                assert(clear_of(balls@[i as int].transform, goals@));
            }
            left = left + hit_left;
            right = right + hit_right;
        }
        i += 1;
    }
    proof {
        assert(signals(0) =~= Seq::<Reset>::empty());
        assert(old(resets)@ + Seq::<Reset>::empty() =~= old(resets)@);
    }
}

} // verus!
