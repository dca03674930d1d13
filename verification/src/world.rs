//! The whole game: every entity, the score and the waiting reset signals,
//! and the frame that takes one state to the next.

use crate::ball::{
    ball_collision_system, ball_movement_system, ball_reset_by, ball_reset_system, balls_wf,
    advanced, bounced_off, can_advance, fits, lemma_bounces_keep_length, spawn_ball, Ball,
};
use crate::collision::clear_of;
use crate::direction::Direction;
use crate::geometry::{Playfield, Sprite, Transform};
use crate::goal::{
    goal_collision_system, goal_reset_by, goal_reset_system, lemma_points_bounded, points_won,
    signals, spawn_goals, Goal,
};
use crate::reset::{phase_of, Phase, Reset};
use crate::score::{Player, Score};
use crate::wall::{spawn_walls, wall_reset_by, wall_reset_system, Wall};
use vstd::prelude::*;

verus! {

/// Everything that a game holds between two frames.
pub struct World {
    pub balls: Vec<Sprite<Ball>>,
    pub walls: Vec<Sprite<Wall>>,
    pub goals: Vec<Sprite<Goal>>,
    pub score: Score,
    /// The reset signals sent since the coordinator last looked.
    pub resets: Vec<Reset>,
}

/// A game as a mathematical value.
pub struct WorldView {
    pub balls: Seq<Sprite<Ball>>,
    pub walls: Seq<Sprite<Wall>>,
    pub goals: Seq<Sprite<Goal>>,
    pub score: Score,
    pub resets: Seq<Reset>,
}

impl View for World {
    type V = WorldView;

    open spec fn view(&self) -> WorldView {
        WorldView {
            balls: self.balls@,
            walls: self.walls@,
            goals: self.goals@,
            score: self.score,
            resets: self.resets@,
        }
    }
}

impl WorldView {
    /// Every ball is well formed.
    pub open spec fn wf(self) -> bool {
        balls_wf(self.balls)
    }

    /// A game before its first frame: one ball at rest, the two walls, the two
    /// goals, no points, and one reset signal waiting, so that the first frame
    /// lays everything out.
    pub open spec fn initial() -> WorldView {
        WorldView {
            balls: seq![Sprite { component: Ball::at_rest(), transform: Transform::identity() }],
            walls: seq![
                Sprite { component: Wall::Top, transform: Transform::identity() },
                Sprite { component: Wall::Bottom, transform: Transform::identity() },
            ],
            goals: seq![
                Sprite { component: Goal { player: Player::Left }, transform: Transform::identity() },
                Sprite { component: Goal { player: Player::Right }, transform: Transform::identity() },
            ],
            score: Score { left: 0, right: 0 },
            resets: seq![Reset],
        }
    }

    /// First part of a frame: the coordinator reads the waiting signals, lays
    /// every entity out anew if there is one, and leaves none waiting. The
    /// score is not touched.
    pub open spec fn laid_out(self, field: Playfield) -> WorldView {
        WorldView {
            balls: Seq::new(
                self.balls.len(),
                |i: int| ball_reset_by(self.resets, field, self.balls[i]),
            ),
            walls: Seq::new(
                self.walls.len(),
                |i: int| wall_reset_by(self.resets, field, self.walls[i]),
            ),
            goals: Seq::new(
                self.goals.len(),
                |i: int| goal_reset_by(self.resets, field, self.goals[i]),
            ),
            score: self.score,
            resets: Seq::empty(),
        }
    }

    /// Second part: every ball travels for `dt` microseconds.
    pub open spec fn moved(self, dt: u32) -> WorldView {
        WorldView { balls: Seq::new(self.balls.len(), |i: int| advanced(self.balls[i], dt)), ..self }
    }

    /// Third part: every ball bounces off the walls.
    pub open spec fn bounced(self) -> WorldView {
        WorldView {
            balls: Seq::new(
                self.balls.len(),
                |i: int|
                    Sprite {
                        component: bounced_off(self.balls[i], self.walls, self.walls.len()),
                        transform: self.balls[i].transform,
                    },
            ),
            ..self
        }
    }

    /// The points that the balls win for `player` where they now are.
    pub open spec fn points(self, player: Player) -> nat {
        points_won(self.balls, self.goals, player, self.balls.len())
    }

    /// Last part: every ball in a goal gives a point and sends a reset signal.
    pub open spec fn scored(self) -> WorldView {
        WorldView {
            score: Score {
                left: (self.score.left + self.points(Player::Left)) as u64,
                right: (self.score.right + self.points(Player::Right)) as u64,
            },
            resets: self.resets + signals(self.points(Player::Left) + self.points(Player::Right)),
            ..self
        }
    }

    /// The game one frame later: laid out anew if a reset signal waited, then
    /// moved, bounced and scored, in this order.
    pub open spec fn stepped(self, field: Playfield, dt: u32) -> WorldView {
        self.laid_out(field).moved(dt).bounced().scored()
    }

    /// A frame of `dt` microseconds on `field` stays within what the machine
    /// can count: the field has positive sides, the balls are well formed and
    /// reach positions that `i32` holds, and the score has room for a point
    /// from every ball in every goal.
    pub open spec fn can_step(self, field: Playfield, dt: u32) -> bool {
        &&& field.wf()
        &&& self.wf()
        &&& forall|i: int|
            0 <= i < self.balls.len() ==> can_advance(
                ball_reset_by(self.resets, field, #[trigger] self.balls[i]),
                dt,
            )
        &&& self.score.left + self.balls.len() * self.goals.len() <= u64::MAX
        &&& self.score.right + self.balls.len() * self.goals.len() <= u64::MAX
    }

    /// The same game with `resets` waiting.
    pub open spec fn with_resets(self, resets: Seq<Reset>) -> WorldView {
        WorldView { resets, ..self }
    }

    /// However many reset signals wait at the start of a frame, the entities
    /// are laid out, and the frame ends, as for exactly one.
    pub proof fn lemma_resets_collapse(self, field: Playfield, dt: u32, waiting: Seq<Reset>)
        requires
            waiting.len() >= 1,
        ensures
            self.with_resets(waiting).laid_out(field) == self.with_resets(seq![Reset]).laid_out(
                field,
            ),
            self.with_resets(waiting).stepped(field, dt) == self.with_resets(seq![Reset]).stepped(
                field,
                dt,
            ),
    {
        let many = self.with_resets(waiting);
        let one = self.with_resets(seq![Reset]);
        assert(phase_of(waiting) == Phase::Resetting);
        assert((seq![Reset]).len() == 1);
        assert(phase_of(seq![Reset]) == Phase::Resetting);
        assert(many.laid_out(field).balls =~= one.laid_out(field).balls);
        assert(many.laid_out(field).walls =~= one.laid_out(field).walls);
        assert(many.laid_out(field).goals =~= one.laid_out(field).goals);
    }

    /// Laying the entities out anew changes no score, whether a signal waited
    /// or not.
    pub proof fn lemma_reset_keeps_score(self, field: Playfield)
        ensures
            self.laid_out(field).score == self.score,
    {
    }

    /// A frame takes no point away, and gives each player exactly the points
    /// that the balls win where the frame has moved them.
    pub proof fn lemma_score_never_falls(self, field: Playfield, dt: u32)
        requires
            self.can_step(field, dt),
        ensures
            self.stepped(field, dt).score.left == self.score.left + self.laid_out(field).moved(
                dt,
            ).bounced().points(Player::Left),
            self.stepped(field, dt).score.right == self.score.right + self.laid_out(field).moved(
                dt,
            ).bounced().points(Player::Right),
            self.stepped(field, dt).score.left >= self.score.left,
            self.stepped(field, dt).score.right >= self.score.right,
    {
        let before = self.laid_out(field).moved(dt).bounced();
        lemma_points_bounded(before.balls, before.goals, before.balls.len());
        assert(before.balls.len() == self.balls.len());
        assert(before.goals.len() == self.goals.len());
    }

    /// Every ball keeps a direction of length one, and a speed that is not
    /// negative, through a frame.
    pub proof fn lemma_step_keeps_unit_length(self, field: Playfield, dt: u32)
        requires
            self.wf(),
            field.wf(),
        ensures
            self.stepped(field, dt).wf(),
    {
        let laid = self.laid_out(field);
        let moved = laid.moved(dt);
        let after = self.stepped(field, dt);
        assert forall|i: int| 0 <= i < after.balls.len() implies (#[trigger] after.balls[i]).component.wf() by {
            assert(self.balls[i].component.wf());
            assert(laid.balls[i].component.wf());
            assert(moved.balls[i].component == laid.balls[i].component);
            lemma_bounces_keep_length(moved.balls[i], moved.walls, moved.walls.len());
        }
    }
}

impl World {
    /// A game before its first frame.
    pub fn new() -> (world: World)
        ensures
            world@ == WorldView::initial(),
            world@.wf(),
    {
        let mut world = World {
            balls: Vec::new(),
            walls: Vec::new(),
            goals: Vec::new(),
            score: Score::new(),
            resets: Vec::new(),
        };
        spawn_ball(&mut world.balls);
        spawn_walls(&mut world.walls);
        spawn_goals(&mut world.goals);
        world.resets.push(Reset);
        proof {
            Direction::lemma_diagonal_is_unit();
            assert(world@.balls =~= WorldView::initial().balls);
            assert(world@.walls =~= WorldView::initial().walls);
            assert(world@.goals =~= WorldView::initial().goals);
            assert(world@.resets =~= WorldView::initial().resets);
        }
        world
    }

    /// Whether a frame of `dt` microseconds on `field` stays within what the
    /// machine can count, so that `step` may be called.
    pub fn can_step(&self, field: &Playfield, dt: u32) -> (ok: bool)
        ensures
            ok == self@.can_step(*field, dt),
    {
        if field.width <= 0 || field.height <= 0 {
            return false;
        }
        let n: usize = self.balls.len();
        let m: usize = self.goals.len();
        proof {
            assert(n * m <= 0xffff_ffff_ffff_ffff * 0xffff_ffff_ffff_ffff) by (nonlinear_arith)
                requires
                    0 <= n <= 0xffff_ffff_ffff_ffff,
                    0 <= m <= 0xffff_ffff_ffff_ffff,
            ;
        }
        let pairs: u128 = (n as u128) * (m as u128);
        if self.score.left as u128 + pairs > u64::MAX as u128 || self.score.right as u128 + pairs
            > u64::MAX as u128 {
            return false;
        }
        let mut rehearsal: Vec<Sprite<Ball>> = Vec::new();
        let mut i: usize = 0;
        while i < n
            invariant
                i <= n,
                n == self.balls@.len(),
                rehearsal@.len() == i,
                forall|k: int| 0 <= k < i ==> #[trigger] rehearsal@[k] == self.balls@[k],
                forall|k: int| 0 <= k < i ==> (#[trigger] self.balls@[k]).component.wf(),
            decreases n - i,
        {
            let ball = self.balls[i].component;
            if Ball::new(ball.speed, ball.direction).is_none() {
                return false;
            }
            rehearsal.push(Sprite { component: ball, transform: self.balls[i].transform });
            i += 1;
        }
        assert(rehearsal@ =~= self.balls@);
        ball_reset_system(&self.resets, field, &mut rehearsal);
        let mut i: usize = 0;
        while i < n
            invariant
                i <= n,
                n == self.balls@.len(),
                n == rehearsal@.len(),
                balls_wf(rehearsal@),
                forall|k: int|
                    0 <= k < n ==> #[trigger] rehearsal@[k] == ball_reset_by(
                        self.resets@,
                        *field,
                        self.balls@[k],
                    ),
                forall|k: int|
                    0 <= k < i ==> can_advance(
                        ball_reset_by(self.resets@, *field, #[trigger] self.balls@[k]),
                        dt,
                    ),
            decreases n - i,
        {
            if !fits(&rehearsal[i], dt) {
                return false;
            }
            i += 1;
        }
        true
    }

    /// One frame of `dt` microseconds on `field`: the reset coordinator first,
    /// then movement, then the walls, then the goals. A signal that a goal
    /// sends waits for the next frame.
    pub fn step(&mut self, field: &Playfield, dt: u32)
        requires
            old(self)@.can_step(*field, dt),
        ensures
            final(self)@ == old(self)@.stepped(*field, dt),
            final(self)@.wf(),
            final(self).score.left >= old(self).score.left,
            final(self).score.right >= old(self).score.right,
            forall|i: int|
                0 <= i < old(self)@.balls.len() && clear_of(
                    (#[trigger] old(self)@.laid_out(*field).moved(dt).balls[i]).transform,
                    final(self)@.walls,
                ) ==> final(self)@.balls[i] == old(self)@.laid_out(*field).moved(dt).balls[i],
            (forall|i: int|
                0 <= i < final(self)@.balls.len() ==> clear_of(
                    (#[trigger] final(self)@.balls[i]).transform,
                    final(self)@.goals,
                )) ==> final(self).score == old(self).score && final(self)@.resets.len() == 0,
    {
        let ghost laid = self@.laid_out(*field);
        let ghost moved = laid.moved(dt);
        let ghost bounced = moved.bounced();

        ball_reset_system(&self.resets, field, &mut self.balls);
        wall_reset_system(&self.resets, field, &mut self.walls);
        goal_reset_system(&self.resets, field, &mut self.goals);
        self.resets.clear();
        assert(self@.balls =~= laid.balls);
        assert(self@.walls =~= laid.walls);
        assert(self@.goals =~= laid.goals);
        assert(self@.resets =~= laid.resets);
        assert(self@ == laid);

        ball_movement_system(dt, &mut self.balls);
        assert(self@.balls =~= moved.balls);
        assert(self@ == moved);

        ball_collision_system(&mut self.balls, &self.walls);
        assert(self@.balls =~= bounced.balls);
        assert(self@ == bounced);

        proof {
            lemma_points_bounded(bounced.balls, bounced.goals, bounced.balls.len());
        }
        goal_collision_system(&mut self.resets, &self.balls, &self.goals, &mut self.score);
        assert(self@.resets =~= bounced.scored().resets);
    }
}

} // verus!
