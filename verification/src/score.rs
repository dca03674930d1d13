//! The two players and their points.

use vstd::prelude::*;

verus! {

/// A side of the field, and the player who owns it.
#[derive(Clone, Copy, Debug, PartialEq, Eq, Structural)]
pub enum Player {
    Left,
    Right,
}

/// The points of both players. They only ever grow.
#[derive(Clone, Copy, Debug, PartialEq, Eq, Structural)]
pub struct Score {
    pub left: u64,
    pub right: u64,
}

impl Score {
    /// The points of `player`.
    pub open spec fn of(self, player: Player) -> int {
        match player {
            Player::Left => self.left as int,
            Player::Right => self.right as int,
        }
    }

    /// `self`, with `points` more for `player` and the other side untouched.
    pub open spec fn is_awarded(self, before: Score, player: Player, points: int) -> bool {
        match player {
            Player::Left => self.left == before.left + points && self.right == before.right,
            Player::Right => self.right == before.right + points && self.left == before.left,
        }
    }

    /// Nil all.
    pub fn new() -> (score: Score)
        ensures
            score == (Score { left: 0, right: 0 }),
    {
        Score { left: 0, right: 0 }
    }

    /// The points of `player`.
    pub fn points(&self, player: Player) -> (points: u64)
        ensures
            points == self.of(player),
    {
        match player {
            Player::Left => self.left,
            Player::Right => self.right,
        }
    }

    /// One more point for `player`.
    pub fn award(&mut self, player: Player)
        requires
            old(self).of(player) < u64::MAX,
        ensures
            final(self).is_awarded(*old(self), player, 1),
    {
        match player {
            Player::Left => self.left += 1,
            Player::Right => self.right += 1,
        }
    }
}

impl Default for Score {
    fn default() -> (score: Score)
        ensures
            score == (Score { left: 0, right: 0 }),
    {
        Score { left: 0, right: 0 }
    }
}

} // verus!
