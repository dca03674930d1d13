//! Unit vectors in fixed point.

use vstd::prelude::*;

verus! {

/// The length of a direction: a component of `ONE` stands for 1.
pub const ONE: i32 = 1_000_000;

/// `ONE` squared.
pub const ONE_SQUARED: i64 = 1_000_000_000_000;

/// How far the squared length of a direction may lie from `ONE_SQUARED`. It
/// allows for the rounding of each component to a whole number.
pub const SLACK: i64 = 2_000_000;

/// A vector of length one, as far as whole components allow.
#[derive(Clone, Copy, Debug, PartialEq, Eq, Structural)]
pub struct Direction {
    pub x: i32,
    pub y: i32,
}

impl Direction {
    /// The square of the length.
    pub open spec fn norm_squared(self) -> int {
        self.x * self.x + self.y * self.y
    }

    /// The length is one, within `SLACK` on its square.
    pub open spec fn is_unit(self) -> bool {
        ONE_SQUARED - SLACK <= self.norm_squared() <= ONE_SQUARED + SLACK
    }

    /// The direction with the chosen components negated.
    pub open spec fn flipped(self, flip_x: bool, flip_y: bool) -> Direction {
        Direction {
            x: if flip_x {
                (-self.x) as i32
            } else {
                self.x
            },
            y: if flip_y {
                (-self.y) as i32
            } else {
                self.y
            },
        }
    }

    /// No component of a unit vector exceeds `ONE`.
    pub proof fn lemma_components_bounded(self)
        requires
            self.is_unit(),
        ensures
            -ONE <= self.x <= ONE,
            -ONE <= self.y <= ONE,
    {
        let x = self.x as int;
        let y = self.y as int;
        assert(x * x >= 0 && y * y >= 0) by (nonlinear_arith);
        assert(x * x <= 1_000_002_000_000 && y * y <= 1_000_002_000_000);
        assert(-1_000_000 <= x <= 1_000_000) by (nonlinear_arith)
            requires
                x * x <= 1_000_002_000_000,
        ;
        assert(-1_000_000 <= y <= 1_000_000) by (nonlinear_arith)
            requires
                y * y <= 1_000_002_000_000,
        ;
    }

    /// Negating components leaves the length as it is.
    pub proof fn lemma_flip_keeps_length(self, flip_x: bool, flip_y: bool)
        requires
            self.is_unit(),
        ensures
            self.flipped(flip_x, flip_y).norm_squared() == self.norm_squared(),
            self.flipped(flip_x, flip_y).is_unit(),
            self.flipped(flip_x, flip_y).x == if flip_x { -self.x } else { self.x as int },
            self.flipped(flip_x, flip_y).y == if flip_y { -self.y } else { self.y as int },
    {
        self.lemma_components_bounded();
        let x = self.x as int;
        let y = self.y as int;
        assert((-x) * (-x) == x * x) by (nonlinear_arith);
        assert((-y) * (-y) == y * y) by (nonlinear_arith);
    }

    /// The direction `(x, y)`, if its length is one.
    pub fn new(x: i32, y: i32) -> (direction: Option<Direction>)
        ensures
            direction == if (Direction { x, y }).is_unit() {
                Some(Direction { x, y })
            } else {
                None
            },
    {
        let candidate = Direction { x, y };
        if x < -ONE || x > ONE || y < -ONE || y > ONE {
            proof {
                if candidate.is_unit() {
                    candidate.lemma_components_bounded();
                }
            }
            return None;
        }
        let wide_x: i64 = x as i64;
        let wide_y: i64 = y as i64;
        assert(0 <= wide_x * wide_x <= 1_000_000_000_000 && 0 <= wide_y * wide_y
            <= 1_000_000_000_000) by (nonlinear_arith)
            requires
                -1_000_000 <= wide_x <= 1_000_000,
                -1_000_000 <= wide_y <= 1_000_000,
        ;
        let norm: i64 = wide_x * wide_x + wide_y * wide_y;
        if ONE_SQUARED - SLACK <= norm && norm <= ONE_SQUARED + SLACK {
            Some(candidate)
        } else {
            None
        }
    }

    /// Up and to the right in equal parts: `(1, 1)`, scaled to length one.
    pub open spec fn diagonal() -> Direction {
        Direction { x: 707_107, y: 707_107 }
    }

    /// The diagonal has length one.
    pub proof fn lemma_diagonal_is_unit()
        ensures
            Self::diagonal().is_unit(),
    {
        assert(707_107int * 707_107int == 500_000_309_449int) by (nonlinear_arith);
    }
}

} // verus!
