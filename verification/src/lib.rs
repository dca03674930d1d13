//! The rules of a two-player bat-and-ball arcade game, in fixed-point
//! arithmetic: a ball that moves and bounces, two walls, two goals, the score,
//! and the reset that follows every goal.

pub mod ball;
pub mod collision;
pub mod direction;
pub mod geometry;
pub mod goal;
pub mod reset;
pub mod score;
pub mod wall;
pub mod world;
