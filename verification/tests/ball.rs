use pong::ball::{
    ball_collision_system, ball_movement_system, ball_reset_system, fits, spawn_ball, Ball,
};
use pong::collision::{Collision, REACH};
use pong::direction::{Direction, ONE};
use pong::geometry::{Playfield, Sprite, Transform, Vec2, Vec3, UNIT};
use pong::reset::Reset;
use pong::wall::Wall;

fn px(pixels: i32) -> i32 {
    pixels * UNIT
}

fn direction(x: i32, y: i32) -> Direction {
    Direction::new(x, y).unwrap()
}

fn ball_at(x: i32, y: i32, dx: i32, dy: i32) -> Sprite<Ball> {
    Sprite {
        component: Ball::new(px(400), direction(dx, dy)).unwrap(),
        transform: Transform {
            translation: Vec3::new(px(x), px(y), 0),
            scale: Vec3::new(px(30), px(30), UNIT),
        },
    }
}

fn block() -> Sprite<Wall> {
    Sprite {
        component: Wall::Top,
        transform: Transform {
            translation: Vec3::new(0, 0, 0),
            scale: Vec3::new(px(100), px(100), UNIT),
        },
    }
}

fn after_block(ball: Sprite<Ball>) -> Sprite<Ball> {
    let mut balls = vec![ball];
    ball_collision_system(&mut balls, &vec![block()]);
    balls[0]
}

fn norm_squared(d: Direction) -> i64 {
    (d.x as i64) * (d.x as i64) + (d.y as i64) * (d.y as i64)
}

#[test]
fn default_ball_rests_on_the_diagonal() {
    let ball = Ball::default();
    assert_eq!(ball.speed, 0);
    assert_eq!(ball.direction, Direction { x: 707_107, y: 707_107 });
    assert_eq!(norm_squared(ball.direction), 1_000_000_618_898);
}

#[test]
fn default_direction_is_accepted_as_unit() {
    let d = Ball::default().direction;
    assert_eq!(Direction::new(d.x, d.y), Some(d));
}

#[test]
fn direction_of_wrong_length_is_refused() {
    assert_eq!(Direction::new(ONE, ONE), None);
    assert_eq!(Direction::new(0, 0), None);
    assert_eq!(Direction::new(i32::MIN, i32::MIN), None);
    assert_eq!(Direction::new(i32::MAX, 0), None);
    assert_eq!(Direction::new(707_106, 707_106), None);
    assert_eq!(Direction::new(ONE, 0), Some(Direction { x: ONE, y: 0 }));
    assert_eq!(Direction::new(0, -ONE), Some(Direction { x: 0, y: -ONE }));
    assert_eq!(Direction::new(ONE + 1, 0), None);
}

#[test]
fn ball_needs_speed_and_unit_direction() {
    let d = direction(600_000, 800_000);
    assert_eq!(Ball::new(5, d), Some(Ball { speed: 5, direction: d }));
    assert_eq!(Ball::new(0, d), Some(Ball { speed: 0, direction: d }));
    assert_eq!(Ball::new(-1, d), None);
    assert_eq!(Ball::new(5, Direction { x: 3, y: 4 }), None);
}

#[test]
fn velocity_is_speed_times_direction() {
    let ball = Ball::new(102_400, direction(600_000, 800_000)).unwrap();
    assert_eq!(ball.velocity(), Vec2::new(61_440, 81_920));
    let ball = Ball::new(102_400, direction(-600_000, 800_000)).unwrap();
    assert_eq!(ball.velocity(), Vec2::new(-61_440, 81_920));
    assert_eq!(Ball::default().velocity(), Vec2::new(0, 0));
}

#[test]
fn velocity_rounds_toward_zero() {
    let ball = Ball::new(3, direction(707_107, -707_107)).unwrap();
    assert_eq!(ball.velocity(), Vec2::new(2, -2));
    let ball = Ball::new(i32::MAX, direction(ONE, 0)).unwrap();
    assert_eq!(ball.velocity(), Vec2::new(i32::MAX, 0));
}

#[test]
fn left_hit_turns_a_ball_that_moves_right() {
    let mut ball = Ball::new(7, direction(600_000, 800_000)).unwrap();
    ball.bounce(Collision::Left);
    assert_eq!(ball.direction, Direction { x: -600_000, y: 800_000 });
    assert_eq!(ball.speed, 7);
}

#[test]
fn left_hit_leaves_a_ball_that_moves_left() {
    let mut ball = Ball::new(7, direction(-600_000, 800_000)).unwrap();
    ball.bounce(Collision::Left);
    assert_eq!(ball.direction, Direction { x: -600_000, y: 800_000 });
}

#[test]
fn each_side_turns_only_a_ball_that_moves_into_it() {
    let cases = [
        (Collision::Left, 600_000, 800_000, -600_000, 800_000),
        (Collision::Left, -600_000, 800_000, -600_000, 800_000),
        (Collision::Right, -600_000, 800_000, 600_000, 800_000),
        (Collision::Right, 600_000, 800_000, 600_000, 800_000),
        (Collision::Top, 600_000, -800_000, 600_000, 800_000),
        (Collision::Top, 600_000, 800_000, 600_000, 800_000),
        (Collision::Bottom, 600_000, 800_000, 600_000, -800_000),
        (Collision::Bottom, 600_000, -800_000, 600_000, -800_000),
        (Collision::Inside, 600_000, 800_000, 600_000, 800_000),
        (Collision::Inside, -600_000, -800_000, -600_000, -800_000),
        (Collision::Left, 0, ONE, 0, ONE),
        (Collision::Top, ONE, 0, ONE, 0),
    ];
    for (side, x, y, want_x, want_y) in cases {
        let mut ball = Ball::new(9, direction(x, y)).unwrap();
        ball.bounce(side);
        assert_eq!(ball.direction, Direction { x: want_x, y: want_y });
        assert_eq!(ball.speed, 9);
    }
}

#[test]
fn bounces_keep_the_length_of_the_direction() {
    let mut ball = Ball::default();
    let before = norm_squared(ball.direction);
    for side in [
        Collision::Left,
        Collision::Bottom,
        Collision::Right,
        Collision::Top,
        Collision::Inside,
        Collision::Left,
        Collision::Top,
    ] {
        ball.bounce(side);
        assert_eq!(norm_squared(ball.direction), before);
        assert!(Direction::new(ball.direction.x, ball.direction.y).is_some());
    }
    assert_eq!(ball.direction, Direction { x: -707_107, y: 707_107 });
}

#[test]
fn spawned_ball_is_at_rest_at_the_origin() {
    let mut balls = Vec::new();
    spawn_ball(&mut balls);
    assert_eq!(balls.len(), 1);
    assert_eq!(balls[0].component, Ball::default());
    assert_eq!(balls[0].transform, Transform::default());
    assert_eq!(balls[0].transform.translation, Vec3::new(0, 0, 0));
    assert_eq!(balls[0].transform.scale, Vec3::new(UNIT, UNIT, UNIT));
    spawn_ball(&mut balls);
    assert_eq!(balls.len(), 2);
}

#[test]
fn reset_puts_the_ball_in_the_centre() {
    let field = Playfield::new(px(800), px(600)).unwrap();
    let mut balls = vec![ball_at(123, -45, -600_000, 800_000)];
    balls[0].component.speed = 1;
    ball_reset_system(&vec![Reset], &field, &mut balls);
    assert_eq!(balls[0].transform.translation, Vec3::new(0, 0, 0));
    assert_eq!(balls[0].transform.scale, Vec3::new(px(30), px(30), UNIT));
    assert_eq!(balls[0].component.speed, px(400));
    assert_eq!(balls[0].component.direction, Direction { x: -600_000, y: 800_000 });
}

#[test]
fn reset_rounds_speed_and_size_down() {
    let field = Playfield::new(7, 100).unwrap();
    let mut balls = vec![ball_at(1, 1, 0, ONE)];
    ball_reset_system(&vec![Reset], &field, &mut balls);
    assert_eq!(balls[0].component.speed, 66);
    assert_eq!(balls[0].transform.scale, Vec3::new(5, 5, UNIT));
    let field = Playfield::new(1, i32::MAX).unwrap();
    ball_reset_system(&vec![Reset], &field, &mut balls);
    assert_eq!(balls[0].component.speed, 1_431_655_764);
    assert_eq!(balls[0].transform.scale, Vec3::new(107_374_182, 107_374_182, UNIT));
}

#[test]
fn no_signal_no_ball_reset() {
    let field = Playfield::new(px(800), px(600)).unwrap();
    let start = ball_at(123, -45, -600_000, 800_000);
    let mut balls = vec![start];
    ball_reset_system(&Vec::new(), &field, &mut balls);
    assert_eq!(balls, vec![start]);
}

#[test]
fn many_signals_reset_the_ball_as_one_does() {
    let field = Playfield::new(px(800), px(600)).unwrap();
    let start = vec![ball_at(123, -45, -600_000, 800_000), ball_at(0, 9, ONE, 0)];
    let mut once = start.clone();
    ball_reset_system(&vec![Reset], &field, &mut once);
    for n in 2..6 {
        let mut many = start.clone();
        ball_reset_system(&vec![Reset; n], &field, &mut many);
        assert_eq!(many, once);
    }
}

#[test]
fn movement_adds_velocity_times_time() {
    let mut balls = vec![Sprite {
        component: Ball::new(1000, direction(600_000, -800_000)).unwrap(),
        transform: Transform {
            translation: Vec3::new(10, -10, 5),
            scale: Vec3::new(3, 4, 5),
        },
    }];
    ball_movement_system(1_500_000, &mut balls);
    assert_eq!(balls[0].transform.translation, Vec3::new(910, -1210, 5));
    assert_eq!(balls[0].transform.scale, Vec3::new(3, 4, 5));
    assert_eq!(balls[0].component, Ball::new(1000, direction(600_000, -800_000)).unwrap());
}

#[test]
fn movement_rounds_toward_zero() {
    let mut balls = vec![Sprite {
        component: Ball::new(1000, direction(600_000, -800_000)).unwrap(),
        transform: Transform::default(),
    }];
    ball_movement_system(1, &mut balls);
    assert_eq!(balls[0].transform.translation, Vec3::new(0, 0, 0));
    ball_movement_system(2_499, &mut balls);
    assert_eq!(balls[0].transform.translation, Vec3::new(1, -1, 0));
    ball_movement_system(0, &mut balls);
    assert_eq!(balls[0].transform.translation, Vec3::new(1, -1, 0));
}

#[test]
fn a_ball_at_rest_stays() {
    let mut balls = vec![Sprite { component: Ball::default(), transform: Transform::default() }];
    ball_movement_system(u32::MAX, &mut balls);
    assert_eq!(balls[0].transform, Transform::default());
}

#[test]
fn fits_tells_when_the_destination_can_be_held() {
    let mut ball = Sprite {
        component: Ball::new(1_000_000, direction(ONE, 0)).unwrap(),
        transform: Transform::default(),
    };
    ball.transform.translation.x = i32::MAX - 1_000_000;
    assert!(fits(&ball, 1_000_000));
    assert!(!fits(&ball, 1_000_001));
    ball.component.direction = direction(-ONE, 0);
    assert!(fits(&ball, 4_000_000_000));
    assert!(!fits(&ball, u32::MAX));
    ball.transform.translation.x = i32::MIN;
    assert!(fits(&ball, 0));
    assert!(!fits(&ball, 1));
    ball.component.direction = direction(0, -ONE);
    ball.transform.translation = Vec3::new(0, i32::MIN + 5, 0);
    assert!(fits(&ball, 5));
    assert!(!fits(&ball, 6));
}

#[test]
fn ball_left_of_a_block_turns_back() {
    let after = after_block(ball_at(-55, 0, 600_000, 800_000));
    assert_eq!(after.component.direction, Direction { x: -600_000, y: 800_000 });
    assert_eq!(after.transform, ball_at(-55, 0, 600_000, 800_000).transform);
    assert_eq!(after.component.speed, px(400));
    let leaving = ball_at(-55, 0, -600_000, 800_000);
    assert_eq!(after_block(leaving), leaving);
}

#[test]
fn ball_right_of_a_block_turns_back() {
    let after = after_block(ball_at(55, 0, -600_000, 800_000));
    assert_eq!(after.component.direction, Direction { x: 600_000, y: 800_000 });
    let leaving = ball_at(55, 0, 600_000, 800_000);
    assert_eq!(after_block(leaving), leaving);
}

#[test]
fn ball_above_a_block_turns_back() {
    let after = after_block(ball_at(0, 55, 600_000, -800_000));
    assert_eq!(after.component.direction, Direction { x: 600_000, y: 800_000 });
    let leaving = ball_at(0, 55, 600_000, 800_000);
    assert_eq!(after_block(leaving), leaving);
}

#[test]
fn ball_below_a_block_turns_back() {
    let after = after_block(ball_at(0, -55, 600_000, 800_000));
    assert_eq!(after.component.direction, Direction { x: 600_000, y: -800_000 });
    let leaving = ball_at(0, -55, 600_000, -800_000);
    assert_eq!(after_block(leaving), leaving);
}

#[test]
fn ball_inside_a_block_keeps_its_way() {
    for (dx, dy) in [(600_000, 800_000), (-600_000, 800_000), (600_000, -800_000), (-600_000, -800_000)] {
        let ball = ball_at(0, 0, dx, dy);
        assert_eq!(after_block(ball), ball);
    }
}

#[test]
fn shallower_axis_decides_the_side() {
    let after = after_block(ball_at(-55, -60, 600_000, 800_000));
    assert_eq!(after.component.direction, Direction { x: 600_000, y: -800_000 });
    let after = after_block(ball_at(-60, -55, 600_000, 800_000));
    assert_eq!(after.component.direction, Direction { x: -600_000, y: 800_000 });
}

#[test]
fn equal_depth_on_both_axes_turns_x() {
    let after = after_block(ball_at(-55, -55, 600_000, 800_000));
    assert_eq!(after.component.direction, Direction { x: -600_000, y: 800_000 });
    let after = after_block(ball_at(55, 55, -600_000, -800_000));
    assert_eq!(after.component.direction, Direction { x: 600_000, y: -800_000 });
}

#[test]
fn ball_apart_from_every_collider_is_unchanged() {
    let colliders = vec![block(), block()];
    let start = vec![
        ball_at(-65, 0, 600_000, 800_000),
        ball_at(65, 0, -600_000, 800_000),
        ball_at(0, 65, 600_000, -800_000),
        ball_at(0, -65, 600_000, 800_000),
        ball_at(-200, 300, 600_000, 800_000),
    ];
    let mut balls = start.clone();
    ball_collision_system(&mut balls, &colliders);
    assert_eq!(balls, start);
    assert_eq!(colliders, vec![block(), block()]);
}

#[test]
fn touching_edges_do_not_collide() {
    let mut sub = ball_at(0, 0, 600_000, 800_000);
    sub.transform.translation = Vec3::new(px(-65) + 1, 0, 0);
    let after = after_block(sub);
    assert_eq!(after.component.direction, Direction { x: -600_000, y: 800_000 });
    sub.transform.translation = Vec3::new(px(-65), 0, 0);
    assert_eq!(after_block(sub), sub);
}

#[test]
fn two_colliders_can_turn_a_ball_twice() {
    let mut low = block();
    low.transform.translation = Vec3::new(px(-110), px(60), 0);
    let mut balls = vec![ball_at(-55, 0, 600_000, 800_000)];
    ball_collision_system(&mut balls, &vec![block(), low]);
    assert_eq!(balls[0].component.direction, Direction { x: -600_000, y: -800_000 });
}

#[test]
fn no_collider_no_change() {
    let start = vec![ball_at(0, 0, 600_000, 800_000)];
    let mut balls = start.clone();
    ball_collision_system(&mut balls, &Vec::<Sprite<Wall>>::new());
    assert_eq!(balls, start);
    let mut none: Vec<Sprite<Ball>> = Vec::new();
    ball_collision_system(&mut none, &vec![block()]);
    assert!(none.is_empty());
}

#[test]
fn collision_at_the_edge_of_reach() {
    let edge = REACH / 2;
    let mut far = block();
    far.transform.translation = Vec3::new(edge - px(50), px(50) - edge, 0);
    let mut ball = ball_at(0, 0, 600_000, 800_000);
    ball.transform.translation = Vec3::new(edge - px(115), px(50) - edge, 0);
    let mut balls = vec![ball];
    ball_collision_system(&mut balls, &vec![far]);
    assert_eq!(balls[0], ball);
    ball.transform.translation = Vec3::new(edge - px(115) + 1, px(50) - edge, 0);
    let mut balls = vec![ball];
    ball_collision_system(&mut balls, &vec![far]);
    assert_eq!(balls[0].component.direction, Direction { x: -600_000, y: 800_000 });
    assert_eq!(balls[0].transform, ball.transform);
}

#[test]
fn beyond_reach_the_comparison_is_rounded() {
    let ball = Sprite {
        component: Ball::new(1, direction(600_000, 800_000)).unwrap(),
        transform: Transform {
            translation: Vec3::new(16_777_219, 0, 0),
            scale: Vec3::new(5, 4, UNIT),
        },
    };
    let obstacle = Sprite {
        component: Wall::Top,
        transform: Transform {
            translation: Vec3::new(16_777_225, 0, 0),
            scale: Vec3::new(6, 8, UNIT),
        },
    };
    assert!(2 * 16_777_219 + 5 < 2 * 16_777_225 - 6);
    let mut balls = vec![ball];
    ball_collision_system(&mut balls, &vec![obstacle]);
    assert_eq!(balls[0].component.direction, Direction { x: -600_000, y: 800_000 });
}
