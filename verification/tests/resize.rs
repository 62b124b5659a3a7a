use pong::ball::Ball;
use pong::geometry::{Vec2, Viewport};
use pong::paddle::Paddle;
use pong::resize::{resize, PADDLE1_X, PADDLE2_INSET};

fn small() -> Viewport {
    Viewport::new(1_280_000, 720_000).unwrap()
}

fn large() -> Viewport {
    Viewport::new(2_560_000, 1_440_000).unwrap()
}

#[test]
fn paddles_are_pinned_to_their_edges() {
    assert_eq!(PADDLE1_X, 36_000);
    assert_eq!(PADDLE2_INSET, 56_000);
    let mut paddle1 = Paddle::new(1, 300_000);
    let mut paddle2 = Paddle::new(2, 300_000);
    let mut ball = Ball::new(628_000, 348_000);
    resize(&mut paddle1, &mut paddle2, &mut ball, small(), large());
    assert_eq!(paddle1.x, 36_000);
    assert_eq!(paddle2.x, 2_560_000 - 56_000);
}

#[test]
fn paddles_keep_their_share_of_the_height() {
    let mut paddle1 = Paddle::new(36_000, 300_000);
    let mut paddle2 = Paddle::new(1_224_000, 90_000);
    let mut ball = Ball::new(628_000, 348_000);
    resize(&mut paddle1, &mut paddle2, &mut ball, small(), large());
    assert_eq!(paddle1.y, 600_000);
    assert_eq!(paddle2.y, 180_000);
    resize(&mut paddle1, &mut paddle2, &mut ball, large(), Viewport::new(640_000, 360_000).unwrap());
    assert_eq!(paddle1.y, 150_000);
    assert_eq!(paddle2.y, 45_000);
}

#[test]
fn ball_keeps_its_centre_in_proportion() {
    let mut paddle1 = Paddle::new(36_000, 300_000);
    let mut paddle2 = Paddle::new(1_224_000, 300_000);
    let mut ball = Ball::new(628_000, 348_000);
    resize(&mut paddle1, &mut paddle2, &mut ball, small(), large());
    assert_eq!((ball.x, ball.y), (1_268_000, 708_000));
    let mut off = Ball::new(100_000, 50_000);
    resize(&mut paddle1, &mut paddle2, &mut off, small(), large());
    assert_eq!((off.x, off.y), (212_000, 112_000));
}

#[test]
fn resize_leaves_flight_and_trail_alone() {
    let mut paddle1 = Paddle::new(36_000, 300_000);
    let mut paddle2 = Paddle::new(1_224_000, 300_000);
    let mut ball = Ball {
        x: 100_000,
        y: 50_000,
        velocity: Vec2 { x: 9_000, y: -4_000 },
        active: true,
        trail: vec![Vec2 { x: 91_000, y: 54_000 }],
    };
    resize(&mut paddle1, &mut paddle2, &mut ball, small(), large());
    assert_eq!(ball.velocity, Vec2 { x: 9_000, y: -4_000 });
    assert!(ball.active);
    assert_eq!(ball.trail, vec![Vec2 { x: 91_000, y: 54_000 }]);
}

#[test]
fn doubling_and_halving_restores_every_position() {
    let cases =
        [(0, 0, 0), (300_001, 628_333, 348_777), (599_999, -7_001, -3), (13, 1_279_999, 719_999)];
    for (py, bx, by) in cases {
        let mut paddle1 = Paddle::new(36_000, py);
        let mut paddle2 = Paddle::new(1_224_000, py / 2);
        let mut ball = Ball::new(bx, by);
        resize(&mut paddle1, &mut paddle2, &mut ball, small(), large());
        resize(&mut paddle1, &mut paddle2, &mut ball, large(), small());
        assert_eq!(paddle1, Paddle::new(36_000, py));
        assert_eq!(paddle2, Paddle::new(1_224_000, py / 2));
        assert_eq!((ball.x, ball.y), (bx, by));
    }
}

#[test]
fn shrinking_rounds_toward_zero() {
    let mut paddle1 = Paddle::new(36_000, 5);
    let mut paddle2 = Paddle::new(1_224_000, -5);
    let mut ball = Ball::new(0, 0);
    let from = Viewport::new(30, 30).unwrap();
    let to = Viewport::new(20, 20).unwrap();
    resize(&mut paddle1, &mut paddle2, &mut ball, from, to);
    assert_eq!(paddle1.y, 3);
    assert_eq!(paddle2.y, -3);
    assert_eq!((ball.x, ball.y), (-4_000, -4_000));
}

#[test]
fn resize_to_the_same_size_repins_the_paddles_only() {
    let mut paddle1 = Paddle::new(1, 300_001);
    let mut paddle2 = Paddle::new(2, 17);
    let mut ball = Ball::new(628_001, 348_001);
    resize(&mut paddle1, &mut paddle2, &mut ball, small(), small());
    assert_eq!(paddle1, Paddle::new(36_000, 300_001));
    assert_eq!(paddle2, Paddle::new(1_224_000, 17));
    assert_eq!((ball.x, ball.y), (628_001, 348_001));
}
