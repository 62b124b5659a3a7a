//! Keeping paddles and ball in place, in proportion, when the viewport
//! changes its size.

use vstd::prelude::*;
use crate::ball::{Ball, BallState, BALL_SIZE};
use crate::geometry::Viewport;
use crate::paddle::Paddle;
use crate::units::{clamp, lemma_rescaled_there_and_back, rescale_about, rescaled};

verus! {

/// The left paddle's left edge, measured from the left edge of the field.
pub const PADDLE1_X: i64 = 36_000;

/// The right paddle's left edge, measured back from the right edge of the
/// field.
pub const PADDLE2_INSET: i64 = 56_000;

/// Where the left edge of the right paddle belongs.
pub open spec fn paddle2_x(viewport: Viewport) -> i64 {
    (viewport.w - PADDLE2_INSET) as i64
}

/// A paddle after the viewport changed from `from` to `to`: its height on
/// the field keeps its proportion, its left edge goes to `x`.
pub open spec fn paddle_resized(p: Paddle, x: i64, from: Viewport, to: Viewport) -> Paddle {
    Paddle { x, y: clamp(rescaled(p.y as int, from.h as int, to.h as int)) as i64 }
}

/// A ball after the viewport changed from `from` to `to`: its centre keeps
/// its proportions on the field.
pub open spec fn ball_resized(b: BallState, from: Viewport, to: Viewport) -> BallState {
    BallState {
        x: clamp(rescaled(b.x + BALL_SIZE / 2, from.w as int, to.w as int) - BALL_SIZE / 2) as i64,
        y: clamp(rescaled(b.y + BALL_SIZE / 2, from.h as int, to.h as int) - BALL_SIZE / 2) as i64,
        ..b
    }
}

/// Moves both paddles and the ball from a field of size `from` to one of
/// size `to`.
///
/// Heights of the paddles and both coordinates of the ball's centre keep
/// their proportions. The paddles' left edges do not: they are pinned at
/// fixed distances from the nearer edge.
pub fn resize(
    paddle1: &mut Paddle,
    paddle2: &mut Paddle,
    ball: &mut Ball,
    from: Viewport,
    to: Viewport,
)
    requires
        from.wf(),
        to.wf(),
    ensures
        *final(paddle1) == paddle_resized(*old(paddle1), PADDLE1_X, from, to),
        *final(paddle2) == paddle_resized(*old(paddle2), paddle2_x(to), from, to),
        final(ball)@ == ball_resized(old(ball)@, from, to),
{
    paddle1.y = rescale_about(paddle1.y, 0, from.h, to.h);
    paddle2.y = rescale_about(paddle2.y, 0, from.h, to.h);
    paddle1.update_x(PADDLE1_X);
    paddle2.update_x(to.w - PADDLE2_INSET);
    ball.x = rescale_about(ball.x, BALL_SIZE / 2, from.w, to.w);
    ball.y = rescale_about(ball.y, BALL_SIZE / 2, from.h, to.h);
}

/// The viewport with both sides twice as long.
pub open spec fn doubled(viewport: Viewport) -> Viewport {
    Viewport { w: (2 * viewport.w) as i64, h: (2 * viewport.h) as i64 }
}

/// Resizing to a viewport twice as large and back again restores the
/// paddle's height on the field and the ball's position exactly. This
/// holds as long as the doubled viewport and the doubled positions can
/// be stored.
pub proof fn lemma_resize_round_trip(p: Paddle, x: i64, ball: BallState, viewport: Viewport)
    requires
        viewport.wf(),
        2 * viewport.w <= i64::MAX,
        2 * viewport.h <= i64::MAX,
        i64::MIN <= 2 * p.y <= i64::MAX,
        i64::MIN <= 2 * ball.x + BALL_SIZE / 2 <= i64::MAX,
        i64::MIN <= 2 * ball.y + BALL_SIZE / 2 <= i64::MAX,
    ensures
        doubled(viewport).wf(),
        paddle_resized(
            paddle_resized(p, x, viewport, doubled(viewport)),
            p.x,
            doubled(viewport),
            viewport,
        ) == p,
        ball_resized(ball_resized(ball, viewport, doubled(viewport)), doubled(viewport), viewport)
            == ball,
{
    lemma_rescaled_there_and_back(p.y as int, viewport.h as int);
    lemma_rescaled_there_and_back(ball.x + BALL_SIZE / 2, viewport.w as int);
    lemma_rescaled_there_and_back(ball.y + BALL_SIZE / 2, viewport.h as int);
}

} // verus!
