//! The ball: position, velocity, a short trail of earlier positions, and
//! the rules of one frame of flight.

use vstd::prelude::*;
use crate::chance::{coin, is_kick, kick};
use crate::geometry::{Rect, Vec2, Viewport};
use crate::paddle::Paddle;
use crate::units::{clamp, sat_add, sat_neg, UNIT};

verus! {

/// Side of the square that the ball covers.
pub const BALL_SIZE: i64 = 24_000;

/// Speed at which a rally starts, per frame.
pub const BALL_SPEED: i64 = 13_000;

/// The trail keeps this many positions at most.
pub const TRAIL_CAP: usize = 14;

#[derive(Clone, Debug, PartialEq, Eq)]
pub struct Ball {
    /// Left edge.
    pub x: i64,
    /// Top edge.
    pub y: i64,
    pub velocity: Vec2,
    /// Whether a rally is in progress.
    pub active: bool,
    /// Earlier positions, the most recent first.
    pub trail: Vec<Vec2>,
}

/// A ball as a mathematical value.
pub struct BallState {
    pub x: i64,
    pub y: i64,
    pub velocity: Vec2,
    pub active: bool,
    pub trail: Seq<Vec2>,
}

impl View for Ball {
    type V = BallState;

    open spec fn view(&self) -> BallState {
        BallState {
            x: self.x,
            y: self.y,
            velocity: self.velocity,
            active: self.active,
            trail: self.trail@,
        }
    }
}

impl BallState {
    pub open spec fn wf(self) -> bool {
        self.trail.len() <= TRAIL_CAP
    }

    pub open spec fn position(self) -> Vec2 {
        Vec2 { x: self.x, y: self.y }
    }

    pub open spec fn bounds(self) -> Rect {
        Rect { x: self.x, y: self.y, w: BALL_SIZE, h: BALL_SIZE }
    }

    /// A ball at `(x, y)` before its first rally.
    pub open spec fn fresh(x: i64, y: i64) -> BallState {
        BallState { x, y, velocity: Vec2 { x: 0, y: 0 }, active: false, trail: Seq::empty() }
    }

    /// The ball at rest in the middle of `viewport`: centred, without
    /// speed, inactive, its trail empty. Nothing of the earlier state stays.
    pub open spec fn rested(self, viewport: Viewport) -> BallState {
        BallState::fresh(
            (viewport.w / 2 - BALL_SIZE / 2) as i64,
            (viewport.h / 2 - BALL_SIZE / 2) as i64,
        )
    }

    /// The ball set in flight with the given speed, to the right or, with
    /// the horizontal speed reversed, to the left.
    pub open spec fn launched(self, speed: Vec2, rightward: bool) -> BallState {
        BallState {
            velocity: Vec2 {
                x: if rightward {
                    speed.x
                } else {
                    clamp(-speed.x) as i64
                },
                y: speed.y,
            },
            active: true,
            ..self
        }
    }

    /// The current position goes to the front of the trail, and the trail
    /// is cut to its cap from the far end.
    pub open spec fn remembered(self) -> BallState {
        let grown = self.trail.insert(0, self.position());
        BallState {
            trail: if grown.len() > TRAIL_CAP {
                grown.subrange(0, TRAIL_CAP as int)
            } else {
                grown
            },
            ..self
        }
    }

    /// The position moves on by the velocity.
    pub open spec fn advanced(self) -> BallState {
        BallState {
            x: clamp(self.x + self.velocity.x) as i64,
            y: clamp(self.y + self.velocity.y) as i64,
            ..self
        }
    }

    /// The ball's top is at or above the top of the viewport, or its bottom
    /// at or below the bottom.
    pub open spec fn at_wall(self, viewport: Viewport) -> bool {
        self.y <= 0 || self.y + BALL_SIZE >= viewport.h
    }

    /// At a wall the vertical speed is reversed; the position stays.
    pub open spec fn bounced(self, viewport: Viewport) -> BallState {
        if self.at_wall(viewport) {
            BallState {
                velocity: Vec2 { x: self.velocity.x, y: clamp(-self.velocity.y) as i64 },
                ..self
            }
        } else {
            self
        }
    }

    /// The ball overlaps `paddle` and flies toward its side of the field:
    /// leftward for the left paddle, rightward for the right one.
    pub open spec fn strikes(self, paddle: Paddle, left_side: bool) -> bool {
        self.bounds().meets(paddle.bounds()) && if left_side {
            self.velocity.x < 0
        } else {
            self.velocity.x > 0
        }
    }

    /// A strike reverses the horizontal speed and adds `kick` to the
    /// vertical speed.
    pub open spec fn deflected(self, paddle: Paddle, left_side: bool, kick: i64) -> BallState {
        if self.strikes(paddle, left_side) {
            BallState {
                velocity: Vec2 {
                    x: clamp(-self.velocity.x) as i64,
                    y: clamp(self.velocity.y + kick) as i64,
                },
                ..self
            }
        } else {
            self
        }
    }

    /// A vertical speed of less than one pixel per frame becomes one pixel
    /// per frame in the same direction; a vertical speed of zero stays zero.
    pub open spec fn kept_moving(self) -> BallState {
        let vy = self.velocity.y;
        BallState {
            velocity: Vec2 {
                x: self.velocity.x,
                y: if 0 < vy < UNIT {
                    UNIT
                } else if -UNIT < vy < 0 {
                    (-UNIT) as i64
                } else {
                    vy
                },
            },
            ..self
        }
    }

    /// The ball's left edge is beyond the left edge of the field.
    pub open spec fn past_left(self) -> bool {
        self.x < 0
    }

    /// The ball's right edge is beyond the right edge of the field.
    pub open spec fn past_right(self, viewport: Viewport) -> bool {
        self.x + BALL_SIZE > viewport.w
    }

    /// A ball beyond either edge ends the rally: it stops being active and
    /// loses its trail, but stays where it is.
    pub open spec fn settled(self, viewport: Viewport) -> BallState {
        if self.past_left() || self.past_right(viewport) {
            BallState { active: false, trail: Seq::empty(), ..self }
        } else {
            self
        }
    }

    /// One frame of flight. An inactive ball stays as it is.
    pub open spec fn stepped(
        self,
        paddle1: Paddle,
        paddle2: Paddle,
        viewport: Viewport,
        kick1: i64,
        kick2: i64,
    ) -> BallState {
        if !self.active {
            self
        } else {
            self.remembered()
                .advanced()
                .bounced(viewport)
                .deflected(paddle1, true, kick1)
                .deflected(paddle2, false, kick2)
                .kept_moving()
                .settled(viewport)
        }
    }

    /// Who scores in this frame: first whether the left player does, then
    /// whether the right player does.
    pub open spec fn goals(self, viewport: Viewport) -> (bool, bool) {
        if !self.active {
            (false, false)
        } else {
            (self.advanced().past_right(viewport), self.advanced().past_left())
        }
    }
}

impl Ball {
    pub fn new(x: i64, y: i64) -> (ball: Ball)
        ensures
            ball@ == BallState::fresh(x, y),
            ball@.wf(),
    {
        Ball { x, y, velocity: Vec2 { x: 0, y: 0 }, active: false, trail: Vec::new() }
    }

    /// The square that the ball covers.
    pub fn rect(&self) -> (r: Rect)
        ensures
            r == self@.bounds(),
    {
        Rect { x: self.x, y: self.y, w: BALL_SIZE, h: BALL_SIZE }
    }

    /// Puts the ball at rest in the middle of `viewport`, without a trail.
    pub fn reset(&mut self, viewport: Viewport)
        requires
            viewport.wf(),
        ensures
            final(self)@ == old(self)@.rested(viewport),
            final(self)@.wf(),
    {
        self.x = viewport.w / 2 - BALL_SIZE / 2;
        self.y = viewport.h / 2 - BALL_SIZE / 2;
        self.active = false;
        self.velocity = Vec2 { x: 0, y: 0 };
        self.trail.clear();
    }

    /// Starts a rally with the given speed, to the right if `rightward`
    /// and else to the left.
    pub fn launch_toward(&mut self, speed: Vec2, rightward: bool)
        ensures
            final(self)@ == old(self)@.launched(speed, rightward),
    {
        let vx: i64 = if rightward {
            speed.x
        } else {
            sat_neg(speed.x)
        };
        self.velocity = Vec2 { x: vx, y: speed.y };
        self.active = true;
    }

    /// Starts a rally with the given speed, to the right or to the left as
    /// a coin falls.
    pub fn launch(&mut self, speed: Vec2)
        ensures
            final(self)@ == old(self)@.launched(speed, true)
                || final(self)@ == old(self)@.launched(speed, false),
    {
        let rightward = coin();
        self.launch_toward(speed, rightward);
    }

    fn remember(&mut self)
        ensures
            final(self)@ == old(self)@.remembered(),
    {
        self.trail.insert(0, Vec2 { x: self.x, y: self.y });
        self.trail.truncate(TRAIL_CAP);
        assert(self.trail@ =~= old(self)@.remembered().trail);
    }

    fn advance(&mut self)
        ensures
            final(self)@ == old(self)@.advanced(),
    {
        self.x = sat_add(self.x, self.velocity.x);
        self.y = sat_add(self.y, self.velocity.y);
    }

    fn bounce(&mut self, viewport: Viewport)
        ensures
            final(self)@ == old(self)@.bounced(viewport),
    {
        if self.y <= 0 || self.y as i128 + BALL_SIZE as i128 >= viewport.h as i128 {
            self.velocity.y = sat_neg(self.velocity.y);
        }
    }

    fn hits(&self, paddle: &Paddle, left_side: bool) -> (hit: bool)
        ensures
            hit == self@.strikes(*paddle, left_side),
    {
        self.rect().overlaps(&paddle.rect()) && if left_side {
            self.velocity.x < 0
        } else {
            self.velocity.x > 0
        }
    }

    fn turn_back(&mut self, kick: i64)
        ensures
            final(self)@ == (BallState {
                velocity: Vec2 {
                    x: clamp(-old(self).velocity.x) as i64,
                    y: clamp(old(self).velocity.y + kick) as i64,
                },
                ..old(self)@
            }),
    {
        self.velocity.x = sat_neg(self.velocity.x);
        self.velocity.y = sat_add(self.velocity.y, kick);
    }

    fn keep_moving(&mut self)
        ensures
            final(self)@ == old(self)@.kept_moving(),
    {
        let vy: i64 = self.velocity.y;
        if 0 < vy && vy < UNIT {
            self.velocity.y = UNIT;
        } else if -UNIT < vy && vy < 0 {
            self.velocity.y = -UNIT;
        }
    }

    fn settle(&mut self, viewport: Viewport) -> (scored: (bool, bool))
        ensures
            final(self)@ == old(self)@.settled(viewport),
            scored == (old(self)@.past_right(viewport), old(self)@.past_left()),
    {
        let left_scored = self.x as i128 + BALL_SIZE as i128 > viewport.w as i128;
        let right_scored = self.x < 0;
        if left_scored || right_scored {
            self.active = false;
            self.trail.clear();
        }
        (left_scored, right_scored)
    }

    /// One frame of flight, with the kicks that the two paddles give if
    /// the ball strikes them.
    ///
    /// Returns whether the left player scored and whether the right player
    /// scored.
    pub fn update_with(
        &mut self,
        paddle1: &Paddle,
        paddle2: &Paddle,
        viewport: Viewport,
        kick1: i64,
        kick2: i64,
    ) -> (scored: (bool, bool))
        ensures
            final(self)@ == old(self)@.stepped(*paddle1, *paddle2, viewport, kick1, kick2),
            scored == old(self)@.goals(viewport),
            old(self)@.wf() ==> final(self)@.wf(),
    {
        if !self.active {
            return (false, false);
        }
        self.remember();
        self.advance();
        self.bounce(viewport);
        if self.hits(paddle1, true) {
            self.turn_back(kick1);
        }
        if self.hits(paddle2, false) {
            self.turn_back(kick2);
        }
        self.keep_moving();
        self.settle(viewport)
    }

    /// One frame of flight. Each paddle that the ball strikes gives it a
    /// kick drawn at random.
    ///
    /// Returns whether the left player scored and whether the right player
    /// scored.
    pub fn update(
        &mut self,
        paddle1: &Paddle,
        paddle2: &Paddle,
        viewport: Viewport,
    ) -> (scored: (bool, bool))
        ensures
            exists|kick1: i64, kick2: i64|
                {
                    &&& is_kick(kick1)
                    &&& is_kick(kick2)
                    &&& final(self)@ == #[trigger] old(self)@.stepped(
                        *paddle1,
                        *paddle2,
                        viewport,
                        kick1,
                        kick2,
                    )
                },
            scored == old(self)@.goals(viewport),
            old(self)@.wf() ==> final(self)@.wf(),
    {
        if !self.active {
            assert(self@ == old(self)@.stepped(*paddle1, *paddle2, viewport, 0, 0));
            return (false, false);
        }
        self.remember();
        self.advance();
        self.bounce(viewport);
        let mut kick1: i64 = 0;
        let mut kick2: i64 = 0;
        if self.hits(paddle1, true) {
            kick1 = kick();
            self.turn_back(kick1);
        }
        if self.hits(paddle2, false) {
            kick2 = kick();
            self.turn_back(kick2);
        }
        self.keep_moving();
        let scored = self.settle(viewport);
        assert(self@ == old(self)@.stepped(*paddle1, *paddle2, viewport, kick1, kick2));
        scored
    }
}

/// Resetting a ball that was just reset changes nothing.
pub proof fn lemma_reset_idempotent(ball: BallState, viewport: Viewport)
    requires
        viewport.wf(),
    ensures
        ball.rested(viewport).rested(viewport) == ball.rested(viewport),
{
}

/// The trail never holds more than its cap: a frame of flight leaves it
/// within the cap if it was so before, and always does so for a ball in
/// flight.
pub proof fn lemma_trail_stays_short(
    ball: BallState,
    paddle1: Paddle,
    paddle2: Paddle,
    viewport: Viewport,
    kick1: i64,
    kick2: i64,
)
    requires
        ball.wf() || ball.active,
    ensures
        ball.stepped(paddle1, paddle2, viewport, kick1, kick2).wf(),
{
}

/// While the rally goes on, the head of the trail is the position that the
/// ball held before the frame's move.
pub proof fn lemma_trail_head_is_previous_position(
    ball: BallState,
    paddle1: Paddle,
    paddle2: Paddle,
    viewport: Viewport,
    kick1: i64,
    kick2: i64,
)
    requires
        ball.active,
        ball.stepped(paddle1, paddle2, viewport, kick1, kick2).active,
    ensures
        ball.stepped(paddle1, paddle2, viewport, kick1, kick2).trail.len() >= 1,
        ball.stepped(paddle1, paddle2, viewport, kick1, kick2).trail[0] == ball.position(),
{
}

/// Both players score in one frame exactly when the ball, after its move,
/// reaches beyond both edges at once, which takes a field narrower than
/// the ball. On any wider field at most one player scores.
pub proof fn lemma_scoring_exclusive(ball: BallState, viewport: Viewport)
    ensures
        (ball.goals(viewport).0 && ball.goals(viewport).1) <==> (ball.active
            && ball.advanced().past_left() && ball.advanced().past_right(viewport)),
        viewport.w >= BALL_SIZE ==> !(ball.goals(viewport).0 && ball.goals(viewport).1),
{
}

/// A paddle does not turn the ball twice: once turned, the ball flies
/// away from the paddle's side and no longer strikes it, however long the
/// two still overlap.
pub proof fn lemma_no_double_bounce(ball: BallState, paddle: Paddle, left_side: bool, kick: i64)
    requires
        ball.strikes(paddle, left_side),
    ensures
        !ball.deflected(paddle, left_side, kick).strikes(paddle, left_side),
{
}

/// Vertical speed never ends a frame between zero and one pixel per
/// frame: it is zero, or at least one pixel per frame up or down.
pub proof fn lemma_vertical_speed_floor(ball: BallState)
    ensures
        ({
            let vy = ball.kept_moving().velocity.y;
            vy == 0 || vy >= UNIT || vy <= -UNIT
        }),
        ball.velocity.y == 0 ==> ball.kept_moving().velocity.y == 0,
{
}

/// A frame in which somebody scores ends the rally and empties the trail.
pub proof fn lemma_goal_ends_rally(
    ball: BallState,
    paddle1: Paddle,
    paddle2: Paddle,
    viewport: Viewport,
    kick1: i64,
    kick2: i64,
)
    ensures
        ball.goals(viewport).0 || ball.goals(viewport).1 ==> {
            &&& !ball.stepped(paddle1, paddle2, viewport, kick1, kick2).active
            &&& ball.stepped(paddle1, paddle2, viewport, kick1, kick2).trail.len() == 0
        },
        ball.active && !ball.goals(viewport).0 && !ball.goals(viewport).1 ==> ball.stepped(
            paddle1,
            paddle2,
            viewport,
            kick1,
            kick2,
        ).active,
{
}

} // verus!
