//! A paddle: a vertical mover that stays between the top and the bottom of
//! the viewport.

use vstd::prelude::*;
use crate::geometry::{Rect, Viewport};

verus! {

pub const PADDLE_W: i64 = 20_000;

pub const PADDLE_H: i64 = 120_000;

/// Distance that a paddle travels in one frame while its key is held.
pub const PADDLE_SPEED: i64 = 7_000;

#[derive(Clone, Copy, Debug, PartialEq, Eq, Structural)]
pub struct Paddle {
    /// Left edge.
    pub x: i64,
    /// Top edge.
    pub y: i64,
}

impl Paddle {
    pub open spec fn bounds(self) -> Rect {
        Rect { x: self.x, y: self.y, w: PADDLE_W, h: PADDLE_H }
    }

    /// The paddle lies wholly between the top and the bottom of `viewport`.
    pub open spec fn within(self, viewport: Viewport) -> bool {
        0 <= self.y <= viewport.h - PADDLE_H
    }

    /// The paddle one step further up: `y` drops by the speed, but not below 0.
    pub open spec fn moved_up(self) -> Paddle {
        Paddle {
            x: self.x,
            y: if self.y - PADDLE_SPEED <= 0 {
                0
            } else {
                (self.y - PADDLE_SPEED) as i64
            },
        }
    }

    /// The paddle one step further down: `y` grows by the speed, but not
    /// beyond the place where the paddle's bottom meets that of the viewport.
    pub open spec fn moved_down(self, viewport: Viewport) -> Paddle {
        Paddle {
            x: self.x,
            y: if self.y + PADDLE_SPEED >= viewport.h - PADDLE_H {
                (viewport.h - PADDLE_H) as i64
            } else {
                (self.y + PADDLE_SPEED) as i64
            },
        }
    }

    pub fn new(x: i64, y: i64) -> (p: Paddle)
        ensures
            p == (Paddle { x, y }),
    {
        Paddle { x, y }
    }

    /// The rectangle that the paddle covers.
    pub fn rect(&self) -> (r: Rect)
        ensures
            r == self.bounds(),
    {
        Rect { x: self.x, y: self.y, w: PADDLE_W, h: PADDLE_H }
    }

    pub fn move_up(&mut self)
        ensures
            *final(self) == old(self).moved_up(),
            final(self).y == vstd::math::max(0, old(self).y - PADDLE_SPEED),
    {
        if self.y <= PADDLE_SPEED {
            self.y = 0;
        } else {
            self.y = self.y - PADDLE_SPEED;
        }
    }

    pub fn move_down(&mut self, viewport: Viewport)
        requires
            viewport.wf(),
        ensures
            *final(self) == old(self).moved_down(viewport),
            final(self).y == vstd::math::min(viewport.h - PADDLE_H, old(self).y + PADDLE_SPEED),
    {
        let floor: i64 = viewport.h - PADDLE_H;
        if self.y >= floor - PADDLE_SPEED {
            self.y = floor;
        } else {
            self.y = self.y + PADDLE_SPEED;
        }
    }

    /// Moves the paddle's left edge to `x`.
    pub fn update_x(&mut self, x: i64)
        ensures
            *final(self) == (Paddle { x, y: old(self).y }),
    {
        self.x = x;
    }
}

/// A step up leaves the paddle within the viewport exactly when the
/// viewport is at least as tall as a paddle and the paddle started no
/// further than one step below the lowest place.
pub proof fn lemma_move_up_within(p: Paddle, viewport: Viewport)
    requires
        viewport.wf(),
    ensures
        p.moved_up().within(viewport) <==> (viewport.h >= PADDLE_H && p.y - PADDLE_SPEED
            <= viewport.h - PADDLE_H),
        p.within(viewport) ==> p.moved_up().within(viewport),
{
}

/// A step down leaves the paddle within the viewport exactly when the
/// viewport is at least as tall as a paddle and the paddle started no
/// further than one step above the top.
pub proof fn lemma_move_down_within(p: Paddle, viewport: Viewport)
    requires
        viewport.wf(),
    ensures
        p.moved_down(viewport).within(viewport) <==> (viewport.h >= PADDLE_H && p.y
            + PADDLE_SPEED >= 0),
        p.within(viewport) ==> p.moved_down(viewport).within(viewport),
{
}

} // verus!
