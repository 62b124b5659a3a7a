//! Axis-aligned rectangles, vectors and the viewport.

use vstd::prelude::*;

verus! {

/// A pair of coordinates: a position or a velocity, in units.
#[derive(Clone, Copy, Debug, PartialEq, Eq, Structural)]
pub struct Vec2 {
    pub x: i64,
    pub y: i64,
}

/// An axis-aligned rectangle with its origin at the top-left corner.
#[derive(Clone, Copy, Debug, PartialEq, Eq, Structural)]
pub struct Rect {
    pub x: i64,
    pub y: i64,
    pub w: i64,
    pub h: i64,
}

impl Rect {
    pub open spec fn left(self) -> int {
        self.x as int
    }

    pub open spec fn right(self) -> int {
        self.x + self.w
    }

    pub open spec fn top(self) -> int {
        self.y as int
    }

    pub open spec fn bottom(self) -> int {
        self.y + self.h
    }

    /// Two rectangles overlap when neither lies wholly to one side of the
    /// other; rectangles that only touch along an edge overlap.
    pub open spec fn meets(self, other: Rect) -> bool {
        &&& self.left() <= other.right()
        &&& self.right() >= other.left()
        &&& self.top() <= other.bottom()
        &&& self.bottom() >= other.top()
    }

    /// Whether this rectangle overlaps `other`.
    pub fn overlaps(&self, other: &Rect) -> (hit: bool)
        ensures
            hit == self.meets(*other),
    {
        let self_right: i128 = self.x as i128 + self.w as i128;
        let self_bottom: i128 = self.y as i128 + self.h as i128;
        let other_right: i128 = other.x as i128 + other.w as i128;
        let other_bottom: i128 = other.y as i128 + other.h as i128;
        self.x as i128 <= other_right && self_right >= other.x as i128 && self.y as i128
            <= other_bottom && self_bottom >= other.y as i128
    }
}

/// The size of the drawing surface, in units. A viewport that the game can
/// play on has a positive width and a positive height.
#[derive(Clone, Copy, Debug, PartialEq, Eq, Structural)]
pub struct Viewport {
    pub w: i64,
    pub h: i64,
}

impl Viewport {
    pub open spec fn wf(self) -> bool {
        self.w > 0 && self.h > 0
    }

    /// A viewport of the given size, if both sides are positive.
    pub fn new(w: i64, h: i64) -> (v: Option<Viewport>)
        ensures
            v.is_some() <==> (w > 0 && h > 0),
            v.is_some() ==> v.unwrap() == (Viewport { w, h }) && v.unwrap().wf(),
    {
        if w > 0 && h > 0 {
            Some(Viewport { w, h })
        } else {
            None
        }
    }
}

} // verus!
