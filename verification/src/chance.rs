//! The game's source of chance.

use vstd::prelude::*;
use crate::units::UNIT;

verus! {

/// Calls `gen_range` of macroquad's `rand` module on two `i64` bounds.
///
/// Its documentation promises a result from `low` up to, but not
/// including, `high`. Its source shows how: a 32-bit draw becomes a
/// fraction of `[0, 1)`, is moved into the span between the bounds in
/// `f64`, and is truncated toward zero. For bounds of at most 2^19 in
/// magnitude each of these steps is exact, and under a positive `high`
/// truncation cannot reach `high`; the contract asks for both. Which
/// value comes out depends on the generator's hidden state, so nothing
/// more is claimed.
#[verifier::external_body]
fn draw_between(low: i64, high: i64) -> (r: i64)
    requires
        -524288 <= low < high <= 524288,
        high > 0,
    ensures
        low <= r < high,
{
    macroquad::rand::gen_range(low, high)
}

/// What a paddle may add to the ball's vertical speed: less than one pixel
/// per frame either way.
pub open spec fn is_kick(k: i64) -> bool {
    -UNIT <= k < UNIT
}

/// Draws the change of vertical speed for one paddle hit.
pub(crate) fn kick() -> (k: i64)
    ensures
        is_kick(k),
{
    draw_between(-UNIT, UNIT)
}

/// Tosses a coin.
pub(crate) fn coin() -> (heads: bool) {
    let side: i64 = draw_between(0, 2);
    side == 0
}

/// Angles are counted in millionths of a half turn, from the horizontal.
pub const HALF_TURN: i64 = 1_000_000;

/// A serve leaves the horizontal by more than this angle, up or down.
pub const SERVE_ANGLE_MIN: i64 = 150_000;

/// A serve leaves the horizontal by less than this angle.
pub const SERVE_ANGLE_MAX: i64 = 350_000;

/// An angle at which the ball may be served: further than the least
/// angle from the horizontal, and within the widest.
pub open spec fn is_serve_angle(angle: i64) -> bool {
    SERVE_ANGLE_MIN < angle < SERVE_ANGLE_MAX || -SERVE_ANGLE_MAX <= angle < -SERVE_ANGLE_MIN
}

/// Keeps an angle that leaves the horizontal by more than the least
/// angle, and refuses any other.
pub fn accept_serve_angle(angle: i64) -> (serve: Option<i64>)
    ensures
        serve == if angle < -SERVE_ANGLE_MIN || angle > SERVE_ANGLE_MIN {
            Some(angle)
        } else {
            None::<i64>
        },
{
    if angle < -SERVE_ANGLE_MIN || angle > SERVE_ANGLE_MIN {
        Some(angle)
    } else {
        None
    }
}

/// Draws an angle between the two widest serves and keeps it if the ball
/// may be served at it. A caller that needs a serve draws until one is
/// kept.
pub fn draw_serve_angle() -> (serve: Option<i64>)
    ensures
        serve.is_some() ==> is_serve_angle(serve.unwrap()),
{
    accept_serve_angle(draw_between(-SERVE_ANGLE_MAX, SERVE_ANGLE_MAX))
}

} // verus!
