//! The rules of a two-player Pong match: paddles, ball physics, the match
//! state machine and its leaderboard, all on exact integer coordinates.

pub mod ball;
pub mod chance;
pub mod game;
pub mod geometry;
pub mod leaderboard;
pub mod names;
pub mod paddle;
pub mod resize;
pub mod text;
pub mod units;
