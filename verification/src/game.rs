//! The match: name entry, countdown, play, game over and replay, driven
//! one frame at a time.

use vstd::prelude::*;
use vstd::string::*;
use crate::ball::{Ball, BallState, BALL_SIZE};
use crate::chance::is_kick;
use crate::geometry::{Vec2, Viewport};
use crate::leaderboard::{recorded, Leaderboard, Standing};
use crate::names::{
    edited, handle_name_input, lemma_edited_within_cap, submit, submitted, NAME_CAP,
};
use crate::paddle::{Paddle, PADDLE_H};
use crate::resize::{
    ball_resized, doubled, lemma_resize_round_trip, paddle2_x, paddle_resized, resize, PADDLE1_X,
    PADDLE2_INSET,
};

verus! {

/// The score that wins a match.
pub const WIN_SCORE: u32 = 5;

/// How long the countdown before each rally lasts, in microseconds.
pub const COUNTDOWN_MICROS: u64 = 3_000_000;

#[derive(Clone, Copy, Debug, PartialEq, Eq, Structural)]
pub enum Phase {
    EnterName1,
    EnterName2,
    Countdown,
    InGame,
    GameOver,
}

/// The keys that the game reads. `w`, `s`, `up` and `down` tell whether
/// the key is held; the others whether it went down in this frame.
#[derive(Clone, Copy, Debug, PartialEq, Eq, Structural)]
pub struct Keys {
    pub w: bool,
    pub s: bool,
    pub up: bool,
    pub down: bool,
    pub enter: bool,
    pub escape: bool,
    pub backspace: bool,
    pub tab: bool,
}

/// What one frame brings in from outside.
#[derive(Clone, Debug, PartialEq, Eq)]
pub struct Frame {
    /// The size of the viewport now.
    pub viewport: Viewport,
    /// Time since the frame before, in microseconds.
    pub elapsed_micros: u64,
    /// The characters typed since the frame before, in order.
    pub typed: Vec<char>,
    pub keys: Keys,
    /// The speed at which to serve, should a rally start in this frame.
    pub serve: Vec2,
}

/// A frame's input as a mathematical value.
pub struct FrameState {
    pub viewport: Viewport,
    pub elapsed_micros: u64,
    pub typed: Seq<char>,
    pub keys: Keys,
    pub serve: Vec2,
}

impl View for Frame {
    type V = FrameState;

    open spec fn view(&self) -> FrameState {
        FrameState {
            viewport: self.viewport,
            elapsed_micros: self.elapsed_micros,
            typed: self.typed@,
            keys: self.keys,
            serve: self.serve,
        }
    }
}

/// What one frame leaves to chance: the side to which a serve goes, and
/// the kick that each paddle gives the ball if struck.
#[derive(Clone, Copy, Debug, PartialEq, Eq, Structural)]
pub struct Chance {
    pub rightward: bool,
    pub kick1: i64,
    pub kick2: i64,
}

impl Chance {
    /// Both kicks are such as a paddle may give.
    pub open spec fn fair(self) -> bool {
        is_kick(self.kick1) && is_kick(self.kick2)
    }
}

/// A session of matches. Its state is read through its methods and
/// changes only frame by frame, so what [`GameState::wf`] says of it
/// holds from the start on.
#[derive(Clone, Debug, PartialEq, Eq)]
pub struct Game {
    phase: Phase,
    player1_name: String,
    player2_name: String,
    input_name: String,
    winner_msg: String,
    winner_name: String,
    score1: u32,
    score2: u32,
    leaderboard: Leaderboard,
    full_tab: bool,
    paddle1: Paddle,
    paddle2: Paddle,
    ball: Ball,
    countdown: u64,
    viewport: Viewport,
}

/// A session as a mathematical value.
pub struct GameState {
    pub phase: Phase,
    pub player1_name: Seq<char>,
    pub player2_name: Seq<char>,
    /// The name under entry.
    pub input_name: Seq<char>,
    pub winner_msg: Seq<char>,
    pub winner_name: Seq<char>,
    pub score1: u32,
    pub score2: u32,
    pub leaderboard: Seq<Standing>,
    /// Whether the score is shown as a full banner with names. Tab
    /// switches it; no change of phase touches it.
    pub full_tab: bool,
    pub paddle1: Paddle,
    pub paddle2: Paddle,
    pub ball: BallState,
    /// Time spent in the running countdown, in microseconds.
    pub countdown: u64,
    /// The viewport as of the last frame.
    pub viewport: Viewport,
}

impl View for Game {
    type V = GameState;

    closed spec fn view(&self) -> GameState {
        GameState {
            phase: self.phase,
            player1_name: self.player1_name@,
            player2_name: self.player2_name@,
            input_name: self.input_name@,
            winner_msg: self.winner_msg@,
            winner_name: self.winner_name@,
            score1: self.score1,
            score2: self.score2,
            leaderboard: self.leaderboard@,
            full_tab: self.full_tab,
            paddle1: self.paddle1,
            paddle2: self.paddle2,
            ball: self.ball@,
            countdown: self.countdown,
            viewport: self.viewport,
        }
    }
}

/// What announces that `name` has won.
pub open spec fn winner_message(name: Seq<char>) -> Seq<char> {
    name + " Wins!"@
}

/// The countdown after `elapsed` more microseconds.
pub open spec fn counted_up(countdown: u64, elapsed: u64) -> u64 {
    if countdown + elapsed > u64::MAX {
        u64::MAX
    } else {
        (countdown + elapsed) as u64
    }
}

impl GameState {
    /// What holds of a match at the start and after every frame.
    pub open spec fn wf(self) -> bool {
        &&& self.viewport.wf()
        &&& self.ball.wf()
        &&& crate::leaderboard::distinct_names(self.leaderboard)
        &&& self.input_name.len() <= NAME_CAP
        &&& self.countdown < COUNTDOWN_MICROS
        &&& self.score1 <= WIN_SCORE
        &&& self.score2 <= WIN_SCORE
        &&& (self.phase == Phase::GameOver) == (self.score1 >= WIN_SCORE || self.score2
            >= WIN_SCORE)
        &&& self.ball.active == (self.phase == Phase::InGame)
        &&& self.phase == Phase::GameOver ==> {
            &&& self.winner_name == self.leader()
            &&& self.winner_msg == winner_message(self.leader())
        }
    }

    /// The name of the player whose score has won: the left player's if
    /// that score has reached the winning score, else the right player's.
    pub open spec fn leader(self) -> Seq<char> {
        if self.score1 >= WIN_SCORE {
            self.player1_name
        } else {
            self.player2_name
        }
    }

    /// A new session on a viewport: the first player's name is asked for;
    /// paddles and ball stand in the middle of the field's height.
    pub open spec fn opening(viewport: Viewport) -> GameState {
        GameState {
            phase: Phase::EnterName1,
            player1_name: Seq::empty(),
            player2_name: Seq::empty(),
            input_name: Seq::empty(),
            winner_msg: Seq::empty(),
            winner_name: Seq::empty(),
            score1: 0,
            score2: 0,
            leaderboard: Seq::empty(),
            full_tab: true,
            paddle1: Paddle { x: PADDLE1_X, y: (viewport.h / 2 - PADDLE_H / 2) as i64 },
            paddle2: Paddle { x: paddle2_x(viewport), y: (viewport.h / 2 - PADDLE_H / 2) as i64 },
            ball: BallState::fresh(0, 0).rested(viewport),
            countdown: 0,
            viewport,
        }
    }

    /// Paddles and ball follow a change of the viewport; without a change
    /// nothing moves.
    pub open spec fn refitted(self, viewport: Viewport) -> GameState {
        if viewport == self.viewport {
            self
        } else {
            GameState {
                paddle1: paddle_resized(self.paddle1, PADDLE1_X, self.viewport, viewport),
                paddle2: paddle_resized(self.paddle2, paddle2_x(viewport), self.viewport, viewport),
                ball: ball_resized(self.ball, self.viewport, viewport),
                viewport,
                ..self
            }
        }
    }

    /// Tab switches the form of the score display.
    pub open spec fn toggled(self, tab: bool) -> GameState {
        GameState { full_tab: self.full_tab != tab, ..self }
    }

    /// A frame of name entry. The frame's input edits the name; Enter
    /// submits it if something is left of it once trimmed. The first
    /// name leads to the second; the second starts a match: scores at
    /// zero, the ball at rest in the middle, a fresh countdown.
    pub open spec fn named(self, frame: FrameState) -> GameState {
        let text = edited(self.input_name, frame.typed, frame.keys.backspace);
        if frame.keys.enter && submitted(text).is_some() {
            if self.phase == Phase::EnterName1 {
                GameState {
                    player1_name: submitted(text).unwrap(),
                    input_name: Seq::empty(),
                    phase: Phase::EnterName2,
                    ..self
                }
            } else {
                GameState {
                    player2_name: submitted(text).unwrap(),
                    input_name: Seq::empty(),
                    score1: 0,
                    score2: 0,
                    ball: self.ball.rested(frame.viewport),
                    countdown: 0,
                    phase: Phase::Countdown,
                    ..self
                }
            }
        } else {
            GameState { input_name: text, ..self }
        }
    }

    /// A frame of countdown. Once the time is up, the ball is served
    /// from the middle and play begins.
    pub open spec fn counted(self, frame: FrameState, rightward: bool) -> GameState {
        let spent = counted_up(self.countdown, frame.elapsed_micros);
        if spent >= COUNTDOWN_MICROS {
            GameState {
                countdown: 0,
                ball: self.ball.rested(frame.viewport).launched(frame.serve, rightward),
                phase: Phase::InGame,
                ..self
            }
        } else {
            GameState { countdown: spent, ..self }
        }
    }

    /// The paddles follow their keys: W and S move the left paddle, Up
    /// and Down the right one. With both keys of a paddle held it moves
    /// up, then down.
    pub open spec fn steered(self, frame: FrameState) -> GameState {
        let up1 = if frame.keys.w {
            self.paddle1.moved_up()
        } else {
            self.paddle1
        };
        let down1 = if frame.keys.s {
            up1.moved_down(frame.viewport)
        } else {
            up1
        };
        let up2 = if frame.keys.up {
            self.paddle2.moved_up()
        } else {
            self.paddle2
        };
        let down2 = if frame.keys.down {
            up2.moved_down(frame.viewport)
        } else {
            up2
        };
        GameState { paddle1: down1, paddle2: down2, ..self }
    }

    /// A point for one player: the score grows by one, the ball is out
    /// of play, and a fresh countdown begins.
    pub open spec fn point(self, left_player: bool) -> GameState {
        GameState {
            score1: if left_player {
                (self.score1 + 1) as u32
            } else {
                self.score1
            },
            score2: if left_player {
                self.score2
            } else {
                (self.score2 + 1) as u32
            },
            ball: BallState { active: false, ..self.ball },
            countdown: 0,
            phase: Phase::Countdown,
            ..self
        }
    }

    /// The match is over and `name` has won it: the message says so and
    /// the leaderboard counts one more win for that name.
    pub open spec fn won_by(self, name: Seq<char>) -> GameState {
        GameState {
            winner_msg: winner_message(name),
            winner_name: name,
            leaderboard: recorded(self.leaderboard, name),
            phase: Phase::GameOver,
            ..self
        }
    }

    /// What follows from the goals of a frame: points first, then the
    /// end of the match if a score has reached the winning score. If
    /// both have, the left player wins.
    pub open spec fn refereed(self, goals: (bool, bool)) -> GameState {
        let first = if goals.0 {
            self.point(true)
        } else {
            self
        };
        let second = if goals.1 {
            first.point(false)
        } else {
            first
        };
        if second.score1 >= WIN_SCORE {
            second.won_by(second.player1_name)
        } else if second.score2 >= WIN_SCORE {
            second.won_by(second.player2_name)
        } else {
            second
        }
    }

    /// A frame of play: the paddles move, the ball flies, goals count.
    pub open spec fn played(self, frame: FrameState, kick1: i64, kick2: i64) -> GameState {
        let steered = self.steered(frame);
        GameState {
            ball: steered.ball.stepped(
                steered.paddle1,
                steered.paddle2,
                frame.viewport,
                kick1,
                kick2,
            ),
            ..steered
        }.refereed(steered.ball.goals(frame.viewport))
    }

    /// A frame after the match: Enter clears names, scores and winner
    /// and asks for the first name again. The leaderboard stays.
    pub open spec fn replayed(self, frame: FrameState) -> GameState {
        if frame.keys.enter {
            GameState {
                player1_name: Seq::empty(),
                player2_name: Seq::empty(),
                input_name: Seq::empty(),
                score1: 0,
                score2: 0,
                ball: self.ball.rested(frame.viewport),
                winner_msg: Seq::empty(),
                winner_name: Seq::empty(),
                phase: Phase::EnterName1,
                ..self
            }
        } else {
            self
        }
    }

    /// What the frame does in the phase that the match is in.
    pub open spec fn acted(self, frame: FrameState, chance: Chance) -> GameState {
        match self.phase {
            Phase::EnterName1 => self.named(frame),
            Phase::EnterName2 => self.named(frame),
            Phase::Countdown => self.counted(frame, chance.rightward),
            Phase::InGame => self.played(frame, chance.kick1, chance.kick2),
            Phase::GameOver => self.replayed(frame),
        }
    }

    /// One frame: first the viewport, then Tab, then the phase's part.
    pub open spec fn ticked(self, frame: FrameState, chance: Chance) -> GameState {
        self.refitted(frame.viewport).toggled(frame.keys.tab).acted(frame, chance)
    }

    /// Whether the frame ends the session. Escape does, except in the
    /// very frame in which a match ends.
    pub open spec fn quits(self, frame: FrameState, chance: Chance) -> bool {
        frame.keys.escape && (self.phase == Phase::GameOver || self.ticked(frame, chance).phase
            != Phase::GameOver)
    }
}

impl Game {
    pub open spec fn wf(&self) -> bool {
        self@.wf()
    }

    /// Opens a session on the given viewport.
    pub fn new(viewport: Viewport) -> (game: Game)
        requires
            viewport.wf(),
        ensures
            game@ == GameState::opening(viewport),
            game.wf(),
    {
        let mut ball = Ball::new(0, 0);
        ball.reset(viewport);
        let y: i64 = viewport.h / 2 - PADDLE_H / 2;
        let game = Game {
            phase: Phase::EnterName1,
            player1_name: String::new(),
            player2_name: String::new(),
            input_name: String::new(),
            winner_msg: String::new(),
            winner_name: String::new(),
            score1: 0,
            score2: 0,
            leaderboard: Leaderboard::new(),
            full_tab: true,
            paddle1: Paddle::new(PADDLE1_X, y),
            paddle2: Paddle::new(viewport.w - PADDLE2_INSET, y),
            ball,
            countdown: 0,
            viewport,
        };
        game
    }

    pub fn phase(&self) -> (phase: Phase)
        ensures
            phase == self@.phase,
    {
        self.phase
    }

    pub fn player1_name(&self) -> (name: &str)
        ensures
            name@ == self@.player1_name,
    {
        self.player1_name.as_str()
    }

    pub fn player2_name(&self) -> (name: &str)
        ensures
            name@ == self@.player2_name,
    {
        self.player2_name.as_str()
    }

    /// The name under entry, as typed so far.
    pub fn input_name(&self) -> (name: &str)
        ensures
            name@ == self@.input_name,
    {
        self.input_name.as_str()
    }

    pub fn winner_msg(&self) -> (msg: &str)
        ensures
            msg@ == self@.winner_msg,
    {
        self.winner_msg.as_str()
    }

    pub fn winner_name(&self) -> (name: &str)
        ensures
            name@ == self@.winner_name,
    {
        self.winner_name.as_str()
    }

    pub fn score1(&self) -> (score: u32)
        ensures
            score == self@.score1,
    {
        self.score1
    }

    pub fn score2(&self) -> (score: u32)
        ensures
            score == self@.score2,
    {
        self.score2
    }

    pub fn leaderboard(&self) -> (board: &Leaderboard)
        ensures
            board@ == self@.leaderboard,
    {
        &self.leaderboard
    }

    /// Whether the score is shown as a full banner with names.
    pub fn full_tab(&self) -> (full: bool)
        ensures
            full == self@.full_tab,
    {
        self.full_tab
    }

    pub fn paddle1(&self) -> (paddle: Paddle)
        ensures
            paddle == self@.paddle1,
    {
        self.paddle1
    }

    pub fn paddle2(&self) -> (paddle: Paddle)
        ensures
            paddle == self@.paddle2,
    {
        self.paddle2
    }

    pub fn ball(&self) -> (ball: &Ball)
        ensures
            ball@ == self@.ball,
    {
        &self.ball
    }

    /// Time spent in the running countdown, in microseconds.
    pub fn countdown(&self) -> (micros: u64)
        ensures
            micros == self@.countdown,
    {
        self.countdown
    }

    /// The viewport as of the last frame.
    pub fn viewport(&self) -> (viewport: Viewport)
        ensures
            viewport == self@.viewport,
    {
        self.viewport
    }

    fn refit(&mut self, viewport: Viewport)
        requires
            old(self).viewport.wf(),
            viewport.wf(),
        ensures
            final(self)@ == old(self)@.refitted(viewport),
    {
        if viewport != self.viewport {
            resize(&mut self.paddle1, &mut self.paddle2, &mut self.ball, self.viewport, viewport);
            self.viewport = viewport;
        }
    }

    fn enter_name(&mut self, frame: &Frame)
        requires
            old(self).phase == Phase::EnterName1 || old(self).phase == Phase::EnterName2,
            frame.viewport.wf(),
        ensures
            final(self)@ == old(self)@.named(frame@),
    {
        handle_name_input(&mut self.input_name, &frame.typed, frame.keys.backspace);
        if frame.keys.enter {
            match submit(self.input_name.as_str()) {
                Some(name) => {
                    self.input_name = String::new();
                    if self.phase == Phase::EnterName1 {
                        self.player1_name = name;
                        self.phase = Phase::EnterName2;
                    } else {
                        self.player2_name = name;
                        self.score1 = 0;
                        self.score2 = 0;
                        self.ball.reset(frame.viewport);
                        self.countdown = 0;
                        self.phase = Phase::Countdown;
                    }
                },
                None => {},
            }
        }
    }

    /// Runs the countdown on; returns whether the time is up.
    fn count_down(&mut self, elapsed_micros: u64) -> (due: bool)
        ensures
            due == (counted_up(old(self).countdown, elapsed_micros) >= COUNTDOWN_MICROS),
            final(self)@ == (GameState {
                countdown: if due {
                    0
                } else {
                    counted_up(old(self).countdown, elapsed_micros)
                },
                ..old(self)@
            }),
    {
        let spent: u64 = self.countdown.saturating_add(elapsed_micros);
        if spent >= COUNTDOWN_MICROS {
            self.countdown = 0;
            true
        } else {
            self.countdown = spent;
            false
        }
    }

    fn steer(&mut self, frame: &Frame)
        requires
            frame.viewport.wf(),
        ensures
            final(self)@ == old(self)@.steered(frame@),
    {
        if frame.keys.w {
            self.paddle1.move_up();
        }
        if frame.keys.s {
            self.paddle1.move_down(frame.viewport);
        }
        if frame.keys.up {
            self.paddle2.move_up();
        }
        if frame.keys.down {
            self.paddle2.move_down(frame.viewport);
        }
    }

    fn declare(&mut self, left_player: bool)
        ensures
            final(self)@ == old(self)@.won_by(
                if left_player {
                    old(self)@.player1_name
                } else {
                    old(self)@.player2_name
                },
            ),
            old(self).leaderboard.wf() ==> final(self).leaderboard.wf(),
    {
        let name = if left_player {
            self.player1_name.clone()
        } else {
            self.player2_name.clone()
        };
        let mut msg = name.clone();
        msg.append(" Wins!");
        self.winner_msg = msg;
        self.leaderboard.record_win(&name);
        self.winner_name = name;
        self.phase = Phase::GameOver;
    }

    fn referee(&mut self, goals: (bool, bool))
        requires
            old(self).score1 < WIN_SCORE,
            old(self).score2 < WIN_SCORE,
        ensures
            final(self)@ == old(self)@.refereed(goals),
            old(self).leaderboard.wf() ==> final(self).leaderboard.wf(),
    {
        if goals.0 {
            self.score1 = self.score1 + 1;
            self.ball.active = false;
            self.countdown = 0;
            self.phase = Phase::Countdown;
        }
        if goals.1 {
            self.score2 = self.score2 + 1;
            self.ball.active = false;
            self.countdown = 0;
            self.phase = Phase::Countdown;
        }
        if self.score1 >= WIN_SCORE {
            self.declare(true);
        } else if self.score2 >= WIN_SCORE {
            self.declare(false);
        }
    }

    fn replay(&mut self, frame: &Frame)
        requires
            frame.viewport.wf(),
        ensures
            final(self)@ == old(self)@.replayed(frame@),
    {
        if frame.keys.enter {
            self.player1_name = String::new();
            self.player2_name = String::new();
            self.input_name = String::new();
            self.score1 = 0;
            self.score2 = 0;
            self.ball.reset(frame.viewport);
            self.winner_msg = String::new();
            self.winner_name = String::new();
            self.phase = Phase::EnterName1;
        }
    }

    /// One frame of the session. What the frame leaves to chance is
    /// `given`, or drawn where it is needed if nothing is given; either
    /// way it is returned.
    fn step(&mut self, frame: &Frame, given: Option<Chance>) -> (out: (bool, Ghost<Chance>))
        requires
            old(self).wf(),
            frame.viewport.wf(),
        ensures
            final(self)@ == old(self)@.ticked(frame@, out.1@),
            out.0 == old(self)@.quits(frame@, out.1@),
            final(self).wf(),
            match given {
                Some(chance) => out.1@ == chance,
                None => out.1@.fair(),
            },
    {
        let ghost mut chance = match given {
            Some(chance) => chance,
            None => Chance { rightward: true, kick1: 0, kick2: 0 },
        };
        let was_over = self.phase == Phase::GameOver;
        self.refit(frame.viewport);
        if frame.keys.tab {
            self.full_tab = !self.full_tab;
        }
        match self.phase {
            Phase::EnterName1 => self.enter_name(frame),
            Phase::EnterName2 => self.enter_name(frame),
            Phase::Countdown => {
                if self.count_down(frame.elapsed_micros) {
                    self.ball.reset(frame.viewport);
                    let ghost rested = self.ball@;
                    match given {
                        Some(c) => self.ball.launch_toward(frame.serve, c.rightward),
                        None => {
                            self.ball.launch(frame.serve);
                            proof {
                                chance =
                                Chance {
                                    rightward: self.ball@ == rested.launched(frame.serve, true),
                                    ..chance
                                };
                            }
                        },
                    }
                    self.phase = Phase::InGame;
                }
            },
            Phase::InGame => {
                self.steer(frame);
                let paddle1 = self.paddle1;
                let paddle2 = self.paddle2;
                let ghost flying = self.ball@;
                let goals = match given {
                    Some(c) => {
                        self.ball.update_with(&paddle1, &paddle2, frame.viewport, c.kick1, c.kick2)
                    },
                    None => {
                        let goals = self.ball.update(&paddle1, &paddle2, frame.viewport);
                        proof {
                            let (kick1, kick2) = choose|kick1: i64, kick2: i64|
                                is_kick(kick1) && is_kick(kick2) && self.ball@
                                    == #[trigger] flying.stepped(
                                    paddle1,
                                    paddle2,
                                    frame.viewport,
                                    kick1,
                                    kick2,
                                );
                            chance = Chance { kick1, kick2, ..chance };
                        }
                        goals
                    },
                };
                self.referee(goals);
            },
            Phase::GameOver => self.replay(frame),
        }
        proof {
            lemma_tick_keeps_wf(old(self)@, frame@, chance);
        }
        (frame.keys.escape && (was_over || self.phase != Phase::GameOver), Ghost(chance))
    }

    /// One frame of the session, with what the frame leaves to chance
    /// given by the caller.
    ///
    /// Returns whether the session ends.
    pub fn tick_with(&mut self, frame: &Frame, chance: Chance) -> (quit: bool)
        requires
            old(self).wf(),
            frame.viewport.wf(),
        ensures
            final(self)@ == old(self)@.ticked(frame@, chance),
            quit == old(self)@.quits(frame@, chance),
            final(self).wf(),
    {
        self.step(frame, Some(chance)).0
    }

    /// One frame of the session. The side of a serve and the kick of a
    /// paddle are drawn at random where the frame needs them.
    ///
    /// Returns whether the session ends.
    pub fn tick(&mut self, frame: &Frame) -> (quit: bool)
        requires
            old(self).wf(),
            frame.viewport.wf(),
        ensures
            exists|chance: Chance|
                chance.fair() && final(self)@ == #[trigger] old(self)@.ticked(frame@, chance)
                    && quit == old(self)@.quits(frame@, chance),
            final(self).wf(),
    {
        let out = self.step(frame, None);
        out.0
    }
}

/// A frame leaves a well-formed match well-formed.
pub proof fn lemma_tick_keeps_wf(game: GameState, frame: FrameState, chance: Chance)
    requires
        game.wf(),
        frame.viewport.wf(),
    ensures
        game.ticked(frame, chance).wf(),
{
    let ready = game.refitted(frame.viewport).toggled(frame.keys.tab);
    assert(ready.wf());
    match ready.phase {
        Phase::EnterName1 => {
            lemma_edited_within_cap(ready.input_name, frame.typed, frame.keys.backspace);
        },
        Phase::EnterName2 => {
            lemma_edited_within_cap(ready.input_name, frame.typed, frame.keys.backspace);
        },
        Phase::Countdown => {},
        Phase::InGame => {
            let steered = ready.steered(frame);
            let flown = GameState {
                ball: steered.ball.stepped(
                    steered.paddle1,
                    steered.paddle2,
                    frame.viewport,
                    chance.kick1,
                    chance.kick2,
                ),
                ..steered
            };
            let goals = steered.ball.goals(frame.viewport);
            crate::ball::lemma_goal_ends_rally(
                steered.ball,
                steered.paddle1,
                steered.paddle2,
                frame.viewport,
                chance.kick1,
                chance.kick2,
            );
            let first = if goals.0 {
                flown.point(true)
            } else {
                flown
            };
            let second = if goals.1 {
                first.point(false)
            } else {
                first
            };
            crate::leaderboard::lemma_recorded_keeps_names_distinct(
                second.leaderboard,
                second.player1_name,
            );
            crate::leaderboard::lemma_recorded_keeps_names_distinct(
                second.leaderboard,
                second.player2_name,
            );
        },
        Phase::GameOver => {},
    }
}

/// A match is over exactly when a score has reached the winning score.
/// In the frame that ends a match, which only a frame of play can do, the
/// winner on record is the player whose score has reached it, the
/// message names that player, and the leaderboard counts one more win
/// for that name. In every other frame the leaderboard stays as it is.
pub proof fn lemma_game_over_iff_won(game: GameState, frame: FrameState, chance: Chance)
    requires
        game.wf(),
        frame.viewport.wf(),
    ensures
        ({
            let after = game.ticked(frame, chance);
            &&& (after.phase == Phase::GameOver) <==> (after.score1 >= WIN_SCORE || after.score2
                >= WIN_SCORE)
            &&& if game.phase != Phase::GameOver && after.phase == Phase::GameOver {
                &&& game.phase == Phase::InGame
                &&& after.player1_name == game.player1_name
                &&& after.player2_name == game.player2_name
                &&& after.winner_name == after.leader()
                &&& after.winner_msg == winner_message(after.leader())
                &&& after.leaderboard == recorded(game.leaderboard, after.leader())
            } else {
                after.leaderboard == game.leaderboard
            }
        }),
{
    lemma_tick_keeps_wf(game, frame, chance);
}

/// A session whose viewport doubles in one frame and returns to its size
/// in the next has its paddles and ball where they were. This holds for
/// paddles that stand at their pinned distances from the edges, as long
/// as the doubled viewport and the doubled positions can be stored.
pub proof fn lemma_refit_round_trip(game: GameState)
    requires
        game.viewport.wf(),
        game.paddle1.x == PADDLE1_X,
        game.paddle2.x == paddle2_x(game.viewport),
        2 * game.viewport.w <= i64::MAX,
        2 * game.viewport.h <= i64::MAX,
        i64::MIN <= 2 * game.paddle1.y <= i64::MAX,
        i64::MIN <= 2 * game.paddle2.y <= i64::MAX,
        i64::MIN <= 2 * game.ball.x + BALL_SIZE / 2 <= i64::MAX,
        i64::MIN <= 2 * game.ball.y + BALL_SIZE / 2 <= i64::MAX,
    ensures
        game.refitted(doubled(game.viewport)).refitted(game.viewport) == game,
{
    let v = game.viewport;
    lemma_resize_round_trip(game.paddle1, PADDLE1_X, game.ball, v);
    lemma_resize_round_trip(game.paddle2, paddle2_x(doubled(v)), game.ball, v);
}

/// The form of the score display changes with Tab and with nothing
/// else, whatever the phase and whatever else the frame does.
pub proof fn lemma_only_tab_switches_display(game: GameState, frame: FrameState, chance: Chance)
    ensures
        game.ticked(frame, chance).full_tab == (game.full_tab != frame.keys.tab),
{
}

} // verus!
