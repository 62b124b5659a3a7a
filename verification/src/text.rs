//! The words on the screen: scores, countdown, winner and leaderboard.

use vstd::prelude::*;
use vstd::string::*;
use crate::game::COUNTDOWN_MICROS;
use crate::leaderboard::{is_ranking, Leaderboard, Standing, LEADERBOARD_ROWS};

verus! {

/// The character for one decimal digit.
pub open spec fn digit(d: nat) -> char
    recommends
        d < 10,
{
    ('0' as nat + d) as char
}

/// `n` in decimal, without leading zeros.
pub open spec fn decimal(n: nat) -> Seq<char>
    decreases n,
{
    if n < 10 {
        seq![digit(n)]
    } else {
        decimal(n / 10).push(digit(n % 10))
    }
}

/// The score display. The full form names the players; the small form
/// shows the two scores alone.
pub open spec fn score_line(
    name1: Seq<char>,
    score1: nat,
    name2: Seq<char>,
    score2: nat,
    full: bool,
) -> Seq<char> {
    if full {
        name1 + ": "@ + decimal(score1) + "      "@ + name2 + ": "@ + decimal(score2)
    } else {
        decimal(score1) + "   :   "@ + decimal(score2)
    }
}

/// One line of the leaderboard: place, name and wins.
pub open spec fn board_line(place: nat, name: Seq<char>, wins: nat) -> Seq<char> {
    decimal(place) + ". "@ + name + " - "@ + decimal(wins) + " wins"@
}

/// What is shown for the lines of `board` that `order` lists, with places
/// counted from 1.
pub open spec fn ranked_lines(board: Seq<Standing>, order: Seq<usize>) -> Seq<Seq<char>> {
    Seq::new(
        order.len(),
        |i: int|
            {
                let line = board[order[i] as int];
                board_line((i + 1) as nat, line.name, line.wins)
            },
    )
}

/// The whole seconds of countdown that are left, a started second
/// counting as whole.
pub open spec fn seconds_left(countdown: u64) -> nat {
    if countdown >= COUNTDOWN_MICROS {
        0
    } else {
        ((COUNTDOWN_MICROS - countdown + 999_999) / 1_000_000) as nat
    }
}

/// Appends `n` in decimal to `s`.
pub fn push_decimal(s: &mut String, n: u64)
    ensures
        final(s)@ == old(s)@ + decimal(n as nat),
    decreases n,
{
    if n >= 10 {
        push_decimal(s, n / 10);
    }
    let d: u8 = (n % 10) as u8;
    s.push((48u8 + d) as char);
    assert(s@ =~= old(s)@ + decimal(n as nat));
}

/// The score display for the given names and scores.
pub fn score_text(name1: &str, score1: u32, name2: &str, score2: u32, full: bool) -> (text: String)
    ensures
        text@ == score_line(name1@, score1 as nat, name2@, score2 as nat, full),
{
    let mut text = String::new();
    if full {
        text.append(name1);
        text.append(": ");
        push_decimal(&mut text, score1 as u64);
        text.append("      ");
        text.append(name2);
        text.append(": ");
        push_decimal(&mut text, score2 as u64);
    } else {
        push_decimal(&mut text, score1 as u64);
        text.append("   :   ");
        push_decimal(&mut text, score2 as u64);
    }
    assert(text@ =~= score_line(name1@, score1 as nat, name2@, score2 as nat, full));
    text
}

/// The leaderboard line for the given place, counted from 1.
pub fn leaderboard_line(place: usize, name: &str, wins: u32) -> (text: String)
    ensures
        text@ == board_line(place as nat, name@, wins as nat),
{
    let mut text = String::new();
    push_decimal(&mut text, place as u64);
    text.append(". ");
    text.append(name);
    text.append(" - ");
    push_decimal(&mut text, wins as u64);
    text.append(" wins");
    assert(text@ =~= board_line(place as nat, name@, wins as nat));
    text
}

/// The leaderboard as the game-over screen shows it: the first
/// [`LEADERBOARD_ROWS`] lines by rank.
pub fn leaderboard_text(board: &Leaderboard) -> (lines: Vec<String>)
    ensures
        exists|order: Seq<usize>|
            {
                &&& #[trigger] is_ranking(board@, order, LEADERBOARD_ROWS as nat)
                &&& lines@.len() == order.len()
                &&& forall|i: int|
                    0 <= i < lines@.len() ==> (#[trigger] lines@[i])@ == ranked_lines(
                        board@,
                        order,
                    )[i]
            },
{
    let order = board.ranking(LEADERBOARD_ROWS);
    let mut lines: Vec<String> = Vec::new();
    let mut i: usize = 0;
    while i < order.len()
        invariant
            i <= order.len(),
            order.len() <= LEADERBOARD_ROWS,
            is_ranking(board@, order@, LEADERBOARD_ROWS as nat),
            board@.len() == board.entries.len(),
            lines@.len() == i,
            forall|k: int|
                0 <= k < i ==> (#[trigger] lines@[k])@ == ranked_lines(board@, order@)[k],
        decreases order.len() - i,
    {
        let entry = &board.entries[order[i]];
        lines.push(leaderboard_line(i + 1, entry.name.as_str(), entry.wins));
        i += 1;
    }
    lines
}

/// What the countdown shows.
pub fn countdown_text(countdown: u64) -> (text: String)
    ensures
        text@ == "Get ready... "@ + decimal(seconds_left(countdown)),
{
    let left: u64 = if countdown >= COUNTDOWN_MICROS {
        0
    } else {
        (COUNTDOWN_MICROS - countdown + 999_999) / 1_000_000
    };
    let mut text = String::new();
    text.append("Get ready... ");
    push_decimal(&mut text, left);
    assert(text@ =~= "Get ready... "@ + decimal(seconds_left(countdown)));
    text
}

/// The line that names the winner.
pub fn winner_text(name: &str) -> (text: String)
    ensures
        text@ == "Winner: "@ + name@,
{
    let mut text = String::new();
    text.append("Winner: ");
    text.append(name);
    assert(text@ =~= "Winner: "@ + name@);
    text
}

/// The line that tells the form of the score display and how to switch.
pub fn mode_text(full: bool) -> (text: &'static str)
    ensures
        text@ == if full {
            "Mode: Full Tab (Press Tab to Minimize)"@
        } else {
            "Mode: Min Tab (Press Tab to Maximize)"@
        },
{
    if full {
        "Mode: Full Tab (Press Tab to Minimize)"
    } else {
        "Mode: Min Tab (Press Tab to Maximize)"
    }
}

} // verus!
