use pong::leaderboard::{Entry, Leaderboard};
use pong::text::{
    countdown_text, leaderboard_line, leaderboard_text, mode_text, push_decimal, score_text,
    winner_text,
};

#[test]
fn decimal_of_small_and_large_numbers() {
    for n in [0u64, 1, 9, 10, 11, 99, 100, 101, 1_000, 65_535, 4_294_967_295, u64::MAX] {
        let mut s = String::from("n=");
        push_decimal(&mut s, n);
        assert_eq!(s, format!("n={}", n));
    }
}

#[test]
fn full_score_names_the_players() {
    assert_eq!(score_text("Alice", 3, "Bob", 4, true), "Alice: 3      Bob: 4");
    assert_eq!(score_text("", 0, "", 0, true), ": 0      : 0");
}

#[test]
fn small_score_shows_the_scores_alone() {
    assert_eq!(score_text("Alice", 3, "Bob", 4, false), "3   :   4");
    assert_eq!(score_text("Alice", 0, "Bob", 12, false), "0   :   12");
}

#[test]
fn leaderboard_line_shows_place_name_and_wins() {
    assert_eq!(leaderboard_line(1, "Alice", 3), "1. Alice - 3 wins");
    assert_eq!(leaderboard_line(5, "Bob", 1), "5. Bob - 1 wins");
    assert_eq!(leaderboard_line(10, "Zoë", 100), "10. Zoë - 100 wins");
}

#[test]
fn leaderboard_text_lists_the_first_five_by_rank() {
    let names = ["a", "b", "c", "d", "e", "f", "g"];
    let wins = [1, 5, 3, 9, 2, 7, 4];
    let board = Leaderboard {
        entries: names
            .iter()
            .zip(wins.iter())
            .map(|(n, w)| Entry { name: String::from(*n), wins: *w })
            .collect(),
    };
    assert_eq!(
        leaderboard_text(&board),
        vec!["1. d - 9 wins", "2. f - 7 wins", "3. b - 5 wins", "4. g - 4 wins", "5. c - 3 wins"]
    );
    assert_eq!(leaderboard_text(&Leaderboard::new()), Vec::<String>::new());
}

#[test]
fn countdown_counts_started_seconds_as_whole() {
    assert_eq!(countdown_text(0), "Get ready... 3");
    assert_eq!(countdown_text(1), "Get ready... 3");
    assert_eq!(countdown_text(999_999), "Get ready... 3");
    assert_eq!(countdown_text(1_000_000), "Get ready... 2");
    assert_eq!(countdown_text(1_000_001), "Get ready... 2");
    assert_eq!(countdown_text(2_000_000), "Get ready... 1");
    assert_eq!(countdown_text(2_999_999), "Get ready... 1");
    assert_eq!(countdown_text(3_000_000), "Get ready... 0");
    assert_eq!(countdown_text(u64::MAX), "Get ready... 0");
}

#[test]
fn winner_line_names_the_winner() {
    assert_eq!(winner_text("Alice"), "Winner: Alice");
}

#[test]
fn mode_line_tells_how_to_switch() {
    assert_eq!(mode_text(true), "Mode: Full Tab (Press Tab to Minimize)");
    assert_eq!(mode_text(false), "Mode: Min Tab (Press Tab to Maximize)");
}
