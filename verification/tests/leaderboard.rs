use pong::leaderboard::{Entry, Leaderboard, LEADERBOARD_ROWS};

fn name(s: &str) -> String {
    String::from(s)
}

fn board(lines: &[(&str, u32)]) -> Leaderboard {
    Leaderboard {
        entries: lines.iter().map(|(n, w)| Entry { name: name(n), wins: *w }).collect(),
    }
}

#[test]
fn new_board_is_empty() {
    let b = Leaderboard::new();
    assert!(b.entries.is_empty());
    assert_eq!(b.wins(&name("Alice")), 0);
    assert_eq!(b.ranking(5), Vec::<usize>::new());
}

#[test]
fn first_win_adds_a_line() {
    let mut b = Leaderboard::new();
    b.record_win(&name("Alice"));
    assert_eq!(b, board(&[("Alice", 1)]));
    assert_eq!(b.wins(&name("Alice")), 1);
    assert_eq!(b.wins(&name("alice")), 0);
}

#[test]
fn later_wins_count_up() {
    let mut b = Leaderboard::new();
    for n in 1..=7 {
        b.record_win(&name("Alice"));
        assert_eq!(b.wins(&name("Alice")), n);
    }
    assert_eq!(b.entries.len(), 1);
}

#[test]
fn wins_of_others_stay() {
    let mut b = Leaderboard::new();
    b.record_win(&name("Alice"));
    b.record_win(&name("Bob"));
    b.record_win(&name("Alice"));
    b.record_win(&name("Carol"));
    b.record_win(&name("Alice"));
    b.record_win(&name("Bob"));
    assert_eq!(b, board(&[("Alice", 3), ("Bob", 2), ("Carol", 1)]));
    assert_eq!(b.wins(&name("Alice")), 3);
    assert_eq!(b.wins(&name("Bob")), 2);
    assert_eq!(b.wins(&name("Carol")), 1);
    assert_eq!(b.wins(&name("Dave")), 0);
}

#[test]
fn wins_stop_counting_at_the_limit() {
    let mut b = board(&[("Alice", u32::MAX - 1)]);
    b.record_win(&name("Alice"));
    assert_eq!(b.wins(&name("Alice")), u32::MAX);
    b.record_win(&name("Alice"));
    assert_eq!(b.wins(&name("Alice")), u32::MAX);
}

#[test]
fn ranking_lists_most_wins_first() {
    let b = board(&[("a", 1), ("b", 5), ("c", 3), ("d", 9), ("e", 2), ("f", 7), ("g", 4)]);
    assert_eq!(LEADERBOARD_ROWS, 5);
    assert_eq!(b.ranking(LEADERBOARD_ROWS), vec![3, 5, 1, 6, 2]);
    assert_eq!(b.ranking(7), vec![3, 5, 1, 6, 2, 4, 0]);
    assert_eq!(b.ranking(100), vec![3, 5, 1, 6, 2, 4, 0]);
    assert_eq!(b.ranking(1), vec![3]);
    assert_eq!(b.ranking(0), Vec::<usize>::new());
}

#[test]
fn ranking_keeps_equals_in_board_order() {
    let b = board(&[("a", 2), ("b", 3), ("c", 2), ("d", 3), ("e", 2)]);
    assert_eq!(b.ranking(5), vec![1, 3, 0, 2, 4]);
    assert_eq!(b.ranking(3), vec![1, 3, 0]);
}

#[test]
fn ranking_descends() {
    let b = board(&[("a", 4), ("b", 4), ("c", 8), ("d", 1), ("e", 6), ("f", 6), ("g", 0)]);
    let order = b.ranking(5);
    assert_eq!(order.len(), 5);
    for pair in order.windows(2) {
        assert!(b.entries[pair[0]].wins >= b.entries[pair[1]].wins);
    }
}
