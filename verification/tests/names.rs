use pong::names::{handle_name_input, submit, trim, NAME_CAP};

fn keys(s: &str) -> Vec<char> {
    s.chars().collect()
}

#[test]
fn letters_digits_and_spaces_are_typed() {
    let mut name = String::new();
    handle_name_input(&mut name, &keys("Al 9z"), false);
    assert_eq!(name, "Al 9z");
}

#[test]
fn other_keys_are_dropped() {
    let mut name = String::from("a");
    handle_name_input(&mut name, &keys("b-c!\td\n_e."), false);
    assert_eq!(name, "abcde");
}

#[test]
fn letters_of_any_script_are_typed() {
    let mut name = String::new();
    handle_name_input(&mut name, &keys("Zoë Ünal ٣"), false);
    assert_eq!(name, "Zoë Ünal ٣");
}

#[test]
fn typing_stops_at_the_cap() {
    assert_eq!(NAME_CAP, 20);
    let mut name = String::new();
    handle_name_input(&mut name, &keys("abcdefghijklmnopqrstuvwxyz"), false);
    assert_eq!(name, "abcdefghijklmnopqrst");
    handle_name_input(&mut name, &keys("u"), false);
    assert_eq!(name, "abcdefghijklmnopqrst");
}

#[test]
fn the_cap_counts_characters() {
    let mut name = String::new();
    handle_name_input(&mut name, &keys("ééééééééééééééééééééééé"), false);
    assert_eq!(name.chars().count(), 20);
}

#[test]
fn backspace_removes_the_last_character() {
    let mut name = String::from("Bob");
    handle_name_input(&mut name, &keys(""), true);
    assert_eq!(name, "Bo");
}

#[test]
fn backspace_comes_after_the_keys_of_its_frame() {
    let mut name = String::from("Bo");
    handle_name_input(&mut name, &keys("bx"), true);
    assert_eq!(name, "Bob");
}

#[test]
fn backspace_on_an_empty_name_does_nothing() {
    let mut name = String::new();
    handle_name_input(&mut name, &keys(""), true);
    assert_eq!(name, "");
    handle_name_input(&mut name, &keys("-"), true);
    assert_eq!(name, "");
}

#[test]
fn trim_cuts_white_space_at_both_ends() {
    assert_eq!(trim("  Alice  "), "Alice");
    assert_eq!(trim("Alice"), "Alice");
    assert_eq!(trim(" A l  ice"), "A l  ice");
    assert_eq!(trim("\t\n Al\u{a0}\u{3000}"), "Al");
}

#[test]
fn trim_of_white_space_is_empty() {
    assert_eq!(trim(""), "");
    assert_eq!(trim(" "), "");
    assert_eq!(trim("   \t "), "");
}

#[test]
fn trim_agrees_with_the_standard_library() {
    for s in ["", " ", "a", " a", "a ", "  a b  ", "\u{2003}é \u{85}", "x\u{200b} "] {
        assert_eq!(trim(s), s.trim());
    }
}

#[test]
fn submit_gives_the_trimmed_name() {
    assert_eq!(submit(" Alice "), Some(String::from("Alice")));
    assert_eq!(submit("Bob"), Some(String::from("Bob")));
}

#[test]
fn submit_refuses_an_empty_name() {
    assert_eq!(submit(""), None);
    assert_eq!(submit("    "), None);
}
