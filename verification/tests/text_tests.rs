use clipstack::config::Config;
use clipstack::text::{display_line, entry_matches, is_blank};

#[test]
fn blankness_follows_trimming() {
    assert!(is_blank(""));
    assert!(is_blank("   "));
    assert!(is_blank("\t\r\n"));
    assert!(is_blank("\u{00a0}\u{2000}\u{3000}"));
    assert!(!is_blank(" x "));
    assert!(!is_blank("word"));
}

#[test]
fn matching_folds_case_and_finds_substrings() {
    assert!(entry_matches("Hello World", "world"));
    assert!(entry_matches("WORLD PEACE", "world"));
    assert!(entry_matches("ÄPFEL UND BIRNEN", "äpfel"));
    assert!(!entry_matches("foo", "world"));
    assert!(entry_matches("anything", ""));
}

#[test]
fn display_keeps_short_text() {
    assert_eq!(display_line("plain"), "plain");
}

#[test]
fn display_flattens_line_breaks() {
    assert_eq!(display_line("a\r\nb\nc"), "a b c");
}

#[test]
fn display_cuts_long_text_at_one_hundred_characters() {
    let long: String = "x".repeat(150);
    let shown = display_line(&long);
    let expected = format!("{}...", "x".repeat(100));
    assert_eq!(shown, expected);
}

#[test]
fn display_cut_happens_before_flattening() {
    let mut long = String::new();
    for _ in 0..60 {
        long.push('y');
    }
    long.push('\n');
    for _ in 0..60 {
        long.push('z');
    }
    let shown = display_line(&long);
    assert_eq!(shown.chars().count(), 103);
    assert!(shown.starts_with(&"y".repeat(60)));
    assert!(shown.ends_with("..."));
    assert!(shown.contains(' '));
}

#[test]
fn default_configuration_matches_the_documented_one() {
    let config = Config::default();
    assert!(config.enabled);
    assert_eq!(config.max_items, 200);
    assert!(config.start_on_login);
    assert_eq!(config.shortcut, "Ctrl+Shift+V");
}
