use usaco_cli::compare::{outputs_match, trim_end_ws, trim_ws};

#[test]
fn trailing_newline_is_ignored() {
    assert!(outputs_match("5\n", "5"));
    assert!(outputs_match("5", "5\n"));
}

#[test]
fn leading_and_trailing_whitespace_is_ignored() {
    assert!(outputs_match("  42 \t\r\n", "42"));
    assert!(outputs_match("\n\nhello\n", " hello "));
}

#[test]
fn interior_whitespace_is_preserved() {
    assert!(!outputs_match("5 \n6", "5\n6"));
    assert!(!outputs_match("a  b", "a b"));
    assert!(outputs_match("5 \n6", "5 \n6\n"));
}

#[test]
fn different_outputs_do_not_match() {
    assert!(!outputs_match("9\n", "8\n"));
    assert!(!outputs_match("", "x"));
}

#[test]
fn empty_and_blank_outputs_match() {
    assert!(outputs_match("", ""));
    assert!(outputs_match(" \n\t", ""));
}

#[test]
fn trim_ws_trims_both_edges_only() {
    assert_eq!(trim_ws("  a b \n"), "a b");
    assert_eq!(trim_ws("\t\n "), "");
    assert_eq!(trim_ws("xy"), "xy");
}

#[test]
fn trim_end_ws_leaves_the_front() {
    assert_eq!(trim_end_ws("  a \n"), "  a");
    assert_eq!(trim_end_ws("b"), "b");
    assert_eq!(trim_end_ws(" \n"), "");
}
