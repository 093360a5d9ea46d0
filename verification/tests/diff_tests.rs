use usaco_cli::diffview::render_diff;

#[test]
fn diff_marks_changed_lines() {
    let lines = render_diff("a\nb\n", "a\nc\n");
    assert_eq!(lines, vec!["1  |  a", "   | -b", "2  | +c"]);
}

#[test]
fn diff_of_equal_outputs_is_all_kept() {
    let lines = render_diff("x\ny\n", "x\ny\n");
    assert_eq!(lines, vec!["1  |  x", "2  |  y"]);
}

#[test]
fn diff_ignores_edge_whitespace_like_the_comparison() {
    // both sides are trimmed before diffing, as the comparison trims them
    let lines = render_diff("a\n", "  a  \n");
    assert_eq!(lines, vec!["1  |  a"]);
}

#[test]
fn diff_numbers_follow_the_actual_output() {
    // the edge-trimmed old text ends in "c", the new one continues after
    // "c\n": the differ sees those last lines as distinct
    let lines = render_diff("a\nb\nc\n", "b\nc\nd\n");
    assert_eq!(
        lines,
        vec!["   | -a", "1  |  b", "   | -c", "2  | +c", "3  | +d"]
    );
}

#[test]
fn wide_line_numbers_are_not_truncated() {
    let mut old = String::new();
    let mut new = String::new();
    for i in 0..1001 {
        old.push_str(&format!("{}\n", i));
        new.push_str(&format!("{}\n", i));
    }
    let lines = render_diff(&old, &new);
    assert_eq!(lines.len(), 1001);
    assert_eq!(lines[999], "1000|  999");
    assert_eq!(lines[1000], "1001|  1000");
}
