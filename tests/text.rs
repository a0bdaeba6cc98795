use tagged_md::codec::{join_segments, split_text};
use tagged_md::dedent::dedent_text;

fn chars(s: &str) -> Vec<char> {
    s.chars().collect()
}

fn dedent(s: &str) -> String {
    dedent_text(&chars(s)).into_iter().collect()
}

fn split(t: &str, p: &str) -> Vec<String> {
    split_text(&chars(t), &chars(p)).into_iter().map(|v| v.into_iter().collect()).collect()
}

fn join(segs: &[&str], p: &str) -> String {
    let v: Vec<Vec<char>> = segs.iter().map(|s| chars(s)).collect();
    join_segments(&v, &chars(p)).into_iter().collect()
}

#[test]
fn dedent_floor_is_least_indent() {
    assert_eq!(dedent("  a\n    b\n  c"), "a\n  b\nc");
}

#[test]
fn dedent_unindented_first_line_keeps_floor_zero() {
    assert_eq!(dedent("a\n    b"), "a\n    b");
    assert_eq!(dedent("    a\nb\n    c"), "    a\nb\n    c");
}

#[test]
fn dedent_keeps_blank_lines() {
    assert_eq!(dedent("    a\n  \n\n    b"), "a\n  \n\nb");
    assert_eq!(dedent("   "), "   ");
    assert_eq!(dedent(""), "");
}

#[test]
fn dedent_drops_final_line_break() {
    assert_eq!(dedent("\n    # Yay\n\n    **foo**\n"), "\n# Yay\n\n**foo**");
}

#[test]
fn dedent_counts_unicode_whitespace() {
    assert_eq!(dedent("\u{3000}\u{a0}a\n\t\tb"), "a\nb");
}

#[test]
fn dedent_twice_is_dedent_once() {
    for t in ["  a\n    b\n  c", "\t x\n\t  y", "  \n    a", "a"] {
        assert_eq!(dedent(&dedent(t)), dedent(t));
    }
}

#[test]
fn split_recovers_joined_segments() {
    let segs = ["**`", "`**", "", "tail"];
    assert_eq!(split(&join(&segs, "!P!"), "!P!"), segs.to_vec());
}

#[test]
fn join_puts_placeholder_between_segments() {
    assert_eq!(join(&["a", "b", "c"], "--"), "a--b--c");
    assert_eq!(join(&["only"], "--"), "only");
    assert_eq!(join(&[], "--"), "");
}

#[test]
fn split_takes_occurrences_left_to_right() {
    assert_eq!(split("aaab", "aa"), vec!["", "ab"]);
    assert_eq!(split("xPyPz", "P"), vec!["x", "y", "z"]);
    assert_eq!(split("P", "P"), vec!["", ""]);
    assert_eq!(split("abc", ""), vec!["abc"]);
    assert_eq!(split("ab", "abc"), vec!["ab"]);
}


#[test]
fn dedent_keeps_empty_line_before_final_break() {
    assert_eq!(dedent("  a\n\n"), "a\n");
    assert_eq!(dedent("\n"), "");
}
