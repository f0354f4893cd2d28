use agent_loops::text::{
    can_truncate, fit_terminal_line, push_decimal, truncate_display, MAX_CURRENT_TASK_LEN,
    MAX_DISPLAY_LEN,
};

#[test]
fn display_limits() {
    assert_eq!(MAX_DISPLAY_LEN, 60);
    assert_eq!(MAX_CURRENT_TASK_LEN, 120);
}

#[test]
fn truncate_keeps_what_fits() {
    assert_eq!(truncate_display("", 3), "");
    assert_eq!(truncate_display("abc", 3), "abc");
    assert_eq!(truncate_display("ab", 3), "ab");
    assert_eq!(truncate_display("ab", 200), "ab");
}

#[test]
fn truncate_cuts_to_the_limit_with_the_marker() {
    assert_eq!(truncate_display("abcdefghij", 8), "abcde...");
    assert_eq!(truncate_display("abcd", 3), "...");
    for m in 3..20 {
        let s = "x".repeat(40);
        let out = truncate_display(&s, m);
        assert_eq!(out.len(), m);
        assert!(out.ends_with("..."));
        assert_eq!(&out[..m - 3], &s[..m - 3]);
    }
}

#[test]
fn truncate_below_three_gives_the_marker_alone() {
    assert_eq!(truncate_display("hello", 0), "...");
    assert_eq!(truncate_display("hello", 1), "...");
    assert_eq!(truncate_display("hello", 2), "...");
}

#[test]
fn truncate_below_three_gives_the_marker_for_strings_that_fit_too() {
    assert_eq!(truncate_display("", 0), "...");
    assert_eq!(truncate_display("", 2), "...");
    assert_eq!(truncate_display("a", 1), "...");
    assert_eq!(truncate_display("ab", 2), "...");
    assert_eq!(truncate_display("\u{e9}", 2), "...");
    for m in 0..3 {
        for s in ["", "x", "xy", "xyz", "\u{4e16}\u{754c}"] {
            assert!(can_truncate(s, m));
            assert_eq!(truncate_display(s, m), "...");
        }
    }
}

#[test]
fn truncate_counts_bytes() {
    // Six bytes in three characters: fits in six, not in five.
    let s = "\u{e9}\u{e9}\u{e9}";
    assert_eq!(truncate_display(s, 6), s);
    assert!(can_truncate(s, 5));
    assert_eq!(truncate_display(s, 5), "\u{e9}...");
    // The cut for a limit of four would fall inside the first character.
    assert!(!can_truncate(s, 4));
    assert!(can_truncate(s, 3));
    assert_eq!(truncate_display(s, 3), "...");
}

#[test]
fn can_truncate_agrees_with_char_boundaries() {
    let s = "a\u{4e16}b\u{1f600}c";
    for m in 0..20usize {
        let expected = s.len() <= m || s.is_char_boundary(m.saturating_sub(3));
        assert_eq!(can_truncate(s, m), expected);
    }
}

#[test]
fn fit_keeps_what_fits() {
    assert_eq!(fit_terminal_line("hello", 5), "hello");
    assert_eq!(fit_terminal_line("hello", 80), "hello");
    assert_eq!(fit_terminal_line("", 0), "");
    assert_eq!(fit_terminal_line("", 10), "");
}

#[test]
fn fit_cuts_with_the_marker() {
    assert_eq!(fit_terminal_line("hello world", 8), "hello...");
    assert_eq!(fit_terminal_line("hello", 4), "h...");
}

#[test]
fn fit_degrades_to_dots_on_narrow_terminals() {
    assert_eq!(fit_terminal_line("hello", 0), "");
    assert_eq!(fit_terminal_line("hello", 1), ".");
    assert_eq!(fit_terminal_line("hello", 2), "..");
    assert_eq!(fit_terminal_line("hello", 3), "...");
    assert_eq!(fit_terminal_line("ab", 1), ".");
}

#[test]
fn fit_counts_characters() {
    let s = "\u{4e16}\u{754c}\u{4e16}\u{754c}\u{4e16}\u{754c}";
    assert_eq!(fit_terminal_line(s, 6), s);
    assert_eq!(fit_terminal_line(s, 5), "\u{4e16}\u{754c}...");
}

#[test]
fn fit_never_exceeds_the_width() {
    let s = "The quick brown fox jumps over the lazy dog";
    for cols in 0..60 {
        let out = fit_terminal_line(s, cols);
        assert!(out.chars().count() <= cols);
        if s.len() > cols {
            assert_eq!(out.chars().count(), cols);
        }
    }
}

#[test]
fn decimal_matches_the_usual_notation() {
    for n in [0usize, 1, 9, 10, 11, 99, 100, 101, 4000, 65535, 1234567890, usize::MAX] {
        let mut out = String::from("n=");
        push_decimal(&mut out, n);
        assert_eq!(out, format!("n={n}"));
    }
}
