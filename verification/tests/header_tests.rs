use agent_loops::header::{copy_lines, default_header_lines, task_header_lines, HeaderSlot};

#[test]
fn task_header_has_four_lines() {
    let lines = task_header_lines(4, 6, 1, 2, 0, 3, "What model are you?");
    assert_eq!(
        lines,
        vec![
            "=== Agent Loops ===",
            "Run 4/6 | Loop 2/2 | Task 1/3",
            "Current task: What model are you?",
            "----------------------------------------",
        ]
    );
}

#[test]
fn task_header_shortens_a_long_prompt() {
    let prompt = "p".repeat(200);
    let lines = task_header_lines(1, 1, 0, 1, 0, 1, &prompt);
    assert_eq!(lines[2], format!("Current task: {}...", "p".repeat(117)));
    assert_eq!(lines[2].len(), "Current task: ".len() + 120);
    let exact = "q".repeat(120);
    let lines = task_header_lines(1, 1, 0, 1, 0, 1, &exact);
    assert_eq!(lines[2], format!("Current task: {exact}"));
}

#[test]
fn task_header_with_large_numbers() {
    let lines = task_header_lines(1000, 12345, 99, 100, 122, 123, "x");
    assert_eq!(lines[1], "Run 1000/12345 | Loop 100/100 | Task 123/123");
}

#[test]
fn default_header_has_three_lines() {
    assert_eq!(
        default_header_lines("do it"),
        vec![
            "=== Agent Loops ===",
            "Current task: do it",
            "----------------------------------------",
        ]
    );
}

#[test]
fn slot_starts_empty_and_falls_back_to_the_default() {
    let slot = HeaderSlot::new();
    assert_eq!(slot.current_task_header(), None);
    assert_eq!(slot.current_task_header_or_default("p"), default_header_lines("p"));
}

#[test]
fn slot_is_replaced_whole_and_cleared() {
    let mut slot = HeaderSlot::new();
    let first = vec!["a".to_string(), "b".to_string()];
    slot.set_current_task_header(Some(first.clone()));
    assert_eq!(slot.current_task_header(), Some(first.clone()));
    assert_eq!(slot.current_task_header_or_default("p"), first);
    let second = vec!["c".to_string()];
    slot.set_current_task_header(Some(second.clone()));
    assert_eq!(slot.current_task_header(), Some(second));
    slot.set_current_task_header(None);
    assert_eq!(slot.current_task_header(), None);
    assert_eq!(slot.current_task_header_or_default("p"), default_header_lines("p"));
}

#[test]
fn copy_lines_copies() {
    let lines = vec!["x".to_string(), "".to_string(), "\u{4e16}".to_string()];
    assert_eq!(copy_lines(&lines), lines);
    assert_eq!(copy_lines(&[]), Vec::<String>::new());
}

#[test]
fn published_header_is_returned_for_any_prompt() {
    // A prompt that could not be shortened for the default header: byte
    // 117 lies inside a character.
    let awkward = format!("{}\u{e9}{}", "a".repeat(116), "b".repeat(3));
    assert!(!agent_loops::text::can_truncate(&awkward, 120));
    let mut slot = HeaderSlot::new();
    assert!(!slot.holds_header());
    let published = vec!["one".to_string(), "two".to_string()];
    slot.set_current_task_header(Some(published.clone()));
    assert!(slot.holds_header());
    assert_eq!(slot.current_task_header_or_default(&awkward), published);
    slot.set_current_task_header(None);
    assert!(!slot.holds_header());
}
