use agent_loops::report::{
    count_failures, plan_counts_lines, plan_entry_line, plan_head_lines, plan_lines,
    plan_tail_lines, preflight, summarize,
};

#[test]
fn plan_without_working_directory() {
    let prompts = vec!["first".to_string(), "second".to_string()];
    assert_eq!(
        plan_lines(&prompts, 3, None),
        vec![
            "=== Agent Loops Plan ===",
            "Loops: 3 | Tasks: 2 | Total runs: 6",
            "Task list:",
            "  1. first",
            "  2. second",
            "",
            "========================\n",
        ]
    );
}

#[test]
fn plan_with_working_directory_and_long_prompt() {
    let prompts = vec!["z".repeat(61)];
    assert_eq!(
        plan_lines(&prompts, 1, Some("/work")),
        vec![
            "=== Agent Loops Plan ===".to_string(),
            "Work dir: /work".to_string(),
            "Loops: 1 | Tasks: 1 | Total runs: 1".to_string(),
            "Task list:".to_string(),
            format!("  1. {}...", "z".repeat(57)),
            "".to_string(),
            "========================\n".to_string(),
        ]
    );
}

#[test]
fn plan_of_nothing() {
    assert_eq!(
        plan_lines(&[], 0, None),
        vec![
            "=== Agent Loops Plan ===",
            "Loops: 0 | Tasks: 0 | Total runs: 0",
            "Task list:",
            "",
            "========================\n",
        ]
    );
}

#[test]
fn plan_numbers_the_tasks_from_one() {
    let prompts: Vec<String> = (0..12).map(|i| format!("task {i}")).collect();
    let lines = plan_lines(&prompts, 2, None);
    assert_eq!(lines[1], "Loops: 2 | Tasks: 12 | Total runs: 24");
    assert_eq!(lines[3], "  1. task 0");
    assert_eq!(lines[12], "  10. task 9");
    assert_eq!(lines[14], "  12. task 11");
}

#[test]
fn nothing_to_do_is_said() {
    assert_eq!(preflight(0, 3).as_deref(), Some("Loop count is 0 \u{2014} nothing to do."));
    assert_eq!(preflight(0, 0).as_deref(), Some("Loop count is 0 \u{2014} nothing to do."));
    assert_eq!(preflight(2, 0).as_deref(), Some("No prompts provided \u{2014} nothing to do."));
    assert_eq!(preflight(1, 1), None);
}

#[test]
fn failures_are_counted() {
    assert_eq!(count_failures(&[]), 0);
    assert_eq!(count_failures(&[(0, 0, true), (0, 1, true)]), 0);
    assert_eq!(count_failures(&[(0, 0, false), (0, 1, true), (1, 0, false)]), 2);
}

#[test]
fn summary_of_the_runs() {
    assert_eq!(summarize(&[]), (true, "All tasks completed successfully.".to_string()));
    assert_eq!(
        summarize(&[(0, 0, true)]),
        (true, "All tasks completed successfully.".to_string())
    );
    assert_eq!(summarize(&[(0, 0, false)]), (false, "1 task(s) failed.".to_string()));
    let many: Vec<(usize, usize, bool)> = (0..12).map(|i| (0, i, i % 2 == 0)).collect();
    assert_eq!(summarize(&many), (false, "6 task(s) failed.".to_string()));
}

#[test]
fn plan_is_its_parts_in_order() {
    let prompts = vec!["alpha".to_string(), "beta".to_string()];
    let mut parts = plan_head_lines(Some("/w"));
    parts.extend(plan_counts_lines(2, 4));
    parts.push(plan_entry_line(0, "alpha"));
    parts.push(plan_entry_line(1, "beta"));
    parts.extend(plan_tail_lines());
    assert_eq!(plan_lines(&prompts, 4, Some("/w")), parts);
}

#[test]
fn plan_parts() {
    assert_eq!(plan_head_lines(None), vec!["=== Agent Loops Plan ==="]);
    assert_eq!(plan_head_lines(Some("d")), vec!["=== Agent Loops Plan ===", "Work dir: d"]);
    assert_eq!(
        plan_counts_lines(3, 5),
        vec!["Loops: 5 | Tasks: 3 | Total runs: 15", "Task list:"]
    );
    assert_eq!(plan_entry_line(8, "ninth"), "  9. ninth");
    assert_eq!(plan_entry_line(0, &"y".repeat(61)), format!("  1. {}...", "y".repeat(57)));
    assert_eq!(plan_tail_lines(), vec!["", "========================\n"]);
}
