use agent_loops::report::plan_lines;
use agent_loops::{orchestrate, truncate_display};
use std::sync::{Arc, Mutex};

/// The three prompts used across tests.
fn test_prompts() -> Vec<String> {
    vec![
        "What model are you?".to_string(),
        "What functions do you have?".to_string(),
        "What type of project is this?".to_string(),
    ]
}

// --- truncate_display tests ---

#[test]
fn test_truncate_short_string() {
    assert_eq!(truncate_display("hello", 60), "hello");
}

#[test]
fn test_truncate_exact_boundary() {
    let s = "a".repeat(60);
    assert_eq!(truncate_display(&s, 60), s);
}

#[test]
fn test_truncate_long_string() {
    let s = "a".repeat(100);
    let result = truncate_display(&s, 60);
    assert!(result.ends_with("..."));
    assert_eq!(result.len(), 60);
}

#[test]
fn test_truncate_zero_max() {
    assert_eq!(truncate_display("hello", 0), "...");
}

// --- orchestrate tests ---

#[test]
fn test_orchestrate_runs_all_tasks_in_order() {
    let log: Arc<Mutex<Vec<String>>> = Arc::new(Mutex::new(Vec::new()));
    let log_clone = Arc::clone(&log);
    let prompts = test_prompts();

    let results = orchestrate(&prompts, 1, |prompt| -> Result<bool, String> {
        log_clone.lock().unwrap().push(prompt);
        Ok(true)
    });

    let executed: Vec<String> = log.lock().unwrap().clone();
    assert_eq!(executed, test_prompts());
    assert_eq!(results.len(), 3);
    assert!(results.iter().all(|(_, _, ok)| *ok));
}

#[test]
fn test_orchestrate_cycles_with_loops() {
    let log: Arc<Mutex<Vec<String>>> = Arc::new(Mutex::new(Vec::new()));
    let log_clone = Arc::clone(&log);
    let prompts = test_prompts();

    let results = orchestrate(&prompts, 2, |prompt| -> Result<bool, String> {
        log_clone.lock().unwrap().push(prompt);
        Ok(true)
    });

    let executed: Vec<String> = log.lock().unwrap().clone();
    let mut expected = test_prompts();
    expected.extend(test_prompts());
    assert_eq!(executed, expected);
    assert_eq!(results.len(), 6);
    // Verify loop/task indices
    assert_eq!(results[0], (0, 0, true));
    assert_eq!(results[1], (0, 1, true));
    assert_eq!(results[2], (0, 2, true));
    assert_eq!(results[3], (1, 0, true));
    assert_eq!(results[4], (1, 1, true));
    assert_eq!(results[5], (1, 2, true));
}

#[test]
fn test_orchestrate_handles_failure() {
    let call_count: Arc<Mutex<usize>> = Arc::new(Mutex::new(0));
    let count_clone = Arc::clone(&call_count);
    let prompts = test_prompts();

    let results = orchestrate(&prompts, 1, |prompt| -> Result<bool, String> {
        let mut c = count_clone.lock().unwrap();
        *c += 1;
        // Simulate the second task failing
        if prompt == "What functions do you have?" {
            Ok(false)
        } else {
            Ok(true)
        }
    });

    // All 3 tasks should still run even if one fails
    assert_eq!(*call_count.lock().unwrap(), 3);
    assert!(results[0].2);
    assert!(!results[1].2);
    assert!(results[2].2);
}

#[test]
fn test_orchestrate_handles_io_error() {
    let prompts = test_prompts();

    let results = orchestrate(&prompts, 1, |_prompt| -> Result<bool, std::io::Error> {
        Err(std::io::Error::new(
            std::io::ErrorKind::NotFound,
            "codex not found",
        ))
    });

    assert_eq!(results.len(), 3);
    assert!(results.iter().all(|(_, _, ok)| !ok));
}

#[test]
fn test_orchestrate_zero_loops() {
    let prompts = test_prompts();
    let results = orchestrate(&prompts, 0, |_| -> Result<bool, String> { Ok(true) });
    assert!(results.is_empty());
}

#[test]
fn test_print_plan_does_not_panic() {
    let prompts = test_prompts();
    for line in plan_lines(&prompts, 2, None) {
        println!("{line}");
    }
}
