use agent_loops::scroll::{ScrollBuffer, MAX_RENDERED_OUTPUT_LINES};

fn completed(buffer: &ScrollBuffer) -> Vec<String> {
    (0..buffer.line_count()).map(|i| buffer.line(i).to_string()).collect()
}

#[test]
fn new_buffer_is_empty() {
    let buffer = ScrollBuffer::new();
    assert_eq!(buffer.line_count(), 0);
    assert_eq!(buffer.current_line(), "");
}

#[test]
fn newline_closes_the_partial_line() {
    let mut buffer = ScrollBuffer::new();
    buffer.append("one\ntwo\nthr");
    assert_eq!(completed(&buffer), vec!["one", "two"]);
    assert_eq!(buffer.current_line(), "thr");
    buffer.append("ee\n");
    assert_eq!(completed(&buffer), vec!["one", "two", "three"]);
    assert_eq!(buffer.current_line(), "");
}

#[test]
fn empty_lines_are_kept() {
    let mut buffer = ScrollBuffer::new();
    buffer.append("\n\na\n");
    assert_eq!(completed(&buffer), vec!["", "", "a"]);
}

#[test]
fn flush_closes_only_a_line_that_holds_something() {
    let mut buffer = ScrollBuffer::new();
    buffer.flush();
    assert_eq!(buffer.line_count(), 0);
    buffer.append("tail");
    buffer.flush();
    assert_eq!(completed(&buffer), vec!["tail"]);
    assert_eq!(buffer.current_line(), "");
    buffer.flush();
    assert_eq!(buffer.line_count(), 1);
}

#[test]
fn push_current_line_closes_even_an_empty_line() {
    let mut buffer = ScrollBuffer::new();
    buffer.push_current_line();
    assert_eq!(completed(&buffer), vec![""]);
}

#[test]
fn cap_is_four_thousand() {
    assert_eq!(MAX_RENDERED_OUTPUT_LINES, 4000);
}

#[test]
fn buffer_never_exceeds_the_cap_and_drops_the_oldest() {
    let mut buffer = ScrollBuffer::new();
    for i in 0..4000 {
        buffer.append(&format!("line {i}\n"));
    }
    assert_eq!(buffer.line_count(), 4000);
    assert_eq!(buffer.line(0), "line 0");
    buffer.append("line 4000\n");
    assert_eq!(buffer.line_count(), 4000);
    assert_eq!(buffer.line(0), "line 1");
    assert_eq!(buffer.line(3999), "line 4000");
    let mut big = String::new();
    for i in 4001..10000 {
        big.push_str(&format!("line {i}\n"));
    }
    buffer.append(&big);
    assert_eq!(buffer.line_count(), 4000);
    for k in 0..4000 {
        assert_eq!(buffer.line(k), format!("line {}", 6000 + k));
    }
}

#[test]
fn non_ascii_text_is_kept_by_character() {
    let mut buffer = ScrollBuffer::new();
    buffer.append("h\u{e9}llo \u{4e16}\u{754c}\n\u{1f600}");
    assert_eq!(completed(&buffer), vec!["h\u{e9}llo \u{4e16}\u{754c}"]);
    assert_eq!(buffer.current_line(), "\u{1f600}");
}
