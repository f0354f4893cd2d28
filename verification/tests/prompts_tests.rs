use agent_loops::prompts::{is_whitespace_char, prompts_from_text, trim_text};

fn by_the_standard_library(content: &str) -> Vec<String> {
    content
        .lines()
        .map(str::trim)
        .filter(|line| !line.is_empty())
        .map(ToOwned::to_owned)
        .collect()
}

#[test]
fn one_prompt_per_line_that_holds_text() {
    assert_eq!(
        prompts_from_text("first\n\n  second  \n\t\nthird"),
        vec!["first", "second", "third"]
    );
}

#[test]
fn empty_text_holds_no_prompt() {
    assert_eq!(prompts_from_text(""), Vec::<String>::new());
    assert_eq!(prompts_from_text("\n\n"), Vec::<String>::new());
    assert_eq!(prompts_from_text("  \n\t \r\n"), Vec::<String>::new());
}

#[test]
fn windows_line_endings_are_trimmed() {
    assert_eq!(prompts_from_text("a\r\nb\r\n"), vec!["a", "b"]);
}

#[test]
fn inner_white_space_stays() {
    assert_eq!(prompts_from_text("  a  b\tc \n"), vec!["a  b\tc"]);
    assert_eq!(prompts_from_text("a\rb\n"), vec!["a\rb"]);
}

#[test]
fn prompts_agree_with_the_standard_library() {
    let samples = [
        "",
        "one",
        "one\n",
        "\none",
        "one\ntwo",
        "one\r\ntwo\r\n",
        " \u{a0}one\u{2003}\n\u{3000}\n\u{85}two\u{2028}three\n",
        "a\n\n\nb\n \n c \n",
        "\r\r\n\r",
        "x\u{200b}\n\u{200b}\n",
        "tab\there\n\ttab\n",
        "\u{1680}ogham\u{1680}\n\u{180e}mongolian\u{180e}\n\u{feff}bom\n",
    ];
    for s in samples {
        assert_eq!(prompts_from_text(s), by_the_standard_library(s), "{s:?}");
    }
}

#[test]
fn trim_agrees_with_the_standard_library() {
    for s in ["", " ", "a", " a", "a ", " a b ", "\t\n x \r\n", "\u{2009}y\u{202f}", "  "] {
        assert_eq!(trim_text(s), s.trim(), "{s:?}");
    }
}

#[test]
fn white_space_agrees_with_the_standard_library() {
    for code in 0..=0x10ffffu32 {
        if let Some(c) = char::from_u32(code) {
            assert_eq!(is_whitespace_char(c), c.is_whitespace(), "U+{code:04X}");
        }
    }
}
