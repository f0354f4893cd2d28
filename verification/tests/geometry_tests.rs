use agent_loops::geometry::{dimension_or, parse_number, terminal_cols, terminal_rows};
use agent_loops::render::{DEFAULT_COLS, DEFAULT_ROWS};

#[test]
fn defaults_are_24_by_120() {
    assert_eq!(DEFAULT_ROWS, 24);
    assert_eq!(DEFAULT_COLS, 120);
    assert_eq!(terminal_rows(None), 24);
    assert_eq!(terminal_cols(None), 120);
}

#[test]
fn reported_size_is_used() {
    assert_eq!(terminal_rows(Some("50")), 50);
    assert_eq!(terminal_cols(Some("200")), 200);
    assert_eq!(terminal_rows(Some("1")), 1);
}

#[test]
fn invalid_size_gives_the_default() {
    for bad in ["", "0", "00", "-5", "abc", "12x", " 12", "12 ", "1_000", "+", "1.5", "0x10"] {
        assert_eq!(terminal_rows(Some(bad)), 24, "{bad:?}");
        assert_eq!(terminal_cols(Some(bad)), 120, "{bad:?}");
    }
}

#[test]
fn size_too_large_for_the_machine_gives_the_default() {
    assert_eq!(terminal_rows(Some("99999999999999999999999999")), 24);
    let max = format!("{}", usize::MAX);
    assert_eq!(terminal_rows(Some(&max)), usize::MAX);
    let over = format!("{}0", usize::MAX);
    assert_eq!(terminal_cols(Some(&over)), 120);
}

#[test]
fn dimension_or_takes_any_default() {
    assert_eq!(dimension_or(None, 7), 7);
    assert_eq!(dimension_or(Some("0"), 7), 7);
    assert_eq!(dimension_or(Some("3"), 7), 3);
}

#[test]
fn parse_number_agrees_with_the_standard_parser() {
    let mut samples: Vec<String> = vec![
        "", "+", "-", "0", "+0", "-0", "007", "+42", "++1", "+-1", "1+", "12a", "a12", " 1",
        "1 ", "\t1", "1\n", "18446744073709551615", "18446744073709551616",
        "4294967295", "4294967296", "99999999999999999999", "+18446744073709551615",
        "\u{661}\u{662}", "1\u{661}", "\u{ff11}", "1e3", "0b1", "١",
    ]
    .into_iter()
    .map(String::from)
    .collect();
    for n in 0..300usize {
        samples.push(format!("{n}"));
        samples.push(format!("+{n}"));
        samples.push(format!("0{n}"));
    }
    for s in samples {
        assert_eq!(parse_number(&s), s.parse::<usize>().ok(), "{s:?}");
    }
}
