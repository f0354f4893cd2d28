use agent_loops::ansi::{AnsiParseState, AnsiSanitizer};

fn sanitize_all(input: &[u8]) -> Vec<u8> {
    let mut sanitizer = AnsiSanitizer::new();
    sanitizer.sanitize(input)
}

#[test]
fn csi_sequence_is_removed_and_text_kept() {
    assert_eq!(sanitize_all(b"A\x1b[31mB\x1b[0mC"), b"ABC".to_vec());
}

#[test]
fn osc_sequence_ended_by_bel_is_removed() {
    assert_eq!(sanitize_all(b"A\x1b]0;title\x07B"), b"AB".to_vec());
}

#[test]
fn osc_sequence_ended_by_string_terminator_is_removed() {
    assert_eq!(sanitize_all(b"A\x1b]0;title\x1b\\B"), b"AB".to_vec());
}

#[test]
fn osc_escape_without_backslash_returns_to_osc() {
    // ESC inside OSC followed by something other than `\` stays inside.
    assert_eq!(sanitize_all(b"A\x1b]0;ti\x1bXtle\x07B"), b"AB".to_vec());
}

#[test]
fn carriage_return_becomes_line_feed() {
    assert_eq!(sanitize_all(b"\r"), b"\n".to_vec());
    assert_eq!(sanitize_all(b"a\r\nb\rc"), b"a\n\nb\nc".to_vec());
}

#[test]
fn newline_and_tab_pass() {
    assert_eq!(sanitize_all(b"a\tb\nc"), b"a\tb\nc".to_vec());
}

#[test]
fn other_control_bytes_are_dropped() {
    assert_eq!(sanitize_all(b"a\x00b\x08c\x7fd\x0be"), b"abcde".to_vec());
}

#[test]
fn high_bytes_pass() {
    assert_eq!(sanitize_all(&[0x80, 0xc3, 0xa9, 0xff]), vec![0x80, 0xc3, 0xa9, 0xff]);
}

#[test]
fn single_byte_escape_is_consumed() {
    // ESC followed by any byte other than `[` or `]` is consumed whole.
    assert_eq!(sanitize_all(b"a\x1bMb"), b"ab".to_vec());
}

#[test]
fn unterminated_sequence_swallows_the_rest() {
    let mut sanitizer = AnsiSanitizer::new();
    assert_eq!(sanitizer.sanitize(b"a\x1b[12;34"), b"a".to_vec());
    assert_eq!(sanitizer.state, AnsiParseState::Csi);
    assert_eq!(sanitizer.sanitize(b"56"), Vec::<u8>::new());
    assert_eq!(sanitizer.state, AnsiParseState::Csi);
    assert_eq!(sanitizer.sanitize(b"mb"), b"b".to_vec());
    assert_eq!(sanitizer.state, AnsiParseState::Normal);
}

#[test]
fn state_is_carried_across_chunks() {
    let whole = sanitize_all(b"A\x1b[31mB\x1b]0;t\x1b\\C\rD");
    for cut in 0..=18 {
        let input: &[u8] = b"A\x1b[31mB\x1b]0;t\x1b\\C\rD";
        let cut = cut.min(input.len());
        let mut sanitizer = AnsiSanitizer::new();
        let mut out = sanitizer.sanitize(&input[..cut]);
        out.extend(sanitizer.sanitize(&input[cut..]));
        assert_eq!(out, whole);
    }
    assert_eq!(whole, b"ABC\nD".to_vec());
}

#[test]
fn each_state_transition() {
    let cases: Vec<(AnsiParseState, u8, AnsiParseState, Vec<u8>)> = vec![
        (AnsiParseState::Normal, 0x1b, AnsiParseState::Esc, vec![]),
        (AnsiParseState::Normal, b'x', AnsiParseState::Normal, vec![b'x']),
        (AnsiParseState::Normal, b'\r', AnsiParseState::Normal, vec![b'\n']),
        (AnsiParseState::Normal, 0x07, AnsiParseState::Normal, vec![]),
        (AnsiParseState::Esc, b'[', AnsiParseState::Csi, vec![]),
        (AnsiParseState::Esc, b']', AnsiParseState::Osc, vec![]),
        (AnsiParseState::Esc, b'x', AnsiParseState::Normal, vec![]),
        (AnsiParseState::Esc, 0x1b, AnsiParseState::Normal, vec![]),
        (AnsiParseState::Csi, b'3', AnsiParseState::Csi, vec![]),
        (AnsiParseState::Csi, b';', AnsiParseState::Csi, vec![]),
        (AnsiParseState::Csi, 0x3f, AnsiParseState::Csi, vec![]),
        (AnsiParseState::Csi, 0x40, AnsiParseState::Normal, vec![]),
        (AnsiParseState::Csi, 0x7e, AnsiParseState::Normal, vec![]),
        (AnsiParseState::Csi, 0x7f, AnsiParseState::Csi, vec![]),
        (AnsiParseState::Osc, 0x07, AnsiParseState::Normal, vec![]),
        (AnsiParseState::Osc, 0x1b, AnsiParseState::OscEsc, vec![]),
        (AnsiParseState::Osc, b'x', AnsiParseState::Osc, vec![]),
        (AnsiParseState::OscEsc, b'\\', AnsiParseState::Normal, vec![]),
        (AnsiParseState::OscEsc, b'x', AnsiParseState::Osc, vec![]),
    ];
    for (from, byte, to, emitted) in cases {
        let mut sanitizer = AnsiSanitizer { state: from };
        let mut out = Vec::new();
        sanitizer.consume_byte(byte, &mut out);
        assert_eq!(sanitizer.state, to);
        assert_eq!(out, emitted);
    }
}

#[test]
fn output_holds_only_safe_bytes() {
    let input: Vec<u8> = (0..=255u8).collect();
    let out = sanitize_all(&input);
    for b in out {
        assert!(b == b'\n' || b == b'\t' || (0x20..=0x7e).contains(&b) || b >= 0x80);
    }
}
