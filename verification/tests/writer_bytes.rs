use tip::writer::{
    append, debug_enabled, push_decimal, switch_to_alternate_terminal, switch_to_normal_terminal,
    TerminalWriter, DEBUG_VARIABLE,
};

#[test]
fn debug_variable_is_named() {
    assert_eq!(DEBUG_VARIABLE, "TIP_DEBUG");
}

#[test]
fn debug_is_on_only_for_true() {
    assert!(debug_enabled("true"));
    assert!(!debug_enabled(""));
    assert!(!debug_enabled("false"));
    assert!(!debug_enabled("TRUE"));
    assert!(!debug_enabled("1"));
    assert!(!debug_enabled("true "));
    assert!(!debug_enabled("tru"));
}

#[test]
fn alternate_screen_is_entered_then_cleared() {
    let mut out = b"x".to_vec();
    switch_to_alternate_terminal(&mut out);
    assert_eq!(out, b"x\x1b[?1049h\x1b[2J\x1b[H");
}

#[test]
fn normal_screen_is_restored_after_clearing() {
    let mut out = b"x".to_vec();
    switch_to_normal_terminal(&mut out);
    assert_eq!(out, b"x\x1b[2J\x1b[H\x1b[?1049l");
}

#[test]
fn a_session_begins_on_the_alternate_screen() {
    let mut writer = TerminalWriter::new(false);
    assert_eq!(writer.flush(), b"\x1b[?1049h\x1b[2J\x1b[H");
    assert_eq!(writer.flush(), b"");
}

#[test]
fn a_debug_session_stays_on_the_normal_screen() {
    let mut writer = TerminalWriter::new(true);
    assert_eq!(writer.flush(), b"");
    writer.write(b"abc");
    assert_eq!(writer.finish(), b"abc");
}

#[test]
fn a_session_ends_with_the_way_back() {
    let mut writer = TerminalWriter::new(false);
    writer.flush();
    writer.write(b"rest");
    assert_eq!(writer.finish(), b"rest\x1b[2J\x1b[H\x1b[?1049l");
}

#[test]
fn clear_resets_colours_and_style() {
    let mut writer = TerminalWriter::new(true);
    writer.clear();
    assert_eq!(writer.flush(), b"\x1b[2J\x1b[H\x1b[39m\x1b[49m\x1b[0m");
}

#[test]
fn cursor_is_hidden_and_shown() {
    let mut writer = TerminalWriter::new(true);
    writer.hide_cursor();
    assert_eq!(writer.flush(), b"\x1b[?25l");
    writer.show_cursor();
    assert_eq!(writer.flush(), b"\x1b[?25h");
}

#[test]
fn newline_is_carriage_return_and_line_feed() {
    let mut writer = TerminalWriter::new(true);
    writer.newline_start();
    assert_eq!(writer.flush(), b"\r\n");
}

#[test]
fn cursor_moves_to_line_and_column() {
    let mut writer = TerminalWriter::new(true);
    writer.move_cursor(1, 1);
    assert_eq!(writer.flush(), b"\x1b[1;1H");
    writer.move_cursor(12, 345);
    assert_eq!(writer.flush(), b"\x1b[12;345H");
    writer.move_cursor(0, 10);
    assert_eq!(writer.flush(), b"\x1b[0;10H");
}

#[test]
fn writes_gather_until_flushed() {
    let mut writer = TerminalWriter::new(true);
    writer.write(b"ab");
    writer.write(b"");
    writer.write(b"cd");
    writer.newline_start();
    assert_eq!(writer.flush(), b"abcd\r\n");
    assert_eq!(writer.flush(), b"");
}

#[test]
fn decimal_digits() {
    let cases: [(usize, &str); 8] = [
        (0, "0"),
        (7, "7"),
        (9, "9"),
        (10, "10"),
        (99, "99"),
        (100, "100"),
        (65535, "65535"),
        (1234567890, "1234567890"),
    ];
    for (n, text) in cases {
        let mut out = Vec::new();
        push_decimal(&mut out, n);
        assert_eq!(out, text.as_bytes());
    }
    let mut out = b"n=".to_vec();
    push_decimal(&mut out, usize::MAX);
    assert_eq!(out, format!("n={}", usize::MAX).as_bytes());
}

#[test]
fn append_adds_at_the_end() {
    let mut out = b"ab".to_vec();
    append(&mut out, b"cd");
    append(&mut out, b"");
    assert_eq!(out, b"abcd");
}
