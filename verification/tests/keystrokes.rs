use tip::input::{
    escape_of, final_byte, DecodeError, Decoded, InputDecoder, TerminalEscape, TerminalInput,
    TtyRead, ESCAPE_TIMEOUT_MS,
};

fn feed_bytes(decoder: &mut InputDecoder, bytes: &[u8]) -> Vec<Result<Decoded, DecodeError>> {
    let mut results = Vec::new();
    for b in bytes {
        results.push(decoder.feed(TtyRead::Byte(*b)));
    }
    results
}

#[test]
fn escape_timeout_is_fifty_milliseconds() {
    assert_eq!(ESCAPE_TIMEOUT_MS, 50);
}

#[test]
fn delete_byte_is_delete() {
    let mut decoder = InputDecoder::new();
    assert_eq!(decoder.feed(TtyRead::Byte(0x7f)), Ok(Decoded::Input(TerminalInput::Delete)));
}

#[test]
fn control_bytes_are_named_by_their_letter() {
    let mut decoder = InputDecoder::new();
    assert_eq!(decoder.feed(TtyRead::Byte(0x01)), Ok(Decoded::Input(TerminalInput::Ctrl(b'a'))));
    assert_eq!(decoder.feed(TtyRead::Byte(0x03)), Ok(Decoded::Input(TerminalInput::Ctrl(b'c'))));
    assert_eq!(decoder.feed(TtyRead::Byte(0x0d)), Ok(Decoded::Input(TerminalInput::Ctrl(b'm'))));
    assert_eq!(decoder.feed(TtyRead::Byte(0x1a)), Ok(Decoded::Input(TerminalInput::Ctrl(b'z'))));
}

#[test]
fn other_bytes_are_printable() {
    let mut decoder = InputDecoder::new();
    assert_eq!(decoder.feed(TtyRead::Byte(b'a')), Ok(Decoded::Input(TerminalInput::Printable(b'a'))));
    assert_eq!(decoder.feed(TtyRead::Byte(b' ')), Ok(Decoded::Input(TerminalInput::Printable(b' '))));
    assert_eq!(decoder.feed(TtyRead::Byte(0x00)), Ok(Decoded::Input(TerminalInput::Printable(0))));
    assert_eq!(decoder.feed(TtyRead::Byte(0x1c)), Ok(Decoded::Input(TerminalInput::Printable(0x1c))));
    assert_eq!(decoder.feed(TtyRead::Byte(0xff)), Ok(Decoded::Input(TerminalInput::Printable(0xff))));
}

#[test]
fn reserved_introducers_are_refused() {
    let mut decoder = InputDecoder::new();
    assert_eq!(decoder.feed(TtyRead::Byte(0x9b)), Err(DecodeError::Unimplemented(0x9b)));
    assert_eq!(decoder.feed(TtyRead::Byte(0x90)), Err(DecodeError::Unimplemented(0x90)));
    assert_eq!(decoder.feed(TtyRead::Byte(0x9d)), Err(DecodeError::Unimplemented(0x9d)));
    assert_eq!(decoder.feed(TtyRead::Byte(b'x')), Ok(Decoded::Input(TerminalInput::Printable(b'x'))));
}

#[test]
fn end_of_input_between_keystrokes_is_no_keystroke() {
    let mut decoder = InputDecoder::new();
    assert_eq!(decoder.feed(TtyRead::Eof), Ok(Decoded::Nothing));
    assert!(!decoder.timed());
}

#[test]
fn only_the_read_behind_escape_is_timed() {
    let mut decoder = InputDecoder::new();
    assert!(!decoder.timed());
    assert_eq!(decoder.feed(TtyRead::Byte(0x1b)), Ok(Decoded::Incomplete));
    assert!(decoder.timed());
    assert_eq!(decoder.feed(TtyRead::Byte(b'[')), Ok(Decoded::Incomplete));
    assert!(!decoder.timed());
    assert_eq!(decoder.feed(TtyRead::Byte(b'1')), Ok(Decoded::Incomplete));
    assert!(!decoder.timed());
}

#[test]
fn bare_escape_is_a_timeout() {
    let mut decoder = InputDecoder::new();
    assert_eq!(decoder.feed(TtyRead::Byte(0x1b)), Ok(Decoded::Incomplete));
    assert_eq!(
        decoder.feed(TtyRead::Timeout),
        Ok(Decoded::Input(TerminalInput::Escape(TerminalEscape::Timeout)))
    );
    assert!(!decoder.timed());
    assert_eq!(decoder.feed(TtyRead::Byte(b'q')), Ok(Decoded::Input(TerminalInput::Printable(b'q'))));
}

#[test]
fn arrows_are_decoded() {
    let mut decoder = InputDecoder::new();
    let left = feed_bytes(&mut decoder, b"\x1b[D");
    assert_eq!(left[2], Ok(Decoded::Input(TerminalInput::Escape(TerminalEscape::LeftArrow))));
    let right = feed_bytes(&mut decoder, b"\x1b[C");
    assert_eq!(right[2], Ok(Decoded::Input(TerminalInput::Escape(TerminalEscape::RightArrow))));
    let ctrl_left = feed_bytes(&mut decoder, b"\x1b[1;5D");
    assert_eq!(ctrl_left[0], Ok(Decoded::Incomplete));
    assert_eq!(ctrl_left[1], Ok(Decoded::Incomplete));
    assert_eq!(ctrl_left[2], Ok(Decoded::Incomplete));
    assert_eq!(ctrl_left[3], Ok(Decoded::Incomplete));
    assert_eq!(ctrl_left[4], Ok(Decoded::Incomplete));
    assert_eq!(
        ctrl_left[5],
        Ok(Decoded::Input(TerminalInput::Escape(TerminalEscape::CtrlLeftArrow)))
    );
    let ctrl_right = feed_bytes(&mut decoder, b"\x1b[1;5C");
    assert_eq!(
        ctrl_right[5],
        Ok(Decoded::Input(TerminalInput::Escape(TerminalEscape::CtrlRightArrow)))
    );
}

#[test]
fn unknown_sequences_are_dropped() {
    let mut decoder = InputDecoder::new();
    let up = feed_bytes(&mut decoder, b"\x1b[A");
    assert_eq!(up[2], Ok(Decoded::Nothing));
    let page = feed_bytes(&mut decoder, b"\x1b[5~");
    assert_eq!(page[2], Ok(Decoded::Incomplete));
    assert_eq!(page[3], Ok(Decoded::Nothing));
    let other = feed_bytes(&mut decoder, b"\x1b[1;2D");
    assert_eq!(other[5], Ok(Decoded::Nothing));
    assert_eq!(decoder.feed(TtyRead::Byte(b'D')), Ok(Decoded::Input(TerminalInput::Printable(b'D'))));
}

#[test]
fn a_sequence_does_not_leak_into_the_next() {
    let mut decoder = InputDecoder::new();
    let first = feed_bytes(&mut decoder, b"\x1b[1;5A");
    assert_eq!(first[5], Ok(Decoded::Nothing));
    let second = feed_bytes(&mut decoder, b"\x1b[D");
    assert_eq!(second[2], Ok(Decoded::Input(TerminalInput::Escape(TerminalEscape::LeftArrow))));
}

#[test]
fn byte_other_than_bracket_behind_escape_is_an_error() {
    let mut decoder = InputDecoder::new();
    assert_eq!(decoder.feed(TtyRead::Byte(0x1b)), Ok(Decoded::Incomplete));
    assert_eq!(decoder.feed(TtyRead::Byte(b'O')), Err(DecodeError::UnexpectedByte(b'O')));
    assert!(!decoder.timed());
    assert_eq!(decoder.feed(TtyRead::Byte(b'a')), Ok(Decoded::Input(TerminalInput::Printable(b'a'))));
}

#[test]
fn end_of_input_inside_a_sequence_is_an_error() {
    let mut decoder = InputDecoder::new();
    assert_eq!(decoder.feed(TtyRead::Byte(0x1b)), Ok(Decoded::Incomplete));
    assert_eq!(decoder.feed(TtyRead::Eof), Err(DecodeError::UnexpectedEof));
    let mut decoder = InputDecoder::new();
    let opened = feed_bytes(&mut decoder, b"\x1b[1");
    assert_eq!(opened[2], Ok(Decoded::Incomplete));
    assert_eq!(decoder.feed(TtyRead::Eof), Err(DecodeError::UnexpectedEof));
    assert_eq!(decoder.feed(TtyRead::Byte(b'D')), Ok(Decoded::Input(TerminalInput::Printable(b'D'))));
}

#[test]
fn final_bytes_are_from_at_sign_to_tilde() {
    assert!(!final_byte(0x3f));
    assert!(final_byte(0x40));
    assert!(final_byte(b'D'));
    assert!(final_byte(0x7e));
    assert!(!final_byte(0x7f));
    assert!(!final_byte(b';'));
}

#[test]
fn known_escapes_are_looked_up() {
    assert_eq!(escape_of(b"D"), Some(TerminalEscape::LeftArrow));
    assert_eq!(escape_of(b"C"), Some(TerminalEscape::RightArrow));
    assert_eq!(escape_of(b"1;5D"), Some(TerminalEscape::CtrlLeftArrow));
    assert_eq!(escape_of(b"1;5C"), Some(TerminalEscape::CtrlRightArrow));
    assert_eq!(escape_of(b""), None);
    assert_eq!(escape_of(b"A"), None);
    assert_eq!(escape_of(b"1;5A"), None);
    assert_eq!(escape_of(b"2;5D"), None);
    assert_eq!(escape_of(b"1;5"), None);
    assert_eq!(escape_of(b"1;5DD"), None);
}
