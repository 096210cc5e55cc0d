//! Keystrokes: what the bytes that arrive on the terminal mean.
//!
//! The terminal hands over one byte at a time. Most bytes are a keystroke by
//! themselves; `ESC` opens an escape sequence that spans several reads, the
//! first of which is made with a timeout so that a lone `ESC` key can be told
//! from the start of an arrow key. [`InputDecoder`] holds what has been read
//! of such a sequence; the caller performs the reads and feeds it the outcomes.

use vstd::prelude::*;

verus! {

/// An escape sequence that the decoder knows.
#[derive(Debug, Clone, Copy, PartialEq, Eq, Structural)]
pub enum TerminalEscape {
    LeftArrow,
    RightArrow,
    CtrlLeftArrow,
    CtrlRightArrow,
    /// `ESC` alone: nothing followed it in time.
    Timeout,
}

/// One keystroke.
#[derive(Debug, Clone, Copy, PartialEq, Eq, Structural)]
pub enum TerminalInput {
    Printable(u8),
    /// A control key, by its lowercase letter: `Ctrl(b'c')` is Ctrl-C.
    Ctrl(u8),
    Escape(TerminalEscape),
    Delete,
}

/// The byte that opens an escape sequence.
pub const ESC: u8 = 0x1b;

/// The byte that the delete key sends.
pub const DEL: u8 = 0x7f;

/// `[`, which follows `ESC` in a control sequence.
pub const CSI_OPEN: u8 = 0x5b;

/// How long, in milliseconds, the byte after `ESC` is waited for.
pub const ESCAPE_TIMEOUT_MS: i32 = 50;

/// Whether `b` ends a control sequence.
pub open spec fn is_final_byte(b: u8) -> bool {
    0x40 <= b <= 0x7e
}

/// Whether `b` is one of the single-byte introducers (CSI, DCS, OSC) that the
/// decoder does not handle.
pub open spec fn is_reserved(b: u8) -> bool {
    b == 0x9b || b == 0x90 || b == 0x9d
}

/// The keystroke that a byte outside any escape sequence stands for, where it
/// is neither `ESC` nor reserved.
pub open spec fn plain_input(b: u8) -> TerminalInput {
    if b == DEL {
        TerminalInput::Delete
    } else if 1 <= b <= 26 {
        TerminalInput::Ctrl((b + 96) as u8)
    } else {
        TerminalInput::Printable(b)
    }
}

/// The escape that the bytes after `ESC [`, final byte included, stand for:
/// `D`, `C`, `1;5D` and `1;5C` are the four arrows; anything else is none.
pub open spec fn csi_escape(sequence: Seq<u8>) -> Option<TerminalEscape> {
    if sequence == seq![0x44u8] {
        Some(TerminalEscape::LeftArrow)
    } else if sequence == seq![0x43u8] {
        Some(TerminalEscape::RightArrow)
    } else if sequence == seq![0x31u8, 0x3bu8, 0x35u8, 0x44u8] {
        Some(TerminalEscape::CtrlLeftArrow)
    } else if sequence == seq![0x31u8, 0x3bu8, 0x35u8, 0x43u8] {
        Some(TerminalEscape::CtrlRightArrow)
    } else {
        None
    }
}

/// Whether `b` ends a control sequence.
pub fn final_byte(b: u8) -> (r: bool)
    ensures
        r == is_final_byte(b),
{
    0x40 <= b && b <= 0x7e
}

/// Looks a finished control sequence up among the known escapes.
pub fn escape_of(sequence: &[u8]) -> (escape: Option<TerminalEscape>)
    ensures
        escape == csi_escape(sequence@),
{
    let n = sequence.len();
    if n == 1 {
        let b = sequence[0];
        proof {
            assert(sequence@ =~= seq![b]);
            assert(seq![0x44u8][0] == 0x44u8);
            assert(seq![0x43u8][0] == 0x43u8);
        }
        if b == 0x44 {
            Some(TerminalEscape::LeftArrow)
        } else if b == 0x43 {
            Some(TerminalEscape::RightArrow)
        } else {
            None
        }
    } else if n == 4 {
        let last = sequence[3];
        let prefixed = sequence[0] == 0x31 && sequence[1] == 0x3b && sequence[2] == 0x35;
        proof {
            let left = seq![0x31u8, 0x3bu8, 0x35u8, 0x44u8];
            let right = seq![0x31u8, 0x3bu8, 0x35u8, 0x43u8];
            assert(left[0] == 0x31u8 && left[1] == 0x3bu8 && left[2] == 0x35u8 && left[3]
                == 0x44u8);
            assert(right[0] == 0x31u8 && right[1] == 0x3bu8 && right[2] == 0x35u8 && right[3]
                == 0x43u8);
            if prefixed && last == 0x44 {
                assert(sequence@ =~= left);
            }
            if prefixed && last == 0x43 {
                assert(sequence@ =~= right);
            }
        }
        if prefixed && last == 0x44 {
            Some(TerminalEscape::CtrlLeftArrow)
        } else if prefixed && last == 0x43 {
            Some(TerminalEscape::CtrlRightArrow)
        } else {
            None
        }
    } else {
        proof {
            assert(seq![0x44u8].len() == 1);
            assert(seq![0x43u8].len() == 1);
            assert(seq![0x31u8, 0x3bu8, 0x35u8, 0x44u8].len() == 4);
            assert(seq![0x31u8, 0x3bu8, 0x35u8, 0x43u8].len() == 4);
        }
        None
    }
}

/// Where the decoder stands between two reads.
#[derive(Debug, Clone, Copy, PartialEq, Eq, Structural)]
pub enum DecoderPhase {
    /// Between keystrokes.
    Ground,
    /// `ESC` was read; the next read is made with the timeout.
    Introducer,
    /// `ESC [` was read; bytes are collected up to the final byte.
    Sequence,
}

/// What one read of the terminal gave.
#[derive(Debug, Clone, Copy, PartialEq, Eq, Structural)]
pub enum TtyRead {
    Byte(u8),
    /// No byte came within the timeout.
    Timeout,
    /// The terminal is at end of input.
    Eof,
}

/// What the decoder makes of one read.
#[derive(Debug, Clone, Copy, PartialEq, Eq, Structural)]
pub enum Decoded {
    /// A sequence is under way; read on.
    Incomplete,
    /// The read completed no keystroke: the end of input outside a sequence,
    /// or a control sequence that stands for no known key.
    Nothing,
    Input(TerminalInput),
}

/// Why a read could not be decoded.
#[derive(Debug, Clone, Copy, PartialEq, Eq, Structural)]
pub enum DecodeError {
    /// `ESC` was followed by a byte other than `[`.
    UnexpectedByte(u8),
    /// The input ended inside an escape sequence.
    UnexpectedEof,
    /// A single-byte introducer that the decoder does not handle.
    Unimplemented(u8),
}

/// The decoder as contracts see it.
pub struct DecoderState {
    pub phase: DecoderPhase,
    /// The bytes read since `ESC [`.
    pub sequence: Seq<u8>,
}

/// One step of the decoder: the state after the read, and what it returns.
///
/// Between keystrokes a byte is a keystroke by itself, unless it is `ESC`,
/// which opens a sequence, or a reserved introducer, which is an error; the
/// end of input there is no keystroke. Behind `ESC` only `[` may follow; no
/// byte in time is the lone `ESC` key. Behind `ESC [` bytes are collected up
/// to the final byte, and the collected bytes stand for a known escape or for
/// nothing. The end of input inside a sequence is an error, and leaves the
/// decoder between keystrokes, as every error does. A timeout where no timed
/// read was asked for changes nothing.
pub open spec fn decode_step(state: DecoderState, read: TtyRead) -> (
    DecoderState,
    Result<Decoded, DecodeError>,
) {
    let ground = DecoderState { phase: DecoderPhase::Ground, sequence: Seq::empty() };
    match state.phase {
        DecoderPhase::Ground => match read {
            TtyRead::Byte(b) => if b == ESC {
                (
                    DecoderState { phase: DecoderPhase::Introducer, sequence: Seq::empty() },
                    Ok(Decoded::Incomplete),
                )
            } else if is_reserved(b) {
                (ground, Err(DecodeError::Unimplemented(b)))
            } else {
                (ground, Ok(Decoded::Input(plain_input(b))))
            },
            TtyRead::Timeout => (ground, Ok(Decoded::Nothing)),
            TtyRead::Eof => (ground, Ok(Decoded::Nothing)),
        },
        DecoderPhase::Introducer => match read {
            TtyRead::Byte(b) => if b == CSI_OPEN {
                (
                    DecoderState { phase: DecoderPhase::Sequence, sequence: Seq::empty() },
                    Ok(Decoded::Incomplete),
                )
            } else {
                (ground, Err(DecodeError::UnexpectedByte(b)))
            },
            TtyRead::Timeout => (
                ground,
                Ok(Decoded::Input(TerminalInput::Escape(TerminalEscape::Timeout))),
            ),
            TtyRead::Eof => (ground, Err(DecodeError::UnexpectedEof)),
        },
        DecoderPhase::Sequence => match read {
            TtyRead::Byte(b) => if is_final_byte(b) {
                (
                    ground,
                    Ok(
                        match csi_escape(state.sequence.push(b)) {
                            Some(escape) => Decoded::Input(TerminalInput::Escape(escape)),
                            None => Decoded::Nothing,
                        },
                    ),
                )
            } else {
                (
                    DecoderState {
                        phase: DecoderPhase::Sequence,
                        sequence: state.sequence.push(b),
                    },
                    Ok(Decoded::Incomplete),
                )
            },
            TtyRead::Timeout => (state, Ok(Decoded::Incomplete)),
            TtyRead::Eof => (ground, Err(DecodeError::UnexpectedEof)),
        },
    }
}

/// The state after a run of reads, errors and keystrokes passed over.
pub open spec fn decode_run(state: DecoderState, reads: Seq<TtyRead>) -> DecoderState
    decreases reads.len(),
{
    if reads.len() == 0 {
        state
    } else {
        decode_step(decode_run(state, reads.drop_last()), reads.last()).0
    }
}

/// The reads that a control sequence with the given body arrives as.
pub open spec fn csi_reads(body: Seq<u8>) -> Seq<TtyRead> {
    seq![TtyRead::Byte(ESC), TtyRead::Byte(CSI_OPEN)] + body.map_values(|b: u8| TtyRead::Byte(b))
}

/// Decodes keystrokes from the outcomes of successive reads.
pub struct InputDecoder {
    phase: DecoderPhase,
    sequence: Vec<u8>,
}

impl View for InputDecoder {
    type V = DecoderState;

    closed spec fn view(&self) -> DecoderState {
        DecoderState { phase: self.phase, sequence: self.sequence@ }
    }
}

impl InputDecoder {
    /// A decoder between keystrokes.
    pub fn new() -> (decoder: Self)
        ensures
            decoder@ == (DecoderState { phase: DecoderPhase::Ground, sequence: Seq::empty() }),
    {
        InputDecoder { phase: DecoderPhase::Ground, sequence: Vec::new() }
    }

    /// Whether the next read is to be made with [`ESCAPE_TIMEOUT_MS`] rather
    /// than waited for without limit.
    pub fn timed(&self) -> (timed: bool)
        ensures
            timed == (self@.phase is Introducer),
    {
        match self.phase {
            DecoderPhase::Introducer => true,
            _ => false,
        }
    }

    /// Takes the outcome of one read and says what it completed.
    pub fn feed(&mut self, read: TtyRead) -> (result: Result<Decoded, DecodeError>)
        ensures
            final(self)@ == decode_step(old(self)@, read).0,
            result == decode_step(old(self)@, read).1,
    {
        match self.phase {
            DecoderPhase::Ground => {
                self.sequence.clear();
                match read {
                    TtyRead::Byte(b) => {
                        if b == ESC {
                            self.phase = DecoderPhase::Introducer;
                            Ok(Decoded::Incomplete)
                        } else if b == 0x9b || b == 0x90 || b == 0x9d {
                            Err(DecodeError::Unimplemented(b))
                        } else if b == DEL {
                            Ok(Decoded::Input(TerminalInput::Delete))
                        } else if 1 <= b && b <= 26 {
                            Ok(Decoded::Input(TerminalInput::Ctrl(b + 96)))
                        } else {
                            Ok(Decoded::Input(TerminalInput::Printable(b)))
                        }
                    },
                    _ => Ok(Decoded::Nothing),
                }
            },
            DecoderPhase::Introducer => {
                self.sequence.clear();
                match read {
                    TtyRead::Byte(b) => {
                        if b == CSI_OPEN {
                            self.phase = DecoderPhase::Sequence;
                            Ok(Decoded::Incomplete)
                        } else {
                            self.phase = DecoderPhase::Ground;
                            Err(DecodeError::UnexpectedByte(b))
                        }
                    },
                    TtyRead::Timeout => {
                        self.phase = DecoderPhase::Ground;
                        Ok(Decoded::Input(TerminalInput::Escape(TerminalEscape::Timeout)))
                    },
                    TtyRead::Eof => {
                        self.phase = DecoderPhase::Ground;
                        Err(DecodeError::UnexpectedEof)
                    },
                }
            },
            DecoderPhase::Sequence => match read {
                TtyRead::Byte(b) => {
                    self.sequence.push(b);
                    if final_byte(b) {
                        let escape = escape_of(self.sequence.as_slice());
                        self.sequence.clear();
                        self.phase = DecoderPhase::Ground;
                        match escape {
                            Some(e) => Ok(Decoded::Input(TerminalInput::Escape(e))),
                            None => Ok(Decoded::Nothing),
                        }
                    } else {
                        Ok(Decoded::Incomplete)
                    }
                },
                TtyRead::Timeout => Ok(Decoded::Incomplete),
                TtyRead::Eof => {
                    self.sequence.clear();
                    self.phase = DecoderPhase::Ground;
                    Err(DecodeError::UnexpectedEof)
                },
            },
        }
    }
}

/// A control sequence read from between keystrokes, `ESC [`, a body without
/// final byte and then a final byte, leaves the decoder between keystrokes
/// again, and its last read returns the escape that body and final byte stand
/// for, or nothing where they stand for none.
pub proof fn lemma_control_sequence_decodes(body: Seq<u8>, last: u8)
    requires
        forall|i: int| 0 <= i < body.len() ==> !is_final_byte(#[trigger] body[i]),
        is_final_byte(last),
    ensures
        ({
            let ground = DecoderState { phase: DecoderPhase::Ground, sequence: Seq::empty() };
            let before = decode_run(ground, csi_reads(body));
            let (after, result) = decode_step(before, TtyRead::Byte(last));
            &&& before == (DecoderState { phase: DecoderPhase::Sequence, sequence: body })
            &&& after == ground
            &&& result == Ok::<Decoded, DecodeError>(
                match csi_escape(body.push(last)) {
                    Some(escape) => Decoded::Input(TerminalInput::Escape(escape)),
                    None => Decoded::Nothing,
                },
            )
        }),
    decreases body.len(),
{
    let ground = DecoderState { phase: DecoderPhase::Ground, sequence: Seq::empty() };
    let opened = seq![TtyRead::Byte(ESC), TtyRead::Byte(CSI_OPEN)];
    if body.len() == 0 {
        assert(csi_reads(body) =~= opened);
        assert(opened.drop_last() =~= seq![TtyRead::Byte(ESC)]);
        assert(seq![TtyRead::Byte(ESC)].drop_last() =~= Seq::<TtyRead>::empty());
        reveal_with_fuel(decode_run, 3);
        assert(decode_run(ground, csi_reads(body)).sequence =~= body);
    } else {
        let shorter = body.drop_last();
        lemma_control_sequence_decodes(shorter, last);
        assert(csi_reads(body).drop_last() =~= csi_reads(shorter));
        assert(csi_reads(body).last() == TtyRead::Byte(body.last()));
        assert(shorter.push(body.last()) =~= body);
    }
}

} // verus!
