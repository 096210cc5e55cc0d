//! The write side of the terminal: the control sequences that paint a
//! screen, gathered in a buffer that is handed out whole, once per frame.

use crate::input::{CSI_OPEN, ESC};
use vstd::prelude::*;

verus! {

/// The name of the environment variable that, set to `true`, keeps the
/// session on the normal screen.
pub const DEBUG_VARIABLE: &'static str = "TIP_DEBUG";

/// Enter the alternate screen, clear it, and put the cursor at its home:
/// `ESC [ ? 1049 h`, `ESC [ 2 J`, `ESC [ H`.
pub open spec fn alternate_screen_bytes() -> Seq<u8> {
    seq![
        ESC, CSI_OPEN, 0x3f, 0x31, 0x30, 0x34, 0x39, 0x68,
        ESC, CSI_OPEN, 0x32, 0x4a,
        ESC, CSI_OPEN, 0x48,
    ]
}

/// Clear the screen, put the cursor at its home, and leave the alternate
/// screen: `ESC [ 2 J`, `ESC [ H`, `ESC [ ? 1049 l`.
pub open spec fn normal_screen_bytes() -> Seq<u8> {
    seq![
        ESC, CSI_OPEN, 0x32, 0x4a,
        ESC, CSI_OPEN, 0x48,
        ESC, CSI_OPEN, 0x3f, 0x31, 0x30, 0x34, 0x39, 0x6c,
    ]
}

/// Clear the screen, put the cursor at its home, and reset foreground,
/// background and style: `ESC [ 2 J`, `ESC [ H`, `ESC [ 39 m`, `ESC [ 49 m`,
/// `ESC [ 0 m`.
pub open spec fn clear_bytes() -> Seq<u8> {
    seq![
        ESC, CSI_OPEN, 0x32, 0x4a,
        ESC, CSI_OPEN, 0x48,
        ESC, CSI_OPEN, 0x33, 0x39, 0x6d,
        ESC, CSI_OPEN, 0x34, 0x39, 0x6d,
        ESC, CSI_OPEN, 0x30, 0x6d,
    ]
}

/// Hide the cursor: `ESC [ ? 25 l`.
pub open spec fn hide_cursor_bytes() -> Seq<u8> {
    seq![ESC, CSI_OPEN, 0x3f, 0x32, 0x35, 0x6c]
}

/// Show the cursor: `ESC [ ? 25 h`.
pub open spec fn show_cursor_bytes() -> Seq<u8> {
    seq![ESC, CSI_OPEN, 0x3f, 0x32, 0x35, 0x68]
}

/// Carriage return and line feed.
pub open spec fn newline_bytes() -> Seq<u8> {
    seq![0x0du8, 0x0au8]
}

/// The decimal digits of `n`, in ASCII, without leading zeros.
pub open spec fn decimal(n: nat) -> Seq<u8>
    decreases n,
{
    if n < 10 {
        seq![(0x30 + n) as u8]
    } else {
        decimal(n / 10).push((0x30 + n % 10) as u8)
    }
}

/// Put the cursor on a line and column, both counted from 1:
/// `ESC [ line ; column H`.
pub open spec fn move_cursor_bytes(line: nat, column: nat) -> Seq<u8> {
    seq![ESC, CSI_OPEN] + decimal(line) + seq![0x3bu8] + decimal(column) + seq![0x48u8]
}

/// Whether the value of [`DEBUG_VARIABLE`] asks for the normal screen.
pub fn debug_enabled(value: &str) -> (debug: bool)
    ensures
        debug == (value@ == "true"@),
{
    let given = value.to_owned();
    let wanted = "true".to_owned();
    given == wanted
}

/// Appends copies of `items` to `out`.
pub fn append<T: Copy>(out: &mut Vec<T>, items: &[T])
    ensures
        final(out)@ == old(out)@ + items@,
{
    let mut i: usize = 0;
    while i < items.len()
        invariant
            i <= items@.len(),
            out@ == old(out)@ + items@.take(i as int),
        decreases items@.len() - i,
    {
        out.push(items[i]);
        assert(out@ =~= old(out)@ + items@.take(i as int + 1));
        i = i + 1;
    }
    assert(items@.take(items@.len() as int) =~= items@);
}

/// Appends the decimal digits of `n` to `out`.
pub fn push_decimal(out: &mut Vec<u8>, n: usize)
    ensures
        final(out)@ == old(out)@ + decimal(n as nat),
    decreases n,
{
    if n >= 10 {
        push_decimal(out, n / 10);
    }
    let digit: u8 = (n % 10) as u8;
    out.push(0x30 + digit);
    assert(out@ =~= old(out)@ + decimal(n as nat));
}

/// Appends what takes the terminal to the alternate screen, see
/// [`alternate_screen_bytes`].
pub fn switch_to_alternate_terminal(tty: &mut Vec<u8>)
    ensures
        final(tty)@ == old(tty)@ + alternate_screen_bytes(),
{
    let bytes: [u8; 15] = [
        0x1b, 0x5b, 0x3f, 0x31, 0x30, 0x34, 0x39, 0x68,
        0x1b, 0x5b, 0x32, 0x4a,
        0x1b, 0x5b, 0x48,
    ];
    assert(bytes@ =~= alternate_screen_bytes());
    append(tty, bytes.as_slice());
}

/// Appends what takes the terminal back to the normal screen, see
/// [`normal_screen_bytes`].
pub fn switch_to_normal_terminal(tty: &mut Vec<u8>)
    ensures
        final(tty)@ == old(tty)@ + normal_screen_bytes(),
{
    let bytes: [u8; 15] = [
        0x1b, 0x5b, 0x32, 0x4a,
        0x1b, 0x5b, 0x48,
        0x1b, 0x5b, 0x3f, 0x31, 0x30, 0x34, 0x39, 0x6c,
    ];
    assert(bytes@ =~= normal_screen_bytes());
    append(tty, bytes.as_slice());
}

/// The buffered write side of the terminal. What is written gathers here
/// until [`TerminalWriter::flush`] hands it out.
pub struct TerminalWriter {
    tty: Vec<u8>,
    debug: bool,
}

/// The writer as contracts see it.
#[verifier::ext_equal]
pub struct WriterState {
    /// The bytes written and not yet handed out.
    pub pending: Seq<u8>,
    /// Whether the session stays on the normal screen.
    pub debug: bool,
}

impl WriterState {
    /// The state with `bytes` written.
    pub open spec fn wrote(self, bytes: Seq<u8>) -> WriterState {
        WriterState { pending: self.pending + bytes, debug: self.debug }
    }
}

impl View for TerminalWriter {
    type V = WriterState;

    closed spec fn view(&self) -> WriterState {
        WriterState { pending: self.tty@, debug: self.debug }
    }
}

impl TerminalWriter {
    /// What a writer holds at the start of a session.
    pub open spec fn new_spec(debug: bool) -> Seq<u8> {
        if debug {
            Seq::empty()
        } else {
            alternate_screen_bytes()
        }
    }

    /// What the end of a session adds to what is left to write.
    pub open spec fn finish_spec(debug: bool) -> Seq<u8> {
        if debug {
            Seq::empty()
        } else {
            normal_screen_bytes()
        }
    }

    /// A writer at the start of a session. Unless `debug` is set, the first
    /// thing it holds is the switch to the alternate screen.
    pub fn new(debug: bool) -> (writer: Self)
        ensures
            writer@ == (WriterState { pending: Self::new_spec(debug), debug }),
    {
        let mut tty: Vec<u8> = Vec::new();
        if !debug {
            switch_to_alternate_terminal(&mut tty);
        }
        TerminalWriter { tty, debug }
    }

    /// Writes `buf`.
    pub fn write(&mut self, buf: &[u8])
        ensures
            final(self)@ == old(self)@.wrote(buf@),
    {
        append(&mut self.tty, buf);
    }

    /// Clears the screen and resets colours and style, see [`clear_bytes`].
    pub fn clear(&mut self)
        ensures
            final(self)@ == old(self)@.wrote(clear_bytes()),
    {
        let bytes: [u8; 21] = [
            0x1b, 0x5b, 0x32, 0x4a,
            0x1b, 0x5b, 0x48,
            0x1b, 0x5b, 0x33, 0x39, 0x6d,
            0x1b, 0x5b, 0x34, 0x39, 0x6d,
            0x1b, 0x5b, 0x30, 0x6d,
        ];
        assert(bytes@ =~= clear_bytes());
        self.write(bytes.as_slice());
    }

    /// Hides the cursor.
    pub fn hide_cursor(&mut self)
        ensures
            final(self)@ == old(self)@.wrote(hide_cursor_bytes()),
    {
        let bytes: [u8; 6] = [0x1b, 0x5b, 0x3f, 0x32, 0x35, 0x6c];
        assert(bytes@ =~= hide_cursor_bytes());
        self.write(bytes.as_slice());
    }

    /// Shows the cursor.
    pub fn show_cursor(&mut self)
        ensures
            final(self)@ == old(self)@.wrote(show_cursor_bytes()),
    {
        let bytes: [u8; 6] = [0x1b, 0x5b, 0x3f, 0x32, 0x35, 0x68];
        assert(bytes@ =~= show_cursor_bytes());
        self.write(bytes.as_slice());
    }

    /// Goes to the start of the next line.
    pub fn newline_start(&mut self)
        ensures
            final(self)@ == old(self)@.wrote(newline_bytes()),
    {
        let bytes: [u8; 2] = [0x0d, 0x0a];
        assert(bytes@ =~= newline_bytes());
        self.write(bytes.as_slice());
    }

    /// Puts the cursor on `line` and `column`, both counted from 1.
    pub fn move_cursor(&mut self, line: usize, column: usize)
        ensures
            final(self)@ == old(self)@.wrote(move_cursor_bytes(line as nat, column as nat)),
    {
        self.tty.push(ESC);
        self.tty.push(CSI_OPEN);
        push_decimal(&mut self.tty, line);
        self.tty.push(0x3b);
        push_decimal(&mut self.tty, column);
        self.tty.push(0x48);
        assert(self@ =~= old(self)@.wrote(move_cursor_bytes(line as nat, column as nat)));
    }

    /// Hands out what was written since the last flush, for the caller to
    /// put on the terminal, and starts anew.
    pub fn flush(&mut self) -> (bytes: Vec<u8>)
        ensures
            bytes@ == old(self)@.pending,
            final(self)@ == (WriterState { pending: Seq::empty(), debug: old(self)@.debug }),
    {
        let mut bytes: Vec<u8> = Vec::new();
        bytes.append(&mut self.tty);
        assert(bytes@ =~= old(self)@.pending);
        bytes
    }

    /// Ends the session: hands out what is left to write, followed, unless
    /// the session stayed on the normal screen, by the way back to it.
    pub fn finish(self) -> (bytes: Vec<u8>)
        ensures
            bytes@ == self@.pending + Self::finish_spec(self@.debug),
    {
        let mut bytes = self.tty;
        if !self.debug {
            switch_to_normal_terminal(&mut bytes);
        }
        assert(bytes@ =~= self@.pending + Self::finish_spec(self@.debug));
        bytes
    }
}

} // verus!
