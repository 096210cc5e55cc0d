//! The screen: how a frame is composed from what the components show, and
//! what the main loop does with each event.
//!
//! A frame is painted from top to bottom. A prompt takes one line: a chevron
//! and the part of the query around the cursor that fits. A data component
//! takes the lines that are left: a separator, then the output line by line,
//! long lines folded over several rows, until the rows run out.

use crate::ansi::{truncate_visible, visible_len, visible_length, visible_prefix};
use crate::component::{
    Component,
    ComponentData,
    ComponentDataOut,
    ComponentPrompt,
    ComponentPromptOut,
    ComponentRenderOut,
};
use crate::event::TerminalRendererEvent;
use crate::input::TerminalInput;
use crate::prompt::text_of;
use crate::writer::{
    clear_bytes,
    hide_cursor_bytes,
    move_cursor_bytes,
    newline_bytes,
    show_cursor_bytes,
    TerminalWriter,
    WriterState,
};
use vstd::prelude::*;
use vstd::string::StringSliceAdditionalSpecFns;
use vstd::utf8::encode_utf8;

verus! {

/// The size of the terminal window, in character cells.
#[derive(Debug, Clone, Copy, PartialEq, Eq, Structural)]
pub struct WindowSize {
    pub rows: u16,
    pub cols: u16,
}

/// What a frame keeps track of while it is painted.
#[derive(Debug, Clone, Copy, PartialEq, Eq, Structural)]
pub struct TerminalRenderState {
    /// The rows not yet painted.
    pub left_lines: usize,
    /// Where the cursor goes once the frame is painted, counted from 1.
    pub cursor_line: usize,
    pub cursor_col: usize,
}

impl TerminalRenderState {
    /// The state at the top of a frame: all rows are left, and the cursor
    /// goes to the upper left corner.
    pub fn new(size: &WindowSize) -> (state: Self)
        ensures
            state == initial_state(*size),
    {
        TerminalRenderState { left_lines: size.rows as usize, cursor_line: 1, cursor_col: 1 }
    }
}

/// The state at the top of a frame.
pub open spec fn initial_state(size: WindowSize) -> TerminalRenderState {
    TerminalRenderState { left_lines: size.rows as usize, cursor_line: 1, cursor_col: 1 }
}

/// The number of columns that the chevron takes.
pub const CHEVRON_LEN: usize = 2;

/// The chevron that a prompt line begins with: `> `.
pub open spec fn chevron_bytes() -> Seq<u8> {
    seq![0x3eu8, 0x20u8]
}

/// The part of `source` shown in a window of `size` characters when the
/// cursor stands at `index`: the start of `source` while the cursor is within
/// the first `size` characters, and else the `size` characters before the
/// cursor.
pub open spec fn window_of(source: Seq<char>, size: int, index: int) -> Seq<char> {
    if index < size {
        source.take(
            if size < source.len() {
                size
            } else {
                source.len() as int
            },
        )
    } else {
        source.subrange(index - size, index)
    }
}

/// The columns left for the query on a prompt line: what the chevron leaves
/// of the window's width.
pub open spec fn query_columns(size: WindowSize) -> int {
    if size.cols >= CHEVRON_LEN {
        size.cols - CHEVRON_LEN
    } else {
        0
    }
}

/// What a prompt writes: the chevron and the window of the query, in UTF-8.
pub open spec fn prompt_bytes(out: ComponentPromptOut, size: WindowSize) -> Seq<u8> {
    chevron_bytes() + encode_utf8(
        window_of(out.query@, query_columns(size), out.cursor_index as int),
    )
}

/// The state behind a prompt: one row is taken, and the cursor goes to the
/// first line, to the column of the cursor's index in the query plus the
/// chevron's width plus one.
pub open spec fn prompt_state(
    out: ComponentPromptOut,
    state: TerminalRenderState,
) -> TerminalRenderState {
    TerminalRenderState {
        left_lines: if state.left_lines > 0 {
            (state.left_lines - 1) as usize
        } else {
            0
        },
        cursor_line: 1,
        cursor_col: if out.cursor_index + CHEVRON_LEN + 1 <= usize::MAX {
            (out.cursor_index + CHEVRON_LEN + 1) as usize
        } else {
            usize::MAX
        },
    }
}

/// The separator above the output: one box-drawing dash, U+2500, for each
/// column.
pub open spec fn separator_bytes(cols: nat) -> Seq<u8>
    decreases cols,
{
    if cols == 0 {
        Seq::empty()
    } else {
        separator_bytes((cols - 1) as nat) + seq![0xe2u8, 0x94u8, 0x80u8]
    }
}

/// The index of the first line feed in `bytes`, or the length of `bytes`
/// where there is none.
pub open spec fn first_newline(bytes: Seq<u8>) -> nat
    decreases bytes.len(),
{
    if bytes.len() == 0 || bytes[0] == 0x0a {
        0
    } else {
        1 + first_newline(bytes.drop_first())
    }
}

/// `bytes` without its carriage returns.
pub open spec fn without_cr(bytes: Seq<u8>) -> Seq<u8> {
    bytes.filter(|b: u8| b != 0x0d)
}

/// The rows that a line of `width` visible bytes takes on a screen of `cols`
/// columns: `width / cols`, rounded up, and at least one. A screen without
/// columns gives every line one row.
pub open spec fn line_rows(width: nat, cols: nat) -> nat {
    if width == 0 || cols == 0 {
        1
    } else {
        ((width - 1) / (cols as int) + 1) as nat
    }
}

/// What is written of a line when `left` rows are left: the whole line if it
/// fits into them, and else as much of it as fills them.
pub open spec fn shown_line(line: Seq<u8>, cols: nat, left: nat) -> Seq<u8> {
    if line_rows(visible_len(line), cols) <= left {
        line
    } else {
        visible_prefix(line, cols * left)
    }
}

/// The rows left behind a line.
pub open spec fn left_after_line(line: Seq<u8>, cols: nat, left: nat) -> nat {
    if line_rows(visible_len(line), cols) <= left {
        (left - line_rows(visible_len(line), cols)) as nat
    } else {
        0
    }
}

/// What is written of the output `data`, cut at line feeds into lines, when
/// `left` rows are left: each line behind a line break, until the lines or
/// the rows run out. Output that ends in a line feed ends in an empty line.
pub open spec fn lines_bytes(data: Seq<u8>, cols: nat, left: nat) -> Seq<u8>
    decreases data.len(),
{
    if left == 0 {
        Seq::empty()
    } else {
        let end = first_newline(data);
        let line = without_cr(data.take(end as int));
        let head = newline_bytes() + shown_line(line, cols, left);
        if end < data.len() {
            head + lines_bytes(data.skip(end as int + 1), cols, left_after_line(line, cols, left))
        } else {
            head
        }
    }
}

/// The rows left behind the output.
pub open spec fn lines_left(data: Seq<u8>, cols: nat, left: nat) -> nat
    decreases data.len(),
{
    if left == 0 {
        0
    } else {
        let end = first_newline(data);
        let line = without_cr(data.take(end as int));
        if end < data.len() {
            lines_left(data.skip(end as int + 1), cols, left_after_line(line, cols, left))
        } else {
            left_after_line(line, cols, left)
        }
    }
}

/// The rows left for the output below the separator.
pub open spec fn rows_below_separator(state: TerminalRenderState) -> nat {
    if state.left_lines > 0 {
        (state.left_lines - 1) as nat
    } else {
        0
    }
}

/// What a data component writes: a line break, the separator, and the lines
/// of the output.
pub open spec fn data_bytes(
    out: ComponentDataOut,
    size: WindowSize,
    state: TerminalRenderState,
) -> Seq<u8> {
    newline_bytes() + separator_bytes(size.cols as nat) + lines_bytes(
        out.0@,
        size.cols as nat,
        rows_below_separator(state),
    )
}

/// The state behind a data component: the rows that the separator and the
/// lines took are gone, the cursor is where it was.
pub open spec fn data_state(
    out: ComponentDataOut,
    size: WindowSize,
    state: TerminalRenderState,
) -> TerminalRenderState {
    TerminalRenderState {
        left_lines: lines_left(out.0@, size.cols as nat, rows_below_separator(state)) as usize,
        cursor_line: state.cursor_line,
        cursor_col: state.cursor_col,
    }
}

/// What one component writes.
pub open spec fn component_bytes(
    out: ComponentRenderOut,
    size: WindowSize,
    state: TerminalRenderState,
) -> Seq<u8> {
    match out {
        ComponentRenderOut::Prompt(prompt) => prompt_bytes(prompt, size),
        ComponentRenderOut::Data(data) => data_bytes(data, size, state),
    }
}

/// The state behind one component.
pub open spec fn component_state(
    out: ComponentRenderOut,
    size: WindowSize,
    state: TerminalRenderState,
) -> TerminalRenderState {
    match out {
        ComponentRenderOut::Prompt(prompt) => prompt_state(prompt, state),
        ComponentRenderOut::Data(data) => data_state(data, size, state),
    }
}

/// What the components write one after another, from the top of a frame.
pub open spec fn painted_bytes(outs: Seq<ComponentRenderOut>, size: WindowSize) -> Seq<u8>
    decreases outs.len(),
{
    if outs.len() == 0 {
        Seq::empty()
    } else {
        painted_bytes(outs.drop_last(), size) + component_bytes(
            outs.last(),
            size,
            painted_state(outs.drop_last(), size),
        )
    }
}

/// The state behind the components, from the top of a frame.
pub open spec fn painted_state(outs: Seq<ComponentRenderOut>, size: WindowSize) -> TerminalRenderState
    decreases outs.len(),
{
    if outs.len() == 0 {
        initial_state(size)
    } else {
        component_state(outs.last(), size, painted_state(outs.drop_last(), size))
    }
}

/// A whole frame: the screen cleared and the cursor hidden, the components
/// from top to bottom, and at last the cursor put where the prompt wants it
/// and shown again.
pub open spec fn frame_bytes(outs: Seq<ComponentRenderOut>, size: WindowSize) -> Seq<u8> {
    clear_bytes() + hide_cursor_bytes() + painted_bytes(outs, size) + move_cursor_bytes(
        painted_state(outs, size).cursor_line as nat,
        painted_state(outs, size).cursor_col as nat,
    ) + show_cursor_bytes()
}

/// Every prompt among `outs` has its cursor within its query.
pub open spec fn outs_wf(outs: Seq<ComponentRenderOut>) -> bool {
    forall|i: int|
        0 <= i < outs.len() ==> ((#[trigger] outs[i]) matches ComponentRenderOut::Prompt(prompt)
            ==> prompt.wf())
}

/// `outs` may be what `components` give to be shown: one for each, in their
/// order, and each what its component says that it shows.
pub open spec fn outs_match<P: ComponentPrompt, D: ComponentData>(
    outs: Seq<ComponentRenderOut>,
    components: Seq<Component<P, D>>,
) -> bool {
    &&& outs.len() == components.len()
    &&& forall|i: int|
        0 <= i < outs.len() ==> match #[trigger] components[i] {
            Component::Prompt(prompt) => outs[i] matches ComponentRenderOut::Prompt(out)
                && prompt.shows(out),
            Component::Data(data) => outs[i] matches ComponentRenderOut::Data(out) && data.shows(
                out,
            ),
        }
}

/// The first `k` bytes of `bytes` hold no line feed, and a line feed or the
/// end follows them: then the first line feed is at `k`.
proof fn lemma_first_newline_is(bytes: Seq<u8>, k: int)
    requires
        0 <= k <= bytes.len(),
        forall|j: int| 0 <= j < k ==> bytes[j] != 0x0a,
        k < bytes.len() ==> bytes[k] == 0x0a,
    ensures
        first_newline(bytes) == k,
    decreases k,
{
    if k > 0 {
        let rest = bytes.drop_first();
        assert forall|j: int| 0 <= j < k - 1 implies rest[j] != 0x0a by {
            assert(rest[j] == bytes[j + 1]);
        }
        lemma_first_newline_is(rest, k - 1);
    }
}

/// The index at which the line that begins at `start` ends: that of the next
/// line feed, or the length of `data`.
pub fn find_line_end(data: &[u8], start: usize) -> (end: usize)
    requires
        start <= data@.len(),
    ensures
        start <= end <= data@.len(),
        end == start + first_newline(data@.skip(start as int)),
{
    let mut end = start;
    while end < data.len() && data[end] != 0x0a
        invariant
            start <= end <= data@.len(),
            forall|j: int| start <= j < end ==> data@[j] != 0x0a,
        decreases data@.len() - end,
    {
        end = end + 1;
    }
    proof {
        let rest = data@.skip(start as int);
        assert forall|j: int| 0 <= j < end - start implies rest[j] != 0x0a by {
            assert(rest[j] == data@[start + j]);
        }
        lemma_first_newline_is(rest, end - start);
    }
    end
}

/// A copy of `bytes` without its carriage returns.
pub fn strip_cr(bytes: &[u8]) -> (line: Vec<u8>)
    ensures
        line@ == without_cr(bytes@),
{
    let mut line: Vec<u8> = Vec::new();
    let mut i: usize = 0;
    proof {
        reveal(Seq::filter);
        assert(bytes@.take(0) =~= Seq::<u8>::empty());
    }
    while i < bytes.len()
        invariant
            i <= bytes@.len(),
            line@ == without_cr(bytes@.take(i as int)),
        decreases bytes@.len() - i,
    {
        let b = bytes[i];
        proof {
            reveal(Seq::filter);
            let next = bytes@.take(i as int + 1);
            assert(next.drop_last() =~= bytes@.take(i as int));
            assert(next.last() == b);
        }
        if b != 0x0d {
            line.push(b);
        }
        i = i + 1;
    }
    proof {
        assert(bytes@.take(bytes@.len() as int) =~= bytes@);
    }
    line
}

/// The rows that a line of `width` visible bytes takes on a screen of `cols`
/// columns.
pub fn rows_for(width: usize, cols: u16) -> (rows: usize)
    ensures
        rows == line_rows(width as nat, cols as nat),
        rows >= 1,
{
    if width == 0 || cols == 0 {
        1
    } else {
        let full = (width - 1) / (cols as usize);
        assert(full <= width - 1) by (nonlinear_arith)
            requires
                full == (width - 1) / (cols as int),
                cols >= 1,
                width >= 1,
        ;
        full + 1
    }
}

/// Paints frames and takes the events of the main loop.
pub struct TerminalRenderer<P, D> {
    /// The components, from the top of the screen down.
    pub components: Vec<Component<P, D>>,
    /// The size of the window as it was last read.
    pub size: WindowSize,
    pub terminal_writer: TerminalWriter,
}

/// What the main loop does after an event.
#[derive(Debug, PartialEq, Eq)]
pub enum Dispatch {
    /// Read the size of the window again and hand it to
    /// [`TerminalRenderer::handle_size`]; then paint.
    Resize,
    /// Send the queries given, in their order, to the supervisor; then paint.
    Paint(Vec<String>),
    /// Leave the loop. Where a keystroke ended it, this is the keystroke.
    Exit(Option<TerminalInput>),
}

impl<P, D> TerminalRenderer<P, D> {
    /// Takes the size of the window as it is now.
    pub fn handle_size(&mut self, size: WindowSize)
        ensures
            final(self).size == size,
            final(self).components == old(self).components,
            final(self).terminal_writer == old(self).terminal_writer,
    {
        self.size = size;
    }

    /// The part of `source` that a window of `size` characters shows when the
    /// cursor stands at `index`.
    pub fn window_str(source: &[char], size: usize, index: usize) -> (window: &[char])
        requires
            index <= source@.len(),
        ensures
            window@ == window_of(source@, size as int, index as int),
    {
        if index < size {
            let end = if size < source.len() {
                size
            } else {
                source.len()
            };
            &source[0..end]
        } else {
            &source[(index - size)..index]
        }
    }

    /// Paints a prompt: writes [`prompt_bytes`] and leaves [`prompt_state`].
    /// A window too narrow for the chevron shows nothing of the query.
    pub fn render_component_prompt(
        &mut self,
        out: &ComponentPromptOut,
        state: &mut TerminalRenderState,
    )
        requires
            out.wf(),
        ensures
            final(self).terminal_writer@.pending == old(self).terminal_writer@.pending + prompt_bytes(
                *out,
                old(self).size,
            ),
            final(self).terminal_writer@.debug == old(self).terminal_writer@.debug,
            final(self).size == old(self).size,
            final(self).components == old(self).components,
            *final(state) == prompt_state(*out, *old(state)),
    {
        state.left_lines = state.left_lines.saturating_sub(1);
        let cols: usize = (self.size.cols as usize).saturating_sub(CHEVRON_LEN);
        let chevron: [u8; 2] = [0x3e, 0x20];
        assert(chevron@ =~= chevron_bytes());
        self.terminal_writer.write(chevron.as_slice());

        let window = Self::window_str(out.query.as_slice(), cols, out.cursor_index);
        let text = text_of(window);
        self.terminal_writer.write(text.as_str().as_bytes());

        state.cursor_line = 1;
        state.cursor_col = out.cursor_index.saturating_add(CHEVRON_LEN + 1);
        assert(final(self).terminal_writer@.pending =~= old(self).terminal_writer@.pending + prompt_bytes(
            *out,
            old(self).size,
        ));
    }

    /// Writes the separator.
    fn write_separator(&mut self)
        ensures
            final(self).terminal_writer@.pending == old(self).terminal_writer@.pending + separator_bytes(
                old(self).size.cols as nat,
            ),
            final(self).terminal_writer@.debug == old(self).terminal_writer@.debug,
            final(self).size == old(self).size,
            final(self).components == old(self).components,
    {
        let dash: [u8; 3] = [0xe2, 0x94, 0x80];
        let mut i: u16 = 0;
        assert(self.terminal_writer@.pending =~= old(self).terminal_writer@.pending + separator_bytes(0));
        while i < self.size.cols
            invariant
                i <= self.size.cols,
                dash@ == seq![0xe2u8, 0x94u8, 0x80u8],
                self.terminal_writer@.pending == old(self).terminal_writer@.pending + separator_bytes(i as nat),
                self.terminal_writer@.debug == old(self).terminal_writer@.debug,
                self.size == old(self).size,
                self.components == old(self).components,
            decreases self.size.cols - i,
        {
            self.terminal_writer.write(dash.as_slice());
            i = i + 1;
            assert(self.terminal_writer@.pending =~= old(self).terminal_writer@.pending + separator_bytes(
                i as nat,
            ));
        }
    }

    /// Paints a data component: writes [`data_bytes`] and leaves
    /// [`data_state`].
    pub fn render_component_data(
        &mut self,
        out: &ComponentDataOut,
        state: &mut TerminalRenderState,
    )
        ensures
            final(self).terminal_writer@.pending == old(self).terminal_writer@.pending + data_bytes(
                *out,
                old(self).size,
                *old(state),
            ),
            final(self).terminal_writer@.debug == old(self).terminal_writer@.debug,
            final(self).size == old(self).size,
            final(self).components == old(self).components,
            *final(state) == data_state(*out, old(self).size, *old(state)),
    {
        self.terminal_writer.newline_start();
        let mut left: usize = state.left_lines.saturating_sub(1);
        self.write_separator();

        let cols: u16 = self.size.cols;
        let data = out.0.as_slice();
        let ghost before = self.terminal_writer@.pending;
        let ghost rows = left as nat;
        let mut pos: usize = 0;
        let mut more = true;
        assert(data@.skip(0) =~= data@);
        while left > 0 && more
            invariant
                pos <= data@.len(),
                cols == self.size.cols,
                data@ == out.0@,
                before + lines_bytes(data@, cols as nat, rows) == self.terminal_writer@.pending + if more {
                    lines_bytes(data@.skip(pos as int), cols as nat, left as nat)
                } else {
                    Seq::<u8>::empty()
                },
                lines_left(data@, cols as nat, rows) == if more {
                    lines_left(data@.skip(pos as int), cols as nat, left as nat)
                } else {
                    left as nat
                },
                self.terminal_writer@.debug == old(self).terminal_writer@.debug,
                self.size == old(self).size,
                self.components == old(self).components,
            decreases
                    data@.len() - pos + if more {
                        1nat
                    } else {
                        0nat
                    },
        {
            let ghost rest = data@.skip(pos as int);
            let ghost written = self.terminal_writer@.pending;
            let ghost had = left as nat;
            let end = find_line_end(data, pos);
            let line = strip_cr(&data[pos..end]);
            proof {
                assert(data@.subrange(pos as int, end as int) =~= rest.take(end - pos));
                if end < data@.len() {
                    assert(rest.skip(end - pos + 1) =~= data@.skip(end as int + 1));
                }
            }
            let width = visible_length(line.as_slice());
            let needed = rows_for(width, cols);
            self.terminal_writer.newline_start();
            if needed <= left {
                self.terminal_writer.write(line.as_slice());
                left = left - needed;
            } else {
                assert((cols as int) * (left as int) <= width - 1) by (nonlinear_arith)
                    requires
                        (width - 1) / (cols as int) + 1 > left,
                        cols >= 1,
                        width >= 1,
                        left >= 0,
                ;
                let budget: usize = (cols as usize) * left;
                let shown = truncate_visible(line.as_slice(), budget);
                self.terminal_writer.write(shown);
                left = 0;
            }
            if end < data.len() {
                pos = end + 1;
            } else {
                more = false;
            }
            proof {
                let head = newline_bytes() + shown_line(line@, cols as nat, had);
                assert(self.terminal_writer@.pending =~= written + head);
                assert(left as nat == left_after_line(line@, cols as nat, had));
                if more {
                    assert(written + lines_bytes(rest, cols as nat, had) =~= self.terminal_writer@.pending
                        + lines_bytes(data@.skip(pos as int), cols as nat, left as nat));
                } else {
                    assert(written + lines_bytes(rest, cols as nat, had) =~= self.terminal_writer@.pending
                        + Seq::<u8>::empty());
                }
            }
        }
        state.left_lines = left;
        assert(final(self).terminal_writer@.pending =~= old(self).terminal_writer@.pending + data_bytes(
            *out,
            old(self).size,
            *old(state),
        ));
    }
}

/// Whether `input` may take one component from `before` to `after` and have
/// `emitted` returned: a prompt says so itself, a data component takes no
/// keystroke.
pub open spec fn took<P: ComponentPrompt, D>(
    before: Component<P, D>,
    input: TerminalInput,
    after: Component<P, D>,
    emitted: Option<String>,
) -> bool {
    match before {
        Component::Prompt(prompt) => after matches Component::Prompt(next) && prompt.takes(
            input,
            &next,
            emitted,
        ),
        Component::Data(_) => after == before && emitted is None,
    }
}

/// Whether `input` may take the components from `before` to `after`, each
/// in its place, and have them return `emitted`.
pub open spec fn took_all<P: ComponentPrompt, D>(
    before: Seq<Component<P, D>>,
    input: TerminalInput,
    after: Seq<Component<P, D>>,
    emitted: Seq<Option<String>>,
) -> bool {
    &&& after.len() == before.len()
    &&& emitted.len() == before.len()
    &&& forall|i: int|
        0 <= i < before.len() ==> took(before[i], input, after[i], #[trigger] emitted[i])
}

/// The queries among what the components returned, in their order.
pub open spec fn emitted_queries(emitted: Seq<Option<String>>) -> Seq<String>
    decreases emitted.len(),
{
    if emitted.len() == 0 {
        Seq::empty()
    } else {
        match emitted.last() {
            Some(query) => emitted_queries(emitted.drop_last()).push(query),
            None => emitted_queries(emitted.drop_last()),
        }
    }
}

impl<P: ComponentPrompt, D: ComponentData> TerminalRenderer<P, D> {
    /// Every prompt among the components is valid.
    pub open spec fn wf(&self) -> bool {
        forall|i: int|
            0 <= i < self.components@.len() ==> ((#[trigger] self.components@[i]) matches Component::Prompt(
                prompt,
            ) ==> prompt.valid())
    }

    /// A renderer at the start of a session, for a window of the given size.
    /// Unless `debug` is set, the first frame is preceded by the switch to
    /// the alternate screen.
    pub fn new(components: Vec<Component<P, D>>, size: WindowSize, debug: bool) -> (renderer: Self)
        ensures
            renderer.components == components,
            renderer.size == size,
            renderer.terminal_writer@ == (WriterState {
                pending: TerminalWriter::new_spec(debug),
                debug,
            }),
    {
        TerminalRenderer { components, size, terminal_writer: TerminalWriter::new(debug) }
    }

    /// Asks every component what it shows.
    pub fn render_all(&self) -> (outs: Vec<ComponentRenderOut>)
        requires
            self.wf(),
        ensures
            outs_match(outs@, self.components@),
            outs_wf(outs@),
    {
        let mut outs: Vec<ComponentRenderOut> = Vec::new();
        let mut i: usize = 0;
        while i < self.components.len()
            invariant
                i <= self.components@.len(),
                self.wf(),
                outs_match(outs@, self.components@.take(i as int)),
                outs_wf(outs@),
            decreases self.components@.len() - i,
        {
            let out = match &self.components[i] {
                Component::Prompt(prompt) => ComponentRenderOut::Prompt(prompt.render()),
                Component::Data(data) => ComponentRenderOut::Data(data.render()),
            };
            outs.push(out);
            i = i + 1;
        }
        assert(self.components@.take(i as int) =~= self.components@);
        outs
    }

    /// Paints one frame from what the components gave, and hands out the
    /// bytes to put on the terminal: whatever was written before, and
    /// [`frame_bytes`].
    pub fn draw(&mut self, rendered: &Vec<ComponentRenderOut>) -> (frame: Vec<u8>)
        requires
            outs_wf(rendered@),
        ensures
            frame@ == old(self).terminal_writer@.pending + frame_bytes(rendered@, old(self).size),
            final(self).terminal_writer@.pending == Seq::<u8>::empty(),
            final(self).terminal_writer@.debug == old(self).terminal_writer@.debug,
            final(self).size == old(self).size,
            final(self).components == old(self).components,
    {
        self.terminal_writer.clear();
        self.terminal_writer.hide_cursor();
        let ghost top = self.terminal_writer@.pending;
        let mut state = TerminalRenderState::new(&self.size);
        let mut i: usize = 0;
        assert(rendered@.take(0) =~= Seq::<ComponentRenderOut>::empty());
        while i < rendered.len()
            invariant
                i <= rendered@.len(),
                outs_wf(rendered@),
                self.terminal_writer@.pending == top + painted_bytes(rendered@.take(i as int), self.size),
                state == painted_state(rendered@.take(i as int), self.size),
                self.terminal_writer@.debug == old(self).terminal_writer@.debug,
                self.size == old(self).size,
                self.components == old(self).components,
            decreases rendered@.len() - i,
        {
            proof {
                let next = rendered@.take(i as int + 1);
                assert(next.drop_last() =~= rendered@.take(i as int));
                assert(next.last() == rendered@[i as int]);
            }
            match &rendered[i] {
                ComponentRenderOut::Prompt(out) => self.render_component_prompt(out, &mut state),
                ComponentRenderOut::Data(out) => self.render_component_data(out, &mut state),
            }
            i = i + 1;
            assert(self.terminal_writer@.pending =~= top + painted_bytes(
                rendered@.take(i as int),
                self.size,
            ));
        }
        assert(rendered@.take(rendered@.len() as int) =~= rendered@);
        self.terminal_writer.move_cursor(state.cursor_line, state.cursor_col);
        self.terminal_writer.show_cursor();
        let frame = self.terminal_writer.flush();
        assert(frame@ =~= old(self).terminal_writer@.pending + frame_bytes(rendered@, old(self).size));
        frame
    }

    /// Paints one frame: asks every component what it shows and draws that.
    /// What the components give is theirs to say; the frame is
    /// [`frame_bytes`] of it.
    pub fn rerender(&mut self) -> (frame: Vec<u8>)
        requires
            old(self).wf(),
        ensures
            exists|outs: Seq<ComponentRenderOut>|
                outs_match(outs, old(self).components@) && outs_wf(outs) && frame@ == old(
                    self,
                ).terminal_writer@.pending + #[trigger] frame_bytes(outs, old(self).size),
            final(self).terminal_writer@.pending == Seq::<u8>::empty(),
            final(self).terminal_writer@.debug == old(self).terminal_writer@.debug,
            final(self).size == old(self).size,
            final(self).components == old(self).components,
    {
        let rendered = self.render_all();
        self.draw(&rendered)
    }

    /// Takes one event of the main loop and says how the loop goes on.
    ///
    /// A resize asks for the size to be read again; a redraw only for the
    /// next frame; a quit ends the loop. A keystroke for which `stop` holds
    /// ends the loop and reaches no component; any other keystroke goes to
    /// every prompt, from the top down, and what the prompts emit is
    /// returned in that order.
    pub fn handle_event<F: FnMut(&TerminalInput) -> bool>(
        &mut self,
        event: TerminalRendererEvent,
        stop: &mut F,
    ) -> (dispatch: Dispatch)
        requires
            old(self).wf(),
            forall|input: TerminalInput| call_requires(*old(stop), (&input,)),
        ensures
            final(self).wf(),
            final(self).size == old(self).size,
            final(self).terminal_writer == old(self).terminal_writer,
            (match event {
                TerminalRendererEvent::Resize => dispatch is Resize && final(self).components
                    == old(self).components,
                TerminalRendererEvent::Redraw => dispatch matches Dispatch::Paint(queries)
                    && queries@.len() == 0 && final(self).components == old(self).components,
                TerminalRendererEvent::Quit => dispatch == Dispatch::Exit(None)
                    && final(self).components == old(self).components,
                TerminalRendererEvent::Input(input) => match dispatch {
                    Dispatch::Exit(by) => by == Some(input) && call_ensures(
                        *old(stop),
                        (&input,),
                        true,
                    ) && final(self).components == old(self).components,
                    Dispatch::Paint(queries) => call_ensures(*old(stop), (&input,), false)
                        && exists|emitted: Seq<Option<String>>|
                        #[trigger] took_all(
                            old(self).components@,
                            input,
                            final(self).components@,
                            emitted,
                        ) && queries@ == emitted_queries(emitted),
                    Dispatch::Resize => false,
                },
            }),
    {
        match event {
            TerminalRendererEvent::Resize => Dispatch::Resize,
            TerminalRendererEvent::Redraw => Dispatch::Paint(Vec::new()),
            TerminalRendererEvent::Quit => Dispatch::Exit(None),
            TerminalRendererEvent::Input(input) => {
                if stop(&input) {
                    return Dispatch::Exit(Some(input));
                }
                let mut queries: Vec<String> = Vec::new();
                let ghost mut emitted: Seq<Option<String>> = Seq::empty();
                let mut i: usize = 0;
                while i < self.components.len()
                    invariant
                        i <= self.components@.len(),
                        self.components@.len() == old(self).components@.len(),
                        self.wf(),
                        took_all(
                            old(self).components@.take(i as int),
                            input,
                            self.components@.take(i as int),
                            emitted,
                        ),
                        forall|j: int|
                            i <= j < self.components@.len() ==> self.components@[j] == old(
                                self,
                            ).components@[j],
                        queries@ == emitted_queries(emitted),
                        self.size == old(self).size,
                        self.terminal_writer == old(self).terminal_writer,
                    decreases self.components@.len() - i,
                {
                    let ghost before = self.components@;
                    let ghost sent = emitted;
                    let mut given: Option<String> = None;
                    match &mut self.components[i] {
                        Component::Prompt(prompt) => {
                            given = prompt.input(&input);
                        },
                        Component::Data(_) => {},
                    }
                    proof {
                        emitted = sent.push(given);
                        assert(emitted.drop_last() =~= sent);
                        let old_now = old(self).components@.take(i as int + 1);
                        let new_now = self.components@.take(i as int + 1);
                        assert forall|j: int| 0 <= j < old_now.len() implies took(
                            old_now[j],
                            input,
                            new_now[j],
                            #[trigger] emitted[j],
                        ) by {
                            if j < i {
                                assert(old(self).components@.take(i as int)[j] == old_now[j]);
                                assert(before.take(i as int)[j] == new_now[j]);
                                assert(sent[j] == emitted[j]);
                            }
                        }
                    }
                    match given {
                        Some(query) => queries.push(query),
                        None => {},
                    }
                    i = i + 1;
                }
                proof {
                    assert(old(self).components@.take(i as int) =~= old(self).components@);
                    assert(self.components@.take(i as int) =~= self.components@);
                }
                Dispatch::Paint(queries)
            },
        }
    }

    /// Ends the session: gives the components back, and the bytes that are
    /// left to put on the terminal, the way back to the normal screen last
    /// unless the session stayed on it.
    pub fn finish(self) -> (end: (Vec<Component<P, D>>, Vec<u8>))
        ensures
            end.0 == self.components,
            end.1@ == self.terminal_writer@.pending + TerminalWriter::finish_spec(
                self.terminal_writer@.debug,
            ),
    {
        let bytes = self.terminal_writer.finish();
        (self.components, bytes)
    }
}

} // verus!
