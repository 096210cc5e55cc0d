//! The query line: a sequence of characters and a cursor in it.

use crate::component::{ComponentPrompt, ComponentPromptOut};
use crate::input::{TerminalEscape, TerminalInput};
use crate::writer::append;
use vstd::prelude::*;

verus! {

/// `String::push` of the standard library appends one character to the end
/// of the string.
pub assume_specification[ String::push ](s: &mut String, ch: char)
    ensures
        final(s)@ == old(s)@.push(ch),
;

/// The query as contracts see it.
#[verifier::ext_equal]
pub struct Query {
    pub chars: Seq<char>,
    pub cursor: int,
}

/// One edit of the query.
pub enum Edit {
    /// A character typed at the cursor.
    Insert(char),
    /// The character before the cursor erased.
    Delete,
    /// The cursor moved by so many columns, to the right if positive.
    Move(int),
}

impl Query {
    /// The cursor stands within the characters or right behind them.
    pub open spec fn wf(self) -> bool {
        0 <= self.cursor <= self.chars.len()
    }

    /// The empty query.
    pub open spec fn empty() -> Query {
        Query { chars: Seq::empty(), cursor: 0 }
    }

    /// `ch` put in at the cursor, the cursor behind it.
    pub open spec fn insert(self, ch: char) -> Query {
        Query { chars: self.chars.insert(self.cursor, ch), cursor: self.cursor + 1 }
    }

    /// The character before the cursor taken out, if there is one.
    pub open spec fn delete(self) -> Query {
        if self.cursor > 0 {
            Query { chars: self.chars.remove(self.cursor - 1), cursor: self.cursor - 1 }
        } else {
            self
        }
    }

    /// The cursor moved by `columns`, and held within the query.
    pub open spec fn move_by(self, columns: int) -> Query {
        let target = self.cursor + columns;
        Query {
            chars: self.chars,
            cursor: if target < 0 {
                0
            } else if target > self.chars.len() {
                self.chars.len() as int
            } else {
                target
            },
        }
    }

    /// The query after one edit.
    pub open spec fn apply(self, edit: Edit) -> Query {
        match edit {
            Edit::Insert(ch) => self.insert(ch),
            Edit::Delete => self.delete(),
            Edit::Move(columns) => self.move_by(columns),
        }
    }

    /// What an edit sends to the supervisor: the whole new query, where the
    /// edit changed the characters.
    pub open spec fn emitted(self, edit: Edit) -> Option<Seq<char>> {
        match edit {
            Edit::Insert(ch) => Some(self.insert(ch).chars),
            Edit::Delete => if self.cursor > 0 {
                Some(self.delete().chars)
            } else {
                None
            },
            Edit::Move(_) => None,
        }
    }

    /// The query after a run of edits.
    pub open spec fn apply_all(self, edits: Seq<Edit>) -> Query
        decreases edits.len(),
    {
        if edits.len() == 0 {
            self
        } else {
            self.apply_all(edits.drop_last()).apply(edits.last())
        }
    }
}

/// The edit that a keystroke makes, if it makes one: a printable byte is
/// typed as the character of that number, delete erases, and the plain arrows
/// move the cursor by one.
pub open spec fn edit_of(input: TerminalInput) -> Option<Edit> {
    match input {
        TerminalInput::Delete => Some(Edit::Delete),
        TerminalInput::Printable(b) => Some(Edit::Insert(b as char)),
        TerminalInput::Escape(TerminalEscape::LeftArrow) => Some(Edit::Move(-1)),
        TerminalInput::Escape(TerminalEscape::RightArrow) => Some(Edit::Move(1)),
        _ => None,
    }
}

/// Whatever edits are made, in whatever order, the cursor stays within the
/// query, and what an edit sends is the query as it stands after the edit.
pub proof fn lemma_edits_keep_cursor_in_query(start: Query, edits: Seq<Edit>, next: Edit)
    requires
        start.wf(),
    ensures
        start.apply_all(edits).wf(),
        start.apply_all(edits).apply(next).wf(),
        start.apply_all(edits).emitted(next) matches Some(sent) ==> sent == start.apply_all(
            edits,
        ).apply(next).chars,
    decreases edits.len(),
{
    if edits.len() > 0 {
        lemma_edits_keep_cursor_in_query(start, edits.drop_last(), edits.last());
    }
}

/// The string made of `chars`.
pub fn text_of(chars: &[char]) -> (text: String)
    ensures
        text@ == chars@,
{
    let mut text = String::new();
    let mut i: usize = 0;
    while i < chars.len()
        invariant
            i <= chars@.len(),
            text@ == chars@.take(i as int),
        decreases chars@.len() - i,
    {
        text.push(chars[i]);
        assert(text@ =~= chars@.take(i as int + 1));
        i = i + 1;
    }
    assert(chars@.take(chars@.len() as int) =~= chars@);
    text
}

/// The query line that the user edits.
pub struct UiPrompt {
    cursor_index: usize,
    query: Vec<char>,
}

impl View for UiPrompt {
    type V = Query;

    closed spec fn view(&self) -> Query {
        Query { chars: self.query@, cursor: self.cursor_index as int }
    }
}

impl UiPrompt {
    /// The cursor stands within the query. Every prompt that the functions
    /// of this type make or change is so.
    pub open spec fn wf(&self) -> bool {
        self@.wf()
    }

    /// The empty query.
    pub fn new() -> (prompt: Self)
        ensures
            prompt@ == Query::empty(),
            prompt.wf(),
    {
        UiPrompt { cursor_index: 0, query: Vec::new() }
    }

    /// The characters of the query as a string.
    pub fn get_string(&self) -> (text: String)
        ensures
            text@ == self@.chars,
    {
        text_of(self.query.as_slice())
    }

    /// Where the cursor stands.
    pub fn cursor(&self) -> (cursor: usize)
        ensures
            cursor == self@.cursor,
    {
        self.cursor_index
    }

    /// Moves the cursor by `columns`, to the right if positive, and holds it
    /// within the query.
    pub fn move_cursor(&mut self, columns: isize)
        requires
            old(self).wf(),
        ensures
            final(self)@ == old(self)@.move_by(columns as int),
            final(self).wf(),
    {
        let target: i128 = self.cursor_index as i128 + columns as i128;
        if target < 0 {
            self.cursor_index = 0;
        } else if target > self.query.len() as i128 {
            self.cursor_index = self.query.len();
        } else {
            self.cursor_index = target as usize;
        }
        assert(final(self)@ =~= old(self)@.move_by(columns as int));
    }

    /// Types `ch` at the cursor and returns the new query, to be sent to the
    /// supervisor.
    pub fn add_character(&mut self, ch: char) -> (emitted: String)
        requires
            old(self).wf(),
        ensures
            final(self)@ == old(self)@.insert(ch),
            final(self).wf(),
            emitted@ == final(self)@.chars,
    {
        self.query.insert(self.cursor_index, ch);
        assert(self.cursor_index < self.query.len());
        self.cursor_index = self.cursor_index + 1;
        assert(final(self)@ =~= old(self)@.insert(ch));
        self.get_string()
    }

    /// Erases the character before the cursor. Where there was one, returns
    /// the new query, to be sent to the supervisor; at the start of the line
    /// nothing changes and nothing is returned.
    pub fn delete_character(&mut self) -> (emitted: Option<String>)
        requires
            old(self).wf(),
        ensures
            final(self)@ == old(self)@.delete(),
            final(self).wf(),
            emitted is Some == (old(self)@.cursor > 0),
            emitted matches Some(text) ==> text@ == final(self)@.chars,
    {
        if self.cursor_index == 0 {
            return None;
        }
        let _ = self.query.remove(self.cursor_index - 1);
        self.cursor_index = self.cursor_index - 1;
        assert(final(self)@ =~= old(self)@.delete());
        Some(self.get_string())
    }
}

impl ComponentPrompt for UiPrompt {
    open spec fn valid(&self) -> bool {
        self.wf()
    }

    /// A keystroke makes the edit that it stands for, if any, and what the
    /// edit sends is returned.
    open spec fn takes(&self, input: TerminalInput, after: &Self, emitted: Option<String>) -> bool {
        &&& after@ == match edit_of(input) {
            Some(edit) => self@.apply(edit),
            None => self@,
        }
        &&& emitted is Some == (edit_of(input) matches Some(edit) && self@.emitted(edit) is Some)
        &&& emitted matches Some(text) ==> text@ == after@.chars
    }

    /// The query and the cursor as they are.
    open spec fn shows(&self, out: ComponentPromptOut) -> bool {
        out.query@ == self@.chars && out.cursor_index == self@.cursor
    }

    /// Applies a keystroke: the edit that it stands for, if any. Returns what
    /// the edit sends.
    fn input(&mut self, input: &TerminalInput) -> (emitted: Option<String>) {
        match input {
            TerminalInput::Delete => self.delete_character(),
            TerminalInput::Printable(b) => Some(self.add_character(*b as char)),
            TerminalInput::Escape(escape) => {
                match escape {
                    TerminalEscape::LeftArrow => self.move_cursor(-1),
                    TerminalEscape::RightArrow => self.move_cursor(1),
                    _ => {},
                }
                None
            },
            _ => None,
        }
    }

    /// The query and the cursor as they are now.
    fn render(&self) -> (out: ComponentPromptOut) {
        let mut query: Vec<char> = Vec::new();
        append(&mut query, self.query.as_slice());
        ComponentPromptOut { query, cursor_index: self.cursor_index }
    }
}

} // verus!
