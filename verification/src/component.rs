//! What the screen is made of: a list of components, each either a prompt,
//! which takes keystrokes and shows a line with a cursor, or a data
//! component, which shows bytes.

use crate::input::TerminalInput;
use vstd::prelude::*;

verus! {

/// What a data component shows: the bytes as they came from the command.
#[derive(Debug, PartialEq, Eq)]
pub struct ComponentDataOut(pub Vec<u8>);

/// What a prompt shows: the query and where in it the cursor stands.
#[derive(Debug, PartialEq, Eq)]
pub struct ComponentPromptOut {
    pub query: Vec<char>,
    pub cursor_index: usize,
}

impl ComponentPromptOut {
    /// The cursor stands within the query or right behind it.
    pub open spec fn wf(&self) -> bool {
        self.cursor_index <= self.query@.len()
    }
}

/// A component that takes keystrokes.
///
/// What an implementation does with a keystroke and what it shows is its own
/// to say: it says so in `takes` and `shows`, and the screen's contracts pass
/// that on.
pub trait ComponentPrompt {
    /// What the component keeps true of itself from one call to the next.
    spec fn valid(&self) -> bool;

    /// Whether `input` may take the component from `self` to `after` and
    /// have `emitted` returned.
    spec fn takes(&self, input: TerminalInput, after: &Self, emitted: Option<String>) -> bool;

    /// Whether `out` is what the component gives to be shown.
    spec fn shows(&self, out: ComponentPromptOut) -> bool;

    /// Applies a keystroke. Where it changed the query, the new query is
    /// returned, to be handed to whoever runs the command.
    fn input(&mut self, input: &TerminalInput) -> (emitted: Option<String>)
        requires
            old(self).valid(),
        ensures
            final(self).valid(),
            old(self).takes(*input, final(self), emitted),
    ;

    /// The query and cursor to show, the cursor within the query.
    fn render(&self) -> (out: ComponentPromptOut)
        requires
            self.valid(),
        ensures
            out.wf(),
            self.shows(out),
    ;
}

/// A component that shows bytes.
///
/// What an implementation shows is its own to say: it says so in `shows`, and
/// the screen's contracts pass that on.
pub trait ComponentData {
    /// Whether `out` is what the component gives to be shown. A component
    /// that does not say shows whatever it gives.
    open spec fn shows(&self, out: ComponentDataOut) -> bool {
        true
    }

    /// The bytes to show, as they are at the moment of the call.
    fn render(&self) -> (out: ComponentDataOut)
        ensures
            self.shows(out),
    ;
}

/// One component of the screen.
pub enum Component<P, D> {
    Prompt(P),
    Data(D),
}

/// What one component gave to be shown.
#[derive(Debug, PartialEq, Eq)]
pub enum ComponentRenderOut {
    Prompt(ComponentPromptOut),
    Data(ComponentDataOut),
}

} // verus!
