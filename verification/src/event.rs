//! The events that the main loop waits for, and the small decisions around
//! them: which signal means what, which keystroke ends the session, and when
//! a burst of redraw requests becomes one redraw.

use crate::input::{TerminalEscape, TerminalInput};
use vstd::prelude::*;

verus! {

/// What the main loop can be woken by.
#[derive(Debug, Clone, Copy, PartialEq, Eq, Structural)]
pub enum TerminalRendererEvent {
    /// The window changed its size.
    Resize,
    Input(TerminalInput),
    /// The output below the prompt changed.
    Redraw,
    Quit,
}

/// How a session ends.
#[derive(Debug, Clone, Copy, PartialEq, Eq, Structural)]
pub enum Exit {
    /// The query is accepted: the command runs once more, its output going
    /// where the program's own output goes.
    Accept,
    /// The session is given up.
    Cancel,
}

/// The number of the interrupt signal: 2 on every platform.
pub const INTERRUPT: i32 = 2;

/// The number of the termination signal: 15 on every platform.
pub const TERMINATE: i32 = 15;

/// The number of the window-change signal on this platform, as the `libc`
/// crate has it in `SIGWINCH`. The number differs between platforms; on every
/// one of them it is another than those of the interrupt and the termination
/// signal, and no more is claimed of it.
#[verifier::external_body]
fn window_change_signal() -> (signal: i32)
    ensures
        signal != INTERRUPT,
        signal != TERMINATE,
{
    libc::SIGWINCH
}

/// The number of the interrupt signal, as the `libc` crate has it in `SIGINT`:
/// the crate defines it as 2 for every platform.
#[verifier::external_body]
fn interrupt_signal() -> (signal: i32)
    ensures
        signal == INTERRUPT,
{
    libc::SIGINT
}

/// The number of the termination signal, as the `libc` crate has it in
/// `SIGTERM`: the crate defines it as 15 for every platform.
#[verifier::external_body]
fn terminate_signal() -> (signal: i32)
    ensures
        signal == TERMINATE,
{
    libc::SIGTERM
}

/// The event that `signal` stands for, given the numbers of the three signals
/// that the program listens to.
pub open spec fn signal_meaning(
    signal: i32,
    window_change: i32,
    interrupt: i32,
    terminate: i32,
) -> Option<TerminalRendererEvent> {
    if signal == window_change {
        Some(TerminalRendererEvent::Resize)
    } else if signal == interrupt || signal == terminate {
        Some(TerminalRendererEvent::Quit)
    } else {
        None
    }
}

/// Tells a signal's event from the numbers of the three signals listened to:
/// a window change asks for the size to be read again, an interrupt or a
/// termination ends the loop, any other signal is no event.
pub fn classify_signal(signal: i32, window_change: i32, interrupt: i32, terminate: i32) -> (event:
    Option<TerminalRendererEvent>)
    ensures
        event == signal_meaning(signal, window_change, interrupt, terminate),
{
    if signal == window_change {
        Some(TerminalRendererEvent::Resize)
    } else if signal == interrupt || signal == terminate {
        Some(TerminalRendererEvent::Quit)
    } else {
        None
    }
}

/// The event that a delivered signal stands for on this platform: an
/// interrupt or a termination ends the loop, a window change asks for the
/// size to be read again, any other signal is no event. Which number the
/// platform gives the window change is not known here, only that it is
/// neither of the other two.
pub fn signal_event(signal: i32) -> (event: Option<TerminalRendererEvent>)
    ensures
        signal == INTERRUPT || signal == TERMINATE ==> event == Some(TerminalRendererEvent::Quit),
        event is None ==> signal != INTERRUPT && signal != TERMINATE,
        event matches Some(e) ==> e is Resize || e is Quit,
        exists|window_change: i32|
            window_change != INTERRUPT && window_change != TERMINATE && event
                == #[trigger] signal_meaning(signal, window_change, INTERRUPT, TERMINATE),
{
    let window_change = window_change_signal();
    let interrupt = interrupt_signal();
    let terminate = terminate_signal();
    classify_signal(signal, window_change, interrupt, terminate)
}

/// Whether a keystroke ends the session, and how: Return accepts, Ctrl-C and
/// a lone `ESC` cancel, every other keystroke goes on to the prompt.
pub open spec fn termination_of(input: TerminalInput) -> Option<Exit> {
    match input {
        TerminalInput::Ctrl(key) => if key == 0x6d {
            Some(Exit::Accept)
        } else if key == 0x63 {
            Some(Exit::Cancel)
        } else {
            None
        },
        TerminalInput::Escape(TerminalEscape::Timeout) => Some(Exit::Cancel),
        _ => None,
    }
}

/// Whether a keystroke ends the session, and how.
pub fn termination(input: &TerminalInput) -> (exit: Option<Exit>)
    ensures
        exit == termination_of(*input),
{
    match input {
        TerminalInput::Ctrl(key) => {
            if *key == 0x6d {
                Some(Exit::Accept)
            } else if *key == 0x63 {
                Some(Exit::Cancel)
            } else {
                None
            }
        },
        TerminalInput::Escape(TerminalEscape::Timeout) => Some(Exit::Cancel),
        _ => None,
    }
}

/// How a session ends whose loop was left by `by`: a keystroke accepts or
/// cancels as [`termination_of`] says, and a loop left by anything else, a
/// signal or a keystroke without such a meaning, is cancelled.
pub open spec fn exit_of(by: Option<TerminalInput>) -> Exit {
    match by {
        Some(input) => match termination_of(input) {
            Some(exit) => exit,
            None => Exit::Cancel,
        },
        None => Exit::Cancel,
    }
}

/// How a session ends whose loop was left by `by`. Only an accepted session
/// runs the command once more.
pub fn exit_for(by: &Option<TerminalInput>) -> (exit: Exit)
    ensures
        exit == exit_of(*by),
{
    match by {
        Some(input) => match termination(input) {
            Some(exit) => exit,
            None => Exit::Cancel,
        },
        None => Exit::Cancel,
    }
}

/// The time, in milliseconds, that the throttle lets pass between two redraws.
pub const REDRAW_PERIOD_MS: u64 = 30;

/// What the throttle's thread does after it has slept one period.
#[derive(Debug, Clone, Copy, PartialEq, Eq, Structural)]
pub enum Tick {
    /// Send one redraw event.
    Fire,
    /// Nothing changed: sleep again.
    Idle,
    /// The session is over: leave.
    Stop,
}

/// Turns any number of redraw requests within one period into one redraw.
pub struct RedrawThrottle {
    dirty: bool,
    dropped: bool,
}

impl RedrawThrottle {
    /// Whether a redraw was asked for since the last one fired.
    pub closed spec fn dirty(&self) -> bool {
        self.dirty
    }

    /// Whether the throttle was told to stop.
    pub closed spec fn dropped(&self) -> bool {
        self.dropped
    }

    /// A throttle with nothing asked for.
    pub fn new() -> (throttle: Self)
        ensures
            !throttle.dirty(),
            !throttle.dropped(),
    {
        RedrawThrottle { dirty: false, dropped: false }
    }

    /// Asks for a redraw.
    pub fn ping(&mut self)
        ensures
            final(self).dirty(),
            final(self).dropped() == old(self).dropped(),
    {
        self.dirty = true;
    }

    /// Tells the throttle that the session is over.
    pub fn shut_down(&mut self)
        ensures
            final(self).dropped(),
            final(self).dirty() == old(self).dirty(),
    {
        self.dropped = true;
    }

    /// The end of one period: fires once if anything was asked for since the
    /// last period ended, and stops once the session is over.
    pub fn tick(&mut self) -> (tick: Tick)
        ensures
            tick == (if old(self).dropped() {
                Tick::Stop
            } else if old(self).dirty() {
                Tick::Fire
            } else {
                Tick::Idle
            }),
            final(self).dropped() == old(self).dropped(),
            final(self).dirty() == (old(self).dropped() && old(self).dirty()),
    {
        if self.dropped {
            Tick::Stop
        } else if self.dirty {
            self.dirty = false;
            Tick::Fire
        } else {
            Tick::Idle
        }
    }
}

} // verus!
