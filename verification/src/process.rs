//! The supervisor of the command that runs below the prompt.
//!
//! At most one child runs at a time. Every new query ends the child that runs
//! and starts another with the query as its last argument; what the running
//! child writes is gathered in a buffer that the screen shows. The supervisor
//! decides; the caller owns the processes, carries out the actions that the
//! supervisor asks for in the order given, and reports back what happened.

use crate::component::{ComponentData, ComponentDataOut};
use crate::writer::append;
use std::sync::Arc;
use vstd::prelude::*;

verus! {

/// Where a child's standard input comes from.
#[derive(Debug, Clone, Copy, PartialEq, Eq, Structural)]
pub enum StdinMode {
    /// A pipe, down which the captured input is written.
    Piped,
    /// The null device.
    Null,
}

/// How to start a child. Its standard output and standard error are always
/// piped.
#[derive(Debug, PartialEq, Eq)]
pub struct ChildCommand {
    pub program: String,
    pub args: Vec<String>,
    pub stdin: StdinMode,
}

/// A [`ChildCommand`] as contracts see it.
#[verifier::ext_equal]
pub struct CommandView {
    pub program: Seq<char>,
    pub args: Seq<Seq<char>>,
    pub stdin: StdinMode,
}

/// The texts of a list of strings.
pub open spec fn texts(strings: Seq<String>) -> Seq<Seq<char>> {
    strings.map_values(|s: String| s@)
}

impl View for ChildCommand {
    type V = CommandView;

    open spec fn view(&self) -> CommandView {
        CommandView { program: self.program@, args: texts(self.args@), stdin: self.stdin }
    }
}

/// The command for a query: the program and its arguments as they were given,
/// with the query as one more argument unless it is empty.
pub open spec fn command_for(
    program: Seq<char>,
    args: Seq<Seq<char>>,
    query: Seq<char>,
    piped: bool,
) -> CommandView {
    CommandView {
        program,
        args: if query.len() == 0 {
            args
        } else {
            args.push(query)
        },
        stdin: if piped {
            StdinMode::Piped
        } else {
            StdinMode::Null
        },
    }
}

/// Builds the command that runs `cmd` on `query`. Standard input is piped
/// exactly if there is captured input to write down it.
pub fn create_command(
    cmd: &str,
    args: &[String],
    query: &str,
    input: &Option<Arc<Vec<u8>>>,
) -> (command: ChildCommand)
    ensures
        command@ == command_for(cmd@, texts(args@), query@, input is Some),
{
    let mut all: Vec<String> = Vec::new();
    let mut i: usize = 0;
    while i < args.len()
        invariant
            i <= args@.len(),
            all@.len() == i,
            forall|j: int| 0 <= j < i ==> (#[trigger] all@[j])@ == args@[j]@,
        decreases args@.len() - i,
    {
        all.push(args[i].clone());
        i = i + 1;
    }
    assert(texts(all@) =~= texts(args@));
    if !query.is_empty() {
        all.push(query.to_owned());
        assert(texts(all@) =~= texts(args@).push(query@));
    }
    let stdin = if input.is_some() {
        StdinMode::Piped
    } else {
        StdinMode::Null
    };
    ChildCommand { program: cmd.to_owned(), args: all, stdin }
}

/// Where the supervisor stands.
#[derive(Debug, Clone, Copy, PartialEq, Eq, Structural)]
pub enum SupervisorPhase {
    /// No child runs.
    Idle,
    /// A spawn was asked for and its outcome is awaited.
    Spawning,
    /// A child runs.
    Running,
    /// The supervisor has shut down.
    Stopped,
}

/// What the caller reports to the supervisor.
#[derive(Debug, PartialEq, Eq)]
pub enum SupervisorEvent {
    /// A new query arrived.
    Query(String),
    /// The spawn that was asked for succeeded.
    Spawned,
    /// The spawn that was asked for failed.
    SpawnFailed,
    /// No query will come any more.
    Closed,
}

/// A [`SupervisorEvent`] as contracts see it.
pub enum EventView {
    Query(Seq<char>),
    Spawned,
    SpawnFailed,
    Closed,
}

impl View for SupervisorEvent {
    type V = EventView;

    open spec fn view(&self) -> EventView {
        match self {
            SupervisorEvent::Query(query) => EventView::Query(query@),
            SupervisorEvent::Spawned => EventView::Spawned,
            SupervisorEvent::SpawnFailed => EventView::SpawnFailed,
            SupervisorEvent::Closed => EventView::Closed,
        }
    }
}

/// What the supervisor asks its caller to do.
#[derive(Debug, PartialEq, Eq)]
pub enum SupervisorAction {
    /// End the child that runs: kill it, wait for it, and wait for the
    /// threads that read from it.
    Kill,
    /// Start a child under the given number and report the outcome.
    Spawn(u64, ChildCommand),
    /// Read what the child of the given number writes, its standard output
    /// first and then its standard error, and hand each piece to
    /// [`UiWaitingProcess::read_child_stream`].
    Read(u64),
    /// Ask for the screen to be drawn again.
    Redraw,
    /// Leave the supervising thread.
    Exit,
}

/// A [`SupervisorAction`] as contracts see it.
pub enum ActionView {
    Kill,
    Spawn(nat, CommandView),
    Read(nat),
    Redraw,
    Exit,
}

impl View for SupervisorAction {
    type V = ActionView;

    open spec fn view(&self) -> ActionView {
        match self {
            SupervisorAction::Kill => ActionView::Kill,
            SupervisorAction::Spawn(child, command) => ActionView::Spawn(*child as nat, command@),
            SupervisorAction::Read(child) => ActionView::Read(*child as nat),
            SupervisorAction::Redraw => ActionView::Redraw,
            SupervisorAction::Exit => ActionView::Exit,
        }
    }
}

/// A list of actions as contracts see it.
pub open spec fn action_views(actions: Seq<SupervisorAction>) -> Seq<ActionView> {
    actions.map_values(|a: SupervisorAction| a@)
}

/// The supervisor as contracts see it.
#[verifier::ext_equal]
pub struct SupervisorState {
    pub program: Seq<char>,
    pub args: Seq<Seq<char>>,
    /// The captured input that is piped to each child, if there is any.
    pub input: Option<Seq<u8>>,
    /// The output buffer.
    pub data: Seq<u8>,
    pub phase: SupervisorPhase,
    /// The number of the child last asked for. Numbers tell the children
    /// apart: see [`next_child`].
    pub child: nat,
    /// Whether the running child has written anything yet.
    pub has_read: bool,
}

/// The number of the child after the child of number `child`: one more, and
/// behind the greatest number that fits the counter, 0 again. So a number
/// comes again only after 2<sup>64</sup> children.
pub open spec fn next_child(child: nat) -> nat {
    if child >= u64::MAX {
        0
    } else {
        child + 1
    }
}

/// One step of the supervisor: the state after the event, and the actions
/// asked for, in the order in which they are to be carried out.
///
/// A query ends the running child, if any, and only then asks for the next.
/// The buffer is emptied when the outcome of a spawn is known, whichever it
/// is. An event that the phase does not allow for changes nothing and asks
/// for nothing.
pub open spec fn supervise(s: SupervisorState, event: EventView) -> (
    SupervisorState,
    Seq<ActionView>,
) {
    match event {
        EventView::Query(query) => {
            let next = SupervisorState {
                phase: SupervisorPhase::Spawning,
                child: next_child(s.child),
                ..s
            };
            let spawn = ActionView::Spawn(
                next_child(s.child),
                command_for(s.program, s.args, query, s.input is Some),
            );
            match s.phase {
                SupervisorPhase::Idle => (next, seq![spawn]),
                SupervisorPhase::Running => (next, seq![ActionView::Kill, spawn]),
                _ => (s, Seq::empty()),
            }
        },
        EventView::Spawned => if s.phase is Spawning {
            (
                SupervisorState {
                    phase: SupervisorPhase::Running,
                    data: Seq::empty(),
                    has_read: false,
                    ..s
                },
                seq![ActionView::Read(s.child), ActionView::Redraw],
            )
        } else {
            (s, Seq::empty())
        },
        EventView::SpawnFailed => if s.phase is Spawning {
            (
                SupervisorState {
                    phase: SupervisorPhase::Idle,
                    data: Seq::empty(),
                    has_read: false,
                    ..s
                },
                seq![ActionView::Redraw],
            )
        } else {
            (s, Seq::empty())
        },
        EventView::Closed => {
            let stopped = SupervisorState { phase: SupervisorPhase::Stopped, ..s };
            match s.phase {
                SupervisorPhase::Idle => (stopped, seq![ActionView::Exit]),
                SupervisorPhase::Stopped => (s, Seq::empty()),
                _ => (stopped, seq![ActionView::Kill, ActionView::Exit]),
            }
        },
    }
}

/// Whether a piece of output is taken into the buffer: it is not empty and
/// carries the number of the child that runs.
pub open spec fn accepts(s: SupervisorState, child: nat, chunk: Seq<u8>) -> bool {
    s.phase is Running && child == s.child && chunk.len() > 0
}

/// The state after a piece of output was handed over. The first piece that
/// is taken from a child replaces what the buffer held, later ones are
/// appended; a piece that is not taken changes nothing.
pub open spec fn receive(s: SupervisorState, child: nat, chunk: Seq<u8>) -> SupervisorState {
    if accepts(s, child, chunk) {
        SupervisorState {
            data: if s.has_read {
                s.data + chunk
            } else {
                chunk
            },
            has_read: true,
            ..s
        }
    } else {
        s
    }
}

/// The state after a run of events, from `s`.
pub open spec fn run(s: SupervisorState, events: Seq<EventView>) -> SupervisorState
    decreases events.len(),
{
    if events.len() == 0 {
        s
    } else {
        supervise(run(s, events.drop_last()), events.last()).0
    }
}

/// The number of children that may be alive once the caller has carried out
/// `actions`, where `alive` may have been alive before: a child counts from
/// the moment its spawn is asked for, and a kill ends one child.
pub open spec fn alive_after_actions(alive: nat, actions: Seq<ActionView>) -> nat
    decreases actions.len(),
{
    if actions.len() == 0 {
        alive
    } else {
        let before = alive_after_actions(alive, actions.drop_last());
        match actions.last() {
            ActionView::Spawn(_, _) => before + 1,
            ActionView::Kill => if before > 0 {
                (before - 1) as nat
            } else {
                0
            },
            _ => before,
        }
    }
}

/// The number of children that may be alive when `event` is reported to a
/// supervisor in state `s`, where `alive` were counted before: the report
/// that the spawn asked for has failed takes the child that was counted for
/// it away again.
pub open spec fn alive_at_report(alive: nat, s: SupervisorState, event: EventView) -> nat {
    if event is SpawnFailed && s.phase is Spawning && alive > 0 {
        (alive - 1) as nat
    } else {
        alive
    }
}

/// The number of children that may be alive after a run of events from `s`,
/// each event's actions carried out before the next is reported, where
/// `alive` were alive at first.
pub open spec fn alive_after_run(s: SupervisorState, alive: nat, events: Seq<EventView>) -> nat
    decreases events.len(),
{
    if events.len() == 0 {
        alive
    } else {
        let before = run(s, events.drop_last());
        alive_after_actions(
            alive_at_report(alive_after_run(s, alive, events.drop_last()), before, events.last()),
            supervise(before, events.last()).1,
        )
    }
}

/// The number of children that a supervisor in state `s` reckons with: one
/// while it awaits a spawn or is in its running phase, and else none.
pub open spec fn counted(s: SupervisorState) -> nat {
    if s.phase is Running || s.phase is Spawning {
        1
    } else {
        0
    }
}

/// After a run from a supervisor without a child, as many children may be
/// alive as the supervisor reckons with.
proof fn lemma_alive_follows_phase(s: SupervisorState, events: Seq<EventView>)
    requires
        s.phase is Idle,
    ensures
        alive_after_run(s, 0, events) == counted(run(s, events)),
    decreases events.len(),
{
    if events.len() > 0 {
        lemma_alive_follows_phase(s, events.drop_last());
        let before = run(s, events.drop_last());
        let actions = supervise(before, events.last()).1;
        reveal_with_fuel(alive_after_actions, 3);
        if actions.len() == 2 {
            assert(actions.drop_last().len() == 1);
            assert(actions.drop_last().drop_last().len() == 0);
        } else if actions.len() == 1 {
            assert(actions.drop_last().len() == 0);
        }
    }
}

/// Within the actions that one event asks for, no second child comes to be
/// counted: a spawn is asked for only where none is counted, or behind the
/// kill of the one that is.
proof fn lemma_actions_keep_to_one_child(
    s: SupervisorState,
    alive: nat,
    event: EventView,
    done: int,
)
    requires
        alive == counted(s),
        0 <= done <= supervise(s, event).1.len(),
    ensures
        alive_after_actions(alive_at_report(alive, s, event), supervise(s, event).1.take(done))
            <= 1,
{
    let actions = supervise(s, event).1;
    let part = actions.take(done);
    reveal_with_fuel(alive_after_actions, 3);
    if done == 2 {
        assert(part.drop_last() =~= actions.take(1));
        assert(part.drop_last().drop_last().len() == 0);
        assert(part.last() == actions[1]);
        assert(part.drop_last().last() == actions[0]);
    } else if done == 1 {
        assert(part.drop_last().len() == 0);
        assert(part.last() == actions[0]);
    }
}

/// At most one child is alive at any moment. Start from a supervisor without
/// a child and let queries, spawn outcomes and the end of the queries follow
/// one another in any order, and count a child from the moment its spawn is
/// asked for until it is killed or its spawn is reported to have failed:
/// after every event fewer than two children are counted, and so it stays
/// after each of the actions that the next event asks for.
pub proof fn lemma_at_most_one_child(
    s: SupervisorState,
    events: Seq<EventView>,
    next: EventView,
    done: int,
)
    requires
        s.phase is Idle,
        0 <= done <= supervise(run(s, events), next).1.len(),
    ensures
        alive_after_run(s, 0, events) <= 1,
        alive_after_actions(
            alive_at_report(alive_after_run(s, 0, events), run(s, events), next),
            supervise(run(s, events), next).1.take(done),
        ) <= 1,
{
    lemma_alive_follows_phase(s, events);
    lemma_actions_keep_to_one_child(run(s, events), alive_after_run(s, 0, events), next, done);
}

/// The state after pieces of output were handed over one after another, each
/// with the number of the child that it is said to come from.
pub open spec fn receive_all(s: SupervisorState, chunks: Seq<(nat, Seq<u8>)>) -> SupervisorState
    decreases chunks.len(),
{
    if chunks.len() == 0 {
        s
    } else {
        receive(receive_all(s, chunks.drop_last()), chunks.last().0, chunks.last().1)
    }
}

/// The pieces that carry the number `child`, one after another.
pub open spec fn bytes_of(chunks: Seq<(nat, Seq<u8>)>, child: nat) -> Seq<u8>
    decreases chunks.len(),
{
    if chunks.len() == 0 {
        Seq::empty()
    } else if chunks.last().0 == child {
        bytes_of(chunks.drop_last(), child) + chunks.last().1
    } else {
        bytes_of(chunks.drop_last(), child)
    }
}

/// The buffer holds what the running child wrote, and nothing else. From the
/// report that a child has started, let pieces of output be handed over under
/// any numbers: the buffer then holds exactly the pieces that carry that
/// child's number, in the order in which they came, and no byte of a piece
/// that carries another.
pub proof fn lemma_buffer_holds_running_child(s: SupervisorState, chunks: Seq<(nat, Seq<u8>)>)
    requires
        s.phase is Spawning,
    ensures
        receive_all(supervise(s, EventView::Spawned).0, chunks).data == bytes_of(chunks, s.child),
        receive_all(supervise(s, EventView::Spawned).0, chunks).phase is Running,
        receive_all(supervise(s, EventView::Spawned).0, chunks).child == s.child,
        !receive_all(supervise(s, EventView::Spawned).0, chunks).has_read ==> bytes_of(
            chunks,
            s.child,
        ).len() == 0,
    decreases chunks.len(),
{
    let started = supervise(s, EventView::Spawned).0;
    let after = receive_all(started, chunks);
    if chunks.len() == 0 {
        assert(after.data =~= bytes_of(chunks, s.child));
    } else {
        lemma_buffer_holds_running_child(s, chunks.drop_last());
        assert(after.data =~= bytes_of(chunks, s.child));
    }
}

/// The size, in bytes, of the pieces in which a child's output is read.
pub const READ_SIZE: usize = 8192;

/// What the reader of a child's output does after a piece was handed over.
#[derive(Debug, Clone, Copy, PartialEq, Eq, Structural)]
pub struct ReadOutcome {
    /// Whether to read on: the stream has not ended.
    pub more: bool,
    /// Whether to ask for the screen to be drawn again.
    pub redraw: bool,
}

/// Captured input as contracts see it.
pub open spec fn input_view(input: Option<Arc<Vec<u8>>>) -> Option<Seq<u8>> {
    match input {
        Some(bytes) => Some(bytes@),
        None => None,
    }
}

/// Supervises the command: holds what to run, the output buffer, and where
/// the supervision stands.
pub struct UiWaitingProcess {
    cmd: String,
    args: Vec<String>,
    input: Option<Arc<Vec<u8>>>,
    data: Vec<u8>,
    phase: SupervisorPhase,
    child: u64,
    has_read: bool,
}

impl View for UiWaitingProcess {
    type V = SupervisorState;

    closed spec fn view(&self) -> SupervisorState {
        SupervisorState {
            program: self.cmd@,
            args: texts(self.args@),
            input: input_view(self.input),
            data: self.data@,
            phase: self.phase,
            child: self.child as nat,
            has_read: self.has_read,
        }
    }
}

impl UiWaitingProcess {
    /// A supervisor for `cmd` with `args`, each child to be fed `input` if
    /// there is any. No child runs yet and the buffer is empty.
    pub fn new(cmd: String, args: Vec<String>, input: Option<Arc<Vec<u8>>>) -> (process: Self)
        ensures
            process@ == (SupervisorState {
                program: cmd@,
                args: texts(args@),
                input: input_view(input),
                data: Seq::empty(),
                phase: SupervisorPhase::Idle,
                child: 0,
                has_read: false,
            }),
    {
        UiWaitingProcess {
            cmd,
            args,
            input,
            data: Vec::new(),
            phase: SupervisorPhase::Idle,
            child: 0,
            has_read: false,
        }
    }

    /// The number of the child last asked for.
    pub fn child(&self) -> (child: u64)
        ensures
            child == self@.child,
    {
        self.child
    }

    /// Where the supervision stands.
    pub fn phase(&self) -> (phase: SupervisorPhase)
        ensures
            phase == self@.phase,
    {
        self.phase
    }

    /// Begins the supervision: asks for the first child, which runs with the
    /// empty query, that is, as the command was given.
    pub fn start(&mut self) -> (actions: Vec<SupervisorAction>)
        ensures
            final(self)@ == supervise(old(self)@, EventView::Query(Seq::empty())).0,
            action_views(actions@) == supervise(old(self)@, EventView::Query(Seq::empty())).1,
    {
        self.handle(SupervisorEvent::Query(String::new()))
    }

    /// Takes one event and says what is to be done about it, in order.
    pub fn handle(&mut self, event: SupervisorEvent) -> (actions: Vec<SupervisorAction>)
        ensures
            final(self)@ == supervise(old(self)@, event@).0,
            action_views(actions@) == supervise(old(self)@, event@).1,
    {
        let mut actions: Vec<SupervisorAction> = Vec::new();
        match event {
            SupervisorEvent::Query(query) => {
                let was_running = match self.phase {
                    SupervisorPhase::Running => true,
                    _ => false,
                };
                let was_idle = match self.phase {
                    SupervisorPhase::Idle => true,
                    _ => false,
                };
                if was_running || was_idle {
                    if was_running {
                        actions.push(SupervisorAction::Kill);
                    }
                    self.child = if self.child == u64::MAX {
                        0
                    } else {
                        self.child + 1
                    };
                    self.phase = SupervisorPhase::Spawning;
                    let command = create_command(
                        self.cmd.as_str(),
                        self.args.as_slice(),
                        query.as_str(),
                        &self.input,
                    );
                    actions.push(SupervisorAction::Spawn(self.child, command));
                }
            },
            SupervisorEvent::Spawned => {
                match self.phase {
                    SupervisorPhase::Spawning => {
                        self.phase = SupervisorPhase::Running;
                        self.has_read = false;
                        self.reset_data();
                        actions.push(SupervisorAction::Read(self.child));
                        actions.push(SupervisorAction::Redraw);
                    },
                    _ => {},
                }
            },
            SupervisorEvent::SpawnFailed => {
                match self.phase {
                    SupervisorPhase::Spawning => {
                        self.phase = SupervisorPhase::Idle;
                        self.has_read = false;
                        self.reset_data();
                        actions.push(SupervisorAction::Redraw);
                    },
                    _ => {},
                }
            },
            SupervisorEvent::Closed => {
                match self.phase {
                    SupervisorPhase::Idle => {
                        self.phase = SupervisorPhase::Stopped;
                        actions.push(SupervisorAction::Exit);
                    },
                    SupervisorPhase::Stopped => {},
                    _ => {
                        self.phase = SupervisorPhase::Stopped;
                        actions.push(SupervisorAction::Kill);
                        actions.push(SupervisorAction::Exit);
                    },
                }
            },
        }
        assert(final(self)@ =~= supervise(old(self)@, event@).0);
        assert(action_views(actions@) =~= supervise(old(self)@, event@).1);
        actions
    }

    /// Takes a piece of what a child wrote, as one read of its output gave
    /// it; an empty piece is the end of the stream. Says whether to read on,
    /// and whether the buffer changed, so that the screen is to be drawn
    /// again.
    pub fn read_child_stream(&mut self, child: u64, chunk: &[u8]) -> (outcome: ReadOutcome)
        ensures
            final(self)@ == receive(old(self)@, child as nat, chunk@),
            outcome.more == (chunk@.len() > 0),
            outcome.redraw == accepts(old(self)@, child as nat, chunk@),
    {
        if chunk.len() == 0 {
            return ReadOutcome { more: false, redraw: false };
        }
        let running = match self.phase {
            SupervisorPhase::Running => true,
            _ => false,
        };
        if running && child == self.child {
            if !self.has_read {
                self.has_read = true;
                self.reset_data();
            }
            self.push_to_data(chunk);
            assert(final(self)@ =~= receive(old(self)@, child as nat, chunk@));
            ReadOutcome { more: true, redraw: true }
        } else {
            ReadOutcome { more: true, redraw: false }
        }
    }

    /// Empties the output buffer.
    pub fn reset_data(&mut self)
        ensures
            final(self)@ == (SupervisorState { data: Seq::empty(), ..old(self)@ }),
    {
        self.data = Vec::new();
    }

    /// Appends `buf` to the output buffer.
    pub fn push_to_data(&mut self, buf: &[u8])
        ensures
            final(self)@ == (SupervisorState { data: old(self)@.data + buf@, ..old(self)@ }),
    {
        append(&mut self.data, buf);
    }
}

impl ComponentData for UiWaitingProcess {
    /// The output buffer as it is.
    open spec fn shows(&self, out: ComponentDataOut) -> bool {
        out.0@ == self@.data
    }

    /// A copy of the output buffer as it is now.
    fn render(&self) -> (out: ComponentDataOut) {
        let mut copy: Vec<u8> = Vec::new();
        append(&mut copy, self.data.as_slice());
        ComponentDataOut(copy)
    }
}

} // verus!
