//! The control of a session: which action follows which event.
//!
//! A session is a state machine that performs no input or output itself.
//! Its driver carries out each action and reports back with an event: it
//! opens the filesystem, prompts and reads a line, calls the storage engine
//! or prints a report. A session runs one command that was given up front,
//! or reads commands until the input ends. A line that is no command is
//! reported and never ends the session; only a filesystem that cannot be
//! opened makes it fail.

use crate::catalog::Catalog;
use crate::dispatch::{do_command, instruction_for, rejection, Instruction, InstructionView};
use crate::parser::command_of;
use vstd::prelude::*;

verus! {

/// The arguments of a session.
#[derive(Debug, PartialEq, Eq)]
pub struct Cli {
    /// The devices that hold the filesystem.
    pub devices: Vec<String>,
    /// The one command to run. Without it the session is interactive.
    pub command: Option<String>,
}

/// How far the filesystem handle of a session has come. It is asked for
/// once and never again.
#[derive(Clone, Copy, Debug, PartialEq, Eq, Structural)]
pub enum Handle {
    Unopened,
    Requested,
    Open,
}

/// The states of a session.
#[derive(Debug, PartialEq, Eq)]
pub enum State {
    /// The next line, or the handle that reading waits for, is awaited.
    AwaitingInput,
    /// A line is at hand and not yet parsed. A session of one command
    /// starts here; a line that is read is parsed in the step that takes it.
    Parsing { line: String },
    /// A command was parsed. `held` is its instruction while the handle is
    /// not open yet, and nothing once the driver has the instruction.
    Dispatching { held: Option<Instruction> },
    /// The driver is reporting that a line was no command.
    ReportingError,
    /// The session is over.
    Closed,
}

/// What the driver tells the session.
#[derive(Debug, PartialEq, Eq)]
pub enum Event {
    /// The driver is ready.
    Started,
    /// The filesystem was opened.
    Opened,
    /// The filesystem could not be opened.
    OpenFailed,
    /// A line was read.
    Line { text: String },
    /// The input has ended.
    EndOfInput,
    /// The instruction was carried out.
    Completed,
}

/// What the session asks of its driver.
#[derive(Debug, PartialEq, Eq)]
pub enum Action {
    /// Open the filesystem, then report `Opened` or `OpenFailed`.
    OpenFilesystem,
    /// Print the prompt and read a line, then report `Line` or
    /// `EndOfInput`.
    Prompt,
    /// Carry out the instruction, then report `Completed`.
    Perform(Instruction),
    /// Leave; `failed` tells whether the session failed.
    Exit { failed: bool },
}

/// A session: its mode, its handle and its state.
#[derive(Debug, PartialEq, Eq)]
pub struct Session {
    pub interactive: bool,
    pub handle: Handle,
    pub state: State,
}

/// A state as contracts speak of it.
pub enum StateView {
    AwaitingInput,
    Parsing { line: Seq<char> },
    Dispatching { held: Option<InstructionView> },
    ReportingError,
    Closed,
}

/// An event as contracts speak of it.
pub enum EventView {
    Started,
    Opened,
    OpenFailed,
    Line { text: Seq<char> },
    EndOfInput,
    Completed,
}

/// An action as contracts speak of it.
pub enum ActionView {
    OpenFilesystem,
    Prompt,
    Perform(InstructionView),
    Exit { failed: bool },
}

/// A session as contracts speak of it.
pub struct SessionView {
    pub interactive: bool,
    pub handle: Handle,
    pub state: StateView,
}

impl View for State {
    type V = StateView;

    open spec fn view(&self) -> StateView {
        match self {
            State::AwaitingInput => StateView::AwaitingInput,
            State::Parsing { line } => StateView::Parsing { line: line@ },
            State::Dispatching { held } => StateView::Dispatching {
                held: match held {
                    Some(instruction) => Some(instruction@),
                    None => None,
                },
            },
            State::ReportingError => StateView::ReportingError,
            State::Closed => StateView::Closed,
        }
    }
}

impl View for Event {
    type V = EventView;

    open spec fn view(&self) -> EventView {
        match self {
            Event::Started => EventView::Started,
            Event::Opened => EventView::Opened,
            Event::OpenFailed => EventView::OpenFailed,
            Event::Line { text } => EventView::Line { text: text@ },
            Event::EndOfInput => EventView::EndOfInput,
            Event::Completed => EventView::Completed,
        }
    }
}

impl View for Action {
    type V = ActionView;

    open spec fn view(&self) -> ActionView {
        match self {
            Action::OpenFilesystem => ActionView::OpenFilesystem,
            Action::Prompt => ActionView::Prompt,
            Action::Perform(instruction) => ActionView::Perform(instruction@),
            Action::Exit { failed } => ActionView::Exit { failed: *failed },
        }
    }
}

impl View for Session {
    type V = SessionView;

    open spec fn view(&self) -> SessionView {
        SessionView { interactive: self.interactive, handle: self.handle, state: self.state@ }
    }
}

/// The text of the prompt.
pub open spec fn prompt_text() -> Seq<char> {
    "bcachefs> "@
}

/// The prompt of an interactive session.
pub fn prompt() -> (text: String)
    ensures
        text@ == prompt_text(),
{
    String::from_str("bcachefs> ")
}

/// The session that the arguments ask for: with a command, one that has
/// the command at hand to parse; without, one that awaits input.
pub open spec fn initial(command: Option<Seq<char>>) -> SessionView {
    match command {
        Some(line) => SessionView {
            interactive: false,
            handle: Handle::Unopened,
            state: StateView::Parsing { line },
        },
        None => SessionView {
            interactive: true,
            handle: Handle::Unopened,
            state: StateView::AwaitingInput,
        },
    }
}

/// The state after an instruction or a report was carried out: an
/// interactive session prompts again, a session of one command is over.
pub open spec fn settled(session: SessionView) -> (SessionView, ActionView) {
    if session.interactive {
        (SessionView { state: StateView::AwaitingInput, ..session }, ActionView::Prompt)
    } else {
        (SessionView { state: StateView::Closed, ..session }, ActionView::Exit { failed: false })
    }
}

/// The transitions of a session: the state and the action that follow an
/// event, or nothing where the event does not fit the state.
///
/// A session of one command parses first and asks for the filesystem only
/// for a command; an interactive session asks for it before it prompts.
/// Every line leads to an instruction, which is a report where the line is
/// no command, and then back to the prompt.
pub open spec fn step(session: SessionView, catalog: Catalog, event: EventView) -> Option<
    (SessionView, ActionView),
> {
    match (event, session.state, session.handle) {
        (EventView::Started, StateView::AwaitingInput, Handle::Unopened) => {
            if session.interactive {
                Some(
                    (
                        SessionView { handle: Handle::Requested, ..session },
                        ActionView::OpenFilesystem,
                    ),
                )
            } else {
                None
            }
        },
        (EventView::Started, StateView::Parsing { line }, Handle::Unopened) => {
            match command_of(line) {
                Ok(command) => Some(
                    (
                        SessionView {
                            handle: Handle::Requested,
                            state: StateView::Dispatching {
                                held: Some(instruction_for(catalog, command)),
                            },
                            ..session
                        },
                        ActionView::OpenFilesystem,
                    ),
                ),
                Err(error) => Some(
                    (
                        SessionView { state: StateView::ReportingError, ..session },
                        ActionView::Perform(rejection(error)),
                    ),
                ),
            }
        },
        (EventView::Opened, StateView::AwaitingInput, Handle::Requested) => Some(
            (SessionView { handle: Handle::Open, ..session }, ActionView::Prompt),
        ),
        (EventView::Opened, StateView::Dispatching { held: Some(instruction) }, Handle::Requested) => {
            Some(
                (
                    SessionView {
                        handle: Handle::Open,
                        state: StateView::Dispatching { held: None },
                        ..session
                    },
                    ActionView::Perform(instruction),
                ),
            )
        },
        (EventView::OpenFailed, StateView::AwaitingInput, Handle::Requested)
        | (EventView::OpenFailed, StateView::Dispatching { held: Some(_) }, Handle::Requested) => {
            Some(
                (
                    SessionView { state: StateView::Closed, ..session },
                    ActionView::Exit { failed: true },
                ),
            )
        },
        (EventView::Line { text }, StateView::AwaitingInput, Handle::Open) => {
            match command_of(text) {
                Ok(command) => Some(
                    (
                        SessionView { state: StateView::Dispatching { held: None }, ..session },
                        ActionView::Perform(instruction_for(catalog, command)),
                    ),
                ),
                Err(error) => Some(
                    (
                        SessionView { state: StateView::ReportingError, ..session },
                        ActionView::Perform(rejection(error)),
                    ),
                ),
            }
        },
        (EventView::EndOfInput, StateView::AwaitingInput, Handle::Open) => Some(
            (
                SessionView { state: StateView::Closed, ..session },
                ActionView::Exit { failed: false },
            ),
        ),
        (EventView::Completed, StateView::Dispatching { held: None }, Handle::Open) => Some(
            settled(session),
        ),
        (EventView::Completed, StateView::ReportingError, _) => Some(settled(session)),
        _ => None,
    }
}

impl Session {
    /// Sets a session up from its arguments.
    pub fn new(cli: &Cli) -> (session: Session)
        ensures
            session@ == initial(
                match cli.command {
                    Some(line) => Some(line@),
                    None => None,
                },
            ),
    {
        match &cli.command {
            Some(line) => Session {
                interactive: false,
                handle: Handle::Unopened,
                state: State::Parsing { line: line.clone() },
            },
            None => Session {
                interactive: true,
                handle: Handle::Unopened,
                state: State::AwaitingInput,
            },
        }
    }

    /// Whether the session is over.
    pub fn is_closed(&self) -> (closed: bool)
        ensures
            closed == (self@.state is Closed),
    {
        match self.state {
            State::Closed => true,
            _ => false,
        }
    }

    /// Takes an event and tells what the driver has to do next. An event
    /// that does not fit the state changes nothing and is answered with
    /// `None`.
    pub fn advance(self, catalog: &Catalog, event: Event) -> (r: (Session, Option<Action>))
        ensures
            match step(self@, *catalog, event@) {
                Some((next, action)) => r.0@ == next && (r.1 matches Some(asked) && asked@
                    == action),
                None => r.0@ == self@ && r.1 is None,
            },
    {
        let Session { interactive, handle, state } = self;
        match (event, state, handle) {
            (Event::Started, State::AwaitingInput, Handle::Unopened) => {
                if interactive {
                    (
                        Session { interactive, handle: Handle::Requested, state: State::AwaitingInput },
                        Some(Action::OpenFilesystem),
                    )
                } else {
                    (Session { interactive, handle, state: State::AwaitingInput }, None)
                }
            },
            (Event::Started, State::Parsing { line }, Handle::Unopened) => {
                let outcome = do_command(catalog, line.as_str());
                if outcome.status == 0 {
                    (
                        Session {
                            interactive,
                            handle: Handle::Requested,
                            state: State::Dispatching { held: Some(outcome.instruction) },
                        },
                        Some(Action::OpenFilesystem),
                    )
                } else {
                    (
                        Session { interactive, handle, state: State::ReportingError },
                        Some(Action::Perform(outcome.instruction)),
                    )
                }
            },
            (Event::Opened, State::AwaitingInput, Handle::Requested) => (
                Session { interactive, handle: Handle::Open, state: State::AwaitingInput },
                Some(Action::Prompt),
            ),
            (Event::Opened, State::Dispatching { held: Some(instruction) }, Handle::Requested) => (
                Session {
                    interactive,
                    handle: Handle::Open,
                    state: State::Dispatching { held: None },
                },
                Some(Action::Perform(instruction)),
            ),
            (Event::OpenFailed, State::AwaitingInput, Handle::Requested)
            | (Event::OpenFailed, State::Dispatching { held: Some(_) }, Handle::Requested) => (
                Session { interactive, handle, state: State::Closed },
                Some(Action::Exit { failed: true }),
            ),
            (Event::Line { text }, State::AwaitingInput, Handle::Open) => {
                let outcome = do_command(catalog, text.as_str());
                let state = if outcome.status == 0 {
                    State::Dispatching { held: None }
                } else {
                    State::ReportingError
                };
                (Session { interactive, handle, state }, Some(Action::Perform(outcome.instruction)))
            },
            (Event::EndOfInput, State::AwaitingInput, Handle::Open) => (
                Session { interactive, handle, state: State::Closed },
                Some(Action::Exit { failed: false }),
            ),
            (Event::Completed, State::Dispatching { held: None }, Handle::Open) => {
                Session::settle(interactive, handle)
            },
            (Event::Completed, State::ReportingError, _) => Session::settle(interactive, handle),
            (_, state, _) => (Session { interactive, handle, state }, None),
        }
    }

    /// The session and the action after an instruction was carried out.
    fn settle(interactive: bool, handle: Handle) -> (r: (Session, Option<Action>))
        ensures
            r.1 matches Some(asked) && (r.0@, asked@) == settled(
                SessionView { interactive, handle, state: StateView::Closed },
            ),
    {
        if interactive {
            (Session { interactive, handle, state: State::AwaitingInput }, Some(Action::Prompt))
        } else {
            (
                Session { interactive, handle, state: State::Closed },
                Some(Action::Exit { failed: false }),
            )
        }
    }
}

/// How far a handle has come, as a number.
pub open spec fn progress(handle: Handle) -> int {
    match handle {
        Handle::Unopened => 0,
        Handle::Requested => 1,
        Handle::Open => 2,
    }
}

/// Whether the instruction calls the storage engine.
pub open spec fn calls_engine(instruction: InstructionView) -> bool {
    instruction is DumpKey || instruction is UpdateKey
}

/// No line ends an interactive session. Whatever the line holds, the
/// session answers it with an instruction, which is the error and the usage
/// where the line is no command, and once that is carried out the session
/// prompts again, in the state it was in before the line.
pub proof fn lemma_line_returns_to_prompt(session: SessionView, catalog: Catalog, text: Seq<char>)
    requires
        session.interactive,
        session.state is AwaitingInput,
        session.handle is Open,
    ensures
        ({
            let taken = step(session, catalog, EventView::Line { text });
            &&& taken matches Some((busy, ActionView::Perform(instruction)))
            &&& !(busy.state is Closed)
            &&& (command_of(text) matches Err(error) ==> instruction == rejection(error))
            &&& (command_of(text) matches Ok(command) ==> instruction == instruction_for(
                catalog,
                command,
            ))
            &&& step(busy, catalog, EventView::Completed) == Some((session, ActionView::Prompt))
        }),
{
}

/// A closed session takes no event.
pub proof fn lemma_closed_is_final(session: SessionView, catalog: Catalog, event: EventView)
    requires
        session.state is Closed,
    ensures
        step(session, catalog, event) is None,
{
}

/// The filesystem is asked for once: only a handle that was never asked
/// for is asked for, and a handle never falls back. The storage engine is
/// called only under an open handle, and a session fails only where the
/// filesystem could not be opened.
pub proof fn lemma_handle_discipline(session: SessionView, catalog: Catalog, event: EventView)
    ensures
        step(session, catalog, event) matches Some((next, action)) ==> {
            &&& next.interactive == session.interactive
            &&& progress(session.handle) <= progress(next.handle)
            &&& (action is OpenFilesystem <==> session.handle is Unopened && next.handle
                is Requested)
            &&& (action matches ActionView::Perform(instruction) && calls_engine(instruction)
                ==> next.handle is Open)
            &&& (action matches ActionView::Exit { failed } ==> next.state is Closed && (failed
                <==> event is OpenFailed))
        },
{
}

impl SessionView {
    /// Whether the mode, the handle and the state fit together, as they do
    /// in every session that was set up by [`initial`] and has taken
    /// events since: only an interactive session awaits input, only a
    /// session of one command holds a line or an instruction back, and an
    /// instruction is out only under an open handle.
    pub open spec fn consistent(self) -> bool {
        match self.state {
            StateView::AwaitingInput => self.interactive,
            StateView::Parsing { .. } => !self.interactive && self.handle is Unopened,
            StateView::Dispatching { held: Some(_) } => !self.interactive && self.handle
                is Requested,
            StateView::Dispatching { held: None } => self.handle is Open,
            StateView::ReportingError => if self.interactive {
                self.handle is Open
            } else {
                self.handle is Unopened
            },
            StateView::Closed => true,
        }
    }
}

/// A session starts consistent and every step keeps it so.
pub proof fn lemma_step_keeps_consistency(
    session: SessionView,
    catalog: Catalog,
    event: EventView,
)
    ensures
        forall|command: Option<Seq<char>>| (#[trigger] initial(command)).consistent(),
        session.consistent() ==> (step(session, catalog, event) matches Some((next, _))
            ==> next.consistent()),
{
}

/// The session after a run of events. An event that does not fit the state
/// is passed over.
pub open spec fn after(session: SessionView, catalog: Catalog, events: Seq<EventView>) -> SessionView
    decreases events.len(),
{
    if events.len() == 0 {
        session
    } else {
        let before = after(session, catalog, events.drop_last());
        match step(before, catalog, events.last()) {
            Some((next, _)) => next,
            None => before,
        }
    }
}

/// How often the session asks for the filesystem in a run of events.
pub open spec fn opens(session: SessionView, catalog: Catalog, events: Seq<EventView>) -> nat
    decreases events.len(),
{
    if events.len() == 0 {
        0
    } else {
        let before = after(session, catalog, events.drop_last());
        let again: nat = match step(before, catalog, events.last()) {
            Some((_, ActionView::OpenFilesystem)) => 1,
            _ => 0,
        };
        opens(session, catalog, events.drop_last()) + again
    }
}

/// Whatever the events, a session asks for the filesystem at most once,
/// and not at all where its handle was asked for before.
pub proof fn lemma_opened_at_most_once(
    session: SessionView,
    catalog: Catalog,
    events: Seq<EventView>,
)
    ensures
        opens(session, catalog, events) <= 1,
        !(session.handle is Unopened) ==> opens(session, catalog, events) == 0,
        opens(session, catalog, events) == 1 ==> !(after(session, catalog, events).handle
            is Unopened),
        progress(session.handle) <= progress(after(session, catalog, events).handle),
        after(session, catalog, events).interactive == session.interactive,
    decreases events.len(),
{
    if events.len() > 0 {
        lemma_opened_at_most_once(session, catalog, events.drop_last());
        lemma_handle_discipline(
            after(session, catalog, events.drop_last()),
            catalog,
            events.last(),
        );
    }
}

/// Whatever the events, a consistent session stays consistent.
pub proof fn lemma_run_keeps_consistency(
    session: SessionView,
    catalog: Catalog,
    events: Seq<EventView>,
)
    requires
        session.consistent(),
    ensures
        after(session, catalog, events).consistent(),
    decreases events.len(),
{
    if events.len() > 0 {
        lemma_run_keeps_consistency(session, catalog, events.drop_last());
        lemma_step_keeps_consistency(
            after(session, catalog, events.drop_last()),
            catalog,
            events.last(),
        );
    }
}

/// An interactive session ends with its input or with a filesystem that
/// does not open, and with nothing else: no run of other events closes it,
/// whatever the lines hold.
pub proof fn lemma_only_the_end_closes(
    session: SessionView,
    catalog: Catalog,
    events: Seq<EventView>,
)
    requires
        session.interactive,
        !(session.state is Closed),
        forall|i: int|
            0 <= i < events.len() ==> !(#[trigger] events[i] is EndOfInput) && !(events[i]
                is OpenFailed),
    ensures
        after(session, catalog, events).interactive,
        !(after(session, catalog, events).state is Closed),
    decreases events.len(),
{
    if events.len() > 0 {
        let earlier = events.drop_last();
        assert forall|i: int| 0 <= i < earlier.len() implies !(#[trigger] earlier[i]
            is EndOfInput) && !(earlier[i] is OpenFailed) by {
            assert(earlier[i] == events[i]);
        }
        lemma_only_the_end_closes(session, catalog, earlier);
        assert(events.last() == events[events.len() - 1]);
    }
}

} // verus!
