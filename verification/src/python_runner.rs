//! The execution session: one attempt to run a program in one background
//! worker. This module holds the messages that cross the worker boundary,
//! their wire form, and the session's life cycle as a state machine. The
//! caller owns the worker itself: it sends what the session hands out, feeds
//! in what arrives, and terminates the worker once the session is no longer
//! live.

use crate::text::same_text;
use vstd::prelude::*;
use vstd::string::*;

verus! {

/// A command, sent from the page to its worker.
#[derive(Clone, Debug, PartialEq, Eq)]
pub enum WorkerMessage {
    /// Run this program.
    Run { code: String },
    /// Stop the program that is running, when convenient.
    Stop,
}

/// An event, sent from the worker to the page.
#[derive(Clone, Debug, PartialEq, Eq)]
pub enum WorkerResponse {
    /// A chunk of what the program printed.
    Output { text: String },
    /// The program failed; the run is over.
    Error { text: String },
    /// The program finished; the run is over.
    Done,
}

/// A message as it crosses the worker boundary: an object with a `type` tag
/// and the text fields `code` and `text`, each of which may be missing.
#[derive(Clone, Debug, PartialEq, Eq)]
pub struct WireObject {
    pub kind: String,
    pub code: Option<String>,
    pub text: Option<String>,
}

/// A command as contracts speak of it.
pub enum Command {
    Run { code: Seq<char> },
    Stop,
}

/// An event as contracts speak of it.
pub enum Event {
    Output { text: Seq<char> },
    Error { text: Seq<char> },
    Done,
}

/// A wire object as contracts speak of it.
pub struct Wire {
    pub kind: Seq<char>,
    pub code: Option<Seq<char>>,
    pub text: Option<Seq<char>>,
}

impl View for WorkerMessage {
    type V = Command;

    open spec fn view(&self) -> Command {
        match *self {
            WorkerMessage::Run { code } => Command::Run { code: code@ },
            WorkerMessage::Stop => Command::Stop,
        }
    }
}

impl View for WorkerResponse {
    type V = Event;

    open spec fn view(&self) -> Event {
        match *self {
            WorkerResponse::Output { text } => Event::Output { text: text@ },
            WorkerResponse::Error { text } => Event::Error { text: text@ },
            WorkerResponse::Done => Event::Done,
        }
    }
}

/// The characters of an optional string.
pub open spec fn field_view(field: Option<String>) -> Option<Seq<char>> {
    match field {
        Some(s) => Some(s@),
        None => None,
    }
}

impl View for WireObject {
    type V = Wire;

    open spec fn view(&self) -> Wire {
        Wire { kind: self.kind@, code: field_view(self.code), text: field_view(self.text) }
    }
}

/// The wire form of a command: `run` with the program in `code`, or `stop`.
pub open spec fn command_to_wire(command: Command) -> Wire {
    match command {
        Command::Run { code } => Wire { kind: "run"@, code: Some(code), text: None },
        Command::Stop => Wire { kind: "stop"@, code: None, text: None },
    }
}

/// The wire form of an event: `output` or `error` with the chunk in `text`,
/// or `done`.
pub open spec fn event_to_wire(event: Event) -> Wire {
    match event {
        Event::Output { text } => Wire { kind: "output"@, code: None, text: Some(text) },
        Event::Error { text } => Wire { kind: "error"@, code: None, text: Some(text) },
        Event::Done => Wire { kind: "done"@, code: None, text: None },
    }
}

/// The command that a wire object carries, if it carries one: the tag is
/// known and the field that the tag asks for is there. Other fields are not
/// looked at.
pub open spec fn command_of_wire(wire: Wire) -> Option<Command> {
    if wire.kind == "run"@ {
        match wire.code {
            Some(code) => Some(Command::Run { code }),
            None => None,
        }
    } else if wire.kind == "stop"@ {
        Some(Command::Stop)
    } else {
        None
    }
}

/// The event that a wire object carries, if it carries one.
pub open spec fn event_of_wire(wire: Wire) -> Option<Event> {
    if wire.kind == "output"@ {
        match wire.text {
            Some(text) => Some(Event::Output { text }),
            None => None,
        }
    } else if wire.kind == "error"@ {
        match wire.text {
            Some(text) => Some(Event::Error { text }),
            None => None,
        }
    } else if wire.kind == "done"@ {
        Some(Event::Done)
    } else {
        None
    }
}

/// The five tags are five different texts.
proof fn lemma_tags_differ()
    ensures
        "run"@ != "stop"@,
        "output"@ != "error"@,
        "output"@ != "done"@,
        "error"@ != "done"@,
{
    reveal_strlit("run");
    reveal_strlit("stop");
    reveal_strlit("output");
    reveal_strlit("error");
    reveal_strlit("done");
    assert("run"@.len() != "stop"@.len());
    assert("output"@.len() != "error"@.len());
    assert("output"@.len() != "done"@.len());
    assert("error"@.len() != "done"@.len());
}

/// Every command is read back from its wire form.
pub proof fn lemma_command_wire_round_trip(command: Command)
    ensures
        command_of_wire(command_to_wire(command)) == Some(command),
{
    lemma_tags_differ();
}

/// Every event is read back from its wire form.
pub proof fn lemma_event_wire_round_trip(event: Event)
    ensures
        event_of_wire(event_to_wire(event)) == Some(event),
{
    lemma_tags_differ();
}

fn clone_field(field: &Option<String>) -> (copy: Option<String>)
    ensures
        field_view(copy) == field_view(*field),
{
    match field {
        Some(s) => Some(s.clone()),
        None => None,
    }
}

impl WorkerMessage {
    /// The wire form of this command.
    pub fn to_wire(&self) -> (wire: WireObject)
        ensures
            wire@ == command_to_wire(self@),
    {
        match self {
            WorkerMessage::Run { code } => WireObject {
                kind: "run".to_owned(),
                code: Some(code.clone()),
                text: None,
            },
            WorkerMessage::Stop => WireObject { kind: "stop".to_owned(), code: None, text: None },
        }
    }

    /// Reads a command from a wire object; `None` for what is not one.
    pub fn from_wire(wire: &WireObject) -> (message: Option<WorkerMessage>)
        ensures
            match message {
                Some(m) => command_of_wire(wire@) == Some(m@),
                None => command_of_wire(wire@) is None,
            },
    {
        if same_text(wire.kind.as_str(), "run") {
            match clone_field(&wire.code) {
                Some(code) => Some(WorkerMessage::Run { code }),
                None => None,
            }
        } else if same_text(wire.kind.as_str(), "stop") {
            Some(WorkerMessage::Stop)
        } else {
            None
        }
    }
}

impl WorkerResponse {
    /// The wire form of this event.
    pub fn to_wire(&self) -> (wire: WireObject)
        ensures
            wire@ == event_to_wire(self@),
    {
        match self {
            WorkerResponse::Output { text } => WireObject {
                kind: "output".to_owned(),
                code: None,
                text: Some(text.clone()),
            },
            WorkerResponse::Error { text } => WireObject {
                kind: "error".to_owned(),
                code: None,
                text: Some(text.clone()),
            },
            WorkerResponse::Done => WireObject { kind: "done".to_owned(), code: None, text: None },
        }
    }

    /// Reads an event from a wire object; `None` for what is not one.
    pub fn from_wire(wire: &WireObject) -> (response: Option<WorkerResponse>)
        ensures
            match response {
                Some(e) => event_of_wire(wire@) == Some(e@),
                None => event_of_wire(wire@) is None,
            },
    {
        if same_text(wire.kind.as_str(), "output") {
            match clone_field(&wire.text) {
                Some(text) => Some(WorkerResponse::Output { text }),
                None => None,
            }
        } else if same_text(wire.kind.as_str(), "error") {
            match clone_field(&wire.text) {
                Some(text) => Some(WorkerResponse::Error { text }),
                None => None,
            }
        } else if same_text(wire.kind.as_str(), "done") {
            Some(WorkerResponse::Done)
        } else {
            None
        }
    }
}

/// Where a session stands. It starts `Idle`, is `Running` once its program
/// was handed out, and ends in exactly one of the three other states.
#[derive(Clone, Copy, Debug, PartialEq, Eq, Structural)]
pub enum SessionState {
    Idle,
    Running,
    Completed,
    Failed,
    Cancelled,
}

/// The worker could not be created.
#[derive(Clone, Copy, Debug, PartialEq, Eq, Structural)]
pub struct CreationError;

/// A command could not be sent: the worker is gone.
#[derive(Clone, Copy, Debug, PartialEq, Eq, Structural)]
pub struct DispatchError;

/// The text of the event that stands for a failure of the worker itself.
pub const WORKER_ERROR_TEXT: &'static str = "Worker error occurred";

/// `event` ends a run: nothing follows an `Error` or a `Done`.
pub open spec fn is_ending(event: Event) -> bool {
    event is Error || event is Done
}

impl SessionState {
    /// The session is over: no event is delivered any more.
    pub open spec fn is_terminal(self) -> bool {
        self is Completed || self is Failed || self is Cancelled
    }

    /// The session still owns a live worker.
    pub open spec fn is_live(self) -> bool {
        !self.is_terminal()
    }

    /// The state after a request to run a program.
    pub open spec fn after_run(self) -> SessionState {
        if self is Idle {
            SessionState::Running
        } else {
            self
        }
    }

    /// The state after the transport said whether it took a command.
    pub open spec fn after_dispatch(self, accepted: bool) -> SessionState {
        if self.is_live() && !accepted {
            SessionState::Failed
        } else {
            self
        }
    }

    /// The state after a request to stop, or after disposal.
    pub open spec fn after_stop(self) -> SessionState {
        if self.is_live() {
            SessionState::Cancelled
        } else {
            self
        }
    }

    /// The state after an event arrived from the worker.
    pub open spec fn after_event(self, event: Event) -> SessionState {
        if self.is_terminal() {
            self
        } else {
            match event {
                Event::Output { .. } => self,
                Event::Error { .. } => SessionState::Failed,
                Event::Done => SessionState::Completed,
            }
        }
    }

    /// The state after a sequence of events, first to last.
    pub open spec fn after_events(self, events: Seq<Event>) -> SessionState
        decreases events.len(),
    {
        if events.len() == 0 {
            self
        } else {
            self.after_event(events[0]).after_events(events.skip(1))
        }
    }

    /// The events, out of a sequence that arrives, that the session hands
    /// on to the page.
    pub open spec fn delivered(self, events: Seq<Event>) -> Seq<Event>
        decreases events.len(),
    {
        if events.len() == 0 || self.is_terminal() {
            Seq::empty()
        } else {
            seq![events[0]] + self.after_event(events[0]).delivered(events.skip(1))
        }
    }
}

/// A session that is over stays as it is, whatever is asked of it and
/// whatever arrives.
pub proof fn lemma_terminal_is_final(state: SessionState, event: Event, accepted: bool)
    requires
        state.is_terminal(),
    ensures
        state.after_run() == state,
        state.after_dispatch(accepted) == state,
        state.after_stop() == state,
        state.after_event(event) == state,
{
}

/// After a session is over nothing is delivered and nothing changes.
pub proof fn lemma_nothing_after_the_end(state: SessionState, events: Seq<Event>)
    requires
        state.is_terminal(),
    ensures
        state.after_events(events) == state,
        state.delivered(events) == Seq::<Event>::empty(),
    decreases events.len(),
{
    if events.len() > 0 {
        lemma_nothing_after_the_end(state, events.skip(1));
    }
}

/// Disposal safety: once a session was stopped or disposed of, none of the
/// events that still arrive reaches the page.
pub proof fn lemma_nothing_after_disposal(state: SessionState, events: Seq<Event>)
    ensures
        state.after_stop().is_terminal(),
        state.after_stop().after_events(events) == state.after_stop(),
        state.after_stop().delivered(events) == Seq::<Event>::empty(),
{
    lemma_nothing_after_the_end(state.after_stop(), events);
}

/// Terminal convergence and event ordering: of the events of a live session,
/// the page sees those up to the first `Error` or `Done`, in the order in
/// which they arrived, and nothing after it; the session then is `Failed` or
/// `Completed`, according to that event.
pub proof fn lemma_run_ends_once(state: SessionState, events: Seq<Event>, end: int)
    requires
        state.is_live(),
        0 <= end < events.len(),
        is_ending(events[end]),
        forall|i: int| 0 <= i < end ==> !is_ending(#[trigger] events[i]),
    ensures
        state.delivered(events) == events.take(end + 1),
        state.after_events(events) == if events[end] is Done {
            SessionState::Completed
        } else {
            SessionState::Failed
        },
    decreases events.len(),
{
    let rest = events.skip(1);
    if end == 0 {
        lemma_nothing_after_the_end(state.after_event(events[0]), rest);
        assert(events.take(1) =~= seq![events[0]]);
    } else {
        assert(!is_ending(events[0]));
        assert(rest[end - 1] == events[end]);
        assert forall|i: int| 0 <= i < end - 1 implies !is_ending(#[trigger] rest[i]) by {
            assert(rest[i] == events[i + 1]);
        }
        lemma_run_ends_once(state.after_event(events[0]), rest, end - 1);
        assert(events.take(end + 1) =~= seq![events[0]] + rest.take(end));
    }
}

/// While no `Error` or `Done` arrives, a live session stays as it is and
/// hands on every event.
pub proof fn lemma_run_goes_on(state: SessionState, events: Seq<Event>)
    requires
        state.is_live(),
        forall|i: int| 0 <= i < events.len() ==> !is_ending(#[trigger] events[i]),
    ensures
        state.delivered(events) == events,
        state.after_events(events) == state,
    decreases events.len(),
{
    if events.len() > 0 {
        let rest = events.skip(1);
        assert(!is_ending(events[0]));
        assert forall|i: int| 0 <= i < rest.len() implies !is_ending(#[trigger] rest[i]) by {
            assert(rest[i] == events[i + 1]);
        }
        lemma_run_goes_on(state, rest);
        assert(events =~= seq![events[0]] + rest);
    } else {
        assert(events =~= Seq::<Event>::empty());
    }
}

impl SessionState {
    /// Whether the session is over.
    pub fn terminal(&self) -> (over: bool)
        ensures
            over == self.is_terminal(),
    {
        match self {
            SessionState::Idle => false,
            SessionState::Running => false,
            SessionState::Completed => true,
            SessionState::Failed => true,
            SessionState::Cancelled => true,
        }
    }
}

impl CreationError {
    /// The text of `message`.
    pub open spec fn message_spec() -> Seq<char> {
        "Could not start the Python worker"@
    }

    /// A one-line description of the failure.
    pub fn message(&self) -> (text: String)
        ensures
            text@ == Self::message_spec(),
    {
        "Could not start the Python worker".to_owned()
    }
}

impl DispatchError {
    /// The text of `message`.
    pub open spec fn message_spec() -> Seq<char> {
        "Could not send the command to the Python worker"@
    }

    /// A one-line description of the failure.
    pub fn message(&self) -> (text: String)
        ensures
            text@ == Self::message_spec(),
    {
        "Could not send the command to the Python worker".to_owned()
    }
}

/// One execution session. It is made for one run and never used for a
/// second one.
#[derive(Debug)]
pub struct PythonRunner {
    state: SessionState,
}

impl View for PythonRunner {
    type V = SessionState;

    closed spec fn view(&self) -> SessionState {
        self.state
    }
}

impl PythonRunner {
    /// Opens a session on a worker that the caller has just tried to create:
    /// an idle session where it was created, `CreationError` where it was
    /// not.
    pub fn new(worker_created: bool) -> (r: Result<PythonRunner, CreationError>)
        ensures
            worker_created ==> (r matches Ok(runner) && runner@ == SessionState::Idle),
            !worker_created ==> r == Err::<PythonRunner, CreationError>(CreationError),
    {
        if worker_created {
            Ok(PythonRunner { state: SessionState::Idle })
        } else {
            Err(CreationError)
        }
    }

    /// Where the session stands.
    pub fn state(&self) -> (state: SessionState)
        ensures
            state == self@,
    {
        self.state
    }

    /// Whether the session still owns a live worker. Once it does not, the
    /// caller terminates the worker and detaches its handlers.
    pub fn is_live(&self) -> (live: bool)
        ensures
            live == self@.is_live(),
    {
        !self.state.terminal()
    }

    /// Starts the run: an idle session becomes `Running` and hands out the
    /// `Run` command to send. A session that was started or is over hands
    /// out nothing and stays as it is.
    pub fn run_code(&mut self, code: String) -> (message: Option<WorkerMessage>)
        ensures
            final(self)@ == old(self)@.after_run(),
            old(self)@ is Idle ==> (message matches Some(m) && m@ == (Command::Run { code: code@ })),
            !(old(self)@ is Idle) ==> message is None,
    {
        match self.state {
            SessionState::Idle => {
                self.state = SessionState::Running;
                Some(WorkerMessage::Run { code })
            },
            _ => None,
        }
    }

    /// Cancels the run: a live session becomes `Cancelled` at once, whether
    /// or not the worker will ever listen, and hands out the `Stop` command
    /// to send first. A session that is over hands out nothing.
    pub fn stop(&mut self) -> (message: Option<WorkerMessage>)
        ensures
            final(self)@ == old(self)@.after_stop(),
            old(self)@.is_live() ==> (message matches Some(m) && m@ == Command::Stop),
            !old(self)@.is_live() ==> message is None,
    {
        if self.state.terminal() {
            None
        } else {
            self.state = SessionState::Cancelled;
            Some(WorkerMessage::Stop)
        }
    }

    /// Takes note of what the transport did with a command: where it
    /// rejected the command, a live session becomes `Failed` and the caller
    /// gets a `DispatchError`.
    pub fn dispatched(&mut self, accepted: bool) -> (r: Result<(), DispatchError>)
        ensures
            final(self)@ == old(self)@.after_dispatch(accepted),
            accepted ==> r is Ok,
            !accepted ==> r == Err::<(), DispatchError>(DispatchError),
    {
        if accepted {
            Ok(())
        } else {
            if !self.state.terminal() {
                self.state = SessionState::Failed;
            }
            Err(DispatchError)
        }
    }

    /// Takes an event that arrived from the worker. A live session hands it
    /// on, and is over after an `Error` or a `Done`. A session that is over
    /// hands on nothing.
    pub fn on_event(&mut self, event: WorkerResponse) -> (delivered: Option<WorkerResponse>)
        ensures
            final(self)@ == old(self)@.after_event(event@),
            old(self)@.is_live() ==> delivered == Some(event),
            !old(self)@.is_live() ==> delivered is None,
    {
        if self.state.terminal() {
            return None;
        }
        match &event {
            WorkerResponse::Output { .. } => {},
            WorkerResponse::Error { .. } => {
                self.state = SessionState::Failed;
            },
            WorkerResponse::Done => {
                self.state = SessionState::Completed;
            },
        }
        Some(event)
    }

    /// Takes a payload that arrived from the worker. What is not the wire
    /// form of an event is dropped without a trace; an event is taken as by
    /// `on_event`.
    pub fn on_message(&mut self, payload: &WireObject) -> (delivered: Option<WorkerResponse>)
        ensures
            match event_of_wire(payload@) {
                Some(event) => {
                    &&& final(self)@ == old(self)@.after_event(event)
                    &&& old(self)@.is_live() ==> (delivered matches Some(e) && e@ == event)
                    &&& !old(self)@.is_live() ==> delivered is None
                },
                None => final(self)@ == old(self)@ && delivered is None,
            },
    {
        match WorkerResponse::from_wire(payload) {
            Some(event) => self.on_event(event),
            None => None,
        }
    }

    /// Takes a failure of the worker itself, outside the protocol: it counts
    /// as an `Error` event with the text `WORKER_ERROR_TEXT`.
    pub fn on_error(&mut self) -> (delivered: Option<WorkerResponse>)
        ensures
            final(self)@ == old(self)@.after_event(Event::Error { text: WORKER_ERROR_TEXT@ }),
            old(self)@.is_live() ==> (delivered matches Some(e) && e@ == (Event::Error {
                text: WORKER_ERROR_TEXT@,
            })),
            !old(self)@.is_live() ==> delivered is None,
    {
        self.on_event(WorkerResponse::Error { text: WORKER_ERROR_TEXT.to_owned() })
    }

    /// Disposes of the session: it is over from now on, and no event is
    /// handed on any more. Returns whether a worker was still live, which the
    /// caller must now terminate.
    pub fn dispose(&mut self) -> (terminate: bool)
        ensures
            final(self)@ == old(self)@.after_stop(),
            terminate == old(self)@.is_live(),
    {
        if self.state.terminal() {
            false
        } else {
            self.state = SessionState::Cancelled;
            true
        }
    }
}

} // verus!
