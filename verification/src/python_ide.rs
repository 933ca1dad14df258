//! The page's side of a run: the flag that says whether a run is in
//! progress, and the text of the output pane. Both belong to the page's event
//! loop alone; every change to them is one of the steps below.

use crate::python_runner::{is_ending, Event, SessionState, WorkerResponse};
use vstd::prelude::*;
use vstd::string::*;

verus! {

/// What is appended to the output when the user cancels a run.
pub const CANCEL_MARKER: &'static str = "\n[Execution cancelled]\n";

/// The run flag and the output pane.
#[derive(Debug)]
pub struct IdeState {
    running: bool,
    output: String,
}

/// The page's state as contracts speak of it.
pub struct Ide {
    pub running: bool,
    pub output: Seq<char>,
}

impl View for IdeState {
    type V = Ide;

    closed spec fn view(&self) -> Ide {
        Ide { running: self.running, output: self.output@ }
    }
}

impl Ide {
    /// The page before any run: idle, with an empty output pane.
    pub open spec fn initial() -> Ide {
        Ide { running: false, output: Seq::empty() }
    }

    /// The state after the user asked for a run: a run in progress is left
    /// alone; otherwise the pane is cleared and a run is in progress.
    pub open spec fn after_run_request(self) -> Ide {
        if self.running {
            self
        } else {
            Ide { running: true, output: Seq::empty() }
        }
    }

    /// The state after an event of the current session: its text goes to the
    /// end of the pane, and an `Error` or a `Done` ends the run. Without a
    /// run in progress an event changes nothing.
    pub open spec fn after_event(self, event: Event) -> Ide {
        if !self.running {
            self
        } else {
            match event {
                Event::Output { text } => Ide { running: true, output: self.output + text },
                Event::Error { text } => Ide { running: false, output: self.output + text },
                Event::Done => Ide { running: false, output: self.output },
            }
        }
    }

    /// The state after the user cancelled: the run is over at once and the
    /// pane says so. Without a run in progress nothing changes.
    pub open spec fn after_cancel(self) -> Ide {
        if self.running {
            Ide { running: false, output: self.output + CANCEL_MARKER@ }
        } else {
            self
        }
    }

    /// The state after the worker could not be created or a command could
    /// not be sent: the pane gets the diagnostic as a line of its own and no
    /// run is in progress.
    pub open spec fn after_failure(self, diagnostic: Seq<char>) -> Ide {
        Ide { running: false, output: self.output + diagnostic + seq!['\n'] }
    }

    /// The state after a sequence of events, first to last.
    pub open spec fn after_events(self, events: Seq<Event>) -> Ide
        decreases events.len(),
    {
        if events.len() == 0 {
            self
        } else {
            self.after_event(events[0]).after_events(events.skip(1))
        }
    }
}

/// The text that an event carries.
pub open spec fn event_text(event: Event) -> Seq<char> {
    match event {
        Event::Output { text } => text,
        Event::Error { text } => text,
        Event::Done => Seq::empty(),
    }
}

/// The texts of a sequence of events, one after the other.
pub open spec fn events_text(events: Seq<Event>) -> Seq<char>
    decreases events.len(),
{
    if events.len() == 0 {
        Seq::empty()
    } else {
        event_text(events[0]) + events_text(events.skip(1))
    }
}

/// The session and the page agree on whether a run is in progress.
pub open spec fn in_step(session: SessionState, page: Ide) -> bool {
    session.is_live() == page.running
}

/// Session exclusivity: a request for a run while one is in progress changes
/// nothing, however often it is made.
pub proof fn lemma_request_while_running(page: Ide)
    requires
        page.running,
    ensures
        page.after_run_request() == page,
        page.after_run_request().after_run_request() == page,
{
}

/// Without a run in progress no event changes the page.
pub proof fn lemma_idle_page_ignores_events(page: Ide, events: Seq<Event>)
    requires
        !page.running,
    ensures
        page.after_events(events) == page,
    decreases events.len(),
{
    if events.len() > 0 {
        lemma_idle_page_ignores_events(page, events.skip(1));
    }
}

/// Event ordering: while no `Error` or `Done` arrives the run goes on, and
/// the pane holds the texts of the events in the order of their arrival.
pub proof fn lemma_output_goes_on(page: Ide, events: Seq<Event>)
    requires
        page.running,
        forall|i: int| 0 <= i < events.len() ==> !is_ending(#[trigger] events[i]),
    ensures
        page.after_events(events) == (Ide {
            running: true,
            output: page.output + events_text(events),
        }),
    decreases events.len(),
{
    if events.len() == 0 {
        assert(page.output + events_text(events) =~= page.output);
    } else {
        let rest = events.skip(1);
        let next = page.after_event(events[0]);
        assert(!is_ending(events[0]));
        assert forall|i: int| 0 <= i < rest.len() implies !is_ending(#[trigger] rest[i]) by {
            assert(rest[i] == events[i + 1]);
        }
        lemma_output_goes_on(next, rest);
        assert(next.output + events_text(rest) =~= page.output + events_text(events));
    }
}

/// Terminal convergence on the page: the first `Error` or `Done` ends the
/// run; the pane then holds the texts of the events up to that one, in the
/// order of their arrival, and nothing of what came after it.
pub proof fn lemma_output_ends_once(page: Ide, events: Seq<Event>, end: int)
    requires
        page.running,
        0 <= end < events.len(),
        is_ending(events[end]),
        forall|i: int| 0 <= i < end ==> !is_ending(#[trigger] events[i]),
    ensures
        page.after_events(events) == (Ide {
            running: false,
            output: page.output + events_text(events.take(end + 1)),
        }),
    decreases events.len(),
{
    let rest = events.skip(1);
    let next = page.after_event(events[0]);
    if end == 0 {
        lemma_idle_page_ignores_events(next, rest);
        let one = events.take(1);
        assert(one[0] == events[0]);
        assert(one.skip(1).len() == 0);
        assert(events_text(one) == event_text(one[0]) + events_text(one.skip(1)));
        assert(events_text(one) =~= event_text(events[0]));
        assert(next.output =~= page.output + events_text(events.take(1)));
    } else {
        assert(!is_ending(events[0]));
        assert(rest[end - 1] == events[end]);
        assert forall|i: int| 0 <= i < end - 1 implies !is_ending(#[trigger] rest[i]) by {
            assert(rest[i] == events[i + 1]);
        }
        lemma_output_ends_once(next, rest, end - 1);
        let head = events.take(end + 1);
        assert(head[0] == events[0]);
        assert(head.skip(1) =~= rest.take(end));
        assert(events_text(head) == event_text(head[0]) + events_text(head.skip(1)));
        assert(next.output + events_text(rest.take(end)) =~= page.output + events_text(
            events.take(end + 1),
        ));
    }
}

/// A session and a page that agree on whether a run is in progress still
/// agree after every step that they take together: an event that arrives, a
/// cancellation, a command that could not be sent.
pub proof fn lemma_steps_keep_in_step(
    session: SessionState,
    page: Ide,
    event: Event,
    diagnostic: Seq<char>,
)
    requires
        in_step(session, page),
    ensures
        in_step(session.after_event(event), page.after_event(event)),
        in_step(session.after_stop(), page.after_cancel()),
        in_step(session.after_dispatch(false), page.after_failure(diagnostic)),
        in_step(session.after_dispatch(true), page),
{
}

impl IdeState {
    /// The page before any run.
    pub fn new() -> (page: IdeState)
        ensures
            page@ == Ide::initial(),
    {
        IdeState { running: false, output: String::new() }
    }

    /// Whether a run is in progress.
    pub fn is_running(&self) -> (running: bool)
        ensures
            running == self@.running,
    {
        self.running
    }

    /// The text of the output pane.
    pub fn output(&self) -> (text: &str)
        ensures
            text@ == self@.output,
    {
        self.output.as_str()
    }

    /// The user asks for a run. Returns whether one may start: with a run in
    /// progress the answer is no and nothing changes, so that no second
    /// worker is made and the pane is not cleared.
    pub fn request_run(&mut self) -> (granted: bool)
        ensures
            final(self)@ == old(self)@.after_run_request(),
            granted == !old(self)@.running,
    {
        if self.running {
            false
        } else {
            self.running = true;
            self.output = String::new();
            true
        }
    }

    /// An event of the current session arrives.
    pub fn handle_event(&mut self, event: &WorkerResponse)
        ensures
            final(self)@ == old(self)@.after_event(event@),
    {
        if !self.running {
            return ;
        }
        match event {
            WorkerResponse::Output { text } => {
                self.output.append(text.as_str());
            },
            WorkerResponse::Error { text } => {
                self.output.append(text.as_str());
                self.running = false;
            },
            WorkerResponse::Done => {
                self.running = false;
            },
        }
    }

    /// The user cancels. Returns whether there was a run to cancel; where
    /// there was, it is over now, whatever the worker does.
    pub fn cancel(&mut self) -> (cancelled: bool)
        ensures
            final(self)@ == old(self)@.after_cancel(),
            cancelled == old(self)@.running,
            !final(self)@.running,
    {
        if self.running {
            self.running = false;
            self.output.append(CANCEL_MARKER);
            true
        } else {
            false
        }
    }

    /// The worker could not be created, or a command could not be sent.
    pub fn report_failure(&mut self, diagnostic: &str)
        ensures
            final(self)@ == old(self)@.after_failure(diagnostic@),
            !final(self)@.running,
    {
        self.output.append(diagnostic);
        self.output.append("\n");
        self.running = false;
        proof {
            reveal_strlit("\n");
            assert("\n"@ =~= seq!['\n']);
        }
    }
}

} // verus!
