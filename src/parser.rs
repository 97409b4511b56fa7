use vstd::prelude::*;
use vstd::string::*;

use crate::event::{pending_view, Event, EventModel, State};
use crate::field::{field_name, field_value, parse_field, same_text};
use crate::frame::{lines_from, split_lines};

verus! {

/// The type an event has when no `event` field names one.
pub open spec fn default_type() -> Seq<char> {
    "message"@
}

/// The base that a known field updates: the pending event, or an empty
/// `message` event if none is pending.
pub open spec fn base_event(pending: Option<EventModel>) -> EventModel {
    match pending {
        Some(e) => e,
        None => (default_type(), Seq::empty()),
    }
}

/// The pending event after one `name: value` line: `event` sets its type and
/// `data` sets its data, starting from an empty `message` event if none is
/// pending; any other name is ignored, so the pending event (or its absence)
/// stays as it was.
pub open spec fn apply_field(pending: Option<EventModel>, line: Seq<char>) -> Option<EventModel> {
    let name = field_name(line);
    if name == "event"@ {
        Some((field_value(line), base_event(pending).1))
    } else if name == "data"@ {
        Some((base_event(pending).0, field_value(line)))
    } else {
        pending
    }
}

/// One line of the event stream, after the headers: the new pending event and
/// the event completed by this line, if any. A blank line completes the pending
/// event (if there is one), a line that starts with `:` is a comment and changes
/// nothing, any other line is a field of the pending event.
pub open spec fn body_step(pending: Option<EventModel>, line: Seq<char>) -> (
    Option<EventModel>,
    Option<EventModel>,
) {
    if line.len() == 0 {
        (None, pending)
    } else if line[0] == ':' {
        (pending, None)
    } else {
        (apply_field(pending, line), None)
    }
}

/// What the reader of the stream is asked to do after one line.
pub enum Action {
    /// Nothing to deliver.
    Nothing,
    /// The headers have ended: call the open listeners.
    Open,
    /// An event is complete: deliver it to the listeners of its type.
    Dispatch(Event),
}

/// The mathematical counterpart of `Action`.
pub enum Signal {
    Nothing,
    Open,
    Dispatch(EventModel),
}

impl View for Action {
    type V = Signal;

    open spec fn view(&self) -> Signal {
        match self {
            Action::Nothing => Signal::Nothing,
            Action::Open => Signal::Open,
            Action::Dispatch(e) => Signal::Dispatch(e@),
        }
    }
}

/// One step of the whole machine: from a connection state and a pending event,
/// one line gives the next state, the next pending event and a signal. Header
/// lines are skipped until the first blank one, which opens the connection; a
/// closed connection ignores whatever still arrives.
pub open spec fn step(state: State, pending: Option<EventModel>, line: Seq<char>) -> (
    State,
    Option<EventModel>,
    Signal,
) {
    match state {
        State::CONNECTING => {
            if line.len() == 0 {
                (State::OPEN, pending, Signal::Open)
            } else {
                (State::CONNECTING, pending, Signal::Nothing)
            }
        },
        State::OPEN => {
            let (next, done) = body_step(pending, line);
            (
                State::OPEN,
                next,
                match done {
                    Some(e) => Signal::Dispatch(e),
                    None => Signal::Nothing,
                },
            )
        },
        State::CLOSED => (State::CLOSED, pending, Signal::Nothing),
    }
}

/// Applies one `name: value` line to the pending event (see `apply_field`).
pub fn update_event(pending_event: Option<Event>, message: String) -> (r: Option<Event>)
    ensures
        pending_view(r) == apply_field(pending_view(pending_event), message@),
{
    let (name, value) = parse_field(&message);
    let is_type = same_text(name, "event");
    if !is_type && !same_text(name, "data") {
        return pending_event;
    }
    let mut event = match pending_event {
        Some(e) => e,
        None => Event { type_: String::from_str("message"), data: String::new() },
    };
    if is_type {
        event.type_ = String::from_str(value);
    } else {
        event.data = String::from_str(value);
    }
    Some(event)
}

/// A header line: the first blank one opens the connection.
pub fn handle_stream_header(line: String) -> (r: State)
    ensures
        r == (if line@.len() == 0 {
            State::OPEN
        } else {
            State::CONNECTING
        }),
{
    if line.as_str().is_empty() {
        State::OPEN
    } else {
        State::CONNECTING
    }
}

/// A line of the event stream after the headers: returns the new pending event
/// and the completed one, if any (see `body_step`).
pub fn handle_stream_body(pending_event: Option<Event>, line: String) -> (r: (
    Option<Event>,
    Option<Event>,
))
    ensures
        (pending_view(r.0), pending_view(r.1)) == body_step(pending_view(pending_event), line@),
{
    let text = line.as_str();
    if text.is_empty() {
        (None, pending_event)
    } else if text.get_char(0) == ':' {
        (pending_event, None)
    } else {
        (update_event(pending_event, line), None)
    }
}


/// The reader's side of one connection: its state and the event being built.
pub struct StreamParser {
    state: State,
    pending: Option<Event>,
}

impl View for StreamParser {
    type V = (State, Option<EventModel>);

    closed spec fn view(&self) -> (State, Option<EventModel>) {
        (self.state, pending_view(self.pending))
    }
}

/// The lines of a vector, as sequences of characters.
pub open spec fn lines_view(lines: Seq<String>) -> Seq<Seq<char>> {
    lines.map_values(|l: String| l@)
}

/// The signals of a vector of actions.
pub open spec fn signals_view(actions: Seq<Action>) -> Seq<Signal> {
    actions.map_values(|a: Action| a@)
}

impl StreamParser {
    /// A connection that has just been opened: `CONNECTING`, no event pending.
    pub fn new() -> (r: StreamParser)
        ensures
            r@ == (State::CONNECTING, None::<EventModel>),
    {
        StreamParser { state: State::CONNECTING, pending: None }
    }

    /// The connection's current state.
    pub fn state(&self) -> (r: State)
        ensures
            r == self@.0,
    {
        self.state
    }

    /// Marks the connection closed and drops the event being built.
    pub fn close(&mut self)
        ensures
            final(self)@ == (State::CLOSED, None::<EventModel>),
    {
        self.state = State::CLOSED;
        self.pending = None;
    }

    /// Takes one line of the stream (see `step`) and says what is to be done.
    pub fn feed_line(&mut self, line: String) -> (r: Action)
        ensures
            (final(self)@.0, final(self)@.1, r@) == step(old(self)@.0, old(self)@.1, line@),
    {
        match self.state {
            State::CONNECTING => {
                let next = handle_stream_header(line);
                self.state = next;
                match next {
                    State::OPEN => Action::Open,
                    _ => Action::Nothing,
                }
            },
            State::OPEN => {
                let pending = self.pending.take();
                let (next, done) = handle_stream_body(pending, line);
                self.pending = next;
                match done {
                    Some(e) => Action::Dispatch(e),
                    None => Action::Nothing,
                }
            },
            State::CLOSED => Action::Nothing,
        }
    }

    /// Takes the lines in order, one step each (see `run`), and returns one
    /// action per line.
    pub fn feed_lines(&mut self, lines: &Vec<String>) -> (r: Vec<Action>)
        ensures
            ({
                let after = run(old(self)@.0, old(self)@.1, lines_view(lines@));
                &&& final(self)@.0 == after.0
                &&& final(self)@.1 == after.1
                &&& signals_view(r@) == after.2
            }),
    {
        let ghost start = *self;
        let mut actions: Vec<Action> = Vec::new();
        let n = lines.len();
        let mut i: usize = 0;
        while i < n
            invariant
                n == lines@.len(),
                0 <= i <= n,
                ({
                    let sofar = run(start@.0, start@.1, lines_view(lines@).take(i as int));
                    &&& self@.0 == sofar.0
                    &&& self@.1 == sofar.1
                    &&& signals_view(actions@) == sofar.2
                }),
            decreases n - i,
        {
            let line = lines[i].clone();
            let ghost before = *self;
            let ghost done = lines_view(lines@).take(i as int);
            let ghost earlier = actions@;
            let a = self.feed_line(line);
            actions.push(a);
            proof {
                let one = seq![lines@[i as int]@];
                assert(lines_view(lines@).take(i + 1) =~= done + one);
                lemma_run_append(start@.0, start@.1, done, one);
                assert(one.drop_first() =~= Seq::<Seq<char>>::empty());
                let mid = run(start@.0, start@.1, done);
                let st = step(mid.0, mid.1, one[0]);
                assert(run(st.0, st.1, one.drop_first()).2 =~= Seq::<Signal>::empty());
                assert(run(mid.0, mid.1, one).2 =~= seq![a@]);
                assert(signals_view(actions@) =~= signals_view(earlier) + seq![a@]);
            }
            i += 1;
        }
        assert(lines_view(lines@).take(n as int) =~= lines_view(lines@));
        actions
    }

    /// Takes a piece of the stream, cut into lines (see `lines_from`), and
    /// returns one action per line.
    pub fn feed_text(&mut self, text: &str) -> (r: Vec<Action>)
        ensures
            ({
                let after = run(old(self)@.0, old(self)@.1, lines_from(text@, 0));
                &&& final(self)@.0 == after.0
                &&& final(self)@.1 == after.1
                &&& signals_view(r@) == after.2
            }),
    {
        let lines = split_lines(text);
        self.feed_lines(&lines)
    }
}

/// The signals and final state after a sequence of lines, one step per line.
pub open spec fn run(state: State, pending: Option<EventModel>, lines: Seq<Seq<char>>) -> (
    State,
    Option<EventModel>,
    Seq<Signal>,
)
    decreases lines.len(),
{
    if lines.len() == 0 {
        (state, pending, Seq::empty())
    } else {
        let (s1, p1, a) = step(state, pending, lines[0]);
        let (s2, p2, rest) = run(s1, p1, lines.drop_first());
        (s2, p2, seq![a] + rest)
    }
}

/// Running over two sequences one after the other is running over both.
pub proof fn lemma_run_append(
    state: State,
    pending: Option<EventModel>,
    a: Seq<Seq<char>>,
    b: Seq<Seq<char>>,
)
    ensures
        ({
            let first = run(state, pending, a);
            let second = run(first.0, first.1, b);
            run(state, pending, a + b) == (second.0, second.1, first.2 + second.2)
        }),
    decreases a.len(),
{
    if a.len() == 0 {
        assert(a + b =~= b);
        assert(run(state, pending, a).2 + run(state, pending, b).2 =~= run(state, pending, b).2);
    } else {
        let (s1, p1, sig) = step(state, pending, a[0]);
        assert((a + b).drop_first() =~= a.drop_first() + b);
        lemma_run_append(s1, p1, a.drop_first(), b);
        let first = run(s1, p1, a.drop_first());
        let second = run(first.0, first.1, b);
        assert(seq![sig] + (first.2 + second.2) =~= (seq![sig] + first.2) + second.2);
    }
}

/// While the headers last, nothing is signalled and the connection stays
/// `CONNECTING`.
pub proof fn lemma_headers_are_skipped(pending: Option<EventModel>, headers: Seq<Seq<char>>)
    requires
        forall|i: int| 0 <= i < headers.len() ==> headers[i].len() > 0,
    ensures
        run(State::CONNECTING, pending, headers).0 == State::CONNECTING,
        run(State::CONNECTING, pending, headers).1 == pending,
        run(State::CONNECTING, pending, headers).2.len() == headers.len(),
        forall|i: int|
            0 <= i < headers.len() ==> run(State::CONNECTING, pending, headers).2[i]
                == Signal::Nothing,
    decreases headers.len(),
{
    if headers.len() > 0 {
        lemma_headers_are_skipped(pending, headers.drop_first());
    }
}

/// An open connection stays open, and is never signalled open again.
pub proof fn lemma_open_stays_open(pending: Option<EventModel>, lines: Seq<Seq<char>>)
    ensures
        run(State::OPEN, pending, lines).0 == State::OPEN,
        run(State::OPEN, pending, lines).2.len() == lines.len(),
        forall|i: int|
            0 <= i < lines.len() ==> run(State::OPEN, pending, lines).2[i] != Signal::Open,
    decreases lines.len(),
{
    if lines.len() > 0 {
        let (s1, p1, a) = step(State::OPEN, pending, lines[0]);
        lemma_open_stays_open(p1, lines.drop_first());
    }
}

/// After any run of non-blank header lines, the first blank line, and only that
/// one, signals that the connection is open; nothing at all is signalled before
/// it, so the open listeners run once, before any event is delivered.
pub proof fn lemma_first_blank_line_opens(headers: Seq<Seq<char>>, rest: Seq<Seq<char>>)
    requires
        forall|i: int| 0 <= i < headers.len() ==> headers[i].len() > 0,
    ensures
        ({
            let signals = run(State::CONNECTING, None, headers + seq![Seq::<char>::empty()] + rest).2;
            &&& signals.len() == headers.len() + 1 + rest.len()
            &&& forall|i: int| 0 <= i < headers.len() ==> signals[i] == Signal::Nothing
            &&& signals[headers.len() as int] == Signal::Open
            &&& forall|i: int|
                headers.len() < i < signals.len() ==> signals[i] != Signal::Open
        }),
{
    let blank = seq![Seq::<char>::empty()];
    lemma_run_append(State::CONNECTING, None, headers, blank);
    lemma_run_append(State::CONNECTING, None, headers + blank, rest);
    lemma_headers_are_skipped(None, headers);
    let h = run(State::CONNECTING, None, headers);
    assert(blank.drop_first() =~= Seq::<Seq<char>>::empty());
    let o = run(h.0, h.1, blank);
    assert(blank[0].len() == 0);
    let after = step(h.0, h.1, blank[0]);
    assert(run(after.0, after.1, blank.drop_first()).2 =~= Seq::<Signal>::empty());
    assert(o.0 == State::OPEN);
    assert(o.2 =~= seq![Signal::Open]);
    lemma_open_stays_open(o.1, rest);
}

/// Once closed, a connection stays closed and delivers nothing, whatever lines
/// still arrive.
pub proof fn lemma_closed_delivers_nothing(pending: Option<EventModel>, lines: Seq<Seq<char>>)
    ensures
        run(State::CLOSED, pending, lines).0 == State::CLOSED,
        run(State::CLOSED, pending, lines).2.len() == lines.len(),
        forall|i: int|
            0 <= i < lines.len() ==> run(State::CLOSED, pending, lines).2[i] == Signal::Nothing,
    decreases lines.len(),
{
    if lines.len() > 0 {
        lemma_closed_delivers_nothing(pending, lines.drop_first());
    }
}

} // verus!
