use vstd::prelude::*;

verus! {

/// The life cycle of a connection: `CONNECTING` until the blank line that ends
/// the response headers, then `OPEN` until it is closed.
#[allow(non_camel_case_types)]
#[derive(Debug, Clone, Copy, PartialEq, Eq, Structural)]
pub enum State {
    CONNECTING,
    OPEN,
    CLOSED,
}

/// An event rebuilt from one block of `field: value` lines.
#[derive(Debug, Clone)]
pub struct Event {
    pub type_: String,
    pub data: String,
}

/// What an event is, mathematically: its type and its data.
pub type EventModel = (Seq<char>, Seq<char>);

impl View for Event {
    type V = EventModel;

    open spec fn view(&self) -> EventModel {
        (self.type_@, self.data@)
    }
}

/// The view of a pending event, if there is one.
pub open spec fn pending_view(p: Option<Event>) -> Option<EventModel> {
    match p {
        Some(e) => Some(e@),
        None => None,
    }
}

} // verus!
