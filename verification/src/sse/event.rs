//! The event type of a server-sent-events stream.

use vstd::prelude::*;

verus! {

/// A parsed server-sent event, with the fields of the W3C EventSource format.
#[derive(Debug, Clone, PartialEq, Eq)]
pub struct ServerEvent {
    /// The `id` field. If present, sets the last event ID.
    pub id: Option<String>,
    /// The `event` field, the type tag of the event.
    pub event: Option<String>,
    /// The `data` field. Multiple `data:` lines are joined with newlines.
    pub data: String,
    /// The `retry` field in milliseconds.
    pub retry: Option<u64>,
}

/// A server-sent event with its texts as sequences of characters.
pub ghost struct EventModel {
    pub id: Option<Seq<char>>,
    pub event: Option<Seq<char>>,
    pub data: Seq<char>,
    pub retry: Option<u64>,
}

impl EventModel {
    /// The event that no line has touched yet.
    pub open spec fn empty() -> EventModel {
        EventModel { id: None, event: None, data: Seq::empty(), retry: None }
    }

    /// True when the event carries no content at all. Such an event is never
    /// handed to a consumer.
    pub open spec fn is_empty(self) -> bool {
        self.data.len() == 0 && self.id is None && self.event is None && self.retry is None
    }
}

/// The text of an optional string.
pub open spec fn text_of(s: Option<String>) -> Option<Seq<char>> {
    match s {
        Some(t) => Some(t@),
        None => None,
    }
}

impl View for ServerEvent {
    type V = EventModel;

    open spec fn view(&self) -> EventModel {
        EventModel {
            id: text_of(self.id),
            event: text_of(self.event),
            data: self.data@,
            retry: self.retry,
        }
    }
}

impl Default for ServerEvent {
    fn default() -> (e: ServerEvent)
        ensures
            e@ == EventModel::empty(),
    {
        ServerEvent { id: None, event: None, data: String::new(), retry: None }
    }
}

impl ServerEvent {
    /// Returns true if this event has no meaningful content.
    #[must_use]
    pub fn is_empty(&self) -> (r: bool)
        ensures
            r == self@.is_empty(),
    {
        self.data.as_str().is_empty() && self.id.is_none() && self.event.is_none()
            && self.retry.is_none()
    }
}

/// The models of a sequence of events, in the same order.
pub open spec fn models(events: Seq<ServerEvent>) -> Seq<EventModel> {
    events.map_values(|e: ServerEvent| e@)
}

} // verus!
