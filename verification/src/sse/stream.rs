//! Typed streams of server-sent events.

use vstd::prelude::*;

use crate::error::StreamingError;
use crate::sse::event::ServerEvent;

verus! {

/// Types that can be extracted from a server-sent event.
///
/// A conversion that fails is an error for that one event; the stream goes
/// on.
pub trait FromServerEvent: Sized {
    /// Converts a parsed event.
    fn from_server_event(event: ServerEvent) -> Result<Self, StreamingError>;
}

/// Pass-through: a raw [`ServerEvent`] requires no conversion and cannot
/// fail.
impl FromServerEvent for ServerEvent {
    fn from_server_event(event: ServerEvent) -> (r: Result<Self, StreamingError>)
        ensures
            r == Ok::<ServerEvent, StreamingError>(event),
    {
        Ok(event)
    }
}

/// Whether `out` is what a consumer of typed events receives for `item`:
/// an error of the stream as it is, an event as `T` converts it.
pub open spec fn typed_as<T: FromServerEvent>(
    item: Result<ServerEvent, StreamingError>,
    out: Result<T, StreamingError>,
) -> bool {
    match item {
        Ok(event) => call_ensures(T::from_server_event, (event,), out),
        Err(e) => out == Err::<T, StreamingError>(e),
    }
}

/// Converts one item of a stream of events to the consumer's type.
pub fn convert_item<T: FromServerEvent>(item: Result<ServerEvent, StreamingError>) -> (out: Result<
    T,
    StreamingError,
>)
    ensures
        typed_as::<T>(item, out),
{
    match item {
        Ok(event) => T::from_server_event(event),
        Err(e) => Err(e),
    }
}

} // verus!
