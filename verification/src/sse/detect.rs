//! The dispatch decision: is a response a stream of server-sent events?

use http::HeaderMap;
use vstd::prelude::*;

use crate::chars::{begins_ignoring_case, begins_with_word_ignoring_case};

verus! {

/// `http::HeaderMap`, the headers of a response.
#[verifier::external_type_specification]
#[verifier::external_body]
#[verifier::reject_recursive_types(T)]
pub struct ExHeaderMap<T>(http::HeaderMap<T>);

/// `http::HeaderValue`, what a `HeaderMap` holds under each name.
#[verifier::external_type_specification]
#[verifier::external_body]
pub struct ExHeaderValue(http::HeaderValue);

/// The values that `headers` holds under the name `Content-Type`, each as
/// its bytes, in the order in which they were added. Header names do not
/// distinguish upper and lower case.
pub uninterp spec fn content_type_values(headers: HeaderMap) -> Seq<Seq<u8>>;

/// `HeaderMap::get` with `CONTENT_TYPE`: the first value that the map holds
/// under that name, as its bytes, or `None` where it holds none.
#[verifier::external_body]
fn first_content_type(headers: &HeaderMap) -> (r: Option<Vec<u8>>)
    ensures
        r is Some <==> content_type_values(*headers).len() > 0,
        r matches Some(v) ==> v@ == content_type_values(*headers)[0],
{
    match headers.get(http::header::CONTENT_TYPE) {
        Some(value) => Some(value.as_bytes().to_vec()),
        None => None,
    }
}

/// True for the bytes that may stand in a header value that is text:
/// visible ASCII, the space and the tab.
pub open spec fn is_visible_ascii(b: u8) -> bool {
    32 <= b < 127 || b == 9
}

/// The text of a header value: its bytes as characters, where all of them
/// are visible ASCII.
pub open spec fn header_text(value: Seq<u8>) -> Option<Seq<char>> {
    if forall|i: int| 0 <= i < value.len() ==> is_visible_ascii(#[trigger] value[i]) {
        Some(Seq::new(value.len(), |i: int| value[i] as char))
    } else {
        None
    }
}

/// True when a media type begins with `text/event-stream`, in upper or
/// lower case: it has at least as many characters, and each of them, in
/// lower case, is the character of `text/event-stream` at its place.
/// Parameters such as `; charset=utf-8` may follow.
pub open spec fn is_event_stream_type(text: Seq<char>) -> bool {
    begins_ignoring_case(text, "text/event-stream"@)
}

/// True when a `Content-Type` value names a stream of server-sent events.
pub open spec fn names_event_stream(value: Seq<u8>) -> bool {
    match header_text(value) {
        Some(text) => is_event_stream_type(text),
        None => false,
    }
}

/// The text of a header value, where it is text.
pub fn header_value_text(value: &[u8]) -> (r: Option<Vec<char>>)
    ensures
        r is Some <==> header_text(value@) is Some,
        r matches Some(text) ==> Some(text@) == header_text(value@),
{
    let n = value.len();
    let mut text: Vec<char> = Vec::new();
    let mut i: usize = 0;
    while i < n
        invariant
            i <= n,
            n == value@.len(),
            text@.len() == i,
            forall|j: int| 0 <= j < i ==> is_visible_ascii(#[trigger] value@[j]),
            forall|j: int| 0 <= j < i ==> text@[j] == value@[j] as char,
        decreases n - i,
    {
        let b = value[i];
        if !(32 <= b && b < 127 || b == 9) {
            return None;
        }
        text.push(b as char);
        i += 1;
    }
    Some(text)
}

/// Whether a `Content-Type` value names a stream of server-sent events.
pub fn is_event_stream_content_type(value: &[u8]) -> (r: bool)
    ensures
        r == names_event_stream(value@),
{
    match header_value_text(value) {
        Some(text) => begins_with_word_ignoring_case(text.as_slice(), "text/event-stream"),
        None => false,
    }
}

/// Check if the response headers indicate a stream of server-sent events.
///
/// Returns `true` when the first `Content-Type` value is text that starts
/// with `text/event-stream`, in upper or lower case, and `false` when the
/// header is missing.
#[must_use]
pub fn is_server_events_response(headers: &HeaderMap) -> (r: bool)
    ensures
        r == (content_type_values(*headers).len() > 0 && names_event_stream(
            content_type_values(*headers)[0],
        )),
{
    match first_content_type(headers) {
        Some(value) => is_event_stream_content_type(value.as_slice()),
        None => false,
    }
}

} // verus!
