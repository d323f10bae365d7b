//! The wire format of server-sent events, for handing a stream of events on.

use bytes::Bytes;
use vstd::prelude::*;
use vstd::slice::slice_subrange;
use vstd::string::StrSliceExecFns;
use vstd::utf8::encode_utf8;

use crate::body::{bytes_content, bytes_from_vec};
use crate::chars::{decimal_digits, push_decimal, push_word, string_of, to_chars};
use crate::sse::event::{EventModel, ServerEvent};
use crate::sse::parse::find_char;
use crate::sse::text::{index_of, lemma_index_of};

verus! {

/// One field line: the name, `: `, the value and `\n`.
pub open spec fn field_line(name: Seq<char>, value: Seq<char>) -> Seq<char> {
    name + ": "@ + value + "\n"@
}

/// One `data` line for each line of `data`. Data without any `\n` is one
/// line, empty data too.
pub open spec fn data_lines(data: Seq<char>) -> Seq<char>
    decreases data.len(),
{
    let p = index_of(data, '\n');
    if p < data.len() {
        proof {
            lemma_index_of(data, '\n');
        }
        field_line("data"@, data.subrange(0, p)) + data_lines(
            data.subrange(p + 1, data.len() as int),
        )
    } else {
        field_line("data"@, data)
    }
}

/// The line of an optional text field, or nothing.
pub open spec fn optional_line(name: Seq<char>, value: Option<Seq<char>>) -> Seq<char> {
    match value {
        Some(v) => field_line(name, v),
        None => Seq::empty(),
    }
}

/// The line of the `retry` field, or nothing.
pub open spec fn retry_line(retry: Option<u64>) -> Seq<char> {
    match retry {
        Some(ms) => field_line("retry"@, decimal_digits(ms as nat)),
        None => Seq::empty(),
    }
}

/// An event on the wire: `id`, `event` and `retry` where the event has
/// them, one `data` line for each line of its data, and a blank line.
pub open spec fn wire_format(e: EventModel) -> Seq<char> {
    optional_line("id"@, e.id) + optional_line("event"@, e.event) + retry_line(e.retry)
        + data_lines(e.data) + "\n"@
}

/// Appends one field line to `out`.
fn push_field_line(out: &mut Vec<char>, name: &str, value: &[char])
    ensures
        final(out)@ == old(out)@ + field_line(name@, value@),
{
    push_word(out, name);
    push_word(out, ": ");
    let mut v: Vec<char> = Vec::new();
    v.extend_from_slice(value);
    out.append(&mut v);
    push_word(out, "\n");
}

/// Appends the `data` lines of `data` to `out`.
fn push_data_lines(out: &mut Vec<char>, data: &[char])
    ensures
        final(out)@ == old(out)@ + data_lines(data@),
{
    let n = data.len();
    let mut start: usize = 0;
    assert(data@.subrange(0, n as int) == data@);
    loop
        invariant_except_break
            start <= n,
            n == data@.len(),
            out@ + data_lines(data@.subrange(start as int, n as int)) == old(out)@ + data_lines(
                data@,
            ),
        ensures
            out@ == old(out)@ + data_lines(data@),
        decreases n - start,
    {
        let rest = slice_subrange(data, start, n);
        let p = find_char(rest, '\n');
        if p < rest.len() {
            push_field_line(out, "data", slice_subrange(rest, 0, p));
            assert(rest@.subrange(p + 1, rest@.len() as int) == data@.subrange(
                start + p + 1,
                n as int,
            ));
            start = start + p + 1;
        } else {
            push_field_line(out, "data", rest);
            break;
        }
    }
}

/// The headers of a response that streams events, names in lower case:
/// the media type of event streams, no caching, a connection that is kept
/// alive, and no buffering in a reverse proxy.
pub open spec fn event_stream_header_texts() -> Seq<(Seq<char>, Seq<char>)> {
    seq![
        ("content-type"@, "text/event-stream"@),
        ("cache-control"@, "no-cache"@),
        ("connection"@, "keep-alive"@),
        ("x-accel-buffering"@, "no"@),
    ]
}

/// The headers of a response that streams events to a client.
pub fn event_stream_headers() -> (headers: Vec<(&'static str, &'static str)>)
    ensures
        headers@.len() == event_stream_header_texts().len(),
        forall|i: int|
            0 <= i < headers@.len() ==> (#[trigger] headers@[i]).0@ == event_stream_header_texts()[i].0
                && headers@[i].1@ == event_stream_header_texts()[i].1,
{
    let mut headers: Vec<(&'static str, &'static str)> = Vec::new();
    headers.push(("content-type", "text/event-stream"));
    headers.push(("cache-control", "no-cache"));
    headers.push(("connection", "keep-alive"));
    headers.push(("x-accel-buffering", "no"));
    headers
}

/// The wire format of `event` as text.
pub fn serialize_event_text(event: &ServerEvent) -> (s: String)
    ensures
        s@ == wire_format(event@),
{
    let mut out: Vec<char> = Vec::new();
    match &event.id {
        Some(id) => {
            let v = to_chars(id.as_str());
            push_field_line(&mut out, "id", v.as_slice());
        },
        None => {},
    }
    match &event.event {
        Some(tag) => {
            let v = to_chars(tag.as_str());
            push_field_line(&mut out, "event", v.as_slice());
        },
        None => {},
    }
    match event.retry {
        Some(ms) => {
            let mut digits: Vec<char> = Vec::new();
            push_decimal(&mut digits, ms);
            push_field_line(&mut out, "retry", digits.as_slice());
        },
        None => {},
    }
    let data = to_chars(event.data.as_str());
    push_data_lines(&mut out, data.as_slice());
    push_word(&mut out, "\n");
    string_of(out.as_slice())
}

/// Serialize an event into wire format bytes.
pub fn serialize_event(event: &ServerEvent) -> (b: Bytes)
    ensures
        bytes_content(b) == encode_utf8(wire_format(event@)),
{
    let text = serialize_event_text(event);
    bytes_from_vec(text.as_str().as_bytes_vec())
}

} // verus!
