//! The JSON codec that both streaming protocols share.
//!
//! `Json<T>` wraps a value whose JSON form is the `data` field of an event
//! or the payload of a `Text` message. Parsing and rendering JSON belongs to
//! whoever knows `T`; what the codec decides for every `T` stands here: which
//! text is parsed, and what a failure is reported as.

use vstd::prelude::*;
use vstd::string::StringExecFns;

use crate::error::{StreamingError, StreamingErrorModel};
use crate::sse::event::ServerEvent;
use crate::ws::message::{MessageModel, WebSocketMessage};

verus! {

/// `serde_json::Error`, why a text is no JSON for a type.
#[verifier::external_type_specification]
#[verifier::external_body]
pub struct ExJsonError(serde_json::Error);

/// The text of a JSON error: what went wrong and, where the error has a
/// place in the input, the line and the column.
pub uninterp spec fn json_error_detail(e: serde_json::Error) -> Seq<char>;

/// `serde_json::Error` as text (its `Display`): the text of the error.
#[verifier::external_body]
pub(crate) fn json_error_text(e: &serde_json::Error) -> (text: String)
    ensures
        text@ == json_error_detail(*e),
{
    e.to_string()
}

/// A value that travels as JSON.
#[derive(Debug, Clone, PartialEq, Eq)]
pub struct Json<T>(pub T);

impl<T> Json<T> {
    /// Unwrap into the inner value.
    pub fn into_inner(self) -> (value: T)
        ensures
            value == self.0,
    {
        self.0
    }

    /// A reference to the inner value.
    pub fn get(&self) -> (value: &T)
        ensures
            *value == self.0,
    {
        &self.0
    }
}

/// The text of an event that is parsed as JSON: its `data` field.
pub fn event_payload(event: ServerEvent) -> (text: String)
    ensures
        text == event.data,
{
    event.data
}

/// The text of a message that is parsed as JSON, or the rejection of a
/// message that is no `Text`.
pub open spec fn message_payload_of(msg: MessageModel) -> Result<Seq<char>, StreamingErrorModel> {
    match msg {
        MessageModel::Text(text) => Ok(text),
        _ => Err(
            StreamingErrorModel::WebSocketBridge {
                detail: "expected Text message for JSON deserialization, got Binary"@,
            },
        ),
    }
}

/// The text of a message that is parsed as JSON. Only `Text` messages carry
/// JSON: any other message is rejected with a bridge error.
pub fn message_payload(msg: WebSocketMessage) -> (r: Result<String, StreamingError>)
    ensures
        r matches Ok(text) ==> msg == WebSocketMessage::Text(text),
        r matches Ok(text) ==> message_payload_of(msg@) == Ok::<Seq<char>, StreamingErrorModel>(text@),
        r matches Err(e) ==> message_payload_of(msg@) == Err::<Seq<char>, StreamingErrorModel>(e@),
{
    match msg {
        WebSocketMessage::Text(text) => Ok(text),
        _ => Err(
            StreamingError::WebSocketBridge {
                detail: String::from_str(
                    "expected Text message for JSON deserialization, got Binary",
                ),
            },
        ),
    }
}

/// The message that carries rendered JSON: a `Text` message.
pub fn json_message(json: String) -> (msg: WebSocketMessage)
    ensures
        msg@ == MessageModel::Text(json@),
{
    WebSocketMessage::Text(json)
}

/// Whether `r` is the typed value of an event whose `data`, parsed as JSON,
/// gave `parsed`: the parsed value, or a parse error with the text of the
/// JSON error.
pub open spec fn event_outcome<T>(
    parsed: Result<T, serde_json::Error>,
    r: Result<Json<T>, StreamingError>,
) -> bool {
    match parsed {
        Ok(value) => r == Ok::<Json<T>, StreamingError>(Json(value)),
        Err(e) => r matches Err(error) && error@ == (StreamingErrorModel::ServerEventsParse {
            detail: json_error_detail(e),
        }),
    }
}

/// Whether `r` is the typed value of a message whose text, parsed as JSON,
/// gave `parsed`: the parsed value, or a bridge error with the text of the
/// JSON error.
pub open spec fn message_outcome<T>(
    parsed: Result<T, serde_json::Error>,
    r: Result<Json<T>, StreamingError>,
) -> bool {
    match parsed {
        Ok(value) => r == Ok::<Json<T>, StreamingError>(Json(value)),
        Err(e) => r matches Err(error) && error@ == (StreamingErrorModel::WebSocketBridge {
            detail: json_error_detail(e),
        }),
    }
}

/// The typed value of an event whose `data` was parsed as JSON: the parsed
/// value, or a parse error for that one event.
pub fn event_value<T>(parsed: Result<T, serde_json::Error>) -> (r: Result<Json<T>, StreamingError>)
    ensures
        event_outcome(parsed, r),
{
    match parsed {
        Ok(value) => Ok(Json(value)),
        Err(e) => Err(StreamingError::ServerEventsParse { detail: json_error_text(&e) }),
    }
}

/// The typed value of a message whose text was parsed as JSON: the parsed
/// value, or a bridge error for that one message.
pub fn message_value<T>(parsed: Result<T, serde_json::Error>) -> (r: Result<
    Json<T>,
    StreamingError,
>)
    ensures
        message_outcome(parsed, r),
{
    match parsed {
        Ok(value) => Ok(Json(value)),
        Err(e) => Err(StreamingError::WebSocketBridge { detail: json_error_text(&e) }),
    }
}

/// Converts an event to a typed value: its `data` is parsed as JSON by
/// `parse`, which knows the type.
pub fn event_json<T, F: FnOnce(String) -> Result<T, serde_json::Error>>(
    event: ServerEvent,
    parse: F,
) -> (r: Result<Json<T>, StreamingError>)
    requires
        forall|text: String| call_requires(parse, (text,)),
    ensures
        exists|parsed: Result<T, serde_json::Error>|
            call_ensures(parse, (event.data,), parsed) && #[trigger] event_outcome(parsed, r),
{
    let parsed = parse(event_payload(event));
    let r = event_value(parsed);
    assert(call_ensures(parse, (event.data,), parsed) && event_outcome(parsed, r));
    r
}

/// Converts a received message to a typed value: the text of a `Text`
/// message is parsed as JSON by `parse`, which knows the type; any other
/// message is rejected, and nothing is parsed.
pub fn message_json<T, F: FnOnce(String) -> Result<T, serde_json::Error>>(
    msg: WebSocketMessage,
    parse: F,
) -> (r: Result<Json<T>, StreamingError>)
    requires
        forall|text: String| call_requires(parse, (text,)),
    ensures
        message_payload_of(msg@) matches Err(e) ==> (r matches Err(error) && error@ == e),
        msg matches WebSocketMessage::Text(text) ==> exists|parsed: Result<T, serde_json::Error>|
            call_ensures(parse, (text,), parsed) && #[trigger] message_outcome(parsed, r),
{
    match message_payload(msg) {
        Ok(text) => {
            let parsed = parse(text);
            let r = message_value(parsed);
            assert(call_ensures(parse, (text,), parsed) && message_outcome(parsed, r));
            r
        },
        Err(e) => Err(e),
    }
}

/// The round trip of a value through a message: the message that carries
/// the rendered JSON of a value holds that JSON as its payload, and where
/// parsing the payload gives a value, that value is received, never an
/// error. Whether parsing gives the value that was rendered is up to the
/// type's own rendering and parsing.
pub proof fn lemma_json_round_trip<T>(json: Seq<char>, value: T, r: Result<Json<T>, StreamingError>)
    requires
        message_outcome(Ok::<T, serde_json::Error>(value), r),
    ensures
        message_payload_of(MessageModel::Text(json)) == Ok::<Seq<char>, StreamingErrorModel>(json),
        r == Ok::<Json<T>, StreamingError>(Json(value)),
{
}

} // verus!
