//! The typed WebSocket bridge.
//!
//! The bridge decides; whoever owns the connection does the sending and the
//! receiving. For each message that the connection hands over, the bridge
//! says whether it is skipped, ends the sequence, or reaches the consumer,
//! converted to the consumer's type.

use bytes::Bytes;
use std::marker::PhantomData;
use vstd::prelude::*;
use vstd::string::StrSliceExecFns;
use vstd::utf8::{decode_utf8, encode_utf8, valid_utf8};

use crate::body::{bytes_content, bytes_from_vec, bytes_to_vec};
use crate::chars::string_of;
use crate::error::{StreamingError, StreamingErrorModel};
use crate::utf8::decode_text;
use crate::ws::message::{MessageModel, WebSocketMessage};

verus! {

/// Types that can be converted to and from a [`WebSocketMessage`].
///
/// Only `Text` and `Binary` messages reach this trait: control frames are
/// handled by the bridge.
pub trait FromWebSocketMessage: Sized {
    /// Converts a received message.
    fn from_ws_message(msg: WebSocketMessage) -> Result<Self, StreamingError>;

    /// The message to send for `self`.
    fn to_ws_message(&self) -> WebSocketMessage;
}

/// Pass-through: a raw [`WebSocketMessage`] requires no conversion and
/// cannot fail.
impl FromWebSocketMessage for WebSocketMessage {
    fn from_ws_message(msg: WebSocketMessage) -> (r: Result<Self, StreamingError>)
        ensures
            r == Ok::<WebSocketMessage, StreamingError>(msg),
    {
        Ok(msg)
    }

    fn to_ws_message(&self) -> (msg: WebSocketMessage)
        ensures
            msg@ == self@,
    {
        self.duplicate()
    }
}

/// What one pull from the connection amounts to, as mathematical values.
pub type IncomingModel = Option<Result<MessageModel, StreamingErrorModel>>;

/// What one pull from the connection amounts to.
pub open spec fn incoming(item: Option<Result<WebSocketMessage, StreamingError>>) -> IncomingModel {
    match item {
        None => None,
        Some(Ok(msg)) => Some(Ok(msg@)),
        Some(Err(e)) => Some(Err(e@)),
    }
}

/// What the bridge does with what the connection handed over.
#[derive(Debug)]
pub enum Received<T> {
    /// Hand this to the consumer: a converted message, or an error.
    Item(Result<T, StreamingError>),
    /// Nothing for the consumer: pull again.
    Skip,
    /// The sequence has ended.
    End,
}

/// True when nothing more is pulled after `item`: the connection ended, a
/// `Close` frame came, or the connection failed.
pub open spec fn ends_sequence(item: IncomingModel) -> bool {
    match item {
        None => true,
        Some(Err(_)) => true,
        Some(Ok(msg)) => msg is Close,
    }
}

/// Whether `step` is what the bridge does with `item`: keep-alive frames are
/// skipped, a `Close` frame and the end of the connection end the sequence,
/// a failure of the connection is handed on as it is, and `Text` and
/// `Binary` are handed on as `T` converts them.
pub open spec fn receives<T: FromWebSocketMessage>(
    item: Option<Result<WebSocketMessage, StreamingError>>,
    step: Received<T>,
) -> bool {
    match item {
        None => step is End,
        Some(Err(e)) => step == Received::<T>::Item(Err(e)),
        Some(Ok(msg)) => if msg@.is_keep_alive() {
            step is Skip
        } else if msg@ is Close {
            step is End
        } else {
            step matches Received::Item(r) && call_ensures(T::from_ws_message, (msg,), r)
        },
    }
}

/// Whether nothing more is pulled after `item`.
pub fn is_last(item: &Option<Result<WebSocketMessage, StreamingError>>) -> (r: bool)
    ensures
        r == ends_sequence(incoming(*item)),
{
    match item {
        None => true,
        Some(Err(_)) => true,
        Some(Ok(WebSocketMessage::Close(_))) => true,
        Some(Ok(_)) => false,
    }
}

/// Decides what to do with what the connection handed over.
pub fn receive<T: FromWebSocketMessage>(
    item: Option<Result<WebSocketMessage, StreamingError>>,
) -> (step: Received<T>)
    ensures
        receives(item, step),
{
    match item {
        None => Received::End,
        Some(Err(e)) => Received::Item(Err(e)),
        Some(Ok(msg)) => match msg {
            WebSocketMessage::Ping(_) | WebSocketMessage::Pong(_) => Received::Skip,
            WebSocketMessage::Close(_) => Received::End,
            data => Received::Item(T::from_ws_message(data)),
        },
    }
}

/// What a failed forward to the sink is reported as.
pub open spec fn send_outcome(result: Result<(), StreamingError>) -> Result<
    (),
    StreamingErrorModel,
> {
    match result {
        Ok(()) => Ok(()),
        Err(e) => Err(StreamingErrorModel::WebSocketBridge { detail: e@.message() }),
    }
}

/// Reports how forwarding a message to the sink went: a failure is handed
/// to the caller as a bridge error that carries the failure's message.
pub fn sent(result: Result<(), StreamingError>) -> (r: Result<(), StreamingError>)
    ensures
        r is Ok <==> result is Ok,
        r matches Err(e) ==> Err::<(), StreamingErrorModel>(e@) == send_outcome(result),
{
    match result {
        Ok(()) => Ok(()),
        Err(e) => Err(StreamingError::bridge(&e)),
    }
}

/// The message that closes a connection in good order: a `Close` frame
/// without code or reason.
pub fn closing_message() -> (msg: WebSocketMessage)
    ensures
        msg@ == MessageModel::Close(None),
{
    WebSocketMessage::Close(None)
}

/// A bidirectional WebSocket stream with typed messages.
///
/// `S` is the sink that takes outgoing messages and `R` the source of
/// incoming ones; the bridge owns both and never looks inside them.
pub struct WebSocketStream<S, R, T: FromWebSocketMessage> {
    /// The sink for outgoing messages.
    pub sink: S,
    /// The source of incoming messages.
    pub receiver: R,
    /// True once the incoming sequence has ended.
    pub ended: bool,
    /// The type of the messages that pass through.
    pub marker: PhantomData<T>,
}

/// The send half of a split [`WebSocketStream`].
pub struct WebSocketSender<S, T: FromWebSocketMessage> {
    /// The sink for outgoing messages.
    pub sink: S,
    /// The type of the messages that pass through.
    pub marker: PhantomData<T>,
}

/// The receive half of a split [`WebSocketStream`].
pub struct WebSocketStreamReceiver<R, T: FromWebSocketMessage> {
    /// The source of incoming messages.
    pub receiver: R,
    /// True once the incoming sequence has ended.
    pub ended: bool,
    /// The type of the messages that pass through.
    pub marker: PhantomData<T>,
}

impl<S, R, T: FromWebSocketMessage> WebSocketStream<S, R, T> {
    /// A stream over the two directions of one connection.
    pub fn new(sink: S, receiver: R) -> (stream: Self)
        ensures
            stream.sink == sink,
            stream.receiver == receiver,
            !stream.ended,
    {
        WebSocketStream { sink, receiver, ended: false, marker: PhantomData }
    }

    /// The message to send for `msg`: what `T` encodes it as.
    pub fn outgoing(&self, msg: &T) -> (raw: WebSocketMessage)
        ensures
            call_ensures(T::to_ws_message, (msg,), raw),
    {
        msg.to_ws_message()
    }

    /// Takes what the connection handed over and says what to do with it.
    /// Once the sequence has ended, whatever still comes is dropped.
    pub fn accept(&mut self, item: Option<Result<WebSocketMessage, StreamingError>>) -> (step:
        Received<T>)
        ensures
            old(self).ended ==> step is End && final(self).ended,
            !old(self).ended ==> receives(item, step) && final(self).ended
                == ends_sequence(incoming(item)),
            final(self).sink == old(self).sink,
            final(self).receiver == old(self).receiver,
    {
        if self.ended {
            return Received::End;
        }
        self.ended = is_last(&item);
        receive::<T>(item)
    }

    /// Split into separate send and receive halves for concurrent use. Each
    /// half owns one direction of the connection.
    pub fn split(self) -> (halves: (WebSocketSender<S, T>, WebSocketStreamReceiver<R, T>))
        ensures
            halves.0.sink == self.sink,
            halves.1.receiver == self.receiver,
            halves.1.ended == self.ended,
    {
        (
            WebSocketSender { sink: self.sink, marker: PhantomData },
            WebSocketStreamReceiver {
                receiver: self.receiver,
                ended: self.ended,
                marker: PhantomData,
            },
        )
    }
}

impl<S, T: FromWebSocketMessage> WebSocketSender<S, T> {
    /// The message to send for `msg`: what `T` encodes it as.
    pub fn outgoing(&self, msg: &T) -> (raw: WebSocketMessage)
        ensures
            call_ensures(T::to_ws_message, (msg,), raw),
    {
        msg.to_ws_message()
    }
}

impl<S, R, T: FromWebSocketMessage> WebSocketStream<S, R, T> {
    /// Closes the connection in good order: gives up the stream and hands
    /// back the sink with the `Close` frame to send through it.
    pub fn close(self) -> (last: (S, WebSocketMessage))
        ensures
            last.0 == self.sink,
            last.1@ == MessageModel::Close(None),
    {
        (self.sink, closing_message())
    }
}

impl<R, T: FromWebSocketMessage> WebSocketStreamReceiver<R, T> {
    /// A receive half over the source of incoming messages.
    pub fn new(receiver: R) -> (half: Self)
        ensures
            half.receiver == receiver,
            !half.ended,
    {
        WebSocketStreamReceiver { receiver, ended: false, marker: PhantomData }
    }

    /// Takes what the connection handed over and says what to do with it.
    /// Once the sequence has ended, whatever still comes is dropped.
    pub fn accept(&mut self, item: Option<Result<WebSocketMessage, StreamingError>>) -> (step:
        Received<T>)
        ensures
            old(self).ended ==> step is End && final(self).ended,
            !old(self).ended ==> receives(item, step) && final(self).ended
                == ends_sequence(incoming(item)),
            final(self).receiver == old(self).receiver,
    {
        if self.ended {
            return Received::End;
        }
        self.ended = is_last(&item);
        receive::<T>(item)
    }
}

/// The message that forwards one chunk of a body: text where the chunk is
/// valid UTF-8, binary with the same bytes where it is not.
pub open spec fn chunk_message(bytes: Seq<u8>) -> MessageModel {
    if valid_utf8(bytes) {
        MessageModel::Text(decode_utf8(bytes))
    } else {
        MessageModel::Binary(bytes)
    }
}

/// The message that forwards one chunk of a body stream.
pub fn message_for_chunk(chunk: &Bytes) -> (msg: WebSocketMessage)
    ensures
        msg@ == chunk_message(bytes_content(*chunk)),
{
    let bytes = bytes_to_vec(chunk);
    match decode_text(bytes.as_slice()) {
        Some(text) => WebSocketMessage::Text(string_of(text.as_slice())),
        None => WebSocketMessage::Binary(bytes),
    }
}

/// What a received message amounts to for a body stream.
pub enum BodyStep {
    /// The next chunk of the body.
    Chunk(Bytes),
    /// The connection failed.
    Fail(StreamingError),
    /// Nothing for the body: pull again.
    Skip,
    /// The body has ended.
    End,
}

/// Whether `step` is what the message `item` amounts to for a body stream:
/// `Text` and `Binary` become chunks with their bytes, keep-alive frames
/// are skipped, `Close` and the end of the connection end the body.
pub open spec fn yields_body(item: IncomingModel, step: BodyStep) -> bool {
    match item {
        None => step is End,
        Some(Err(e)) => step matches BodyStep::Fail(err) && err@ == e,
        Some(Ok(MessageModel::Text(text))) => step matches BodyStep::Chunk(b) && bytes_content(b)
            == encode_utf8(text),
        Some(Ok(MessageModel::Binary(data))) => step matches BodyStep::Chunk(b) && bytes_content(b)
            == data,
        Some(Ok(MessageModel::Close(_))) => step is End,
        Some(Ok(_)) => step is Skip,
    }
}

/// Decides what a received message amounts to for a body stream.
pub fn body_chunk(item: Option<Result<WebSocketMessage, StreamingError>>) -> (step: BodyStep)
    ensures
        yields_body(incoming(item), step),
{
    match item {
        None => BodyStep::End,
        Some(Err(e)) => BodyStep::Fail(e),
        Some(Ok(WebSocketMessage::Text(text))) => BodyStep::Chunk(
            bytes_from_vec(text.as_str().as_bytes_vec()),
        ),
        Some(Ok(WebSocketMessage::Binary(data))) => BodyStep::Chunk(bytes_from_vec(data)),
        Some(Ok(WebSocketMessage::Close(_))) => BodyStep::End,
        Some(Ok(_)) => BodyStep::Skip,
    }
}

/// True when the sequence has ended within `items`: a `Close` frame or a
/// failure of the connection is among them.
pub open spec fn ended_within(items: Seq<Result<WebSocketMessage, StreamingError>>) -> bool
    decreases items.len(),
{
    items.len() > 0 && (ended_within(items.drop_last()) || ends_sequence(
        incoming(Some(items.last())),
    ))
}

/// What reaches a consumer of `items`, in order: the `Text` and `Binary`
/// messages and the failure of the connection, up to the first `Close` frame
/// or failure.
pub open spec fn surfaced(items: Seq<Result<WebSocketMessage, StreamingError>>) -> Seq<
    Result<WebSocketMessage, StreamingError>,
>
    decreases items.len(),
{
    if items.len() == 0 {
        Seq::empty()
    } else if ended_within(items.drop_last()) {
        surfaced(items.drop_last())
    } else {
        match items.last() {
            Err(e) => surfaced(items.drop_last()).push(Err(e)),
            Ok(msg) => if msg@.is_control() {
                surfaced(items.drop_last())
            } else {
                surfaced(items.drop_last()).push(Ok(msg))
            },
        }
    }
}

/// Whether `out` is what a consumer receives for what reached it: each
/// message as `T` converts it, a failure of the connection as it is.
pub open spec fn converted_all<T: FromWebSocketMessage>(
    reached: Seq<Result<WebSocketMessage, StreamingError>>,
    out: Seq<Result<T, StreamingError>>,
) -> bool {
    &&& out.len() == reached.len()
    &&& forall|i: int|
        0 <= i < reached.len() ==> match #[trigger] reached[i] {
            Err(e) => out[i] == Err::<T, StreamingError>(e),
            Ok(msg) => call_ensures(T::from_ws_message, (msg,), out[i]),
        }
}

/// Receives from a connection that is held in memory: everything a
/// consumer gets from `items`, in order.
pub fn receive_all<T: FromWebSocketMessage>(
    items: Vec<Result<WebSocketMessage, StreamingError>>,
) -> (out: Vec<Result<T, StreamingError>>)
    ensures
        converted_all::<T>(surfaced(items@), out@),
{
    let ghost all = items@;
    let mut half = WebSocketStreamReceiver::<(), T>::new(());
    let mut out: Vec<Result<T, StreamingError>> = Vec::new();
    for item in it: items
        invariant
            all == items@,
            it.seq() == items@,
            half.ended == ended_within(all.subrange(0, it.index() as int)),
            converted_all::<T>(surfaced(all.subrange(0, it.index() as int)), out@),
    {
        let ghost at = it.index() as int;
        let ghost before = all.subrange(0, at);
        let ghost now = all.subrange(0, at + 1);
        assert(now.drop_last() =~= before);
        match half.accept(Some(item)) {
            Received::Item(r) => {
                out.push(r);
            },
            Received::Skip => {},
            Received::End => {},
        }
    }
    assert(all.subrange(0, items@.len() as int) =~= all);
    out
}

} // verus!
