//! The incremental parser of a server-sent-events body.
//!
//! The parser is a state machine: whoever owns the byte source asks it what
//! to do next, pulls a chunk when it needs one, and hands over what the
//! source gave. The parser never touches the source itself.

use std::collections::VecDeque;
use vstd::prelude::*;
use vstd::slice::slice_subrange;

use crate::chars::{decimal_digits, push_decimal, push_word, string_of};
use crate::error::{StreamingError, StreamingErrorModel};
use crate::sse::event::{models, EventModel, ServerEvent};
use crate::sse::parse::{extract_blocks, normalize_chars, parse_event_block};
use crate::sse::text::{
    block_events, extracted_events, extracted_rest, lemma_extracted_events_not_empty, normalize,
    strip_bom,
};
use crate::utf8::{
    after_valid_prefix, decode_prefix, invalid_sequence_len, invalid_sequence_len_of,
    is_incomplete, is_incomplete_tail, is_malformed, lemma_valid_prefix, valid_prefix_len,
    valid_prefix_text,
};

verus! {

/// The state of a parser, as mathematical values.
pub ghost struct ParserModel {
    /// The normalized text that no blank line has ended yet.
    pub buf: Seq<char>,
    /// The events that are complete and wait for delivery, oldest first.
    pub pending: Seq<EventModel>,
    /// The bytes of a scalar that the last chunk cut off.
    pub tail: Seq<u8>,
    /// True until the first text has been decoded.
    pub first_chunk: bool,
    /// True once the byte source has ended or failed.
    pub done: bool,
    /// True once a chunk held malformed UTF-8.
    pub failed: bool,
}

/// What the parser asks of its owner, as mathematical values.
pub ghost enum StepModel {
    /// Hand this event to the consumer.
    Event(EventModel),
    /// Pull the next chunk from the byte source.
    NeedChunk,
    /// The sequence of events has ended.
    Finished,
}

/// The detail of the error that malformed input raises: the length of the
/// invalid sequence and the index at which it begins.
pub open spec fn decode_error_detail(bytes: Seq<u8>) -> Seq<char> {
    "invalid UTF-8: invalid utf-8 sequence of "@ + decimal_digits(
        invalid_sequence_len(after_valid_prefix(bytes)) as nat,
    ) + " bytes from index "@ + decimal_digits(valid_prefix_len(bytes) as nat)
}

impl ParserModel {
    /// The parser before any chunk.
    pub open spec fn initial() -> ParserModel {
        ParserModel {
            buf: Seq::empty(),
            pending: Seq::empty(),
            tail: Seq::empty(),
            first_chunk: true,
            done: false,
            failed: false,
        }
    }

    /// What holds of every parser: the bytes it keeps from the last chunk
    /// are a scalar that was cut off, and no event that waits is empty.
    pub open spec fn wf(self) -> bool {
        &&& self.tail.len() == 0 || is_incomplete(self.tail)
        &&& forall|i: int| 0 <= i < self.pending.len() ==> !(#[trigger] self.pending[i]).is_empty()
    }

    /// True when the parser takes no more chunks.
    pub open spec fn is_closed(self) -> bool {
        self.done || self.failed
    }

    /// True when `chunk` makes the parser fail: together with the bytes kept
    /// from the last chunk it holds malformed UTF-8.
    pub open spec fn rejects(self, chunk: Seq<u8>) -> bool {
        !self.is_closed() && is_malformed(self.tail + chunk)
    }

    /// The text that `chunk` adds to the buffer: what the kept bytes and the
    /// chunk decode to, without the byte-order mark at the start of the
    /// stream, with normalized line endings.
    pub open spec fn fresh_text(self, chunk: Seq<u8>) -> Seq<char> {
        let text = valid_prefix_text(self.tail + chunk);
        normalize(
            if self.first_chunk {
                strip_bom(text)
            } else {
                text
            },
        )
    }

    /// The events that `chunk` completes.
    pub open spec fn fresh_events(self, chunk: Seq<u8>) -> Seq<EventModel> {
        let bytes = self.tail + chunk;
        if self.is_closed() || is_malformed(bytes) || valid_prefix_text(bytes).len() == 0 {
            Seq::empty()
        } else {
            extracted_events(self.buf + self.fresh_text(chunk))
        }
    }

    /// The parser after the byte source gave `chunk`.
    pub open spec fn feed(self, chunk: Seq<u8>) -> ParserModel {
        let bytes = self.tail + chunk;
        if self.is_closed() {
            self
        } else if is_malformed(bytes) {
            ParserModel { failed: true, ..self }
        } else if valid_prefix_text(bytes).len() == 0 {
            ParserModel { tail: after_valid_prefix(bytes), ..self }
        } else {
            ParserModel {
                buf: extracted_rest(self.buf + self.fresh_text(chunk)),
                pending: self.pending + self.fresh_events(chunk),
                tail: after_valid_prefix(bytes),
                first_chunk: false,
                ..self
            }
        }
    }

    /// The parser after the byte source ended or failed.
    pub open spec fn finish(self) -> ParserModel {
        ParserModel { done: true, ..self }
    }

    /// What the parser asks for next.
    pub open spec fn step(self) -> StepModel {
        if self.failed {
            StepModel::Finished
        } else if self.pending.len() > 0 {
            StepModel::Event(self.pending[0])
        } else if !self.done {
            StepModel::NeedChunk
        } else if block_events(self.buf).len() > 0 {
            StepModel::Event(block_events(self.buf)[0])
        } else {
            StepModel::Finished
        }
    }

    /// The parser after it has said what it asks for next.
    pub open spec fn after_step(self) -> ParserModel {
        if self.failed {
            self
        } else if self.pending.len() > 0 {
            ParserModel { pending: self.pending.drop_first(), ..self }
        } else if !self.done {
            self
        } else {
            ParserModel { buf: Seq::empty(), ..self }
        }
    }
}

/// What the parser asks of its owner.
#[derive(Debug)]
pub enum ParserStep {
    /// Hand this event to the consumer.
    Event(ServerEvent),
    /// Pull the next chunk from the byte source and hand it over.
    NeedChunk,
    /// The sequence of events has ended.
    Finished,
}

impl View for ParserStep {
    type V = StepModel;

    open spec fn view(&self) -> StepModel {
        match *self {
            ParserStep::Event(e) => StepModel::Event(e@),
            ParserStep::NeedChunk => StepModel::NeedChunk,
            ParserStep::Finished => StepModel::Finished,
        }
    }
}

/// The incremental parser of one server-sent-events body.
pub struct ServerEventsParser {
    buf: Vec<char>,
    pending: VecDeque<ServerEvent>,
    utf8_tail: Vec<u8>,
    first_chunk: bool,
    done: bool,
    failed: bool,
}

impl View for ServerEventsParser {
    type V = ParserModel;

    closed spec fn view(&self) -> ParserModel {
        ParserModel {
            buf: self.buf@,
            pending: models(self.pending@),
            tail: self.utf8_tail@,
            first_chunk: self.first_chunk,
            done: self.done,
            failed: self.failed,
        }
    }
}

/// A chunk leaves a parser well-formed.
pub proof fn lemma_feed_wf(m: ParserModel, chunk: Seq<u8>)
    requires
        m.wf(),
    ensures
        m.feed(chunk).wf(),
{
    lemma_extracted_events_not_empty(m.buf + m.fresh_text(chunk));
}

/// A step leaves a parser well-formed, and hands out no empty event.
pub proof fn lemma_step_wf(m: ParserModel)
    requires
        m.wf(),
    ensures
        m.after_step().wf(),
        m.step() matches StepModel::Event(e) ==> !e.is_empty(),
{
}

/// The error that malformed input raises.
pub fn decode_error(invalid_len: usize, valid_up_to: usize) -> (e: StreamingError)
    ensures
        e@ == (StreamingErrorModel::ServerEventsParse {
            detail: "invalid UTF-8: invalid utf-8 sequence of "@ + decimal_digits(invalid_len as nat)
                + " bytes from index "@ + decimal_digits(valid_up_to as nat),
        }),
{
    let mut detail: Vec<char> = Vec::new();
    push_word(&mut detail, "invalid UTF-8: invalid utf-8 sequence of ");
    push_decimal(&mut detail, invalid_len as u64);
    push_word(&mut detail, " bytes from index ");
    push_decimal(&mut detail, valid_up_to as u64);
    StreamingError::ServerEventsParse { detail: string_of(detail.as_slice()) }
}

impl ServerEventsParser {
    /// A parser that has seen nothing yet.
    pub fn new() -> (p: ServerEventsParser)
        ensures
            p@ == ParserModel::initial(),
            p@.wf(),
    {
        let p = ServerEventsParser {
            buf: Vec::new(),
            pending: VecDeque::new(),
            utf8_tail: Vec::new(),
            first_chunk: true,
            done: false,
            failed: false,
        };
        assert(models(p.pending@) =~= Seq::<EventModel>::empty());
        p
    }

    /// Takes the chunk that the byte source gave.
    ///
    /// Fails when the chunk, after the bytes kept from the last one, holds
    /// malformed UTF-8; the parser then delivers nothing more. A scalar that
    /// the end of the chunk cuts off is kept for the next chunk. A parser
    /// whose source has ended, or that has failed, drops the chunk.
    pub fn on_chunk(&mut self, chunk: &[u8]) -> (r: Result<(), StreamingError>)
        ensures
            final(self)@ == old(self)@.feed(chunk@),
            old(self)@.wf() ==> final(self)@.wf(),
            r is Err <==> old(self)@.rejects(chunk@),
            r matches Err(e) ==> e@ == (StreamingErrorModel::ServerEventsParse {
                detail: decode_error_detail(old(self)@.tail + chunk@),
            }),
    {
        proof {
            if self@.wf() {
                lemma_feed_wf(self@, chunk@);
            }
        }
        if self.done || self.failed {
            return Ok(());
        }
        let mut bytes: Vec<u8> = self.utf8_tail.clone();
        bytes.extend_from_slice(chunk);
        assert(bytes@ == self@.tail + chunk@);
        let (text, valid_up_to) = decode_prefix(bytes.as_slice());
        proof {
            lemma_valid_prefix(bytes@);
        }
        let rest = slice_subrange(bytes.as_slice(), valid_up_to, bytes.len());
        if rest.len() > 0 && !is_incomplete_tail(rest) {
            self.failed = true;
            return Err(decode_error(invalid_sequence_len_of(rest), valid_up_to));
        }
        let mut tail: Vec<u8> = Vec::new();
        tail.extend_from_slice(rest);
        assert(tail@ =~= after_valid_prefix(bytes@));
        self.utf8_tail = tail;
        if text.len() > 0 {
            let decoded = text.as_slice();
            let shown = if self.first_chunk && decoded[0] == '\u{FEFF}' {
                slice_subrange(decoded, 1, decoded.len())
            } else {
                decoded
            };
            self.first_chunk = false;
            let mut fresh = normalize_chars(shown);
            self.buf.append(&mut fresh);
            let ghost all = self.buf@;
            let rest_start = extract_blocks(self.buf.as_slice(), &mut self.pending);
            let mut kept: Vec<char> = Vec::new();
            kept.extend_from_slice(slice_subrange(self.buf.as_slice(), rest_start, self.buf.len()));
            assert(kept@ =~= extracted_rest(all));
            self.buf = kept;
        }
        Ok(())
    }

    /// Takes the failure of the byte source: no more chunks will come. The
    /// error to hand to the consumer is the failure itself.
    pub fn on_source_error(&mut self, cause: String) -> (e: StreamingError)
        ensures
            final(self)@ == old(self)@.finish(),
            old(self)@.wf() ==> final(self)@.wf(),
            e@ == StreamingErrorModel::Stream(cause@),
    {
        self.done = true;
        assert(self@ == old(self)@.finish());
        StreamingError::Stream(cause)
    }

    /// Takes the end of the byte source: no more chunks will come.
    pub fn on_end(&mut self)
        ensures
            final(self)@ == old(self)@.finish(),
            old(self)@.wf() ==> final(self)@.wf(),
    {
        self.done = true;
        assert(self@ == old(self)@.finish());
    }

    /// Says what to do next: deliver an event, pull a chunk, or stop.
    ///
    /// Events that are complete come first, oldest first. Once the source has
    /// ended, the text that no blank line has ended is parsed as a last
    /// block.
    pub fn next_step(&mut self) -> (step: ParserStep)
        ensures
            step@ == old(self)@.step(),
            final(self)@ == old(self)@.after_step(),
            old(self)@.wf() ==> final(self)@.wf(),
            old(self)@.wf() ==> (step matches ParserStep::Event(event) ==> !event@.is_empty()),
    {
        if self.failed {
            return ParserStep::Finished;
        }
        let ghost queued = self.pending@;
        match self.pending.pop_front() {
            Some(event) => {
                assert(models(self.pending@) =~= models(queued).drop_first());
                ParserStep::Event(event)
            },
            None => {
                if !self.done {
                    return ParserStep::NeedChunk;
                }
                let last = if self.buf.len() > 0 {
                    let event = parse_event_block(self.buf.as_slice());
                    if event.is_empty() {
                        None
                    } else {
                        Some(event)
                    }
                } else {
                    None
                };
                self.buf = Vec::new();
                match last {
                    Some(event) => ParserStep::Event(event),
                    None => ParserStep::Finished,
                }
            },
        }
    }
}

/// What a byte source hands over at one pull, as mathematical values: a
/// chunk of bytes, or the text of its failure.
pub type SourceItemModel = Result<Seq<u8>, Seq<char>>;

/// What a consumer receives at one pull, as mathematical values.
pub type OutcomeModel = Result<EventModel, StreamingErrorModel>;

/// The items of a byte source as mathematical values.
pub open spec fn source_items(items: Seq<Result<Vec<u8>, String>>) -> Seq<SourceItemModel> {
    items.map_values(
        |r: Result<Vec<u8>, String>|
            match r {
                Ok(chunk) => Ok(chunk@),
                Err(cause) => Err(cause@),
            },
    )
}

/// What a consumer received as mathematical values.
pub open spec fn outcomes(out: Seq<Result<ServerEvent, StreamingError>>) -> Seq<OutcomeModel> {
    out.map_values(
        |r: Result<ServerEvent, StreamingError>|
            match r {
                Ok(event) => Ok(event@),
                Err(error) => Err(error@),
            },
    )
}

/// Events as successful outcomes.
pub open spec fn delivered(events: Seq<EventModel>) -> Seq<OutcomeModel> {
    events.map_values(|e: EventModel| Ok::<EventModel, StreamingErrorModel>(e))
}

/// What a consumer receives after the events that wait in `m`, when the byte
/// source goes on to hand over `items` and then ends.
///
/// A chunk with malformed UTF-8 gives one error, and nothing after it. A
/// failure of the source gives one error, then the event of the text that
/// no blank line has ended, and nothing after it.
pub open spec fn later_output(m: ParserModel, items: Seq<SourceItemModel>) -> Seq<OutcomeModel>
    decreases items.len(),
{
    if m.failed {
        Seq::empty()
    } else if m.done || items.len() == 0 {
        delivered(block_events(m.buf))
    } else {
        match items[0] {
            Err(cause) => seq![Err(StreamingErrorModel::Stream(cause))] + delivered(
                block_events(m.buf),
            ),
            Ok(chunk) => if m.rejects(chunk) {
                seq![
                    Err(
                        StreamingErrorModel::ServerEventsParse {
                            detail: decode_error_detail(m.tail + chunk),
                        },
                    ),
                ]
            } else {
                delivered(m.fresh_events(chunk)) + later_output(m.feed(chunk), items.drop_first())
            },
        }
    }
}

/// Everything a consumer receives from a parser in state `m` whose byte
/// source hands over `items` and then ends.
pub open spec fn stream_output(m: ParserModel, items: Seq<SourceItemModel>) -> Seq<OutcomeModel> {
    if m.failed {
        Seq::empty()
    } else {
        delivered(m.pending) + later_output(m, items)
    }
}

/// What comes after the waiting events does not depend on them.
pub proof fn lemma_later_output_ignores_pending(
    m1: ParserModel,
    m2: ParserModel,
    items: Seq<SourceItemModel>,
)
    requires
        m2 == (ParserModel { pending: m2.pending, ..m1 }),
    ensures
        later_output(m1, items) == later_output(m2, items),
    decreases items.len(),
{
    if !m1.failed && !m1.done && items.len() > 0 {
        match items[0] {
            Ok(chunk) => {
                if !m1.rejects(chunk) {
                    lemma_later_output_ignores_pending(
                        m1.feed(chunk),
                        m2.feed(chunk),
                        items.drop_first(),
                    );
                }
            },
            Err(_) => {},
        }
    }
}

/// Parses a byte source that is held in memory into its events.
///
/// Chunks are buffered and split on blank-line boundaries. Malformed lines
/// within an event are skipped, and events without content are not handed
/// out.
pub fn parse_server_events(items: &Vec<Result<Vec<u8>, String>>) -> (out: Vec<
    Result<ServerEvent, StreamingError>,
>)
    ensures
        outcomes(out@) == stream_output(ParserModel::initial(), source_items(items@)),
        forall|i: int| 0 <= i < out@.len() ==> (#[trigger] out@[i] matches Ok(e) ==> !e@.is_empty()),
{
    let n = items.len();
    let ghost all = source_items(items@);
    let mut parser = ServerEventsParser::new();
    let mut out: Vec<Result<ServerEvent, StreamingError>> = Vec::new();
    let mut at: usize = 0;
    assert(all.subrange(0, n as int) =~= all);
    loop
        invariant
            at <= n,
            n == items@.len(),
            all == source_items(items@),
            parser@.done ==> at == n,
            parser@.wf(),
            outcomes(out@) + stream_output(parser@, all.subrange(at as int, n as int))
                == stream_output(ParserModel::initial(), all),
            forall|i: int|
                0 <= i < out@.len() ==> (#[trigger] out@[i] matches Ok(e) ==> !e@.is_empty()),
        ensures
            outcomes(out@) == stream_output(ParserModel::initial(), all),
            forall|i: int|
                0 <= i < out@.len() ==> (#[trigger] out@[i] matches Ok(e) ==> !e@.is_empty()),
        decreases
                if parser@.done {
                    0
                } else {
                    n - at + 1
                },
                parser@.pending.len() + parser@.buf.len(),
    {
        let ghost before = parser@;
        let ghost rest = all.subrange(at as int, n as int);
        match parser.next_step() {
            ParserStep::Finished => {
                break;
            },
            ParserStep::Event(event) => {
                out.push(Ok(event));
                proof {
                    if before.pending.len() > 0 {
                        lemma_later_output_ignores_pending(before, parser@, rest);
                    }
                }
            },
            ParserStep::NeedChunk => {
                if at == n {
                    parser.on_end();
                } else {
                    assert(rest.drop_first() =~= all.subrange(at + 1, n as int));
                    match &items[at] {
                        Ok(chunk) => {
                            match parser.on_chunk(chunk.as_slice()) {
                                Ok(()) => {
                                },
                                Err(error) => {
                                    out.push(Err(error));
                                },
                            }
                            at += 1;
                        },
                        Err(cause) => {
                            let error = parser.on_source_error(cause.clone());
                            out.push(Err(error));
                            at = n;
                        },
                    }
                }
            },
        }
    }
    out
}

} // verus!
