//! Chunk-boundary invariance: how the byte source cuts its bytes into chunks
//! does not change the events that come out.

use vstd::prelude::*;

use crate::sse::event::EventModel;
use crate::sse::parser::{
    delivered, later_output, lemma_feed_wf, stream_output, ParserModel, SourceItemModel,
};
use crate::utf8::{
    after_valid_prefix, is_incomplete, is_malformed, lemma_first_byte_of_ascii,
    lemma_incomplete_has_no_scalar, lemma_last_byte_of_ascii, lemma_prefix_not_malformed,
    lemma_valid_prefix, lemma_valid_prefix_resume, valid_prefix_len, valid_prefix_text,
};
use crate::sse::text::{
    after_boundary, apply_line, apply_lines, block_events, boundary, extracted_events,
    extracted_rest, lemma_after_boundary_shorter, lemma_boundary, lemma_leading_newlines,
    line_field, normalize, skip_newlines, strip_bom,
};

verus! {

/// Two texts that differ at most in the blank lines they begin with.
pub open spec fn same_text(s: Seq<char>, t: Seq<char>) -> bool {
    skip_newlines(s) == skip_newlines(t)
}

/// An empty line changes no event.
pub proof fn lemma_empty_line(ev: EventModel)
    ensures
        apply_line(ev, Seq::empty()) == ev,
{
    reveal_strlit("data");
    reveal_strlit("event");
    reveal_strlit("id");
    let line = Seq::<char>::empty();
    assert(line_field(line).len() == 0);
}

/// A text without its first character, where that character is `\n`, has
/// one leading newline less.
proof fn lemma_skip_first_newline(s: Seq<char>)
    requires
        s.len() > 0,
        s[0] == '\n',
    ensures
        skip_newlines(s) == skip_newlines(s.drop_first()),
{
    lemma_leading_newlines(s.drop_first());
}

/// A text that begins with no `\n` has no leading newlines to skip.
proof fn lemma_skip_nothing(s: Seq<char>)
    requires
        s.len() == 0 || s[0] != '\n',
    ensures
        skip_newlines(s) == s,
{
}

/// The blank lines a block begins with do not change its event.
pub proof fn lemma_apply_lines_skip(ev: EventModel, text: Seq<char>)
    ensures
        apply_lines(ev, text) == apply_lines(ev, skip_newlines(text)),
    decreases text.len(),
{
    if text.len() > 0 && text[0] == '\n' {
        let rest = text.drop_first();
        lemma_empty_line(ev);
        assert(text.subrange(0, 0) =~= Seq::<char>::empty());
        lemma_apply_lines_skip(ev, rest);
        lemma_skip_first_newline(text);
    } else {
        lemma_skip_nothing(text);
    }
}

/// The blank lines a block begins with do not change what it contributes.
pub proof fn lemma_block_events_skip(block: Seq<char>)
    ensures
        block_events(block) == block_events(skip_newlines(block)),
{
    lemma_apply_lines_skip(EventModel::empty(), block);
}

/// Skipping the leading newlines of `u + y` skips those of `u`, and those of
/// `y` too where `u` holds nothing else.
pub proof fn lemma_skip_concat(u: Seq<char>, y: Seq<char>)
    ensures
        skip_newlines(u + y) == if skip_newlines(u).len() > 0 {
            skip_newlines(u) + y
        } else {
            skip_newlines(y)
        },
    decreases u.len(),
{
    if u.len() == 0 {
        assert(u + y =~= y);
        lemma_skip_nothing(u);
    } else if u[0] == '\n' {
        lemma_skip_first_newline(u);
        assert((u + y)[0] == '\n');
        lemma_skip_first_newline(u + y);
        assert((u + y).drop_first() =~= u.drop_first() + y);
        lemma_skip_concat(u.drop_first(), y);
    } else {
        lemma_skip_nothing(u);
        assert((u + y)[0] == u[0]);
        lemma_skip_nothing(u + y);
    }
}

/// The first boundary of `x` is the first boundary of `x + y`.
proof fn lemma_boundary_concat(x: Seq<char>, y: Seq<char>)
    requires
        boundary(x) < x.len(),
    ensures
        boundary(x + y) == boundary(x),
    decreases x.len(),
{
    let z = x + y;
    if x.len() >= 2 && !(x[0] == '\n' && x[1] == '\n') {
        assert(z.drop_first() =~= x.drop_first() + y);
        lemma_boundary_concat(x.drop_first(), y);
    }
}

/// A text that begins with one `\n` and then another character has its
/// boundary one further than the text after that `\n`.
proof fn lemma_extract_one_newline(s: Seq<char>)
    requires
        s.len() > 0,
        s[0] == '\n',
        s.len() == 1 || s[1] != '\n',
    ensures
        extracted_events(s) == extracted_events(s.drop_first()),
        same_text(extracted_rest(s), extracted_rest(s.drop_first())),
{
    let t = s.drop_first();
    lemma_skip_first_newline(s);
    lemma_boundary(t);
    if s.len() >= 2 {
        let p = boundary(t);
        if p < t.len() {
            let block_s = s.subrange(0, p + 1);
            let block_t = t.subrange(0, p);
            assert(block_s.drop_first() =~= block_t);
            lemma_skip_first_newline(block_s);
            lemma_block_events_skip(block_s);
            assert(s.subrange(p + 3, s.len() as int) =~= t.subrange(p + 2, t.len() as int));
        }
    }
}

/// The blank lines a text begins with change neither the events of its
/// completed blocks nor, but for blank lines, what is left of it.
pub proof fn lemma_extract_skip(s: Seq<char>)
    ensures
        extracted_events(s) == extracted_events(skip_newlines(s)),
        same_text(extracted_rest(s), extracted_rest(skip_newlines(s))),
    decreases s.len(),
{
    if s.len() > 0 && s[0] == '\n' {
        if s.len() >= 2 && s[1] == '\n' {
            let u = s.subrange(2, s.len() as int);
            lemma_skip_first_newline(s);
            lemma_skip_first_newline(s.drop_first());
            assert(s.drop_first().drop_first() =~= u);
        } else {
            lemma_extract_one_newline(s);
            lemma_skip_first_newline(s);
        }
    } else {
        lemma_skip_nothing(s);
    }
}

/// Texts that differ at most in leading blank lines, followed by the same
/// text, have the same events, and what is left differs at most in leading
/// blank lines.
pub proof fn lemma_extract_same_text(s: Seq<char>, t: Seq<char>, y: Seq<char>)
    requires
        same_text(s, t),
    ensures
        extracted_events(s + y) == extracted_events(t + y),
        same_text(extracted_rest(s + y), extracted_rest(t + y)),
{
    lemma_extract_skip(s + y);
    lemma_extract_skip(t + y);
    lemma_skip_concat(s, y);
    lemma_skip_concat(t, y);
}

/// Extraction may stop where the text stops and go on when more text comes:
/// the events of `x + y` are those of `x` and then those of what `x` left
/// followed by `y`.
pub proof fn lemma_extract_resume(x: Seq<char>, y: Seq<char>)
    ensures
        extracted_events(x + y) == extracted_events(x) + extracted_events(extracted_rest(x) + y),
        same_text(extracted_rest(x + y), extracted_rest(extracted_rest(x) + y)),
    decreases x.len(),
{
    lemma_boundary(x);
    let p = boundary(x);
    if p < x.len() {
        let z = x + y;
        lemma_boundary_concat(x, y);
        lemma_after_boundary_shorter(x);
        let u = x.subrange(p + 2, x.len() as int);
        let rx = after_boundary(x);
        let block = x.subrange(0, p);
        assert(z.subrange(0, p) =~= block);
        assert(z.subrange(p + 2, z.len() as int) =~= u + y);
        lemma_skip_concat(u, y);
        if rx.len() > 0 {
            lemma_extract_resume(rx, y);
        } else {
            assert(extracted_events(rx) == Seq::<EventModel>::empty());
            assert(extracted_rest(rx) == rx);
            lemma_extract_skip(y);
        }
    }
}

/// Line endings may be normalized piece by piece, unless a `\r` that ends
/// one piece belongs to the `\n` that begins the next.
pub proof fn lemma_normalize_concat(x: Seq<char>, y: Seq<char>)
    requires
        !(x.len() > 0 && x.last() == '\r' && y.len() > 0 && y[0] == '\n'),
    ensures
        normalize(x + y) == normalize(x) + normalize(y),
    decreases x.len(),
{
    let z = x + y;
    if x.len() == 0 {
        assert(z =~= y);
        assert(normalize(x) + normalize(y) =~= normalize(y));
    } else {
        assert(z[0] == x[0]);
        if x[0] == '\r' && x.len() > 1 && x[1] == '\n' {
            let rest = x.subrange(2, x.len() as int);
            assert(z[1] == x[1]);
            assert(z.subrange(2, z.len() as int) =~= rest + y);
            if rest.len() > 0 {
                assert(rest.last() == x.last());
            }
            lemma_normalize_concat(rest, y);
            assert(normalize(z) =~= normalize(x) + normalize(y));
        } else {
            let rest = x.drop_first();
            assert(z.drop_first() =~= rest + y);
            if rest.len() > 0 {
                assert(rest.last() == x.last());
                assert(z[1] == x[1]);
            } else if y.len() > 0 {
                assert(z[1] == y[0]);
            }
            lemma_normalize_concat(rest, y);
            assert(normalize(z) =~= normalize(x) + normalize(y));
        }
    }
}

/// The byte-order mark is stripped from the first piece of a text alone.
pub proof fn lemma_strip_bom_concat(x: Seq<char>, y: Seq<char>)
    requires
        x.len() > 0,
    ensures
        strip_bom(x + y) == strip_bom(x) + y,
{
}

/// Two parser states from which the same events come, whatever follows:
/// they differ at most in the blank lines their buffers begin with.
pub open spec fn same_stream(m1: ParserModel, m2: ParserModel) -> bool {
    &&& m1.pending == m2.pending
    &&& m1.tail == m2.tail
    &&& m1.first_chunk == m2.first_chunk
    &&& m1.done == m2.done
    &&& m1.failed == m2.failed
    &&& same_text(m1.buf, m2.buf)
}

/// An empty chunk changes nothing.
pub proof fn lemma_feed_empty(m: ParserModel)
    requires
        m.wf(),
    ensures
        m.feed(Seq::empty()) == m,
{
    if m.tail.len() > 0 {
        lemma_incomplete_has_no_scalar(m.tail);
    }
    assert(m.tail.subrange(0, 0) =~= Seq::<u8>::empty());
}

/// States from which the same events come ask for the same next step, and
/// the same events come from them after that step.
pub proof fn lemma_same_stream_step(m1: ParserModel, m2: ParserModel)
    requires
        same_stream(m1, m2),
    ensures
        m1.step() == m2.step(),
        same_stream(m1.after_step(), m2.after_step()),
{
    lemma_block_events_skip(m1.buf);
    lemma_block_events_skip(m2.buf);
}

/// States from which the same events come stay so when the same chunk
/// arrives, and they reject the same chunks.
pub proof fn lemma_same_stream_feed(m1: ParserModel, m2: ParserModel, chunk: Seq<u8>)
    requires
        same_stream(m1, m2),
    ensures
        m1.rejects(chunk) == m2.rejects(chunk),
        same_stream(m1.feed(chunk), m2.feed(chunk)),
{
    lemma_extract_same_text(m1.buf, m2.buf, m1.fresh_text(chunk));
}

/// States from which the same events come stay so when the source ends.
pub proof fn lemma_same_stream_finish(m1: ParserModel, m2: ParserModel)
    requires
        same_stream(m1, m2),
    ensures
        same_stream(m1.finish(), m2.finish()),
{
}

/// True when the cut between `a` and `b` separates a `\r` from the `\n`
/// that follows it.
pub open spec fn cuts_line_ending(a: Seq<u8>, b: Seq<u8>) -> bool {
    a.len() > 0 && a.last() == 0x0D && b.len() > 0 && b[0] == 0x0A
}

/// One cut more or less: giving a parser `a` and then `b` leaves it in a
/// state from which the same events come as giving it `a + b` at once.
///
/// This holds where neither chunk is rejected for malformed UTF-8 and the
/// cut does not separate a `\r` from the `\n` after it. A cut inside the
/// bytes of one scalar is no obstacle.
pub proof fn lemma_cut_invariance(m: ParserModel, a: Seq<u8>, b: Seq<u8>)
    requires
        m.wf(),
        !m.feed(a).feed(b).failed,
        !cuts_line_ending(a, b),
    ensures
        same_stream(m.feed(a).feed(b), m.feed(a + b)),
{
    if !m.is_closed() {
        let bytes1 = m.tail + a;
        let m1 = m.feed(a);
        let tail1 = after_valid_prefix(bytes1);
        let text1 = valid_prefix_text(bytes1);
        let bytes2 = tail1 + b;
        let text2 = valid_prefix_text(bytes2);
        let whole = m.tail + (a + b);
        assert(whole =~= bytes1 + b);
        lemma_valid_prefix_resume(bytes1, b);
        lemma_valid_prefix(bytes1);
        lemma_valid_prefix(bytes2);
        assert(!is_malformed(bytes1));
        assert(m1.tail == tail1);
        assert(!is_malformed(bytes2));
        assert(valid_prefix_text(whole) == text1 + text2);
        if text1.len() == 0 {
            assert(text1 + text2 =~= text2);
        } else if text2.len() == 0 {
            assert(text1 + text2 =~= text1);
        } else {
            let shown1 = if m.first_chunk {
                strip_bom(text1)
            } else {
                text1
            };
            lemma_strip_bom_concat(text1, text2);
            assert(!(shown1.len() > 0 && shown1.last() == '\r' && text2[0] == '\n')) by {
                if shown1.len() > 0 && shown1.last() == '\r' && text2[0] == '\n' {
                    assert(shown1.last() == text1.last());
                    let valid2 = bytes2.subrange(0, valid_prefix_len(bytes2));
                    lemma_first_byte_of_ascii(valid2);
                    assert(bytes2[0] == 0x0A);
                    if tail1.len() > 0 {
                        assert(bytes2[0] == tail1[0]);
                        assert(is_incomplete(tail1));
                    }
                    assert(tail1.len() == 0);
                    assert(bytes2[0] == b[0]);
                    let valid1 = bytes1.subrange(0, valid_prefix_len(bytes1));
                    assert(valid1 =~= bytes1);
                    lemma_last_byte_of_ascii(bytes1);
                    assert(bytes1.last() == 0x0D);
                    if a.len() == 0 {
                        assert(bytes1 =~= m.tail);
                        lemma_incomplete_has_no_scalar(m.tail);
                    } else {
                        assert(bytes1.last() == a.last());
                    }
                }
            }
            lemma_normalize_concat(shown1, text2);
            let fresh1 = normalize(shown1);
            let fresh2 = normalize(text2);
            let all1 = m.buf + fresh1;
            assert(m.fresh_text(a + b) == fresh1 + fresh2);
            assert(m.buf + (fresh1 + fresh2) =~= all1 + fresh2);
            lemma_extract_resume(all1, fresh2);
            assert(m1.fresh_text(b) == fresh2);
            assert(m.feed(a + b).pending =~= m1.feed(b).pending);
        }
    }
}

/// A scalar that a chunk boundary cuts is put together again: where the
/// bytes of two chunks one after the other are not malformed, neither chunk
/// is rejected, and the texts decoded from the two chunks, one after the
/// other, are the text of the bytes as a whole, with nothing twice and
/// nothing lost.
pub proof fn lemma_cut_scalar_reassembled(m: ParserModel, a: Seq<u8>, b: Seq<u8>)
    requires
        m.wf(),
        !m.is_closed(),
        !is_malformed(m.tail + (a + b)),
    ensures
        !m.rejects(a),
        !m.feed(a).rejects(b),
        valid_prefix_text(m.tail + a) + valid_prefix_text(m.feed(a).tail + b) == valid_prefix_text(
            m.tail + (a + b),
        ),
        m.feed(a).feed(b).tail == after_valid_prefix(m.tail + (a + b)),
{
    let bytes1 = m.tail + a;
    let whole = m.tail + (a + b);
    assert(whole =~= bytes1 + b);
    assert(whole.subrange(0, bytes1.len() as int) =~= bytes1);
    lemma_prefix_not_malformed(whole, bytes1.len() as int);
    lemma_valid_prefix_resume(bytes1, b);
}

/// The parser after the byte source gave every chunk of `chunks` in order.
pub open spec fn feed_all(m: ParserModel, chunks: Seq<Seq<u8>>) -> ParserModel
    decreases chunks.len(),
{
    if chunks.len() == 0 {
        m
    } else {
        feed_all(m.feed(chunks[0]), chunks.drop_first())
    }
}

/// The bytes of every chunk of `chunks`, one chunk after the other.
pub open spec fn concat_all(chunks: Seq<Seq<u8>>) -> Seq<u8>
    decreases chunks.len(),
{
    if chunks.len() == 0 {
        Seq::empty()
    } else {
        chunks[0] + concat_all(chunks.drop_first())
    }
}

/// The chunks as what a byte source that never fails hands over.
pub open spec fn all_ok(chunks: Seq<Seq<u8>>) -> Seq<SourceItemModel> {
    chunks.map_values(|c: Seq<u8>| Ok::<Seq<u8>, Seq<char>>(c))
}

/// True when a boundary between two chunks separates a `\r` from the `\n`
/// that follows it in the stream.
pub open spec fn cuts_some_line_ending(chunks: Seq<Seq<u8>>) -> bool {
    exists|i: int|
        0 <= i < chunks.len() && #[trigger] cuts_line_ending(
            concat_all(chunks.subrange(0, i)),
            chunks[i],
        )
}

/// Giving one chunk more is one `feed` more.
pub proof fn lemma_feed_all_push(m: ParserModel, chunks: Seq<Seq<u8>>, c: Seq<u8>)
    ensures
        feed_all(m, chunks.push(c)) == feed_all(m, chunks).feed(c),
    decreases chunks.len(),
{
    let more = chunks.push(c);
    if chunks.len() == 0 {
        assert(feed_all(m.feed(c), more.drop_first()) == m.feed(c));
    } else {
        assert(more.drop_first() =~= chunks.drop_first().push(c));
        lemma_feed_all_push(m.feed(chunks[0]), chunks.drop_first(), c);
    }
}

/// One chunk more adds its bytes at the end.
pub proof fn lemma_concat_all_push(chunks: Seq<Seq<u8>>, c: Seq<u8>)
    ensures
        concat_all(chunks.push(c)) == concat_all(chunks) + c,
    decreases chunks.len(),
{
    let more = chunks.push(c);
    if chunks.len() == 0 {
        assert(concat_all(more.drop_first()) =~= Seq::<u8>::empty());
    } else {
        assert(more.drop_first() =~= chunks.drop_first().push(c));
        lemma_concat_all_push(chunks.drop_first(), c);
    }
}

/// A parser that takes no more chunks stays as it is.
pub proof fn lemma_feed_all_closed(m: ParserModel, chunks: Seq<Seq<u8>>)
    requires
        m.is_closed(),
    ensures
        feed_all(m, chunks) == m,
    decreases chunks.len(),
{
    if chunks.len() > 0 {
        lemma_feed_all_closed(m, chunks.drop_first());
    }
}

/// Chunks leave a parser well-formed, and add to the events that wait.
pub proof fn lemma_feed_all_wf(m: ParserModel, chunks: Seq<Seq<u8>>)
    requires
        m.wf(),
    ensures
        feed_all(m, chunks).wf(),
        feed_all(m, chunks).pending.len() >= m.pending.len(),
        feed_all(m, chunks).pending.subrange(0, m.pending.len() as int) == m.pending,
        feed_all(m, chunks).done == m.done,
    decreases chunks.len(),
{
    if chunks.len() > 0 {
        lemma_feed_wf(m, chunks[0]);
        lemma_feed_all_wf(m.feed(chunks[0]), chunks.drop_first());
    }
}

/// However the byte source cuts its bytes into chunks, the parser ends in a
/// state from which the same events come as from the state it reaches when
/// all the bytes come as one chunk.
///
/// This holds where no chunk is rejected for malformed UTF-8 and no chunk
/// boundary separates a `\r` from the `\n` after it.
pub proof fn lemma_chunking_invariance(m: ParserModel, chunks: Seq<Seq<u8>>)
    requires
        m.wf(),
        !feed_all(m, chunks).failed,
        !cuts_some_line_ending(chunks),
    ensures
        same_stream(feed_all(m, chunks), m.feed(concat_all(chunks))),
    decreases chunks.len(),
{
    if chunks.len() == 0 {
        lemma_feed_empty(m);
    } else {
        let init = chunks.drop_last();
        let c = chunks.last();
        assert(chunks =~= init.push(c));
        lemma_feed_all_push(m, init, c);
        lemma_concat_all_push(init, c);
        let before = feed_all(m, init);
        assert(!cuts_some_line_ending(init)) by {
            if cuts_some_line_ending(init) {
                let i = choose|i: int|
                    0 <= i < init.len() && #[trigger] cuts_line_ending(
                        concat_all(init.subrange(0, i)),
                        init[i],
                    );
                assert(init.subrange(0, i) =~= chunks.subrange(0, i));
            }
        }
        lemma_chunking_invariance(m, init);
        let joined = m.feed(concat_all(init));
        lemma_same_stream_feed(before, joined, c);
        lemma_cut_invariance(m, concat_all(init), c);
    }
}

/// What a consumer receives from chunks of which none is rejected: the
/// events that the chunks complete and, at the end of the source, the event
/// of the text that no blank line has ended.
pub proof fn lemma_output_of_chunks(m: ParserModel, chunks: Seq<Seq<u8>>)
    requires
        m.wf(),
        !m.is_closed(),
        !feed_all(m, chunks).failed,
    ensures
        later_output(m, all_ok(chunks)) == delivered(
            feed_all(m, chunks).pending.subrange(
                m.pending.len() as int,
                feed_all(m, chunks).pending.len() as int,
            ) + block_events(feed_all(m, chunks).buf),
        ),
    decreases chunks.len(),
{
    let items = all_ok(chunks);
    let last = feed_all(m, chunks);
    lemma_feed_all_wf(m, chunks);
    if chunks.len() == 0 {
        assert(last.pending.subrange(m.pending.len() as int, last.pending.len() as int)
            =~= Seq::<EventModel>::empty());
        assert(Seq::<EventModel>::empty() + block_events(m.buf) =~= block_events(m.buf));
    } else {
        let c = chunks[0];
        let next = m.feed(c);
        assert(items[0] == Ok::<Seq<u8>, Seq<char>>(c));
        assert(items.drop_first() =~= all_ok(chunks.drop_first()));
        if m.rejects(c) {
            lemma_feed_all_closed(next, chunks.drop_first());
        }
        lemma_feed_wf(m, c);
        lemma_feed_all_wf(next, chunks.drop_first());
        lemma_output_of_chunks(next, chunks.drop_first());
        let fresh = m.fresh_events(c);
        assert(next.pending =~= m.pending + fresh);
        let from_m = last.pending.subrange(m.pending.len() as int, last.pending.len() as int);
        let from_next = last.pending.subrange(
            next.pending.len() as int,
            last.pending.len() as int,
        );
        assert(from_m =~= fresh + from_next) by {
            assert(last.pending.subrange(0, next.pending.len() as int) == next.pending);
            assert forall|j: int| 0 <= j < fresh.len() implies from_m[j] == fresh[j] by {
                assert(last.pending.subrange(0, next.pending.len() as int)[m.pending.len() + j]
                    == next.pending[m.pending.len() + j]);
            }
        }
        assert(delivered(from_m + block_events(last.buf)) =~= delivered(fresh) + delivered(
            from_next + block_events(last.buf),
        ));
    }
}

/// Chunk-boundary invariance: cutting a stream of bytes into chunks in any
/// way gives a consumer the same events, in the same order, as handing the
/// parser all the bytes as one chunk.
///
/// This holds where no chunk is rejected for malformed UTF-8 and no chunk
/// boundary separates a `\r` from the `\n` after it. A boundary inside the
/// bytes of one scalar changes nothing.
pub proof fn lemma_chunk_boundary_invariance(chunks: Seq<Seq<u8>>)
    requires
        !feed_all(ParserModel::initial(), chunks).failed,
        !cuts_some_line_ending(chunks),
    ensures
        stream_output(ParserModel::initial(), all_ok(chunks)) == stream_output(
            ParserModel::initial(),
            all_ok(seq![concat_all(chunks)]),
        ),
{
    let m = ParserModel::initial();
    let whole = seq![concat_all(chunks)];
    let cut = feed_all(m, chunks);
    let joined = m.feed(concat_all(chunks));
    lemma_chunking_invariance(m, chunks);
    lemma_feed_all_push(m, Seq::<Seq<u8>>::empty(), concat_all(chunks));
    lemma_output_of_chunks(m, chunks);
    lemma_output_of_chunks(m, whole);
    lemma_block_events_skip(cut.buf);
    lemma_block_events_skip(joined.buf);
}

/// Text that is not malformed as a whole is never rejected, however it is
/// cut into chunks.
pub proof fn lemma_sound_text_never_rejected(m: ParserModel, chunks: Seq<Seq<u8>>)
    requires
        m.wf(),
        !m.failed,
        !is_malformed(m.tail + concat_all(chunks)),
    ensures
        !feed_all(m, chunks).failed,
    decreases chunks.len(),
{
    if m.is_closed() {
        lemma_feed_all_closed(m, chunks);
    } else if chunks.len() > 0 {
        let c = chunks[0];
        let rest = concat_all(chunks.drop_first());
        lemma_cut_scalar_reassembled(m, c, rest);
        let next = m.feed(c);
        lemma_feed_wf(m, c);
        lemma_sound_text_never_rejected(next, chunks.drop_first());
    }
}

} // verus!
