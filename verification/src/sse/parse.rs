//! Parsing the lines and blocks of a server-sent-events body.

use std::collections::VecDeque;
use vstd::prelude::*;
use vstd::slice::*;

use crate::chars::{append_chars, is_word, push_char, string_of, to_chars};
use crate::sse::event::{models, ServerEvent};
use crate::sse::text::{
    after_boundary, all_digits, apply_line, apply_lines, boundary, decimal_value,
    extracted_events, extracted_rest, index_of, is_digit, leading_newlines, lemma_boundary,
    lemma_boundary_unique, lemma_index_of, lemma_index_of_unique, lemma_leading_newlines,
    lemma_leading_newlines_unique, line_value, normalize, parse_block, parse_retry,
};

verus! {

/// The index of the first `c` in `s`, or the length of `s`.
pub fn find_char(s: &[char], c: char) -> (p: usize)
    ensures
        p == index_of(s@, c),
{
    let n = s.len();
    let mut i: usize = 0;
    while i < n
        invariant
            i <= n,
            n == s@.len(),
            forall|j: int| 0 <= j < i ==> s@[j] != c,
        decreases n - i,
    {
        if s[i] == c {
            proof {
                lemma_index_of_unique(s@, c, i as int);
            }
            return i;
        }
        i += 1;
    }
    proof {
        lemma_index_of_unique(s@, c, n as int);
    }
    n
}

/// A prefix of digits denotes no more than the whole.
proof fn lemma_decimal_prefix(s: Seq<char>, k: int)
    requires
        all_digits(s),
        0 <= k <= s.len(),
    ensures
        decimal_value(s.subrange(0, k)) <= decimal_value(s),
    decreases s.len() - k,
{
    if k == s.len() {
        assert(s.subrange(0, k) == s);
    } else {
        let t = s.drop_last();
        assert(t.subrange(0, k) == s.subrange(0, k));
        lemma_decimal_prefix(t, k);
    }
}

/// The number a `retry` value denotes, if it denotes one.
pub fn parse_retry_value(v: &[char]) -> (r: Option<u64>)
    ensures
        r == parse_retry(v@),
{
    let n = v.len();
    let start: usize = if n > 0 && v[0] == '+' {
        1
    } else {
        0
    };
    if start == n {
        return None;
    }
    let ghost d = v@.subrange(start as int, n as int);
    let mut acc: u64 = 0;
    let mut i: usize = start;
    while i < n
        invariant
            start <= i <= n,
            n == v@.len(),
            d == v@.subrange(start as int, n as int),
            d.len() > 0,
            d == if v@.len() > 0 && v@[0] == '+' {
                v@.drop_first()
            } else {
                v@
            },
            all_digits(d.subrange(0, i - start)),
            acc == decimal_value(d.subrange(0, i - start)),
        decreases n - i,
    {
        let c = v[i];
        let ghost k = i - start;
        if !(c >= '0' && c <= '9') {
            assert(!is_digit(d[k]));
            return None;
        }
        let digit: u64 = (c as u32 - '0' as u32) as u64;
        let ghost next = d.subrange(0, k + 1);
        assert(next.drop_last() == d.subrange(0, k));
        proof {
            if all_digits(d) {
                lemma_decimal_prefix(d, k + 1);
            }
        }
        match acc.checked_mul(10) {
            None => {
                return None;
            },
            Some(m) => match m.checked_add(digit) {
                None => {
                    return None;
                },
                Some(a) => {
                    acc = a;
                },
            },
        }
        i += 1;
    }
    assert(d.subrange(0, n - start) == d);
    Some(acc)
}

/// Applies one line of a block to `event`.
pub fn apply_chars(line: &[char], event: &mut ServerEvent)
    ensures
        final(event)@ == apply_line(old(event)@, line@),
{
    let n = line.len();
    if n > 0 && line[0] == ':' {
        return;
    }
    let p = find_char(line, ':');
    proof {
        lemma_index_of(line@, ':');
    }
    let field = slice_subrange(line, 0, p);
    let value: &[char] = if p < n {
        let v = slice_subrange(line, p + 1, n);
        if v.len() > 0 && v[0] == ' ' {
            slice_subrange(v, 1, v.len())
        } else {
            v
        }
    } else {
        slice_subrange(line, n, n)
    };
    assert(value@ == line_value(line@));
    if is_word(field, "data") {
        if !event.data.as_str().is_empty() {
            let mut data = event.data.clone();
            push_char(&mut data, '\n');
            append_chars(&mut data, value);
            event.data = data;
        } else {
            event.data = string_of(value);
        }
    } else if is_word(field, "event") {
        event.event = Some(string_of(value));
    } else if is_word(field, "id") {
        let z = find_char(value, '\0');
        proof {
            lemma_index_of(value@, '\0');
        }
        if z == value.len() {
            event.id = Some(string_of(value));
        }
    } else if is_word(field, "retry") {
        match parse_retry_value(value) {
            Some(ms) => {
                event.retry = Some(ms);
            },
            None => {},
        }
    }
}

/// Parse a field line within an event block.
///
/// Malformed lines leave the event as it is.
pub fn parse_line(line: &str, event: &mut ServerEvent)
    ensures
        final(event)@ == apply_line(old(event)@, line@),
{
    let chars = to_chars(line);
    apply_chars(chars.as_slice(), event);
}

/// Applies every line of `text` to `event`, in order.
pub fn apply_block(text: &[char], event: &mut ServerEvent)
    ensures
        final(event)@ == apply_lines(old(event)@, text@),
{
    let n = text.len();
    let ghost start_event = event@;
    let mut start: usize = 0;
    assert(text@.subrange(0, n as int) == text@);
    while start < n
        invariant
            start <= n,
            n == text@.len(),
            apply_lines(event@, text@.subrange(start as int, n as int)) == apply_lines(
                start_event,
                text@,
            ),
        decreases n - start,
    {
        let rest = slice_subrange(text, start, n);
        let p = find_char(rest, '\n');
        if p < rest.len() {
            let whole = slice_subrange(rest, 0, p);
            let line = if p > 0 && whole[p - 1] == '\r' {
                slice_subrange(whole, 0, p - 1)
            } else {
                whole
            };
            apply_chars(line, event);
            assert(rest@.subrange(p + 1, rest@.len() as int) == text@.subrange(
                start + p + 1,
                n as int,
            ));
            start = start + p + 1;
        } else {
            apply_chars(rest, event);
            start = n;
        }
    }
}

/// `text` with its line endings normalized to `\n`.
pub fn normalize_chars(text: &[char]) -> (out: Vec<char>)
    ensures
        out@ == normalize(text@),
{
    let n = text.len();
    let mut out: Vec<char> = Vec::new();
    let mut i: usize = 0;
    assert(text@.subrange(0, n as int) == text@);
    while i < n
        invariant
            i <= n,
            n == text@.len(),
            out@ + normalize(text@.subrange(i as int, n as int)) == normalize(text@),
        decreases n - i,
    {
        let ghost rest = text@.subrange(i as int, n as int);
        assert(rest.drop_first() == text@.subrange(i + 1, n as int));
        if text[i] == '\r' {
            out.push('\n');
            if i + 1 < n && text[i + 1] == '\n' {
                assert(rest.subrange(2, rest.len() as int) == text@.subrange(i + 2, n as int));
                i += 2;
            } else {
                i += 1;
            }
        } else {
            out.push(text[i]);
            i += 1;
        }
    }
    out
}

/// Normalize CRLF (`\r\n`) and bare CR (`\r`) to LF (`\n`).
///
/// The parser normalizes once, when text is appended to its buffer, so that
/// everything after works with `\n` alone.
pub fn normalize_line_endings(s: &str) -> (out: String)
    ensures
        out@ == normalize(s@),
{
    let chars = to_chars(s);
    let normalized = normalize_chars(chars.as_slice());
    string_of(normalized.as_slice())
}

/// The index of the first blank-line boundary in `s`, or the length of `s`.
pub fn find_boundary(s: &[char]) -> (p: usize)
    ensures
        p == boundary(s@),
{
    let n = s.len();
    if n < 2 {
        return n;
    }
    let mut i: usize = 0;
    while i < n - 1
        invariant
            i < n,
            n == s@.len(),
            forall|j: int| 0 <= j < i && j + 1 < n ==> !(#[trigger] s@[j] == '\n' && s@[j + 1] == '\n'),
        decreases n - i,
    {
        if s[i] == '\n' && s[i + 1] == '\n' {
            proof {
                lemma_boundary_unique(s@, i as int);
            }
            return i;
        }
        i += 1;
    }
    proof {
        lemma_boundary_unique(s@, n as int);
    }
    n
}

/// The number of `\n` that `s` begins with.
pub fn count_leading_newlines(s: &[char]) -> (k: usize)
    ensures
        k == leading_newlines(s@),
{
    let n = s.len();
    let mut i: usize = 0;
    while i < n && s[i] == '\n'
        invariant
            i <= n,
            n == s@.len(),
            forall|j: int| 0 <= j < i ==> s@[j] == '\n',
        decreases n - i,
    {
        i += 1;
    }
    proof {
        lemma_leading_newlines_unique(s@, i as int);
    }
    i
}

/// The event that a block of lines describes.
pub fn parse_event_block(block: &[char]) -> (event: ServerEvent)
    ensures
        event@ == parse_block(block@),
{
    let mut event = ServerEvent::default();
    apply_block(block, &mut event);
    event
}

/// Takes the completed blocks out of `text`: appends their events to `events`
/// and returns where the text that no blank line has ended begins.
pub fn extract_blocks(text: &[char], events: &mut VecDeque<ServerEvent>) -> (rest: usize)
    ensures
        rest <= text@.len(),
        models(final(events)@) == models(old(events)@) + extracted_events(text@),
        text@.subrange(rest as int, text@.len() as int) == extracted_rest(text@),
{
    let n = text.len();
    let ghost before = models(events@);
    let mut start: usize = 0;
    assert(text@.subrange(0, n as int) == text@);
    loop
        invariant
            start <= n,
            n == text@.len(),
            models(events@) + extracted_events(text@.subrange(start as int, n as int)) == before
                + extracted_events(text@),
            extracted_rest(text@.subrange(start as int, n as int)) == extracted_rest(text@),
        ensures
            start <= n,
            models(events@) == before + extracted_events(text@),
            text@.subrange(start as int, n as int) == extracted_rest(text@),
        decreases n - start,
    {
        let rest = slice_subrange(text, start, n);
        let p = find_boundary(rest);
        proof {
            lemma_boundary(rest@);
        }
        if p >= rest.len() {
            break;
        }
        let block = slice_subrange(rest, 0, p);
        if block.len() > 0 {
            let event = parse_event_block(block);
            if !event.is_empty() {
                events.push_back(event);
            }
        }
        let tail = slice_subrange(rest, p + 2, rest.len());
        let skipped = count_leading_newlines(tail);
        proof {
            lemma_leading_newlines(tail@);
            assert(after_boundary(rest@) == text@.subrange(
                start + p + 2 + skipped,
                n as int,
            ));
        }
        start = start + p + 2 + skipped;
    }
    start
}

/// Split buffered text on event boundaries (`\n\n`), returning the events of
/// the completed blocks and leaving any partial trailing data in the buffer.
pub fn extract_events(buf: &mut String) -> (events: VecDeque<ServerEvent>)
    ensures
        models(events@) == extracted_events(old(buf)@),
        final(buf)@ == extracted_rest(old(buf)@),
{
    let chars = to_chars(buf.as_str());
    let mut events: VecDeque<ServerEvent> = VecDeque::new();
    let rest = extract_blocks(chars.as_slice(), &mut events);
    *buf = string_of(slice_subrange(chars.as_slice(), rest, chars.len()));
    events
}

} // verus!
