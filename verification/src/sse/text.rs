//! The line grammar of server-sent events, over sequences of characters.
//!
//! Everything here is stated on text whose line endings may or may not have
//! been normalized: a line ends at `\n`, and a `\r` directly before that `\n`
//! belongs to the line ending.

use vstd::prelude::*;

use crate::sse::event::EventModel;

verus! {

/// The index of the first `c` in `s`, or the length of `s` when `s` holds none.
pub open spec fn index_of(s: Seq<char>, c: char) -> int
    decreases s.len(),
{
    if s.len() == 0 {
        0
    } else if s[0] == c {
        0
    } else {
        1 + index_of(s.drop_first(), c)
    }
}

/// `index_of` is in range, points at `c` when it is inside `s`, and nothing
/// before it is `c`.
pub proof fn lemma_index_of(s: Seq<char>, c: char)
    ensures
        0 <= index_of(s, c) <= s.len(),
        index_of(s, c) < s.len() ==> s[index_of(s, c)] == c,
        forall|j: int| 0 <= j < index_of(s, c) ==> s[j] != c,
    decreases s.len(),
{
    if s.len() > 0 && s[0] != c {
        let t = s.drop_first();
        lemma_index_of(t, c);
        assert forall|j: int| 0 <= j < index_of(s, c) implies s[j] != c by {
            if j > 0 {
                assert(s[j] == t[j - 1]);
            }
        }
    }
}

/// The first position `p` with `s[p] != c` found means `p` is `index_of`.
pub proof fn lemma_index_of_unique(s: Seq<char>, c: char, p: int)
    requires
        0 <= p <= s.len(),
        p < s.len() ==> s[p] == c,
        forall|j: int| 0 <= j < p ==> s[j] != c,
    ensures
        index_of(s, c) == p,
{
    lemma_index_of(s, c);
}

/// True for the ten ASCII digits.
pub open spec fn is_digit(c: char) -> bool {
    '0' <= c <= '9'
}

/// The number that a sequence of ASCII digits denotes in base ten.
pub open spec fn decimal_value(s: Seq<char>) -> nat
    decreases s.len(),
{
    if s.len() == 0 {
        0
    } else {
        (decimal_value(s.drop_last()) * 10 + (s.last() as int - '0' as int)) as nat
    }
}

/// True when every character of `s` is an ASCII digit.
pub open spec fn all_digits(s: Seq<char>) -> bool {
    forall|i: int| 0 <= i < s.len() ==> is_digit(#[trigger] s[i])
}

/// The value of a `retry` field: an optional `+`, then at least one ASCII
/// digit and nothing else, denoting a number that fits in 64 bits.
pub open spec fn parse_retry(v: Seq<char>) -> Option<u64> {
    let d = if v.len() > 0 && v[0] == '+' {
        v.drop_first()
    } else {
        v
    };
    if d.len() > 0 && all_digits(d) && decimal_value(d) <= u64::MAX {
        Some(decimal_value(d) as u64)
    } else {
        None
    }
}

/// A line that begins with `:` is a comment.
pub open spec fn is_comment(line: Seq<char>) -> bool {
    line.len() > 0 && line[0] == ':'
}

/// The field name of a line: what stands before the first `:`, or the whole
/// line when it holds none.
pub open spec fn line_field(line: Seq<char>) -> Seq<char> {
    line.subrange(0, index_of(line, ':'))
}

/// The value of a line: what follows the first `:`, without one leading
/// space; empty when the line holds no `:`.
pub open spec fn line_value(line: Seq<char>) -> Seq<char> {
    let p = index_of(line, ':');
    if p < line.len() {
        let v = line.subrange(p + 1, line.len() as int);
        if v.len() > 0 && v[0] == ' ' {
            v.drop_first()
        } else {
            v
        }
    } else {
        Seq::empty()
    }
}

/// The event after one line of a block has been applied to it.
///
/// Comments, unknown fields, an `id` that holds a NUL and a `retry` that is
/// no number leave the event as it is. Field names are case-sensitive.
pub open spec fn apply_line(ev: EventModel, line: Seq<char>) -> EventModel {
    let field = line_field(line);
    let value = line_value(line);
    if is_comment(line) {
        ev
    } else if field == "data"@ {
        EventModel {
            data: if ev.data.len() > 0 {
                ev.data.push('\n') + value
            } else {
                value
            },
            ..ev
        }
    } else if field == "event"@ {
        EventModel { event: Some(value), ..ev }
    } else if field == "id"@ {
        if value.contains('\0') {
            ev
        } else {
            EventModel { id: Some(value), ..ev }
        }
    } else if field == "retry"@ {
        match parse_retry(value) {
            Some(ms) => EventModel { retry: Some(ms), ..ev },
            None => ev,
        }
    } else {
        ev
    }
}

/// A line that `\n` ended, without the `\r` that may stand before that `\n`.
pub open spec fn strip_cr(line: Seq<char>) -> Seq<char> {
    if line.len() > 0 && line.last() == '\r' {
        line.drop_last()
    } else {
        line
    }
}

/// The event after every line of `text` has been applied to it in order.
///
/// Lines end at `\n`; what follows the last `\n` is a line of its own unless
/// it is empty.
pub open spec fn apply_lines(ev: EventModel, text: Seq<char>) -> EventModel
    decreases text.len(),
{
    let p = index_of(text, '\n');
    if text.len() == 0 {
        ev
    } else if p < text.len() {
        proof {
            lemma_index_of(text, '\n');
        }
        apply_lines(
            apply_line(ev, strip_cr(text.subrange(0, p))),
            text.subrange(p + 1, text.len() as int),
        )
    } else {
        apply_line(ev, text)
    }
}

/// The event that a block of lines describes.
pub open spec fn parse_block(block: Seq<char>) -> EventModel {
    apply_lines(EventModel::empty(), block)
}

/// The events that one block contributes: its event, unless the block or the
/// event is empty.
pub open spec fn block_events(block: Seq<char>) -> Seq<EventModel> {
    if block.len() > 0 && !parse_block(block).is_empty() {
        seq![parse_block(block)]
    } else {
        Seq::empty()
    }
}

/// The index of the first blank-line boundary (`\n\n`) in `s`, or the length
/// of `s` when `s` holds none.
pub open spec fn boundary(s: Seq<char>) -> int
    decreases s.len(),
{
    if s.len() < 2 {
        s.len() as int
    } else if s[0] == '\n' && s[1] == '\n' {
        0
    } else {
        1 + boundary(s.drop_first())
    }
}

/// The number of `\n` that `s` begins with.
pub open spec fn leading_newlines(s: Seq<char>) -> int
    decreases s.len(),
{
    if s.len() > 0 && s[0] == '\n' {
        1 + leading_newlines(s.drop_first())
    } else {
        0
    }
}

/// `s` without the `\n` it begins with.
pub open spec fn skip_newlines(s: Seq<char>) -> Seq<char> {
    s.subrange(leading_newlines(s), s.len() as int)
}

/// What follows the first boundary of `s`, without the blank lines that
/// follow that boundary directly.
pub open spec fn after_boundary(s: Seq<char>) -> Seq<char> {
    skip_newlines(s.subrange(boundary(s) + 2, s.len() as int))
}

/// The events of the completed blocks of `s`, in order.
pub open spec fn extracted_events(s: Seq<char>) -> Seq<EventModel>
    decreases s.len(),
{
    let p = boundary(s);
    if p < s.len() {
        proof {
            lemma_after_boundary_shorter(s);
        }
        block_events(s.subrange(0, p)) + extracted_events(after_boundary(s))
    } else {
        Seq::empty()
    }
}

/// What is left of `s` once its completed blocks are taken out: the text
/// after the last boundary, which no blank line has ended yet.
pub open spec fn extracted_rest(s: Seq<char>) -> Seq<char>
    decreases s.len(),
{
    let p = boundary(s);
    if p < s.len() {
        proof {
            lemma_after_boundary_shorter(s);
        }
        extracted_rest(after_boundary(s))
    } else {
        s
    }
}

/// `text` with every line ending as `\n`: each `\r\n` becomes one `\n`, and
/// every other `\r` becomes `\n` too.
pub open spec fn normalize(text: Seq<char>) -> Seq<char>
    decreases text.len(),
{
    if text.len() == 0 {
        Seq::empty()
    } else if text[0] == '\r' && text.len() > 1 && text[1] == '\n' {
        seq!['\n'] + normalize(text.subrange(2, text.len() as int))
    } else if text[0] == '\r' {
        seq!['\n'] + normalize(text.drop_first())
    } else {
        seq![text[0]] + normalize(text.drop_first())
    }
}

/// `text` without the byte-order mark it may begin with.
pub open spec fn strip_bom(text: Seq<char>) -> Seq<char> {
    if text.len() > 0 && text[0] == '\u{FEFF}' {
        text.drop_first()
    } else {
        text
    }
}

/// The bounds of `boundary`, and what stands at it.
pub proof fn lemma_boundary(s: Seq<char>)
    ensures
        0 <= boundary(s) <= s.len(),
        boundary(s) < s.len() ==> boundary(s) + 2 <= s.len() && s[boundary(s)] == '\n' && s[boundary(
            s,
        ) + 1] == '\n',
        forall|j: int|
            0 <= j < boundary(s) && j + 1 < s.len() ==> !(#[trigger] s[j] == '\n' && s[j + 1]
                == '\n'),
    decreases s.len(),
{
    if s.len() >= 2 && !(s[0] == '\n' && s[1] == '\n') {
        let t = s.drop_first();
        lemma_boundary(t);
        assert forall|j: int| 0 <= j < boundary(s) && j + 1 < s.len() implies !(#[trigger] s[j]
            == '\n' && s[j + 1] == '\n') by {
            if j > 0 {
                assert(s[j] == t[j - 1]);
            }
        }
    }
}

/// The bounds of `leading_newlines`, and what stands around it.
pub proof fn lemma_leading_newlines(s: Seq<char>)
    ensures
        0 <= leading_newlines(s) <= s.len(),
        forall|j: int| 0 <= j < leading_newlines(s) ==> s[j] == '\n',
        leading_newlines(s) < s.len() ==> s[leading_newlines(s)] != '\n',
    decreases s.len(),
{
    if s.len() > 0 && s[0] == '\n' {
        let t = s.drop_first();
        lemma_leading_newlines(t);
        assert forall|j: int| 0 <= j < leading_newlines(s) implies s[j] == '\n' by {
            if j > 0 {
                assert(s[j] == t[j - 1]);
            }
        }
    }
}

/// What follows a boundary is shorter than the text the boundary stands in.
pub proof fn lemma_after_boundary_shorter(s: Seq<char>)
    requires
        boundary(s) < s.len(),
    ensures
        after_boundary(s).len() + 2 <= s.len(),
{
    lemma_boundary(s);
    lemma_leading_newlines(s.subrange(boundary(s) + 2, s.len() as int));
}

/// No event of a completed block is empty.
pub proof fn lemma_extracted_events_not_empty(s: Seq<char>)
    ensures
        forall|i: int|
            0 <= i < extracted_events(s).len() ==> !(#[trigger] extracted_events(s)[i]).is_empty(),
    decreases s.len(),
{
    if boundary(s) < s.len() {
        lemma_after_boundary_shorter(s);
        lemma_extracted_events_not_empty(after_boundary(s));
        let later = extracted_events(after_boundary(s));
    }
}

/// True for white space, as Unicode defines it.
pub open spec fn is_white_space(c: char) -> bool {
    ||| '\u{9}' <= c <= '\u{d}'
    ||| c == ' '
    ||| c == '\u{85}'
    ||| c == '\u{a0}'
    ||| c == '\u{1680}'
    ||| '\u{2000}' <= c <= '\u{200a}'
    ||| c == '\u{2028}'
    ||| c == '\u{2029}'
    ||| c == '\u{202f}'
    ||| c == '\u{205f}'
    ||| c == '\u{3000}'
}

/// True for text that holds nothing but white space.
pub open spec fn is_blank(text: Seq<char>) -> bool {
    forall|i: int| 0 <= i < text.len() ==> is_white_space(#[trigger] text[i])
}

/// A line of white space changes no event.
pub proof fn lemma_blank_line(ev: EventModel, line: Seq<char>)
    requires
        is_blank(line),
    ensures
        apply_line(ev, line) == ev,
{
    reveal_strlit("data");
    reveal_strlit("event");
    reveal_strlit("id");
    lemma_index_of(line, ':');
    let field = line_field(line);
    assert(field =~= line);
}

/// Blank text describes no event: where nothing but white space is left
/// when the source ends, nothing is left to deliver.
pub proof fn lemma_blank_text_has_no_event(ev: EventModel, text: Seq<char>)
    requires
        is_blank(text),
    ensures
        apply_lines(ev, text) == ev,
        block_events(text) == Seq::<EventModel>::empty(),
{
    lemma_blank_lines(ev, text);
    lemma_blank_lines(EventModel::empty(), text);
}

/// Lines of white space change no event.
proof fn lemma_blank_lines(ev: EventModel, text: Seq<char>)
    requires
        is_blank(text),
    ensures
        apply_lines(ev, text) == ev,
    decreases text.len(),
{
    if text.len() > 0 {
        lemma_index_of(text, '\n');
        let p = index_of(text, '\n');
        if p < text.len() {
            let line = strip_cr(text.subrange(0, p));
            let rest = text.subrange(p + 1, text.len() as int);
            lemma_blank_line(ev, line);
            lemma_blank_lines(ev, rest);
        } else {
            lemma_blank_line(ev, text);
        }
    }
}

/// A position with `\n\n` before which no `\n\n` begins is the boundary.
pub proof fn lemma_boundary_unique(s: Seq<char>, p: int)
    requires
        0 <= p <= s.len(),
        p < s.len() ==> p + 2 <= s.len() && s[p] == '\n' && s[p + 1] == '\n',
        forall|j: int| 0 <= j < p && j + 1 < s.len() ==> !(#[trigger] s[j] == '\n' && s[j + 1] == '\n'),
    ensures
        boundary(s) == p,
    decreases s.len(),
{
    if s.len() < 2 {
    } else if s[0] == '\n' && s[1] == '\n' {
        if p > 0 {
            assert(!(s[0] == '\n' && s[1] == '\n'));
        }
    } else {
        let t = s.drop_first();
        assert(p > 0);
        assert forall|j: int| 0 <= j < p - 1 && j + 1 < t.len() implies !(#[trigger] t[j] == '\n'
            && t[j + 1] == '\n') by {
            assert(t[j] == s[j + 1]);
            assert(t[j + 1] == s[j + 2]);
            assert(!(s[j + 1] == '\n' && s[j + 2] == '\n'));
        }
        if p < s.len() {
            assert(t[p - 1] == s[p]);
            assert(t[p] == s[p + 1]);
        }
        lemma_boundary_unique(t, p - 1);
    }
}

/// A run of `\n` at the start that ends at `k` has length `k`.
pub proof fn lemma_leading_newlines_unique(s: Seq<char>, k: int)
    requires
        0 <= k <= s.len(),
        forall|j: int| 0 <= j < k ==> s[j] == '\n',
        k < s.len() ==> s[k] != '\n',
    ensures
        leading_newlines(s) == k,
    decreases s.len(),
{
    if s.len() > 0 && s[0] == '\n' {
        let t = s.drop_first();
        assert(k > 0);
        assert forall|j: int| 0 <= j < k - 1 implies t[j] == '\n' by {
            assert(t[j] == s[j + 1]);
        }
        if k < s.len() {
            assert(t[k - 1] == s[k]);
        }
        lemma_leading_newlines_unique(t, k - 1);
    } else if s.len() > 0 {
        if k > 0 {
            assert(s[0] == '\n');
        }
    }
}

} // verus!
