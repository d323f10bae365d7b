//! What the wire format writes, the parser reads back.

use vstd::prelude::*;

use crate::chars::decimal_digits;
use crate::sse::event::EventModel;
use crate::sse::text::{
    after_boundary, all_digits, apply_line, apply_lines, decimal_value, extracted_events,
    extracted_rest, index_of, is_comment, is_digit, lemma_boundary_unique, lemma_index_of,
    lemma_index_of_unique, line_field, line_value, parse_block, parse_retry,
};
use crate::sse::parser::{delivered, later_output, stream_output, ParserModel, SourceItemModel};
use crate::sse::text::normalize;
use crate::sse::wire::{data_lines, field_line, optional_line, retry_line, wire_format};
use crate::utf8::lemma_valid_prefix_of_valid;
use vstd::utf8::{encode_utf8, encode_utf8_decode_utf8, encode_utf8_valid_utf8};

verus! {

/// True when `s` holds `c` nowhere.
pub open spec fn lacks(s: Seq<char>, c: char) -> bool {
    forall|i: int| 0 <= i < s.len() ==> #[trigger] s[i] != c
}

/// Text without `c`, then `c`: the first `c` stands right after the text.
pub proof fn lemma_index_of_after(a: Seq<char>, c: char, rest: Seq<char>)
    requires
        lacks(a, c),
    ensures
        index_of(a + seq![c] + rest, c) == a.len(),
        index_of(a, c) == a.len(),
{
    let s = a + seq![c] + rest;
    lemma_index_of_unique(s, c, a.len() as int);
    lemma_index_of_unique(a, c, a.len() as int);
}

/// A line made of a name, `: ` and a value has that name as its field and
/// that value as its value.
pub proof fn lemma_line_parts(name: Seq<char>, value: Seq<char>)
    requires
        name.len() > 0,
        lacks(name, ':'),
    ensures
        line_field(name + ": "@ + value) == name,
        line_value(name + ": "@ + value) == value,
        !is_comment(name + ": "@ + value),
{
    reveal_strlit(": ");
    let line = name + ": "@ + value;
    assert(line =~= name + seq![':'] + (seq![' '] + value));
    lemma_index_of_after(name, ':', seq![' '] + value);
    let v = line.subrange(name.len() as int + 1, line.len() as int);
    assert(v =~= seq![' '] + value);
}

/// A line that `\n` ends is applied, and then the lines after it.
pub proof fn lemma_apply_ended_line(ev: EventModel, line: Seq<char>, rest: Seq<char>)
    requires
        lacks(line, '\n'),
        lacks(line, '\r'),
    ensures
        apply_lines(ev, line + "\n"@ + rest) == apply_lines(apply_line(ev, line), rest),
{
    reveal_strlit("\n");
    let text = line + "\n"@ + rest;
    assert(text =~= line + seq!['\n'] + rest);
    lemma_index_of_after(line, '\n', rest);
    assert(text.subrange(0, line.len() as int) =~= line);
    assert(text.subrange(line.len() as int + 1, text.len() as int) =~= rest);
}

/// A last line that no `\n` ends is applied as it is.
pub proof fn lemma_apply_open_line(ev: EventModel, line: Seq<char>)
    requires
        lacks(line, '\n'),
        line.len() > 0,
    ensures
        apply_lines(ev, line) == apply_line(ev, line),
{
    lemma_index_of_after(line, '\n', Seq::empty());
}

/// The decimal digits of a number are digits, at least one, and denote the
/// number.
pub proof fn lemma_decimal_digits(n: nat)
    ensures
        decimal_digits(n).len() > 0,
        all_digits(decimal_digits(n)),
        decimal_value(decimal_digits(n)) == n,
    decreases n,
{
    let d = decimal_digits(n);
    if n < 10 {
        assert(decimal_value(d.drop_last()) == 0);
    } else {
        lemma_decimal_digits(n / 10);
        let front = decimal_digits(n / 10);
        assert(d.drop_last() =~= front);
    }
}

/// A `retry` value written in decimal digits is read back as it was.
pub proof fn lemma_retry_round_trip(ms: u64)
    ensures
        parse_retry(decimal_digits(ms as nat)) == Some(ms),
        lacks(decimal_digits(ms as nat), '\n'),
        lacks(decimal_digits(ms as nat), '\r'),
{
    lemma_decimal_digits(ms as nat);
    let d = decimal_digits(ms as nat);
    assert(is_digit(d[0]));
    assert forall|i: int| 0 <= i < d.len() implies #[trigger] d[i] != '\n' && d[i] != '\r' by {
        assert(is_digit(d[i]));
    }
}

/// An event that the wire format can carry: it is not empty, `id` and
/// `event` are single lines, the `id` holds no NUL, nothing holds a `\r`,
/// and the data does not begin with an empty line.
pub open spec fn is_portable(e: EventModel) -> bool {
    &&& !e.is_empty()
    &&& (e.id matches Some(id) ==> lacks(id, '\n') && lacks(id, '\r') && lacks(id, '\0'))
    &&& (e.event matches Some(tag) ==> lacks(tag, '\n') && lacks(tag, '\r'))
    &&& lacks(e.data, '\r')
    &&& (e.data.len() > 0 ==> e.data[0] != '\n')
}

/// The four field names are different words of letters.
pub proof fn lemma_field_names()
    ensures
        "id"@ =~= seq!['i', 'd'],
        "data"@ =~= seq!['d', 'a', 't', 'a'],
        "event"@ =~= seq!['e', 'v', 'e', 'n', 't'],
        "retry"@ =~= seq!['r', 'e', 't', 'r', 'y'],
        ": "@ =~= seq![':', ' '],
        "\n"@ =~= seq!['\n'],
{
    reveal_strlit("id");
    reveal_strlit("data");
    reveal_strlit("event");
    reveal_strlit("retry");
    reveal_strlit(": ");
    reveal_strlit("\n");
}

/// True for the names of the four fields.
pub open spec fn is_field_name(name: Seq<char>) -> bool {
    name == "id"@ || name == "data"@ || name == "event"@ || name == "retry"@
}

/// A field name holds no `:`, no `\n` and no `\r`, and is not empty.
pub proof fn lemma_field_name_is_plain(name: Seq<char>)
    requires
        is_field_name(name),
    ensures
        name.len() > 0,
        lacks(name, ':'),
        lacks(name, '\n'),
        lacks(name, '\r'),
        name[0] != '\n',
        name[0] != '\u{FEFF}',
{
    lemma_field_names();
}

/// A line made of a field name, `: ` and a value without line endings is
/// one line.
pub proof fn lemma_field_line_is_one_line(name: Seq<char>, value: Seq<char>)
    requires
        is_field_name(name),
        lacks(value, '\n'),
        lacks(value, '\r'),
    ensures
        lacks(name + ": "@ + value, '\n'),
        lacks(name + ": "@ + value, '\r'),
        (name + ": "@ + value).len() > 0,
        field_line(name, value) == name + ": "@ + value + "\n"@,
{
    lemma_field_names();
    lemma_field_name_is_plain(name);
    let line = name + ": "@ + value;
    assert forall|i: int| 0 <= i < line.len() implies #[trigger] line[i] != '\n' && line[i]
        != '\r' by {
        if i < name.len() {
            assert(line[i] == name[i]);
        } else if i < name.len() + 2 {
            assert(line[i] == ": "@[i - name.len()]);
        } else {
            assert(line[i] == value[i - name.len() - 2]);
        }
    }
}

/// What the data of an event is after one more line of data.
pub open spec fn joined(before: Seq<char>, data: Seq<char>) -> Seq<char> {
    if before.len() > 0 {
        before.push('\n') + data
    } else {
        data
    }
}

/// A `data` line adds its value to the data of the event.
pub proof fn lemma_data_line_applied(ev: EventModel, value: Seq<char>)
    ensures
        apply_line(ev, "data"@ + ": "@ + value) == (EventModel {
            data: joined(ev.data, value),
            ..ev
        }),
{
    lemma_field_names();
    lemma_line_parts("data"@, value);
}

/// An `id` line without NUL sets the id of the event.
pub proof fn lemma_id_line_applied(ev: EventModel, value: Seq<char>)
    requires
        lacks(value, '\0'),
    ensures
        apply_line(ev, "id"@ + ": "@ + value) == (EventModel { id: Some(value), ..ev }),
{
    lemma_field_names();
    lemma_field_name_is_plain("id"@);
    lemma_line_parts("id"@, value);
}

/// An `event` line sets the type of the event.
pub proof fn lemma_event_line_applied(ev: EventModel, value: Seq<char>)
    ensures
        apply_line(ev, "event"@ + ": "@ + value) == (EventModel { event: Some(value), ..ev }),
{
    lemma_field_names();
    lemma_field_name_is_plain("event"@);
    lemma_line_parts("event"@, value);
}

/// A `retry` line in decimal digits sets the retry time of the event.
pub proof fn lemma_retry_line_applied(ev: EventModel, ms: u64)
    ensures
        apply_line(ev, "retry"@ + ": "@ + decimal_digits(ms as nat)) == (EventModel {
            retry: Some(ms),
            ..ev
        }),
{
    lemma_field_names();
    lemma_field_name_is_plain("retry"@);
    lemma_line_parts("retry"@, decimal_digits(ms as nat));
    lemma_retry_round_trip(ms);
}

/// True for lines one after the other, each ended by `\n` and none empty.
pub open spec fn well_lined(t: Seq<char>) -> bool {
    &&& t.len() > 0
    &&& t[0] != '\n'
    &&& t.last() == '\n'
    &&& forall|j: int| 0 <= j < t.len() - 1 ==> !(#[trigger] t[j] == '\n' && t[j + 1] == '\n')
}

/// A field line is one line that is not empty.
pub proof fn lemma_field_line_well_lined(name: Seq<char>, value: Seq<char>)
    requires
        is_field_name(name),
        lacks(value, '\n'),
        lacks(value, '\r'),
    ensures
        well_lined(field_line(name, value)),
        lacks(field_line(name, value), '\r'),
        field_line(name, value)[0] == name[0],
{
    lemma_field_names();
    lemma_field_name_is_plain(name);
    lemma_field_line_is_one_line(name, value);
    let line = name + ": "@ + value;
    let t = field_line(name, value);
    assert(t =~= line + seq!['\n']);
    assert(t[0] == name[0]);
    assert forall|j: int| 0 <= j < t.len() - 1 implies !(#[trigger] t[j] == '\n' && t[j + 1]
        == '\n') by {
        assert(t[j] == line[j]);
    }
    assert forall|i: int| 0 <= i < t.len() implies #[trigger] t[i] != '\r' by {
        if i < line.len() {
            assert(t[i] == line[i]);
        }
    }
}

/// Lines after lines are lines.
pub proof fn lemma_well_lined_concat(a: Seq<char>, b: Seq<char>)
    requires
        a.len() == 0 || well_lined(a),
        well_lined(b),
    ensures
        well_lined(a + b),
{
    let t = a + b;
    if a.len() == 0 {
        assert(t =~= b);
    } else {
        assert(t[0] == a[0]);
        assert(t.last() == b.last());
        assert forall|j: int| 0 <= j < t.len() - 1 implies !(#[trigger] t[j] == '\n' && t[j + 1]
            == '\n') by {
            if j + 1 < a.len() {
                assert(t[j] == a[j] && t[j + 1] == a[j + 1]);
            } else if j + 1 == a.len() {
                assert(t[j + 1] == b[0]);
            } else {
                assert(t[j] == b[j - a.len()] && t[j + 1] == b[j + 1 - a.len()]);
            }
        }
    }
}

/// Text without `c` after text without `c` is text without `c`.
pub proof fn lemma_lacks_concat(a: Seq<char>, b: Seq<char>, c: char)
    requires
        lacks(a, c),
        lacks(b, c),
    ensures
        lacks(a + b, c),
{
    assert forall|i: int| 0 <= i < (a + b).len() implies #[trigger] (a + b)[i] != c by {
        if i < a.len() {
            assert((a + b)[i] == a[i]);
        } else {
            assert((a + b)[i] == b[i - a.len()]);
        }
    }
}

/// The `data` lines of data without `\r` are lines, and hold no `\r`.
pub proof fn lemma_data_lines_well_lined(data: Seq<char>)
    requires
        lacks(data, '\r'),
    ensures
        well_lined(data_lines(data)),
        lacks(data_lines(data), '\r'),
        data_lines(data)[0] == 'd',
    decreases data.len(),
{
    lemma_field_names();
    lemma_index_of(data, '\n');
    let p = index_of(data, '\n');
    if p < data.len() {
        let first = data.subrange(0, p);
        let rest = data.subrange(p + 1, data.len() as int);
        assert(lacks(first, '\n')) by {
            assert forall|i: int| 0 <= i < first.len() implies #[trigger] first[i] != '\n' by {
                assert(first[i] == data[i]);
            }
        }
        assert(lacks(first, '\r')) by {
            assert forall|i: int| 0 <= i < first.len() implies #[trigger] first[i] != '\r' by {
                assert(first[i] == data[i]);
            }
        }
        assert(lacks(rest, '\r')) by {
            assert forall|i: int| 0 <= i < rest.len() implies #[trigger] rest[i] != '\r' by {
                assert(rest[i] == data[p + 1 + i]);
            }
        }
        lemma_field_line_well_lined("data"@, first);
        lemma_data_lines_well_lined(rest);
        lemma_well_lined_concat(field_line("data"@, first), data_lines(rest));
        lemma_lacks_concat(field_line("data"@, first), data_lines(rest), '\r');
        assert(data_lines(data)[0] == field_line("data"@, first)[0]);
    } else {
        assert(lacks(data, '\n')) by {
            assert forall|i: int| 0 <= i < data.len() implies #[trigger] data[i] != '\n' by {
                if data[i] == '\n' {
                    assert(false);
                }
            }
        }
        lemma_field_line_well_lined("data"@, data);
    }
}

/// The `data` lines of an event, applied but for the `\n` that ends the
/// last of them, add the data to the event.
pub proof fn lemma_data_lines_applied(ev: EventModel, data: Seq<char>)
    requires
        lacks(data, '\r'),
        ev.data.len() > 0 || data.len() == 0 || data[0] != '\n',
    ensures
        apply_lines(ev, data_lines(data).drop_last()) == (EventModel {
            data: joined(ev.data, data),
            ..ev
        }),
    decreases data.len(),
{
    lemma_field_names();
    lemma_index_of(data, '\n');
    let p = index_of(data, '\n');
    if p < data.len() {
        let first = data.subrange(0, p);
        let rest = data.subrange(p + 1, data.len() as int);
        assert(lacks(first, '\n')) by {
            assert forall|i: int| 0 <= i < first.len() implies #[trigger] first[i] != '\n' by {
                assert(first[i] == data[i]);
            }
        }
        assert(lacks(first, '\r')) by {
            assert forall|i: int| 0 <= i < first.len() implies #[trigger] first[i] != '\r' by {
                assert(first[i] == data[i]);
            }
        }
        assert(lacks(rest, '\r')) by {
            assert forall|i: int| 0 <= i < rest.len() implies #[trigger] rest[i] != '\r' by {
                assert(rest[i] == data[p + 1 + i]);
            }
        }
        let line = "data"@ + ": "@ + first;
        let later = data_lines(rest);
        lemma_field_line_is_one_line("data"@, first);
        lemma_data_lines_well_lined(rest);
        assert(data_lines(data).drop_last() =~= line + "\n"@ + later.drop_last());
        lemma_apply_ended_line(ev, line, later.drop_last());
        lemma_data_line_applied(ev, first);
        let next = EventModel { data: joined(ev.data, first), ..ev };
        if ev.data.len() == 0 && first.len() == 0 {
            assert(data[0] == '\n');
        }
        assert(next.data.len() > 0);
        lemma_data_lines_applied(next, rest);
        assert(data =~= first.push('\n') + rest);
        assert(joined(next.data, rest) =~= joined(ev.data, data));
    } else {
        assert(lacks(data, '\n')) by {
            assert forall|i: int| 0 <= i < data.len() implies #[trigger] data[i] != '\n' by {
                if data[i] == '\n' {
                    assert(false);
                }
            }
        }
        let line = "data"@ + ": "@ + data;
        lemma_field_line_is_one_line("data"@, data);
        assert(data_lines(data).drop_last() =~= line);
        lemma_apply_open_line(ev, line);
        lemma_data_line_applied(ev, data);
    }
}

/// The lines of a portable event on the wire, before the blank line that
/// ends it, are lines without `\r`, and they begin with a letter.
pub proof fn lemma_wire_lines(e: EventModel)
    requires
        is_portable(e),
    ensures
        well_lined(wire_format(e).drop_last()),
        lacks(wire_format(e), '\r'),
        wire_format(e).len() >= 2,
        wire_format(e).last() == '\n',
        wire_format(e)[0] != '\u{FEFF}',
{
    lemma_field_names();
    let id_line = optional_line("id"@, e.id);
    let event_line = optional_line("event"@, e.event);
    let retry = retry_line(e.retry);
    let data = data_lines(e.data);
    lemma_data_lines_well_lined(e.data);
    let mut lines = data;
    if e.retry is Some {
        lemma_retry_round_trip(e.retry->0);
        lemma_field_line_well_lined("retry"@, decimal_digits(e.retry->0 as nat));
        lemma_well_lined_concat(retry, lines);
    }
    lines = retry + lines;
    if e.event is Some {
        lemma_field_line_well_lined("event"@, e.event->0);
        lemma_well_lined_concat(event_line, lines);
        lemma_lacks_concat(event_line, lines, '\r');
    }
    lines = event_line + lines;
    if e.id is Some {
        lemma_field_line_well_lined("id"@, e.id->0);
        lemma_well_lined_concat(id_line, lines);
        lemma_lacks_concat(id_line, lines, '\r');
        assert((id_line + lines)[0] == 'i');
    }
    lines = id_line + lines;
    let wire = wire_format(e);
    assert(wire[0] == lines[0]);
    assert(lacks(seq!['\n'], '\r'));
}

/// The lines of a portable event on the wire, read as one block, describe
/// the event.
pub proof fn lemma_wire_block_read_back(e: EventModel)
    requires
        is_portable(e),
    ensures
        parse_block(wire_format(e).drop_last().drop_last()) == e,
{
    lemma_field_names();
    let id_line = optional_line("id"@, e.id);
    let event_line = optional_line("event"@, e.event);
    let retry = retry_line(e.retry);
    let data = data_lines(e.data).drop_last();
    let after_retry = data;
    let after_event = retry + after_retry;
    let after_id = event_line + after_event;
    let block = id_line + after_id;
    assert(wire_format(e).drop_last().drop_last() =~= block);
    let ev0 = EventModel::empty();
    let ev1 = EventModel { id: e.id, ..ev0 };
    let ev2 = EventModel { event: e.event, ..ev1 };
    let ev3 = EventModel { retry: e.retry, ..ev2 };
    assert(apply_lines(ev0, block) == apply_lines(ev1, after_id)) by {
        if e.id is Some {
            let value = e.id->0;
            lemma_apply_ended_line(ev0, "id"@ + ": "@ + value, after_id);
            lemma_id_line_applied(ev0, value);
        }
    }
    assert(apply_lines(ev1, after_id) == apply_lines(ev2, after_event)) by {
        if e.event is Some {
            let value = e.event->0;
            lemma_apply_ended_line(ev1, "event"@ + ": "@ + value, after_event);
            lemma_event_line_applied(ev1, value);
        }
    }
    assert(apply_lines(ev2, after_event) == apply_lines(ev3, after_retry)) by {
        if e.retry is Some {
            let ms = e.retry->0;
            let value = decimal_digits(ms as nat);
            lemma_retry_round_trip(ms);
            lemma_apply_ended_line(ev2, "retry"@ + ": "@ + value, after_retry);
            lemma_retry_line_applied(ev2, ms);
        }
    }
    lemma_data_lines_applied(ev3, e.data);
}

/// A portable event on the wire is one completed block: extraction gives
/// the event and leaves nothing.
pub proof fn lemma_wire_format_read_back(e: EventModel)
    requires
        is_portable(e),
    ensures
        extracted_events(wire_format(e)) == seq![e],
        extracted_rest(wire_format(e)) == Seq::<char>::empty(),
{
    let wire = wire_format(e);
    lemma_wire_lines(e);
    lemma_wire_block_read_back(e);
    let lines = wire.drop_last();
    let p = lines.len() - 1;
    assert forall|j: int| 0 <= j < p && j + 1 < wire.len() implies !(#[trigger] wire[j] == '\n'
        && wire[j + 1] == '\n') by {
        assert(wire[j] == lines[j] && wire[j + 1] == lines[j + 1]);
    }
    lemma_boundary_unique(wire, p);
    let block = wire.subrange(0, p);
    assert(block =~= lines.drop_last());
    assert(after_boundary(wire) == Seq::<char>::empty());
    assert(extracted_events(Seq::<char>::empty()) == Seq::<EventModel>::empty());
    assert(extracted_rest(Seq::<char>::empty()) == Seq::<char>::empty());
}

/// Text without `\r` has its line endings normalized already.
pub proof fn lemma_normalize_plain(text: Seq<char>)
    requires
        lacks(text, '\r'),
    ensures
        normalize(text) == text,
    decreases text.len(),
{
    if text.len() > 0 {
        let rest = text.drop_first();
        lemma_normalize_plain(rest);
    }
}

/// What the wire format writes, the parser reads back: a consumer of the
/// bytes of a portable event in wire format receives that event, and
/// nothing else.
pub proof fn lemma_wire_round_trip(e: EventModel)
    requires
        is_portable(e),
    ensures
        stream_output(ParserModel::initial(), seq![Ok(encode_utf8(wire_format(e)))]) == seq![
            Ok::<EventModel, crate::error::StreamingErrorModel>(e),
        ],
{
    let wire = wire_format(e);
    let bytes = encode_utf8(wire);
    let m = ParserModel::initial();
    let items: Seq<SourceItemModel> = seq![Ok(bytes)];
    lemma_wire_lines(e);
    lemma_wire_format_read_back(e);
    lemma_normalize_plain(wire);
    encode_utf8_valid_utf8(wire);
    encode_utf8_decode_utf8(wire);
    lemma_valid_prefix_of_valid(bytes);
    assert(bytes.subrange(0, bytes.len() as int) =~= bytes);
    let next = m.feed(bytes);
    assert(later_output(m, items) == delivered(m.fresh_events(bytes)) + later_output(
        next,
        items.drop_first(),
    ));
}

} // verus!
