//! The JSON-Lines transcript of one agent conversation: how its entries are
//! read, and bounded windows (tail and head) of its bytes.

use vstd::prelude::*;
use crate::json::{JsonValue, get, get_str, get_field, field_is, parsed_json, parse_json_bytes};
use crate::text::{index_of, lemma_index_of};

verus! {

/// Bytes read from the end of a transcript to classify a session.
pub const TAIL_WINDOW_BYTES: u64 = 262144;

/// Bytes read from the start of a transcript to find its opening prompt.
pub const HEAD_WINDOW_BYTES: u64 = 32768;

/// The `type` of an entry, when it is a string.
pub open spec fn entry_type(e: JsonValue) -> Option<Seq<char>> {
    get_str(e, "type"@)
}

/// An entry of the conversation itself: `type` is `assistant` or `user`.
pub open spec fn is_conversational(e: JsonValue) -> bool {
    entry_type(e) == Some("assistant"@) || entry_type(e) == Some("user"@)
}

/// The message of an entry: its `message` member, or the entry itself when
/// it has none.
pub open spec fn message(e: JsonValue) -> JsonValue {
    match get(e, "message"@) {
        Some(m) => m,
        None => e,
    }
}

/// The `role` of an entry's message.
pub open spec fn role(e: JsonValue) -> Option<Seq<char>> {
    get_str(message(e), "role"@)
}

/// The content items of an entry's message, when `content` is an array.
pub open spec fn content(e: JsonValue) -> Option<Seq<JsonValue>> {
    match get(message(e), "content"@) {
        Some(JsonValue::Array(items)) => Some(items@),
        _ => None,
    }
}

/// True when the entry is conversational.
pub fn check_conversational(e: &JsonValue) -> (r: bool)
    ensures
        r == is_conversational(*e),
{
    field_is(e, "type", "assistant") || field_is(e, "type", "user")
}

/// The message of an entry.
pub fn message_of(e: &JsonValue) -> (r: &JsonValue)
    ensures
        *r == message(*e),
{
    match get_field(e, "message") {
        Some(m) => m,
        None => e,
    }
}

/// True when the role of the entry's message is `expected`.
pub fn has_role(e: &JsonValue, expected: &str) -> (r: bool)
    ensures
        r == (role(*e) == Some(expected@)),
{
    field_is(message_of(e), "role", expected)
}

/// The content items of an entry's message.
pub fn content_of(e: &JsonValue) -> (r: Option<&Vec<JsonValue>>)
    ensures
        match r {
            Some(items) => content(*e) == Some(items@),
            None => content(*e) is None,
        },
{
    match get_field(message_of(e), "content") {
        Some(JsonValue::Array(items)) => Some(items),
        _ => None,
    }
}

/// The lines of `b`: the pieces between newline bytes, without the newlines;
/// text after the last newline is a line when it is not empty.
pub open spec fn lines_of(b: Seq<u8>) -> Seq<Seq<u8>>
    decreases b.len(),
{
    let i = index_of(b, 10u8);
    if i < 0 || i >= b.len() {
        if b.len() == 0 {
            Seq::empty()
        } else {
            seq![b]
        }
    } else {
        seq![b.take(i)] + lines_of(b.skip(i + 1))
    }
}

/// The entries that parse, in order; lines that do not parse are dropped.
pub open spec fn parsed_entries(lines: Seq<Seq<u8>>) -> Seq<JsonValue>
    decreases lines.len(),
{
    if lines.len() == 0 {
        Seq::empty()
    } else {
        match parsed_json(lines[0]) {
            Some(v) => seq![v] + parsed_entries(lines.drop_first()),
            None => parsed_entries(lines.drop_first()),
        }
    }
}

/// What follows the first newline of `b`: a window that starts inside the
/// file drops its first, likely partial, line.
pub open spec fn after_first_line(b: Seq<u8>) -> Seq<u8> {
    let i = index_of(b, 10u8);
    if i >= b.len() {
        Seq::empty()
    } else {
        b.skip(i + 1)
    }
}

/// The entries of a tail window `b`; `from_middle` tells that the window does
/// not start at the beginning of the file.
pub open spec fn tail_window(b: Seq<u8>, from_middle: bool) -> Seq<JsonValue> {
    if from_middle {
        parsed_entries(lines_of(after_first_line(b)))
    } else {
        parsed_entries(lines_of(b))
    }
}

/// The leading lines whose lengths, each counted with one byte for its
/// newline, add up to at most `budget`.
pub open spec fn lines_within(lines: Seq<Seq<u8>>, budget: int) -> Seq<Seq<u8>>
    decreases lines.len(),
{
    if lines.len() == 0 || lines[0].len() + 1 > budget {
        Seq::empty()
    } else {
        seq![lines[0]] + lines_within(lines.drop_first(), budget - lines[0].len() - 1)
    }
}

/// The entries of a head window `b` that lie within its first `max_bytes`.
pub open spec fn head_window(b: Seq<u8>, max_bytes: int) -> Seq<JsonValue> {
    parsed_entries(lines_within(lines_of(b), max_bytes))
}

/// The position of the first newline in `b` at or after `from`, or `b.len()`.
fn next_newline(b: &[u8], from: usize) -> (r: usize)
    requires
        from <= b@.len(),
    ensures
        from <= r <= b@.len(),
        r == from + index_of(b@.skip(from as int), 10u8),
{
    let mut i = from;
    while i < b.len() && b[i] != 10u8
        invariant
            from <= i <= b@.len(),
            forall|j: int| from <= j < i ==> b@[j] != 10u8,
        decreases b@.len() - i,
    {
        i += 1;
    }
    proof {
        let t = b@.skip(from as int);
        assert forall|j: int| 0 <= j < i - from implies t[j] != 10u8 by {
            assert(t[j] == b@[from + j]);
        }
        if i < b@.len() {
            assert(t[i - from] == b@[i as int]);
        }
        lemma_index_of(t, 10u8, i - from);
    }
    i
}

/// Parses the lines of `b[from..]` and appends the entries to `out`.
fn push_entries(b: &[u8], from: usize, out: &mut Vec<JsonValue>)
    requires
        from <= b@.len(),
    ensures
        final(out)@ == old(out)@ + parsed_entries(lines_of(b@.skip(from as int))),
{
    let mut start = from;
    while start < b.len()
        invariant
            from <= start <= b@.len(),
            old(out)@ + parsed_entries(lines_of(b@.skip(from as int))) == out@ + parsed_entries(
                lines_of(b@.skip(start as int)),
            ),
        decreases b@.len() - start,
    {
        let nl = next_newline(b, start);
        let ghost rest = b@.skip(start as int);
        let line = vstd::slice::slice_subrange(b, start, nl);
        assert(line@ =~= rest.take(nl - start));
        let parsed = parse_json_bytes(line);
        proof {
            if nl < b@.len() {
                assert(rest.skip(nl - start + 1) =~= b@.skip(nl + 1));
                assert(lines_of(rest) == seq![line@] + lines_of(b@.skip(nl + 1)));
                assert((seq![line@] + lines_of(b@.skip(nl + 1))).drop_first() =~= lines_of(
                    b@.skip(nl + 1),
                ));
            } else {
                assert(rest.take(nl - start) =~= rest);
                assert(lines_of(rest) == seq![line@]);
                assert(seq![line@].drop_first() =~= Seq::<Seq<u8>>::empty());
                assert(b@.skip(b@.len() as int) =~= Seq::<u8>::empty());
                assert(lines_of(Seq::<u8>::empty()) =~= Seq::<Seq<u8>>::empty());
            }
        }
        match parsed {
            Some(v) => {
                out.push(v);
            },
            None => {},
        }
        if nl < b.len() {
            start = nl + 1;
        } else {
            start = nl;
        }
    }
    assert(b@.skip(start as int) =~= Seq::<u8>::empty());
    assert(lines_of(Seq::<u8>::empty()) =~= Seq::<Seq<u8>>::empty());
}

/// The entries of a tail window: the bytes read from some position of the
/// file to its end. Lines that do not parse (blank, cut, or written while
/// being read) are dropped; the order is kept.
pub fn tail_entries(b: &[u8], from_middle: bool) -> (r: Vec<JsonValue>)
    ensures
        r@ == tail_window(b@, from_middle),
{
    let mut out: Vec<JsonValue> = Vec::new();
    if from_middle {
        let nl = next_newline(b, 0);
        assert(b@.skip(0) =~= b@);
        if nl < b.len() {
            push_entries(b, nl + 1, &mut out);
        } else {
            assert(lines_of(Seq::<u8>::empty()) =~= Seq::<Seq<u8>>::empty());
        }
    } else {
        push_entries(b, 0, &mut out);
        assert(b@.skip(0) =~= b@);
    }
    assert(out@ =~= tail_window(b@, from_middle));
    out
}

/// The entries of a head window: the lines read from the start of the file
/// until their lengths, each with its newline, pass `max_bytes`.
pub fn head_entries(b: &[u8], max_bytes: u64) -> (r: Vec<JsonValue>)
    ensures
        r@ == head_window(b@, max_bytes as int),
{
    let mut out: Vec<JsonValue> = Vec::new();
    let mut start: usize = 0;
    let mut used: u64 = 0;
    assert(b@.skip(0) =~= b@);
    loop
        invariant
            start <= b@.len(),
            used <= max_bytes,
            head_window(b@, max_bytes as int) == out@ + parsed_entries(
                lines_within(lines_of(b@.skip(start as int)), max_bytes - used),
            ),
        ensures
            out@ == head_window(b@, max_bytes as int),
        decreases b@.len() - start,
    {
        if start >= b.len() {
            assert(b@.skip(start as int) =~= Seq::<u8>::empty());
            assert(lines_of(Seq::<u8>::empty()) =~= Seq::<Seq<u8>>::empty());
            assert(out@ =~= head_window(b@, max_bytes as int));
            break ;
        }
        let nl = next_newline(b, start);
        let ghost rest = b@.skip(start as int);
        let len = (nl - start) as u64;
        let line = vstd::slice::slice_subrange(b, start, nl);
        assert(line@ =~= rest.take(nl - start));
        let ghost later = if nl < b@.len() {
            b@.skip(nl + 1)
        } else {
            Seq::<u8>::empty()
        };
        proof {
            if nl < b@.len() {
                assert(rest.skip(nl - start + 1) =~= b@.skip(nl + 1));
                assert(lines_of(rest) == seq![line@] + lines_of(later));
            } else {
                assert(rest.take(nl - start) =~= rest);
                assert(lines_of(Seq::<u8>::empty()) =~= Seq::<Seq<u8>>::empty());
                assert(lines_of(rest) =~= seq![line@] + lines_of(later));
            }
            assert((seq![line@] + lines_of(later)).drop_first() =~= lines_of(later));
            assert((seq![line@] + lines_of(later))[0] == line@);
        }
        if len >= max_bytes - used {
            assert(lines_within(lines_of(rest), max_bytes - used) =~= Seq::<Seq<u8>>::empty());
            assert(out@ =~= head_window(b@, max_bytes as int));
            break ;
        }
        let ghost w = lines_within(lines_of(later), max_bytes - used - len - 1);
        assert(lines_within(lines_of(rest), max_bytes - used) == seq![line@] + w);
        assert((seq![line@] + w).drop_first() =~= w);
        match parse_json_bytes(line) {
            Some(v) => {
                out.push(v);
            },
            None => {},
        }
        used = used + len + 1;
        if nl < b.len() {
            start = nl + 1;
        } else {
            start = nl;
            assert(b@.skip(start as int) =~= Seq::<u8>::empty());
        }
    }
    out
}

} // verus!
