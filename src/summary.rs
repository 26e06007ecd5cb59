//! Display extracts of a transcript, and the session summary that joins
//! them with the attention status.

use vstd::prelude::*;
use crate::attention::{
    AttentionStatus, session_attention, lines_view, text_view, coarse_of,
    compute_attention,
};
use crate::json::{JsonValue, get_str, get_string, field_is};
use crate::text::{trim, trimmed, take_chars, truncate_chars};
use crate::transcript::{entry_type, role, content, has_role, content_of};

verus! {

/// Characters kept of a prompt or a reply shown in a summary.
pub const PREVIEW_CHARS: usize = 200;

/// What a session is doing, for display.
#[derive(Debug)]
pub struct SessionSummary {
    pub summary: Option<String>,
    pub initial_prompt: Option<String>,
    pub attention: AttentionStatus,
    pub last_tool: Option<String>,
    pub last_text: Option<String>,
}

/// The `summary` text of the latest `summary` entry that has one.
pub open spec fn latest_summary(lines: Seq<JsonValue>) -> Option<Seq<char>>
    decreases lines.len(),
{
    if lines.len() == 0 {
        None
    } else if entry_type(lines.last()) == Some("summary"@) && get_str(
        lines.last(),
        "summary"@,
    ) is Some {
        get_str(lines.last(), "summary"@)
    } else {
        latest_summary(lines.drop_last())
    }
}

/// The `text` of a content item, or nothing when it has none.
pub open spec fn text_or_empty(item: JsonValue) -> Seq<char> {
    match get_str(item, "text"@) {
        Some(t) => t,
        None => Seq::empty(),
    }
}

/// The trimmed text of the first `text` item whose trimmed text is not empty.
pub open spec fn first_text(items: Seq<JsonValue>) -> Option<Seq<char>>
    decreases items.len(),
{
    if items.len() == 0 {
        None
    } else if get_str(items[0], "type"@) == Some("text"@) && trimmed(text_or_empty(items[0])).len()
        > 0 {
        Some(trimmed(text_or_empty(items[0])))
    } else {
        first_text(items.drop_first())
    }
}

/// The text that an entry of the given role shows, when it has one.
pub open spec fn entry_text(e: JsonValue, who: Seq<char>) -> Option<Seq<char>> {
    if role(e) == Some(who) && content(e) is Some {
        first_text(content(e)->0)
    } else {
        None
    }
}

/// The opening prompt: the text of the first user entry that has one, cut to
/// `PREVIEW_CHARS` characters.
pub open spec fn opening_prompt(lines: Seq<JsonValue>) -> Option<Seq<char>>
    decreases lines.len(),
{
    if lines.len() == 0 {
        None
    } else if entry_text(lines[0], "user"@) is Some {
        Some(take_chars(entry_text(lines[0], "user"@)->0, PREVIEW_CHARS as nat))
    } else {
        opening_prompt(lines.drop_first())
    }
}

/// The latest reply: the text of the last assistant entry that has one, cut
/// to `PREVIEW_CHARS` characters.
pub open spec fn latest_text(lines: Seq<JsonValue>) -> Option<Seq<char>>
    decreases lines.len(),
{
    if lines.len() == 0 {
        None
    } else if entry_text(lines.last(), "assistant"@) is Some {
        Some(take_chars(entry_text(lines.last(), "assistant"@)->0, PREVIEW_CHARS as nat))
    } else {
        latest_text(lines.drop_last())
    }
}

/// The first `tool_use` item.
pub open spec fn first_tool_use(items: Seq<JsonValue>) -> Option<JsonValue>
    decreases items.len(),
{
    if items.len() == 0 {
        None
    } else if get_str(items[0], "type"@) == Some("tool_use"@) {
        Some(items[0])
    } else {
        first_tool_use(items.drop_first())
    }
}

/// The tool call of an assistant entry: its first `tool_use` item.
pub open spec fn entry_tool_call(e: JsonValue) -> Option<JsonValue> {
    if role(e) == Some("assistant"@) && content(e) is Some {
        first_tool_use(content(e)->0)
    } else {
        None
    }
}

/// The latest tool call: that of the last assistant entry that has one.
pub open spec fn latest_tool_call(lines: Seq<JsonValue>) -> Option<JsonValue>
    decreases lines.len(),
{
    if lines.len() == 0 {
        None
    } else if entry_tool_call(lines.last()) is Some {
        entry_tool_call(lines.last())
    } else {
        latest_tool_call(lines.drop_last())
    }
}

/// The name of the latest tool call (`None` also when that call has no name).
pub open spec fn latest_tool(lines: Seq<JsonValue>) -> Option<Seq<char>> {
    match latest_tool_call(lines) {
        Some(item) => get_str(item, "name"@),
        None => None,
    }
}

/// The view of an optional string.
pub open spec fn string_view(s: Option<String>) -> Option<Seq<char>> {
    match s {
        Some(t) => Some(t@),
        None => None,
    }
}

/// The summary text of the latest `summary` entry that has one.
pub fn extract_summary(lines: &[JsonValue]) -> (r: Option<String>)
    ensures
        string_view(r) == latest_summary(lines@),
{
    let mut i: usize = lines.len();
    assert(lines@.take(i as int) =~= lines@);
    while i > 0
        invariant
            i <= lines@.len(),
            latest_summary(lines@.take(i as int)) == latest_summary(lines@),
        decreases i,
    {
        assert(lines@.take(i as int).last() == lines@[i - 1]);
        assert(lines@.take(i as int).drop_last() =~= lines@.take(i - 1));
        if field_is(&lines[i - 1], "type", "summary") {
            match get_string(&lines[i - 1], "summary") {
                Some(s) => {
                    return Some(s.clone());
                },
                None => {},
            }
        }
        i -= 1;
    }
    None
}

/// The trimmed text of the first `text` item whose trimmed text is not empty.
fn first_text_of(items: &Vec<JsonValue>) -> (r: Option<&str>)
    ensures
        text_view(r) == first_text(items@),
{
    let mut j: usize = 0;
    assert(items@.skip(0) =~= items@);
    while j < items.len()
        invariant
            j <= items@.len(),
            first_text(items@.skip(j as int)) == first_text(items@),
        decreases items@.len() - j,
    {
        assert(items@.skip(j as int)[0] == items@[j as int]);
        assert(items@.skip(j as int).drop_first() =~= items@.skip(j + 1));
        if field_is(&items[j], "type", "text") {
            let text: &str = match get_string(&items[j], "text") {
                Some(t) => t.as_str(),
                None => "",
            };
            proof {
                reveal_strlit("");
            }
            assert(text@ == text_or_empty(items@[j as int]));
            let t = trim(text);
            if t.unicode_len() > 0 {
                return Some(t);
            }
        }
        j += 1;
    }
    assert(items@.skip(j as int) =~= Seq::<JsonValue>::empty());
    None
}

/// The text that an entry of the role `who` shows, when it has one.
fn entry_text_of<'a>(e: &'a JsonValue, who: &str) -> (r: Option<&'a str>)
    ensures
        text_view(r) == entry_text(*e, who@),
{
    if has_role(e, who) {
        match content_of(e) {
            Some(items) => first_text_of(items),
            None => None,
        }
    } else {
        None
    }
}

/// The opening prompt of a head window, cut to `PREVIEW_CHARS` characters.
pub fn extract_initial_prompt(lines: &[JsonValue]) -> (r: Option<String>)
    ensures
        string_view(r) == opening_prompt(lines@),
{
    let mut i: usize = 0;
    assert(lines@.skip(0) =~= lines@);
    while i < lines.len()
        invariant
            i <= lines@.len(),
            opening_prompt(lines@.skip(i as int)) == opening_prompt(lines@),
        decreases lines@.len() - i,
    {
        assert(lines@.skip(i as int)[0] == lines@[i as int]);
        assert(lines@.skip(i as int).drop_first() =~= lines@.skip(i + 1));
        match entry_text_of(&lines[i], "user") {
            Some(t) => {
                return Some(truncate_chars(t, PREVIEW_CHARS));
            },
            None => {},
        }
        i += 1;
    }
    assert(lines@.skip(i as int) =~= Seq::<JsonValue>::empty());
    None
}

/// The latest reply of a tail window, cut to `PREVIEW_CHARS` characters.
pub fn extract_last_text(lines: &[JsonValue]) -> (r: Option<String>)
    ensures
        string_view(r) == latest_text(lines@),
{
    let mut i: usize = lines.len();
    assert(lines@.take(i as int) =~= lines@);
    while i > 0
        invariant
            i <= lines@.len(),
            latest_text(lines@.take(i as int)) == latest_text(lines@),
        decreases i,
    {
        assert(lines@.take(i as int).last() == lines@[i - 1]);
        assert(lines@.take(i as int).drop_last() =~= lines@.take(i - 1));
        match entry_text_of(&lines[i - 1], "assistant") {
            Some(t) => {
                return Some(truncate_chars(t, PREVIEW_CHARS));
            },
            None => {},
        }
        i -= 1;
    }
    None
}

/// The first `tool_use` item.
fn first_tool_use_of(items: &Vec<JsonValue>) -> (r: Option<&JsonValue>)
    ensures
        match r {
            Some(item) => first_tool_use(items@) == Some(*item),
            None => first_tool_use(items@) is None,
        },
{
    let mut j: usize = 0;
    assert(items@.skip(0) =~= items@);
    while j < items.len()
        invariant
            j <= items@.len(),
            first_tool_use(items@.skip(j as int)) == first_tool_use(items@),
        decreases items@.len() - j,
    {
        assert(items@.skip(j as int)[0] == items@[j as int]);
        assert(items@.skip(j as int).drop_first() =~= items@.skip(j + 1));
        if field_is(&items[j], "type", "tool_use") {
            return Some(&items[j]);
        }
        j += 1;
    }
    assert(items@.skip(j as int) =~= Seq::<JsonValue>::empty());
    None
}

/// The name of the latest tool call of a tail window.
pub fn extract_last_tool(lines: &[JsonValue]) -> (r: Option<String>)
    ensures
        string_view(r) == latest_tool(lines@),
{
    let mut i: usize = lines.len();
    assert(lines@.take(i as int) =~= lines@);
    while i > 0
        invariant
            i <= lines@.len(),
            latest_tool_call(lines@.take(i as int)) == latest_tool_call(lines@),
        decreases i,
    {
        assert(lines@.take(i as int).last() == lines@[i - 1]);
        assert(lines@.take(i as int).drop_last() =~= lines@.take(i - 1));
        let e = &lines[i - 1];
        if has_role(e, "assistant") {
            match content_of(e) {
                Some(items) => match first_tool_use_of(items) {
                    Some(item) => {
                        return match get_string(item, "name") {
                            Some(name) => Some(name.clone()),
                            None => None,
                        };
                    },
                    None => {},
                },
                None => {},
            }
        }
        i -= 1;
    }
    None
}

/// A reply shown in a summary is the first `PREVIEW_CHARS` characters of
/// the text of one of the assistant entries: exactly that many when the text
/// is at least that long, all of it otherwise.
pub proof fn lemma_latest_text_is_a_preview(lines: Seq<JsonValue>)
    ensures
        latest_text(lines) is Some ==> exists|i: int|
            0 <= i < lines.len() && entry_text(#[trigger] lines[i], "assistant"@) is Some
                && latest_text(lines)->0 == take_chars(entry_text(lines[i], "assistant"@)->0, PREVIEW_CHARS as nat)
                && latest_text(lines)->0.len() == if entry_text(lines[i], "assistant"@)->0.len() >= PREVIEW_CHARS {
                    PREVIEW_CHARS as int
                } else {
                    entry_text(lines[i], "assistant"@)->0.len() as int
                },
    decreases lines.len(),
{
    if lines.len() > 0 {
        let last = lines.len() - 1;
        if entry_text(lines[last], "assistant"@) is Some {
            assert(entry_text(lines[last], "assistant"@) is Some);
        } else {
            lemma_latest_text_is_a_preview(lines.drop_last());
            if latest_text(lines) is Some {
                let i = choose|i: int|
                    0 <= i < lines.drop_last().len() && entry_text(#[trigger] lines.drop_last()[i], "assistant"@) is Some
                        && latest_text(lines.drop_last())->0 == take_chars(entry_text(lines.drop_last()[i], "assistant"@)->0, PREVIEW_CHARS as nat)
                        && latest_text(lines.drop_last())->0.len() == if entry_text(lines.drop_last()[i], "assistant"@)->0.len() >= PREVIEW_CHARS {
                            PREVIEW_CHARS as int
                        } else {
                            entry_text(lines.drop_last()[i], "assistant"@)->0.len() as int
                        };
                assert(lines.drop_last()[i] == lines[i]);
            }
        }
    }
}

/// The summary of one session: `tail` and `head` are the windows of its
/// transcript, `tail` is `None` when it has no transcript file; `pane_text`
/// is the text of its pane when one was captured.
pub fn get_session_summary(
    tail: Option<&[JsonValue]>,
    head: &[JsonValue],
    agentdeck_status: &str,
    pane_text: Option<&str>,
) -> (r: SessionSummary)
    ensures
        exists|now_ms: u64|
            r.attention == #[trigger] session_attention(
                lines_view(tail),
                coarse_of(agentdeck_status@),
                text_view(pane_text),
                now_ms as int,
            ),
        match tail {
            Some(lines) => {
                &&& string_view(r.summary) == latest_summary(lines@)
                &&& string_view(r.initial_prompt) == opening_prompt(head@)
                &&& string_view(r.last_tool) == latest_tool(lines@)
                &&& string_view(r.last_text) == latest_text(lines@)
            },
            None => {
                &&& r.summary is None
                &&& r.initial_prompt is None
                &&& r.last_tool is None
                &&& r.last_text is None
            },
        },
{
    let attention = compute_attention(tail, agentdeck_status, pane_text);
    match tail {
        Some(lines) => SessionSummary {
            summary: extract_summary(lines),
            initial_prompt: extract_initial_prompt(head),
            attention,
            last_tool: extract_last_tool(lines),
            last_text: extract_last_text(lines),
        },
        None => SessionSummary {
            summary: None,
            initial_prompt: None,
            attention,
            last_tool: None,
            last_text: None,
        },
    }
}

} // verus!
