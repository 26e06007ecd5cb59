//! The attention classifier: from a session's coarse status, the tail of its
//! transcript and, optionally, a snapshot of its terminal pane, to the
//! status a dashboard shows.

use vstd::prelude::*;
use crate::json::{JsonValue, get, get_str, get_field, field_is};
use crate::text::{contains, occurs_in};
use crate::timestamp::{text_millis, timestamp_millis, agrees};
use crate::transcript::{
    is_conversational, role, content, check_conversational, has_role, content_of,
};

verus! {

/// What a session needs, as the classifier sees it.
#[derive(Clone, Copy, Debug, PartialEq, Eq, Structural)]
pub enum AttentionStatus {
    NeedsInput,
    Error,
    Running,
    Idle,
    Stale,
    Unknown,
}

/// The lifecycle status that the session supervisor reports.
#[derive(Clone, Copy, Debug, PartialEq, Eq, Structural)]
pub enum CoarseStatus {
    Running,
    Waiting,
    Error,
    Idle,
    /// Any other label.
    Other,
}

/// The coarse status written by `label` (`running`, `waiting`, `error`,
/// `idle`; anything else is `Other`).
pub open spec fn coarse_of(label: Seq<char>) -> CoarseStatus {
    if label == "running"@ {
        CoarseStatus::Running
    } else if label == "waiting"@ {
        CoarseStatus::Waiting
    } else if label == "error"@ {
        CoarseStatus::Error
    } else if label == "idle"@ {
        CoarseStatus::Idle
    } else {
        CoarseStatus::Other
    }
}

impl CoarseStatus {
    /// Reads a coarse status from its label.
    pub fn from_label(label: &str) -> (r: CoarseStatus)
        ensures
            r == coarse_of(label@),
    {
        if crate::text::str_eq(label, "running") {
            CoarseStatus::Running
        } else if crate::text::str_eq(label, "waiting") {
            CoarseStatus::Waiting
        } else if crate::text::str_eq(label, "error") {
            CoarseStatus::Error
        } else if crate::text::str_eq(label, "idle") {
            CoarseStatus::Idle
        } else {
            CoarseStatus::Other
        }
    }
}

/// The text that a terminal pane shows while a permission prompt waits.
pub const PERMISSION_PROMPT: &'static str = "Do you want to proceed?";

/// Seconds without a new transcript entry after which a session is stale.
pub const STALE_AFTER_SECS: u64 = 3600;

/// The status when there is no transcript to read: a session that waits
/// with no conversation has only been given its first prompt.
pub open spec fn without_transcript(coarse: CoarseStatus) -> AttentionStatus {
    match coarse {
        CoarseStatus::Waiting => AttentionStatus::Idle,
        CoarseStatus::Running => AttentionStatus::Running,
        CoarseStatus::Error => AttentionStatus::Error,
        _ => AttentionStatus::Unknown,
    }
}

/// The status when the transcript holds no conversational entry.
pub open spec fn without_conversation(coarse: CoarseStatus) -> AttentionStatus {
    match coarse {
        CoarseStatus::Running => AttentionStatus::Running,
        CoarseStatus::Error => AttentionStatus::Error,
        _ => AttentionStatus::Unknown,
    }
}

/// The status when no rule of the transcript decides.
pub open spec fn settled(coarse: CoarseStatus) -> AttentionStatus {
    match coarse {
        CoarseStatus::Running => AttentionStatus::Running,
        CoarseStatus::Error => AttentionStatus::Error,
        _ => AttentionStatus::Idle,
    }
}

/// Some conversational entry was written by the assistant.
pub open spec fn has_assistant_reply(lines: Seq<JsonValue>) -> bool {
    exists|i: int|
        0 <= i < lines.len() && is_conversational(#[trigger] lines[i]) && role(lines[i]) == Some(
            "assistant"@,
        )
}

/// The last conversational entry.
pub open spec fn last_conversational(lines: Seq<JsonValue>) -> Option<JsonValue>
    decreases lines.len(),
{
    if lines.len() == 0 {
        None
    } else if is_conversational(lines.last()) {
        Some(lines.last())
    } else {
        last_conversational(lines.drop_last())
    }
}

/// Tools that always wait for a person's decision.
pub open spec fn is_interactive_tool(name: Seq<char>) -> bool {
    name == "AskUserQuestion"@ || name == "ExitPlanMode"@ || name == "EnterPlanMode"@
}

/// A content item that calls an interactive tool.
pub open spec fn calls_interactive_tool(item: JsonValue) -> bool {
    get_str(item, "type"@) == Some("tool_use"@) && match get_str(item, "name"@) {
        Some(name) => is_interactive_tool(name),
        None => false,
    }
}

/// An assistant entry that calls an interactive tool.
pub open spec fn awaits_decision(e: JsonValue) -> bool {
    &&& role(e) == Some("assistant"@)
    &&& content(e) is Some
    &&& exists|j: int|
        0 <= j < content(e)->0.len() && calls_interactive_tool(#[trigger] content(e)->0[j])
}

/// The timestamp of the last entry, of any type, in milliseconds.
pub open spec fn last_timestamp(lines: Seq<JsonValue>) -> Option<int> {
    if lines.len() == 0 {
        None
    } else {
        match get(lines.last(), "timestamp"@) {
            Some(JsonValue::Number(t)) => text_millis(t@),
            _ => None,
        }
    }
}

/// The last entry is older than `stale_after_ms` at the time `now_ms`.
pub open spec fn is_stale(lines: Seq<JsonValue>, now_ms: int, stale_after_ms: int) -> bool {
    match last_timestamp(lines) {
        Some(ts) => now_ms - ts > stale_after_ms,
        None => false,
    }
}

/// The classification of a transcript tail, first matching rule first.
pub open spec fn classify(
    lines: Seq<JsonValue>,
    coarse: CoarseStatus,
    now_ms: int,
    stale_after_ms: int,
) -> AttentionStatus {
    if coarse == CoarseStatus::Waiting {
        if has_assistant_reply(lines) {
            AttentionStatus::NeedsInput
        } else {
            AttentionStatus::Idle
        }
    } else if last_conversational(lines) is None {
        without_conversation(coarse)
    } else if awaits_decision(last_conversational(lines)->0) {
        AttentionStatus::NeedsInput
    } else if is_stale(lines, now_ms, stale_after_ms) {
        AttentionStatus::Stale
    } else {
        settled(coarse)
    }
}

/// The pane refinement: a running session whose pane shows the permission
/// prompt needs input; nothing else changes.
pub open spec fn refined(attention: AttentionStatus, pane: Option<Seq<char>>) -> AttentionStatus {
    match pane {
        Some(text) => if attention == AttentionStatus::Running && occurs_in(
            text,
            PERMISSION_PROMPT@,
        ) {
            AttentionStatus::NeedsInput
        } else {
            attention
        },
        None => attention,
    }
}

/// True when some conversational entry was written by the assistant.
fn find_assistant_reply(lines: &[JsonValue]) -> (r: bool)
    ensures
        r == has_assistant_reply(lines@),
{
    let mut i: usize = 0;
    while i < lines.len()
        invariant
            i <= lines@.len(),
            forall|j: int|
                0 <= j < i ==> !(is_conversational(#[trigger] lines@[j]) && role(lines@[j]) == Some(
                    "assistant"@,
                )),
        decreases lines@.len() - i,
    {
        if check_conversational(&lines[i]) && has_role(&lines[i], "assistant") {
            return true;
        }
        i += 1;
    }
    false
}

/// The position of the last conversational entry.
fn last_conversational_index(lines: &[JsonValue]) -> (r: Option<usize>)
    ensures
        match r {
            Some(i) => i < lines@.len() && last_conversational(lines@) == Some(lines@[i as int]),
            None => last_conversational(lines@) is None,
        },
{
    let mut i: usize = lines.len();
    assert(lines@.take(i as int) =~= lines@);
    while i > 0
        invariant
            i <= lines@.len(),
            last_conversational(lines@.take(i as int)) == last_conversational(lines@),
        decreases i,
    {
        assert(lines@.take(i as int).last() == lines@[i - 1]);
        assert(lines@.take(i as int).drop_last() =~= lines@.take(i - 1));
        if check_conversational(&lines[i - 1]) {
            return Some(i - 1);
        }
        i -= 1;
    }
    None
}

/// True when the content item calls an interactive tool.
fn check_interactive_call(item: &JsonValue) -> (r: bool)
    ensures
        r == calls_interactive_tool(*item),
{
    field_is(item, "type", "tool_use") && (field_is(item, "name", "AskUserQuestion") || field_is(
        item,
        "name",
        "ExitPlanMode",
    ) || field_is(item, "name", "EnterPlanMode"))
}

/// True when the entry is an assistant entry that calls an interactive tool.
fn check_awaits_decision(e: &JsonValue) -> (r: bool)
    ensures
        r == awaits_decision(*e),
{
    if !has_role(e, "assistant") {
        return false;
    }
    match content_of(e) {
        Some(items) => {
            let mut j: usize = 0;
            while j < items.len()
                invariant
                    j <= items@.len(),
                    role(*e) == Some("assistant"@),
                    content(*e) == Some(items@),
                    forall|k: int| 0 <= k < j ==> !calls_interactive_tool(#[trigger] items@[k]),
                decreases items@.len() - j,
            {
                if check_interactive_call(&items[j]) {
                    assert(content(*e)->0[j as int] == items@[j as int]);
                    assert(calls_interactive_tool(content(*e)->0[j as int]));
                    assert(awaits_decision(*e));
                    return true;
                }
                j += 1;
            }
            false
        },
        None => false,
    }
}

/// True when the last entry is older than `stale_after_ms` at `now_ms`.
fn check_stale(lines: &[JsonValue], now_ms: u64, stale_after_ms: u64) -> (r: bool)
    ensures
        r == is_stale(lines@, now_ms as int, stale_after_ms as int),
{
    if lines.len() == 0 {
        return false;
    }
    let last = &lines[lines.len() - 1];
    match get_field(last, "timestamp") {
        Some(JsonValue::Number(t)) => match timestamp_millis(t.as_str()) {
            Some(ts) => {
                assert(agrees(text_millis(t@)->0, ts as int));
                (now_ms as i128) - ts > (stale_after_ms as i128)
            },
            None => false,
        },
        _ => false,
    }
}

/// Classifies a transcript tail at the time `now_ms` (milliseconds since the
/// epoch), with the given staleness threshold.
pub fn classify_at(
    lines: &[JsonValue],
    coarse: CoarseStatus,
    now_ms: u64,
    stale_after_ms: u64,
) -> (r: AttentionStatus)
    ensures
        r == classify(lines@, coarse, now_ms as int, stale_after_ms as int),
{
    if coarse == CoarseStatus::Waiting {
        if find_assistant_reply(lines) {
            return AttentionStatus::NeedsInput;
        } else {
            return AttentionStatus::Idle;
        }
    }
    match last_conversational_index(lines) {
        None => status_without_conversation(coarse),
        Some(i) => {
            if check_awaits_decision(&lines[i]) {
                AttentionStatus::NeedsInput
            } else if check_stale(lines, now_ms, stale_after_ms) {
                AttentionStatus::Stale
            } else {
                settled_status(coarse)
            }
        },
    }
}

/// The status when there is no transcript to read.
pub fn status_without_transcript(coarse: CoarseStatus) -> (r: AttentionStatus)
    ensures
        r == without_transcript(coarse),
{
    match coarse {
        CoarseStatus::Waiting => AttentionStatus::Idle,
        CoarseStatus::Running => AttentionStatus::Running,
        CoarseStatus::Error => AttentionStatus::Error,
        _ => AttentionStatus::Unknown,
    }
}

/// The status when the transcript holds no conversational entry.
pub fn status_without_conversation(coarse: CoarseStatus) -> (r: AttentionStatus)
    ensures
        r == without_conversation(coarse),
{
    match coarse {
        CoarseStatus::Running => AttentionStatus::Running,
        CoarseStatus::Error => AttentionStatus::Error,
        _ => AttentionStatus::Unknown,
    }
}

/// The status when no rule of the transcript decides.
pub fn settled_status(coarse: CoarseStatus) -> (r: AttentionStatus)
    ensures
        r == settled(coarse),
{
    match coarse {
        CoarseStatus::Running => AttentionStatus::Running,
        CoarseStatus::Error => AttentionStatus::Error,
        _ => AttentionStatus::Idle,
    }
}

/// True when the captured text of a terminal pane shows the permission
/// prompt.
pub fn is_waiting_for_input(pane_text: &str) -> (r: bool)
    ensures
        r == occurs_in(pane_text@, PERMISSION_PROMPT@),
{
    contains(pane_text, PERMISSION_PROMPT)
}

/// Whether the pane of a session with this status is worth capturing: only a
/// running session can be upgraded, and only when it has a pane.
pub fn needs_pane_probe(attention: AttentionStatus, tmux_session: Option<&str>) -> (r: bool)
    ensures
        r == (attention == AttentionStatus::Running && match tmux_session {
            Some(name) => name@.len() > 0,
            None => false,
        }),
{
    attention == AttentionStatus::Running && match tmux_session {
        Some(name) => name.unicode_len() > 0,
        None => false,
    }
}

/// Upgrades a running session to needing input when its captured pane shows
/// the permission prompt; `pane_text` is `None` when no capture was made or
/// it failed.
pub fn refine_with_tmux(attention: AttentionStatus, pane_text: Option<&str>) -> (r: AttentionStatus)
    ensures
        r == refined(attention, text_view(pane_text)),
{
    match pane_text {
        Some(text) => {
            if attention == AttentionStatus::Running && is_waiting_for_input(text) {
                AttentionStatus::NeedsInput
            } else {
                attention
            }
        },
        None => attention,
    }
}

/// Relies on std::time::SystemTime::now: the wall clock in milliseconds since
/// the Unix epoch, or 0 when it reads earlier than that.
#[verifier::external_body]
fn now_millis() -> (r: u64) {
    match std::time::SystemTime::now().duration_since(std::time::UNIX_EPOCH) {
        Ok(d) => d.as_millis() as u64,
        Err(_) => 0,
    }
}

/// Classifies a transcript tail now, with the default staleness threshold.
/// Only the staleness rule reads the clock.
pub fn extract_attention(lines: &[JsonValue], agentdeck_status: &str) -> (r: AttentionStatus)
    ensures
        exists|now_ms: u64|
            r == #[trigger] classify(
                lines@,
                coarse_of(agentdeck_status@),
                now_ms as int,
                STALE_AFTER_SECS * 1000,
            ),
{
    let now = now_millis();
    classify_at(lines, CoarseStatus::from_label(agentdeck_status), now, STALE_AFTER_SECS * 1000)
}

/// The contents of an optional transcript tail.
pub open spec fn lines_view(transcript: Option<&[JsonValue]>) -> Option<Seq<JsonValue>> {
    match transcript {
        Some(lines) => Some(lines@),
        None => None,
    }
}

/// The contents of an optional text.
pub open spec fn text_view(text: Option<&str>) -> Option<Seq<char>> {
    match text {
        Some(t) => Some(t@),
        None => None,
    }
}

/// The attention of a session at the time `now_ms`: classified from its
/// transcript tail when there is one, from its coarse status alone when there
/// is none, then refined by its pane.
pub open spec fn session_attention(
    transcript: Option<Seq<JsonValue>>,
    coarse: CoarseStatus,
    pane: Option<Seq<char>>,
    now_ms: int,
) -> AttentionStatus {
    refined(
        match transcript {
            Some(lines) => classify(lines, coarse, now_ms, STALE_AFTER_SECS * 1000),
            None => without_transcript(coarse),
        },
        pane,
    )
}

/// The attention of one session: from its transcript tail (`None` when it has
/// no conversation id or no transcript file), its coarse status, and the text
/// of its pane when one was captured.
pub fn compute_attention(
    transcript: Option<&[JsonValue]>,
    agentdeck_status: &str,
    pane_text: Option<&str>,
) -> (r: AttentionStatus)
    ensures
        exists|now_ms: u64|
            r == #[trigger] session_attention(
                lines_view(transcript),
                coarse_of(agentdeck_status@),
                text_view(pane_text),
                now_ms as int,
            ),
{
    let attention = match transcript {
        Some(lines) => extract_attention(lines, agentdeck_status),
        None => status_without_transcript(CoarseStatus::from_label(agentdeck_status)),
    };
    let r = refine_with_tmux(attention, pane_text);
    proof {
        let coarse = coarse_of(agentdeck_status@);
        match transcript {
            Some(lines) => {
                let now = choose|now_ms: u64|
                    attention == #[trigger] classify(
                        lines@,
                        coarse,
                        now_ms as int,
                        STALE_AFTER_SECS * 1000,
                    );
                assert(r == session_attention(
                    lines_view(transcript),
                    coarse,
                    text_view(pane_text),
                    now as int,
                ));
            },
            None => {
                assert(r == session_attention(
                    lines_view(transcript),
                    coarse,
                    text_view(pane_text),
                    0u64 as int,
                ));
            },
        }
    }
    r
}

/// A waiting session needs input exactly when the assistant has replied at
/// least once in the tail; otherwise it is idle. No other rule is consulted.
pub proof fn lemma_waiting_needs_a_reply(lines: Seq<JsonValue>, now_ms: int, stale_after_ms: int)
    ensures
        has_assistant_reply(lines) ==> classify(lines, CoarseStatus::Waiting, now_ms, stale_after_ms)
            == AttentionStatus::NeedsInput,
        !has_assistant_reply(lines) ==> classify(lines, CoarseStatus::Waiting, now_ms, stale_after_ms)
            == AttentionStatus::Idle,
{
}

/// With an empty tail, a running session is running, an errored one is in
/// error, and an idle one or one of any other label is unknown.
pub proof fn lemma_empty_tail(coarse: CoarseStatus, now_ms: int, stale_after_ms: int)
    requires
        coarse != CoarseStatus::Waiting,
    ensures
        classify(Seq::empty(), coarse, now_ms, stale_after_ms) == match coarse {
            CoarseStatus::Running => AttentionStatus::Running,
            CoarseStatus::Error => AttentionStatus::Error,
            _ => AttentionStatus::Unknown,
        },
{
}

/// When the last conversational entry is an assistant entry that calls an
/// interactive tool, the session needs input whatever its coarse status,
/// but for a waiting one, whose own rule comes first.
pub proof fn lemma_interactive_tool_needs_input(
    lines: Seq<JsonValue>,
    coarse: CoarseStatus,
    now_ms: int,
    stale_after_ms: int,
)
    requires
        coarse != CoarseStatus::Waiting,
        last_conversational(lines) is Some,
        awaits_decision(last_conversational(lines)->0),
    ensures
        classify(lines, coarse, now_ms, stale_after_ms) == AttentionStatus::NeedsInput,
{
}

/// When the last entry of the tail, of any type, is older than the
/// threshold and no rule for needing input fired before, the session is
/// stale. The tail must hold a conversational entry: without one the coarse
/// status decides first.
pub proof fn lemma_old_entry_is_stale(
    lines: Seq<JsonValue>,
    coarse: CoarseStatus,
    now_ms: int,
    stale_after_ms: int,
)
    requires
        coarse != CoarseStatus::Waiting,
        last_conversational(lines) is Some,
        !awaits_decision(last_conversational(lines)->0),
        is_stale(lines, now_ms, stale_after_ms),
    ensures
        classify(lines, coarse, now_ms, stale_after_ms) == AttentionStatus::Stale,
{
}

/// A waiting session without a transcript is idle, never needing input,
/// whatever its pane shows and whenever it is asked.
pub proof fn lemma_no_transcript_waiting_is_idle(pane: Option<Seq<char>>, now_ms: int)
    ensures
        session_attention(None, CoarseStatus::Waiting, pane, now_ms) == AttentionStatus::Idle,
{
}

/// The pane only ever turns a running session into one that needs input.
pub proof fn lemma_pane_only_upgrades_running(attention: AttentionStatus, pane: Option<Seq<char>>)
    ensures
        refined(attention, pane) == attention || (attention == AttentionStatus::Running
            && refined(attention, pane) == AttentionStatus::NeedsInput),
{
}

} // verus!
