use orca_attention::attention::{extract_attention, AttentionStatus};
use orca_attention::json::{parse_json, JsonValue};
use orca_attention::summary::{
    extract_initial_prompt, extract_last_text, extract_last_tool, extract_summary,
};

fn entry(text: &str) -> JsonValue {
    parse_json(text).expect("test entry is JSON")
}

fn now_secs() -> f64 {
    std::time::SystemTime::now()
        .duration_since(std::time::UNIX_EPOCH)
        .unwrap()
        .as_secs_f64()
}

// ── extract_summary ──

#[test]
fn summary_empty_lines() {
    assert_eq!(extract_summary(&[]), None);
}

#[test]
fn summary_single() {
    let lines = vec![entry(r#"{"type": "summary", "summary": "Did some work"}"#)];
    assert_eq!(extract_summary(&lines), Some("Did some work".into()));
}

#[test]
fn summary_latest_wins() {
    let lines = vec![
        entry(r#"{"type": "summary", "summary": "First"}"#),
        entry(r#"{"type": "assistant", "message": {"role": "assistant"}}"#),
        entry(r#"{"type": "summary", "summary": "Second"}"#),
    ];
    assert_eq!(extract_summary(&lines), Some("Second".into()));
}

#[test]
fn summary_no_summary_field() {
    let lines = vec![entry(r#"{"type": "summary"}"#)];
    assert_eq!(extract_summary(&lines), None);
}

#[test]
fn summary_ignores_non_summary_types() {
    let lines = vec![entry(r#"{"type": "assistant", "summary": "Not a summary entry"}"#)];
    assert_eq!(extract_summary(&lines), None);
}

#[test]
fn summary_skips_a_later_summary_without_text() {
    let lines = vec![
        entry(r#"{"type": "summary", "summary": "Kept"}"#),
        entry(r#"{"type": "summary"}"#),
    ];
    assert_eq!(extract_summary(&lines), Some("Kept".into()));
}

// ── extract_attention ──

#[test]
fn attention_waiting_with_assistant() {
    let lines = vec![entry(
        r#"{"type": "assistant", "message": {"role": "assistant", "content": [{"type": "text", "text": "hello"}]}}"#,
    )];
    assert!(matches!(
        extract_attention(&lines, "waiting"),
        AttentionStatus::NeedsInput
    ));
}

#[test]
fn attention_waiting_no_assistant() {
    let lines = vec![entry(
        r#"{"type": "user", "message": {"role": "user", "content": [{"type": "text", "text": "hello"}]}}"#,
    )];
    assert!(matches!(
        extract_attention(&lines, "waiting"),
        AttentionStatus::Idle
    ));
}

#[test]
fn attention_empty_lines_running() {
    assert!(matches!(
        extract_attention(&[], "running"),
        AttentionStatus::Running
    ));
}

#[test]
fn attention_empty_lines_error() {
    assert!(matches!(
        extract_attention(&[], "error"),
        AttentionStatus::Error
    ));
}

#[test]
fn attention_empty_lines_unknown() {
    assert!(matches!(
        extract_attention(&[], "something"),
        AttentionStatus::Unknown
    ));
}

#[test]
fn attention_empty_lines_idle_is_unknown() {
    assert_eq!(extract_attention(&[], "idle"), AttentionStatus::Unknown);
}

#[test]
fn attention_ask_user_question_tool() {
    let lines = vec![entry(
        r#"{"type": "assistant", "message": {"role": "assistant", "content": [{"type": "tool_use", "name": "AskUserQuestion"}]}}"#,
    )];
    assert!(matches!(
        extract_attention(&lines, "running"),
        AttentionStatus::NeedsInput
    ));
}

#[test]
fn attention_exit_plan_mode_tool() {
    let lines = vec![entry(
        r#"{"type": "assistant", "message": {"role": "assistant", "content": [{"type": "tool_use", "name": "ExitPlanMode"}]}}"#,
    )];
    assert!(matches!(
        extract_attention(&lines, "running"),
        AttentionStatus::NeedsInput
    ));
}

#[test]
fn attention_enter_plan_mode_tool() {
    let lines = vec![entry(
        r#"{"type": "assistant", "message": {"role": "assistant", "content": [{"type": "tool_use", "name": "EnterPlanMode"}]}}"#,
    )];
    assert!(matches!(
        extract_attention(&lines, "running"),
        AttentionStatus::NeedsInput
    ));
}

#[test]
fn attention_generic_tool_use_is_not_needs_input() {
    let lines = vec![entry(
        r#"{"type": "assistant", "message": {"role": "assistant", "content": [{"type": "tool_use", "id": "t1", "name": "Bash"}]}}"#,
    )];
    assert_eq!(extract_attention(&lines, "running"), AttentionStatus::Running);
}

#[test]
fn attention_tool_result_error_is_ignored() {
    let lines = vec![entry(
        r#"{"type": "user", "message": {"role": "user", "content": [{"type": "tool_result", "tool_use_id": "t1", "is_error": true}]}}"#,
    )];
    assert_eq!(extract_attention(&lines, "running"), AttentionStatus::Running);
    assert_eq!(extract_attention(&lines, "idle"), AttentionStatus::Idle);
}

#[test]
fn attention_stale_timestamp() {
    let old_ts = now_secs() - 7200.0;
    let lines = vec![
        entry(
            r#"{"type": "assistant", "message": {"role": "assistant", "content": [{"type": "text", "text": "hi"}]}}"#,
        ),
        entry(&format!(r#"{{"type": "result", "timestamp": {old_ts}}}"#)),
    ];
    assert!(matches!(
        extract_attention(&lines, "running"),
        AttentionStatus::Stale
    ));
}

#[test]
fn attention_running_fallback() {
    let recent_ts = now_secs() - 10.0;
    let lines = vec![
        entry(
            r#"{"type": "assistant", "message": {"role": "assistant", "content": [{"type": "text", "text": "working"}]}}"#,
        ),
        entry(&format!(r#"{{"type": "result", "timestamp": {recent_ts}}}"#)),
    ];
    assert!(matches!(
        extract_attention(&lines, "running"),
        AttentionStatus::Running
    ));
}

#[test]
fn attention_error_fallback() {
    let recent_ts = now_secs() - 10.0;
    let lines = vec![
        entry(
            r#"{"type": "assistant", "message": {"role": "assistant", "content": [{"type": "text", "text": "oops"}]}}"#,
        ),
        entry(&format!(r#"{{"type": "result", "timestamp": {recent_ts}}}"#)),
    ];
    assert!(matches!(
        extract_attention(&lines, "error"),
        AttentionStatus::Error
    ));
}

#[test]
fn attention_default_idle() {
    let recent_ts = now_secs() - 10.0;
    let lines = vec![
        entry(
            r#"{"type": "assistant", "message": {"role": "assistant", "content": [{"type": "text", "text": "done"}]}}"#,
        ),
        entry(&format!(r#"{{"type": "result", "timestamp": {recent_ts}}}"#)),
    ];
    assert!(matches!(
        extract_attention(&lines, "idle"),
        AttentionStatus::Idle
    ));
}

// ── extract_last_text ──

#[test]
fn last_text_no_lines() {
    assert_eq!(extract_last_text(&[]), None);
}

#[test]
fn last_text_no_assistant() {
    let lines = vec![entry(
        r#"{"type": "user", "message": {"role": "user", "content": [{"type": "text", "text": "hello"}]}}"#,
    )];
    assert_eq!(extract_last_text(&lines), None);
}

#[test]
fn last_text_returns_text() {
    let lines = vec![entry(
        r#"{"type": "assistant", "message": {"role": "assistant", "content": [{"type": "text", "text": "Here is the answer"}]}}"#,
    )];
    assert_eq!(extract_last_text(&lines), Some("Here is the answer".into()));
}

#[test]
fn last_text_truncates_at_200_chars() {
    let long_text = "a".repeat(300);
    let lines = vec![entry(&format!(
        r#"{{"type": "assistant", "message": {{"role": "assistant", "content": [{{"type": "text", "text": "{long_text}"}}]}}}}"#
    ))];
    let result = extract_last_text(&lines).unwrap();
    assert_eq!(result.len(), 200);
}

#[test]
fn last_text_counts_characters_not_bytes_and_trims() {
    let long_text = "é".repeat(250);
    let lines = vec![entry(&format!(
        r#"{{"type": "assistant", "message": {{"role": "assistant", "content": [{{"type": "text", "text": "  {long_text}  "}}]}}}}"#
    ))];
    let result = extract_last_text(&lines).unwrap();
    assert_eq!(result.chars().count(), 200);
    assert!(result.chars().all(|c| c == 'é'));
}

#[test]
fn last_text_skips_blank_text_and_older_entries_count() {
    let lines = vec![
        entry(r#"{"type": "assistant", "message": {"role": "assistant", "content": [{"type": "text", "text": "older"}]}}"#),
        entry(r#"{"type": "assistant", "message": {"role": "assistant", "content": [{"type": "text", "text": "   "}]}}"#),
    ];
    assert_eq!(extract_last_text(&lines), Some("older".into()));
}

// ── extract_last_tool ──

#[test]
fn last_tool_no_lines() {
    assert_eq!(extract_last_tool(&[]), None);
}

#[test]
fn last_tool_with_tool_use() {
    let lines = vec![entry(
        r#"{"type": "assistant", "message": {"role": "assistant", "content": [{"type": "tool_use", "name": "Read"}]}}"#,
    )];
    assert_eq!(extract_last_tool(&lines), Some("Read".into()));
}

#[test]
fn last_tool_no_tool_use() {
    let lines = vec![entry(
        r#"{"type": "assistant", "message": {"role": "assistant", "content": [{"type": "text", "text": "just text"}]}}"#,
    )];
    assert_eq!(extract_last_tool(&lines), None);
}

#[test]
fn last_tool_latest_assistant_call_wins() {
    let lines = vec![
        entry(r#"{"type": "assistant", "message": {"role": "assistant", "content": [{"type": "tool_use", "name": "Read"}]}}"#),
        entry(r#"{"type": "assistant", "message": {"role": "assistant", "content": [{"type": "text", "text": "x"}, {"type": "tool_use", "name": "Edit"}, {"type": "tool_use", "name": "Bash"}]}}"#),
        entry(r#"{"type": "user", "message": {"role": "user", "content": [{"type": "tool_result", "tool_use_id": "1"}]}}"#),
    ];
    assert_eq!(extract_last_tool(&lines), Some("Edit".into()));
}

// ── extract_initial_prompt ──

#[test]
fn initial_prompt_is_first_user_text() {
    let lines = vec![
        entry(r#"{"type": "summary", "summary": "s"}"#),
        entry(r#"{"type": "user", "message": {"role": "user", "content": [{"type": "text", "text": "  "}]}}"#),
        entry(r#"{"type": "user", "message": {"role": "user", "content": [{"type": "text", "text": "  Fix the build \n"}]}}"#),
        entry(r#"{"type": "user", "message": {"role": "user", "content": [{"type": "text", "text": "later"}]}}"#),
    ];
    assert_eq!(extract_initial_prompt(&lines), Some("Fix the build".into()));
    assert_eq!(extract_initial_prompt(&[]), None);
}
