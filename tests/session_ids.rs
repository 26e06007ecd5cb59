use orca_attention::agentdeck::{parse_session_id, read_version};

#[test]
fn parse_session_id_json() {
    let output = r#"{"id":"abc-123","title":"test"}"#;
    assert_eq!(parse_session_id(output).unwrap(), "abc-123");
}

#[test]
fn parse_session_id_json_with_prefix() {
    let output = r#"Created worktree at: /tmp/wt
{"id":"def-456","title":"test"}"#;
    assert_eq!(parse_session_id(output).unwrap(), "def-456");
}

#[test]
fn parse_session_id_already_exists() {
    let output = "Session already exists with same title and path: my-session (xyz-789)";
    assert_eq!(parse_session_id(output).unwrap(), "xyz-789");
}

#[test]
fn parse_session_id_unparseable() {
    let output = "something unexpected";
    assert!(parse_session_id(output).is_err());
}

#[test]
fn parse_session_id_error_names_output_and_swapped_parens_fail() {
    assert_eq!(
        parse_session_id("oops").unwrap_err(),
        "Could not parse session ID from agent-deck output: oops"
    );
    assert!(parse_session_id("already exists ) (").is_err());
}

#[test]
fn version_output_is_read() {
    let v = read_version("  Agent Deck v0.14.2\n");
    assert_eq!(v.installed, "0.14.2");
    assert_eq!(v.supported, "0.13.0");
    let w = read_version("dev-build");
    assert_eq!(w.installed, "dev-build");
}
