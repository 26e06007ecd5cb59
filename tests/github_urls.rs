use orca_attention::github::{
    parse_owner_repo, to_github_issue, to_pr_info, GhAssignee, GhIssue, GhLabel, GhPrStatus,
};

#[test]
fn test_parse_ssh_url() {
    assert_eq!(
        parse_owner_repo("git@github.com:owner/repo.git").unwrap(),
        "owner/repo"
    );
}

#[test]
fn test_parse_ssh_url_no_dotgit() {
    assert_eq!(
        parse_owner_repo("git@github.com:owner/repo").unwrap(),
        "owner/repo"
    );
}

#[test]
fn test_parse_https_url() {
    assert_eq!(
        parse_owner_repo("https://github.com/owner/repo.git").unwrap(),
        "owner/repo"
    );
}

#[test]
fn test_parse_https_url_no_dotgit() {
    assert_eq!(
        parse_owner_repo("https://github.com/owner/repo").unwrap(),
        "owner/repo"
    );
}

#[test]
fn test_parse_non_github_url() {
    assert!(parse_owner_repo("git@gitlab.com:owner/repo.git").is_err());
}

#[test]
fn parse_http_url_and_error_message() {
    assert_eq!(parse_owner_repo("http://github.com/a/b.git").unwrap(), "a/b");
    assert_eq!(
        parse_owner_repo("ftp://example.com/x").unwrap_err(),
        "Cannot parse GitHub owner/repo from URL: ftp://example.com/x"
    );
}

#[test]
fn issue_takes_first_assignee_and_keeps_labels() {
    let raw = GhIssue {
        number: 7,
        title: "Crash".to_string(),
        body: "It crashes".to_string(),
        state: "OPEN".to_string(),
        labels: vec![
            GhLabel { name: "bug".to_string(), color: "d73a4a".to_string() },
            GhLabel { name: "p1".to_string(), color: "000000".to_string() },
        ],
        assignees: vec![
            GhAssignee { login: "ann".to_string() },
            GhAssignee { login: "bob".to_string() },
        ],
        created_at: "2024-01-01T00:00:00Z".to_string(),
        updated_at: "2024-01-02T00:00:00Z".to_string(),
        url: "https://github.com/o/r/issues/7".to_string(),
    };
    let issue = to_github_issue(raw);
    assert_eq!(issue.number, 7);
    assert_eq!(issue.assignee, Some("ann".to_string()));
    assert_eq!(issue.labels.len(), 2);
    assert_eq!(issue.labels[1].name, "p1");
    assert_eq!(issue.labels[0].color, "d73a4a");
    assert_eq!(issue.html_url, "https://github.com/o/r/issues/7");
}

#[test]
fn issue_without_assignee() {
    let raw = GhIssue {
        number: 1,
        title: String::new(),
        body: String::new(),
        state: "CLOSED".to_string(),
        labels: vec![],
        assignees: vec![],
        created_at: String::new(),
        updated_at: String::new(),
        url: String::new(),
    };
    let issue = to_github_issue(raw);
    assert_eq!(issue.assignee, None);
    assert_eq!(issue.state, "CLOSED");
}

#[test]
fn merged_pull_request_reports_merged() {
    let merged = to_pr_info(GhPrStatus {
        number: 12,
        url: "u".to_string(),
        state: "CLOSED".to_string(),
        merged_at: Some("2024-05-01T00:00:00Z".to_string()),
    });
    assert_eq!(merged.state, "MERGED");
    let open = to_pr_info(GhPrStatus {
        number: 13,
        url: "v".to_string(),
        state: "OPEN".to_string(),
        merged_at: None,
    });
    assert_eq!(open.state, "OPEN");
    assert_eq!(open.number, 13);
}
