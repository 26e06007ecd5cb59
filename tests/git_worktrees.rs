use orca_attention::git::parse_worktree_list;

#[test]
fn parse_empty_input() {
    let result = parse_worktree_list("");
    assert!(result.is_empty());
}

#[test]
fn parse_single_worktree() {
    let output = "\
worktree /home/user/repo/main
HEAD abc123def456
branch refs/heads/main
";
    let result = parse_worktree_list(output);
    assert_eq!(result.len(), 1);
    assert_eq!(result[0].path, "/home/user/repo/main");
    assert_eq!(result[0].head, "abc123def456");
    assert_eq!(result[0].branch, "main");
    assert!(!result[0].is_bare);
}

#[test]
fn parse_multiple_worktrees() {
    let output = "\
worktree /home/user/repo/main
HEAD abc123
branch refs/heads/main

worktree /home/user/repo/feature
HEAD def456
branch refs/heads/feature-branch
";
    let result = parse_worktree_list(output);
    assert_eq!(result.len(), 2);
    assert_eq!(result[0].branch, "main");
    assert_eq!(result[1].branch, "feature-branch");
}

#[test]
fn parse_filters_bare_entry() {
    let output = "\
worktree /home/user/repo
HEAD abc123
bare

worktree /home/user/repo/main
HEAD def456
branch refs/heads/main
";
    let result = parse_worktree_list(output);
    assert_eq!(result.len(), 1);
    assert_eq!(result[0].path, "/home/user/repo/main");
}

#[test]
fn parse_detached_head() {
    let output = "\
worktree /home/user/repo/detached
HEAD abc123
detached
";
    let result = parse_worktree_list(output);
    assert_eq!(result.len(), 1);
    assert_eq!(result[0].head, "abc123");
    assert_eq!(result[0].branch, "");
}

#[test]
fn parse_strips_refs_heads_prefix() {
    let output = "\
worktree /home/user/repo/feature
HEAD abc123
branch refs/heads/my-feature
";
    let result = parse_worktree_list(output);
    assert_eq!(result[0].branch, "my-feature");
}

#[test]
fn parse_branch_without_refs_heads() {
    let output = "\
worktree /home/user/repo/feature
HEAD abc123
branch some-other-ref
";
    let result = parse_worktree_list(output);
    assert_eq!(result[0].branch, "some-other-ref");
}

#[test]
fn parse_crlf_lines_and_missing_final_newline() {
    let output = "worktree /srv/a\r\nHEAD 111\r\nbranch refs/heads/a\r\n\r\nworktree /srv/b\nHEAD 222";
    let result = parse_worktree_list(output);
    assert_eq!(result.len(), 2);
    assert_eq!(result[0].path, "/srv/a");
    assert_eq!(result[0].head, "111");
    assert_eq!(result[0].branch, "a");
    assert_eq!(result[1].path, "/srv/b");
    assert_eq!(result[1].head, "222");
    assert_eq!(result[1].branch, "");
}

#[test]
fn parse_lines_before_first_worktree_are_ignored() {
    let output = "HEAD zzz\nbranch refs/heads/x\nworktree /w\nHEAD abc\n";
    let result = parse_worktree_list(output);
    assert_eq!(result.len(), 1);
    assert_eq!(result[0].path, "/w");
    assert_eq!(result[0].head, "abc");
    assert_eq!(result[0].branch, "");
}
