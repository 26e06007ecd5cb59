use orca_attention::command::{join_args, run_cmd, run_cmd_status, CommandOutput};
use orca_attention::paths::{
    bare_root_candidates, encoded_project_dir, expand_tilde,
    expand_tilde_with, find_bare_root, join_path, transcript_candidates, transcript_file_name,
};
use std::path::PathBuf;

#[test]
fn expand_tilde_with_home_prefix() {
    let result = expand_tilde("~/foo/bar");
    let home = dirs::home_dir().unwrap();
    assert_eq!(PathBuf::from(result), home.join("foo/bar"));
}

#[test]
fn expand_tilde_absolute_path_unchanged() {
    let result = expand_tilde("/usr/local/bin");
    assert_eq!(PathBuf::from(result), PathBuf::from("/usr/local/bin"));
}

#[test]
fn expand_tilde_relative_path_unchanged() {
    let result = expand_tilde("relative/path");
    assert_eq!(PathBuf::from(result), PathBuf::from("relative/path"));
}

#[test]
fn expand_tilde_only_tilde_slash() {
    let result = expand_tilde("~/");
    let home = dirs::home_dir().unwrap();
    assert_eq!(PathBuf::from(result), home.join(""));
}

#[test]
fn expand_tilde_bare_tilde_unchanged() {
    let result = expand_tilde("~");
    assert_eq!(PathBuf::from(result), PathBuf::from("~"));
}

#[test]
fn expand_tilde_with_given_home() {
    assert_eq!(expand_tilde_with("~/a/b", Some("/home/u")), "/home/u/a/b");
    assert_eq!(expand_tilde_with("~/a", Some("/home/u/")), "/home/u/a");
    assert_eq!(expand_tilde_with("~/a", None), "~/a");
    assert_eq!(expand_tilde_with("~//etc", Some("/home/u")), "/etc");
}

#[test]
fn joining_paths() {
    assert_eq!(join_path("/a", "b"), "/a/b");
    assert_eq!(join_path("/a/", "b"), "/a/b");
    assert_eq!(join_path("", "b"), "b");
    assert_eq!(join_path("/a", "/b"), "/b");
}

#[test]
fn transcript_locations() {
    assert_eq!(encoded_project_dir("/Users/me/code/app"), "-Users-me-code-app");
    assert_eq!(transcript_file_name("abc"), "abc.jsonl");
    let names = vec![
        "-other".to_string(),
        "-Users-me-app-feature".to_string(),
        "-Users-me-app".to_string(),
    ];
    let c = transcript_candidates("/p", "/Users/me/app", "c1", &names);
    assert_eq!(
        c,
        vec![
            "/p/-Users-me-app/c1.jsonl".to_string(),
            "/p/-Users-me-app-feature/c1.jsonl".to_string(),
            "/p/-Users-me-app/c1.jsonl".to_string(),
        ]
    );
}

#[test]
fn bare_root_search() {
    let c = bare_root_candidates("/srv/repo/wt/src");
    assert_eq!(c, vec!["/srv/repo/wt/src", "/srv/repo/wt", "/srv/repo", "/srv", "/"]);
    assert_eq!(find_bare_root(&c, &[false, false, true, true, false]), Some("/srv/repo".to_string()));
    assert_eq!(find_bare_root(&c, &[false; 5]), None);
}

#[test]
fn command_outcomes() {
    assert_eq!(join_args(&["worktree", "list", "--porcelain"]), "worktree list --porcelain");
    assert_eq!(join_args(&[]), "");
    let ok = CommandOutput { success: true, stdout: "out\n".to_string(), stderr: "warn".to_string() };
    assert_eq!(run_cmd("git", &["status"], ok), Ok("out\n".to_string()));
    let failed = CommandOutput { success: false, stdout: String::new(), stderr: "  fatal: nope \n".to_string() };
    assert_eq!(
        run_cmd("git", &["rev-parse", "HEAD"], failed),
        Err("git rev-parse HEAD failed: fatal: nope".to_string())
    );
    let st = run_cmd_status(CommandOutput { success: false, stdout: "x".to_string(), stderr: String::new() });
    assert_eq!(st, ("x".to_string(), false));
}
