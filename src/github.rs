//! GitHub: the `owner/repo` of a remote URL, and issues and pull requests as
//! the `gh` tool reports them.

use vstd::prelude::*;
use crate::text::{has_prefix, has_suffix, strip_prefix, strip_suffix};

verus! {

/// `s` without a trailing `.git`.
pub open spec fn without_dot_git(s: Seq<char>) -> Seq<char> {
    if has_suffix(s, ".git"@) {
        s.take(s.len() - ".git"@.len())
    } else {
        s
    }
}

/// The `owner/repo` of a GitHub remote URL, in SSH (`git@github.com:`) or
/// HTTPS or HTTP (`https://github.com/`) form; `None` for any other URL.
pub open spec fn owner_repo_of(url: Seq<char>) -> Option<Seq<char>> {
    if has_prefix(url, "git@github.com:"@) {
        Some(without_dot_git(url.skip("git@github.com:"@.len() as int)))
    } else if has_prefix(url, "https://github.com/"@) {
        Some(without_dot_git(url.skip("https://github.com/"@.len() as int)))
    } else if has_prefix(url, "http://github.com/"@) {
        Some(without_dot_git(url.skip("http://github.com/"@.len() as int)))
    } else {
        None
    }
}

/// The message of the error for a URL that is not a GitHub remote.
pub open spec fn not_github_message(url: Seq<char>) -> Seq<char> {
    "Cannot parse GitHub owner/repo from URL: "@ + url
}

/// `s` without a trailing `.git`.
fn drop_dot_git(s: &str) -> (r: String)
    ensures
        r@ == without_dot_git(s@),
{
    match strip_suffix(s, ".git") {
        Some(t) => {
            assert(t@ =~= s@.take(s@.len() - ".git"@.len()));
            String::from_str(t)
        },
        None => String::from_str(s),
    }
}

/// The `owner/repo` of a GitHub remote URL.
pub fn parse_owner_repo(url: &str) -> (r: Result<String, String>)
    ensures
        match owner_repo_of(url@) {
            Some(o) => r is Ok && r->Ok_0@ == o,
            None => r is Err && r->Err_0@ == not_github_message(url@),
        },
{
    match strip_prefix(url, "git@github.com:") {
        Some(rest) => {
            assert(rest@ =~= url@.skip("git@github.com:"@.len() as int));
            return Ok(drop_dot_git(rest));
        },
        None => {},
    }
    match strip_prefix(url, "https://github.com/") {
        Some(rest) => {
            assert(rest@ =~= url@.skip("https://github.com/"@.len() as int));
            return Ok(drop_dot_git(rest));
        },
        None => {},
    }
    match strip_prefix(url, "http://github.com/") {
        Some(rest) => {
            assert(rest@ =~= url@.skip("http://github.com/"@.len() as int));
            return Ok(drop_dot_git(rest));
        },
        None => {},
    }
    Err(String::from_str("Cannot parse GitHub owner/repo from URL: ").concat(url))
}

/// A label of an issue.
#[derive(Debug)]
pub struct GitHubLabel {
    pub name: String,
    pub color: String,
}

/// An issue, for display.
#[derive(Debug)]
pub struct GitHubIssue {
    pub number: u64,
    pub title: String,
    pub body: String,
    pub state: String,
    pub labels: Vec<GitHubLabel>,
    pub assignee: Option<String>,
    pub created_at: String,
    pub updated_at: String,
    pub html_url: String,
}

/// A label as `gh` reports it.
#[derive(Debug)]
pub struct GhLabel {
    pub name: String,
    pub color: String,
}

/// An assignee as `gh` reports it.
#[derive(Debug)]
pub struct GhAssignee {
    pub login: String,
}

/// An issue as `gh issue list/view --json` reports it.
#[derive(Debug)]
pub struct GhIssue {
    pub number: u64,
    pub title: String,
    pub body: String,
    pub state: String,
    pub labels: Vec<GhLabel>,
    pub assignees: Vec<GhAssignee>,
    pub created_at: String,
    pub updated_at: String,
    pub url: String,
}

/// The labels of an issue as name and color.
pub open spec fn label_views(ls: Seq<GitHubLabel>) -> Seq<(Seq<char>, Seq<char>)> {
    ls.map_values(|l: GitHubLabel| (l.name@, l.color@))
}

/// The labels that `gh` reported, as name and color.
pub open spec fn gh_label_views(ls: Seq<GhLabel>) -> Seq<(Seq<char>, Seq<char>)> {
    ls.map_values(|l: GhLabel| (l.name@, l.color@))
}

/// An issue for display, from what `gh` reported: the labels kept in order,
/// the first assignee as the assignee, the URL as the page to open.
pub fn to_github_issue(raw: GhIssue) -> (r: GitHubIssue)
    ensures
        r.number == raw.number,
        r.title@ == raw.title@,
        r.body@ == raw.body@,
        r.state@ == raw.state@,
        label_views(r.labels@) == gh_label_views(raw.labels@),
        match r.assignee {
            Some(a) => raw.assignees@.len() > 0 && a@ == raw.assignees@[0].login@,
            None => raw.assignees@.len() == 0,
        },
        r.created_at@ == raw.created_at@,
        r.updated_at@ == raw.updated_at@,
        r.html_url@ == raw.url@,
{
    let mut labels: Vec<GitHubLabel> = Vec::new();
    let mut i: usize = 0;
    while i < raw.labels.len()
        invariant
            i <= raw.labels@.len(),
            label_views(labels@) == gh_label_views(raw.labels@.take(i as int)),
        decreases raw.labels@.len() - i,
    {
        let ghost before = labels@;
        labels.push(
            GitHubLabel { name: raw.labels[i].name.clone(), color: raw.labels[i].color.clone() },
        );
        assert(label_views(labels@) =~= label_views(before).push(
            (raw.labels@[i as int].name@, raw.labels@[i as int].color@),
        ));
        assert(raw.labels@.take(i + 1) =~= raw.labels@.take(i as int).push(raw.labels@[i as int]));
        assert(gh_label_views(raw.labels@.take(i + 1)) =~= gh_label_views(raw.labels@.take(i as int)).push(
            (raw.labels@[i as int].name@, raw.labels@[i as int].color@),
        ));
        i += 1;
    }
    assert(raw.labels@.take(i as int) =~= raw.labels@);
    let assignee = if raw.assignees.len() > 0 {
        Some(raw.assignees[0].login.clone())
    } else {
        None
    };
    GitHubIssue {
        number: raw.number,
        title: raw.title,
        body: raw.body,
        state: raw.state,
        labels,
        assignee,
        created_at: raw.created_at,
        updated_at: raw.updated_at,
        html_url: raw.url,
    }
}

/// A pull request: number, page, and state (`OPEN`, `CLOSED` or `MERGED`).
#[derive(Debug)]
pub struct PrInfo {
    pub number: u64,
    pub url: String,
    pub state: String,
}

/// A pull request as `gh pr view --json number,state,url,mergedAt` reports it.
#[derive(Debug)]
pub struct GhPrStatus {
    pub number: u64,
    pub url: String,
    pub state: String,
    pub merged_at: Option<String>,
}

/// A pull request's state for display: `MERGED` once it was merged, else the
/// state that `gh` reported.
pub fn to_pr_info(raw: GhPrStatus) -> (r: PrInfo)
    ensures
        r.number == raw.number,
        r.url@ == raw.url@,
        r.state@ == if raw.merged_at is Some {
            "MERGED"@
        } else {
            raw.state@
        },
{
    let state = if raw.merged_at.is_some() {
        String::from_str("MERGED")
    } else {
        raw.state
    };
    PrInfo { number: raw.number, url: raw.url, state }
}

} // verus!
