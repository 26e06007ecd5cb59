//! Paths: expanding `~/`, where a conversation's transcript may lie, and the
//! search for the root of a bare-repository worktree layout.

use vstd::prelude::*;
use crate::text::{has_prefix, starts_with, strip_prefix};

verus! {

/// Relies on dirs::home_dir: the current user's home directory, when it can
/// be found; it depends on the environment.
#[verifier::external_body]
fn home_dir() -> (r: Option<String>) {
    dirs::home_dir().map(|p| p.to_string_lossy().into_owned())
}

/// What `Path::parent` gives for a path: the path without its final
/// component, `None` when it ends in a root or is empty.
pub uninterp spec fn parent_path(p: Seq<char>) -> Option<Seq<char>>;

/// Relies on std::path::Path::parent: the path without its final component,
/// which is a shorter path; `None` when there is none.
#[verifier::external_body]
fn parent_of(p: &str) -> (r: Option<String>)
    ensures
        r is Some ==> parent_path(p@) == Some(r->0@) && r->0@.len() < p@.len(),
        r is None ==> parent_path(p@) is None,
{
    std::path::Path::new(p).parent().map(|q| q.to_string_lossy().into_owned())
}

/// `rest` appended to `base` as `PathBuf::push` does it on Unix: an absolute
/// `rest` replaces `base`; otherwise a `/` is put between them when `base`
/// is not empty and does not end in one.
pub open spec fn joined(base: Seq<char>, rest: Seq<char>) -> Seq<char> {
    if rest.len() > 0 && rest[0] == '/' {
        rest
    } else if base.len() == 0 || base.last() == '/' {
        base + rest
    } else {
        base + "/"@ + rest
    }
}

/// Appends `rest` to the path `base`.
pub fn join_path(base: &str, rest: &str) -> (r: String)
    ensures
        r@ == joined(base@, rest@),
{
    proof {
        reveal_strlit("/");
    }
    let absolute = starts_with(rest, "/");
    assert(absolute == (rest@.len() > 0 && rest@[0] == '/')) by {
        if rest@.len() > 0 {
            assert(rest@.subrange(0, 1)[0] == rest@[0]);
            if rest@[0] == '/' {
                assert(rest@.subrange(0, 1) =~= "/"@);
            }
        }
    }
    if absolute {
        return String::from_str(rest);
    }
    let n = base.unicode_len();
    if n == 0 || base.get_char(n - 1) == '/' {
        String::from_str(base).concat(rest)
    } else {
        String::from_str(base).concat("/").concat(rest)
    }
}

/// `path` with a leading `~/` replaced by `home`, when there is a home.
pub open spec fn tilde_expanded(path: Seq<char>, home: Option<Seq<char>>) -> Seq<char> {
    if has_prefix(path, "~/"@) && home is Some {
        joined(home->0, path.subrange(2, path.len() as int))
    } else {
        path
    }
}

/// Expands a leading `~/` with the given home directory. A bare `~` is left
/// as it is.
pub fn expand_tilde_with(path: &str, home: Option<&str>) -> (r: String)
    ensures
        r@ == tilde_expanded(path@, crate::attention::text_view(home)),
{
    proof {
        reveal_strlit("~/");
    }
    match strip_prefix(path, "~/") {
        Some(rest) => match home {
            Some(h) => join_path(h, rest),
            None => String::from_str(path),
        },
        None => String::from_str(path),
    }
}

/// Expands a leading `~/` with the current user's home directory, when it
/// can be found.
pub fn expand_tilde(path: &str) -> (r: String)
    ensures
        exists|home: Option<Seq<char>>| r@ == #[trigger] tilde_expanded(path@, home),
{
    let home = home_dir();
    let r = match &home {
        Some(h) => expand_tilde_with(path, Some(h.as_str())),
        None => expand_tilde_with(path, None),
    };
    assert(r@ == tilde_expanded(path@, crate::summary::string_view(home)));
    r
}

/// `s` with every `/` written as `-`.
pub open spec fn dashed(s: Seq<char>) -> Seq<char> {
    s.map_values(|c: char| if c == '/' { '-' } else { c })
}

/// The name of a project's transcript directory: its path with every `/`
/// written as `-`.
pub fn encoded_project_dir(project_path: &str) -> (r: String)
    ensures
        r@ == dashed(project_path@),
{
    proof {
        reveal_strlit("-");
    }
    let n = project_path.unicode_len();
    let mut out = String::new();
    let mut i: usize = 0;
    while i < n
        invariant
            n == project_path@.len(),
            i <= n,
            out@ == dashed(project_path@.take(i as int)),
        decreases n - i,
    {
        let c = project_path.get_char(i);
        assert(project_path@.take(i + 1) =~= project_path@.take(i as int).push(c));
        assert(dashed(project_path@.take(i as int).push(c)) =~= dashed(project_path@.take(i as int)).push(
            if c == '/' {
                '-'
            } else {
                c
            },
        ));
        if c == '/' {
            proof {
                reveal_strlit("-");
            }
            assert("-"@ =~= seq!['-']);
            out.append("-");
        } else {
            let one = project_path.substring_char(i, i + 1);
            assert(one@ =~= seq![c]);
            out.append(one);
        }
        assert(out@ =~= dashed(project_path@.take(i + 1)));
        i += 1;
    }
    assert(project_path@.take(n as int) =~= project_path@);
    out
}

/// The file name of a conversation's transcript.
pub fn transcript_file_name(conversation_id: &str) -> (r: String)
    ensures
        r@ == conversation_id@ + ".jsonl"@,
{
    String::from_str(conversation_id).concat(".jsonl")
}

/// The views of a sequence of strings.
pub open spec fn views(v: Seq<String>) -> Seq<Seq<char>> {
    v.map_values(|s: String| s@)
}

/// Transcript paths in the listed directories whose names start with the
/// encoded project name `enc`, in the order given.
pub open spec fn worktree_paths(
    base: Seq<char>,
    enc: Seq<char>,
    file: Seq<char>,
    names: Seq<String>,
) -> Seq<Seq<char>>
    decreases names.len(),
{
    if names.len() == 0 {
        Seq::empty()
    } else {
        (if has_prefix(names[0]@, enc) {
            seq![joined(joined(base, names[0]@), file)]
        } else {
            Seq::empty()
        }) + worktree_paths(base, enc, file, names.drop_first())
    }
}

/// Where the transcript of a conversation may lie, in the order to try them:
/// first in the project's own directory under `base`, then in each listed
/// directory whose name starts with the project's encoded name (worktrees of
/// the project).
pub open spec fn transcript_paths(
    base: Seq<char>,
    project_path: Seq<char>,
    conversation_id: Seq<char>,
    dir_names: Seq<String>,
) -> Seq<Seq<char>> {
    let file = conversation_id + ".jsonl"@;
    seq![joined(joined(base, dashed(project_path)), file)] + worktree_paths(
        base,
        dashed(project_path),
        file,
        dir_names,
    )
}

/// The paths at which to look for a conversation's transcript, in order;
/// `dir_names` are the names of the directories under `base`, as listed.
pub fn transcript_candidates(
    base: &str,
    project_path: &str,
    conversation_id: &str,
    dir_names: &[String],
) -> (r: Vec<String>)
    ensures
        views(r@) == transcript_paths(base@, project_path@, conversation_id@, dir_names@),
{
    let enc = encoded_project_dir(project_path);
    let file = transcript_file_name(conversation_id);
    let own = join_path(base, enc.as_str());
    let mut out: Vec<String> = Vec::new();
    out.push(join_path(own.as_str(), file.as_str()));
    let ghost total = transcript_paths(base@, project_path@, conversation_id@, dir_names@);
    let mut i: usize = 0;
    assert(dir_names@.skip(0) =~= dir_names@);
    assert(views(out@) =~= seq![total[0]]);
    assert(total =~= views(out@) + worktree_paths(base@, enc@, file@, dir_names@.skip(0)));
    while i < dir_names.len()
        invariant
            i <= dir_names@.len(),
            total == views(out@) + worktree_paths(base@, enc@, file@, dir_names@.skip(i as int)),
        decreases dir_names@.len() - i,
    {
        let ghost rest = dir_names@.skip(i as int);
        assert(rest[0] == dir_names@[i as int]);
        assert(rest.drop_first() =~= dir_names@.skip(i + 1));
        let name = &dir_names[i];
        if starts_with(name.as_str(), enc.as_str()) {
            let dir = join_path(base, name.as_str());
            let path = join_path(dir.as_str(), file.as_str());
            let ghost before = out@;
            out.push(path);
            assert(views(out@) =~= views(before).push(path@));
            assert(views(out@) + worktree_paths(base@, enc@, file@, dir_names@.skip(i + 1)) =~= views(before) + worktree_paths(base@, enc@, file@, rest));
        }
        i += 1;
    }
    assert(dir_names@.skip(i as int) =~= Seq::<String>::empty());
    assert(views(out@) =~= total);
    out
}

/// A path and then each of its parents, as `Path::parent` gives them.
pub open spec fn ancestors(p: Seq<char>) -> Seq<Seq<char>>
    decreases p.len(),
{
    match parent_path(p) {
        Some(q) => if q.len() < p.len() {
            seq![p] + ancestors(q)
        } else {
            seq![p]
        },
        None => seq![p],
    }
}

/// The directories that may hold the `.bare` directory of a bare-repository
/// layout around `path`: the path, with `~/` expanded, and each of its
/// parents, nearest first.
pub fn bare_root_candidates(path: &str) -> (r: Vec<String>)
    ensures
        exists|home: Option<Seq<char>>| views(r@) == ancestors(#[trigger] tilde_expanded(path@, home)),
{
    let start = expand_tilde(path);
    let ghost home = choose|home: Option<Seq<char>>| start@ == #[trigger] tilde_expanded(path@, home);
    let mut out: Vec<String> = Vec::new();
    let mut current = start;
    loop
        invariant_except_break
            views(out@) + ancestors(current@) == ancestors(start@),
        invariant
            start@ == tilde_expanded(path@, home),
        ensures
            views(out@) == ancestors(start@),
        decreases current@.len(),
    {
        let parent = parent_of(current.as_str());
        let ghost before = out@;
        let ghost cur = current@;
        match parent {
            Some(q) => {
                out.push(current);
                assert(views(out@) =~= views(before).push(cur));
                assert(ancestors(cur) == seq![cur] + ancestors(q@));
                assert(views(out@) + ancestors(q@) =~= views(before) + ancestors(cur));
                current = q;
            },
            None => {
                out.push(current);
                assert(views(out@) =~= views(before).push(cur));
                assert(views(out@) =~= views(before) + ancestors(cur));
                break ;
            },
        }
    }
    out
}

/// The first candidate directory that holds a `.bare` directory.
pub open spec fn first_marked(candidates: Seq<Seq<char>>, has_bare: Seq<bool>) -> Option<Seq<char>>
    decreases candidates.len(),
{
    if candidates.len() == 0 || has_bare.len() == 0 {
        None
    } else if has_bare[0] {
        Some(candidates[0])
    } else {
        first_marked(candidates.drop_first(), has_bare.drop_first())
    }
}

/// The root of a bare-repository layout: the first of `candidates` (from
/// `bare_root_candidates`) for which `has_bare` tells that it holds a
/// `.bare` directory.
pub fn find_bare_root(candidates: &[String], has_bare: &[bool]) -> (r: Option<String>)
    requires
        candidates@.len() == has_bare@.len(),
    ensures
        crate::summary::string_view(r) == first_marked(views(candidates@), has_bare@),
{
    let mut i: usize = 0;
    assert(views(candidates@).skip(0) =~= views(candidates@));
    assert(has_bare@.skip(0) =~= has_bare@);
    while i < candidates.len()
        invariant
            i <= candidates@.len() == has_bare@.len(),
            first_marked(views(candidates@).skip(i as int), has_bare@.skip(i as int)) == first_marked(
                views(candidates@),
                has_bare@,
            ),
        decreases candidates@.len() - i,
    {
        assert(views(candidates@).skip(i as int).drop_first() =~= views(candidates@).skip(i + 1));
        assert(has_bare@.skip(i as int).drop_first() =~= has_bare@.skip(i + 1));
        assert(views(candidates@).skip(i as int)[0] == candidates@[i as int]@);
        if has_bare[i] {
            return Some(candidates[i].clone());
        }
        i += 1;
    }
    None
}

} // verus!
