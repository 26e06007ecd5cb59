//! Git worktrees: reading the porcelain listing of `git worktree list`.

use vstd::prelude::*;
use crate::text::{index_of, lemma_index_of, chars_of, has_prefix, strip_prefix, str_eq};

verus! {

/// One worktree of a repository.
#[derive(Debug)]
pub struct Worktree {
    pub path: String,
    pub head: String,
    pub branch: String,
    pub is_bare: bool,
}

/// A worktree as plain values: path, head, branch, bare.
pub type WorktreeView = (Seq<char>, Seq<char>, Seq<char>, bool);

/// The plain values of a worktree.
pub open spec fn worktree_view(w: Worktree) -> WorktreeView {
    (w.path@, w.head@, w.branch@, w.is_bare)
}

/// A line that a newline ended, without its `\r\n` or `\n`.
pub open spec fn ended_line(l: Seq<char>) -> Seq<char> {
    if l.len() > 0 && l.last() == '\r' {
        l.drop_last()
    } else {
        l
    }
}

/// The lines of a text as `str::lines` gives them: split at `\n`, a `\r`
/// before it dropped, no line after a final newline.
pub open spec fn text_lines(s: Seq<char>) -> Seq<Seq<char>>
    decreases s.len(),
{
    let i = index_of(s, '\n');
    if i < 0 || i >= s.len() {
        if s.len() == 0 {
            Seq::empty()
        } else {
            seq![s]
        }
    } else {
        seq![ended_line(s.take(i))] + text_lines(s.skip(i + 1))
    }
}

/// A branch name without its `refs/heads/` prefix.
pub open spec fn short_branch(full: Seq<char>) -> Seq<char> {
    if has_prefix(full, "refs/heads/"@) {
        full.skip("refs/heads/"@.len() as int)
    } else {
        full
    }
}

/// A worktree that no line has filled in yet.
pub open spec fn blank_worktree() -> WorktreeView {
    (Seq::empty(), Seq::empty(), Seq::empty(), false)
}

/// The worktrees finished so far and the one being read, after one more line.
pub open spec fn scan_line(done: Seq<WorktreeView>, cur: WorktreeView, line: Seq<char>) -> (
    Seq<WorktreeView>,
    WorktreeView,
) {
    if has_prefix(line, "worktree "@) {
        (
            if cur.0.len() > 0 {
                done.push(cur)
            } else {
                done
            },
            (line.skip("worktree "@.len() as int), Seq::empty(), Seq::empty(), false),
        )
    } else if has_prefix(line, "HEAD "@) {
        (done, (cur.0, line.skip("HEAD "@.len() as int), cur.2, cur.3))
    } else if has_prefix(line, "branch "@) {
        (done, (cur.0, cur.1, short_branch(line.skip("branch "@.len() as int)), cur.3))
    } else if line == "bare"@ {
        (done, (cur.0, cur.1, cur.2, true))
    } else {
        (done, cur)
    }
}

/// The worktrees described by `lines`, after those in `done` and the one
/// being read; a worktree without a path is not one.
pub open spec fn scan(lines: Seq<Seq<char>>, done: Seq<WorktreeView>, cur: WorktreeView) -> Seq<
    WorktreeView,
>
    decreases lines.len(),
{
    if lines.len() == 0 {
        if cur.0.len() > 0 {
            done.push(cur)
        } else {
            done
        }
    } else {
        scan(lines.drop_first(), scan_line(done, cur, lines[0]).0, scan_line(done, cur, lines[0]).1)
    }
}

/// The worktrees that are not the bare repository itself, in order.
pub open spec fn non_bare(ws: Seq<WorktreeView>) -> Seq<WorktreeView>
    decreases ws.len(),
{
    if ws.len() == 0 {
        Seq::empty()
    } else if ws.last().3 {
        non_bare(ws.drop_last())
    } else {
        non_bare(ws.drop_last()).push(ws.last())
    }
}

/// The worktrees listed by `git worktree list --porcelain`, but the bare
/// repository's own entry.
pub open spec fn listed_worktrees(output: Seq<char>) -> Seq<WorktreeView> {
    non_bare(scan(text_lines(output), Seq::empty(), blank_worktree()))
}

/// The plain values of a sequence of worktrees.
pub open spec fn worktree_views(ws: Seq<Worktree>) -> Seq<WorktreeView> {
    ws.map_values(|w: Worktree| worktree_view(w))
}

/// Adds a finished worktree, unless it is the bare repository's own entry.
fn keep_worktree(out: &mut Vec<Worktree>, w: Worktree, ghost_done: Ghost<Seq<WorktreeView>>)
    requires
        worktree_views(old(out)@) == non_bare(ghost_done@),
    ensures
        worktree_views(final(out)@) == non_bare(ghost_done@.push(worktree_view(w))),
{
    let ghost d = ghost_done@;
    assert(d.push(worktree_view(w)).drop_last() =~= d);
    if !w.is_bare {
        let ghost before = out@;
        out.push(w);
        assert(worktree_views(out@) =~= worktree_views(before).push(worktree_view(w)));
    }
}

/// Reads the porcelain listing of `git worktree list` into worktrees,
/// leaving out the entry of the bare repository itself.
pub fn parse_worktree_list(output: &str) -> (r: Vec<Worktree>)
    ensures
        worktree_views(r@) == listed_worktrees(output@),
{
    let cs = chars_of(output);
    let n = cs.len();
    let mut out: Vec<Worktree> = Vec::new();
    let mut path = String::new();
    let mut head = String::new();
    let mut branch = String::new();
    let mut is_bare = false;
    let ghost mut done: Seq<WorktreeView> = Seq::empty();
    let mut start: usize = 0;
    assert(output@.skip(0) =~= output@);
    assert(worktree_views(out@) =~= non_bare(done));
    while start < n
        invariant
            cs@ == output@,
            n == output@.len(),
            start <= n,
            worktree_views(out@) == non_bare(done),
            listed_worktrees(output@) == non_bare(
                scan(
                    text_lines(output@.skip(start as int)),
                    done,
                    (path@, head@, branch@, is_bare),
                ),
            ),
        decreases n - start,
    {
        let mut nl = start;
        while nl < n && cs[nl] != '\n'
            invariant
                cs@ == output@,
                n == output@.len(),
                start <= nl <= n,
                forall|j: int| start <= j < nl ==> cs@[j] != '\n',
            decreases n - nl,
        {
            nl += 1;
        }
        let ghost rest = output@.skip(start as int);
        proof {
            assert forall|j: int| 0 <= j < nl - start implies rest[j] != '\n' by {
                assert(rest[j] == cs@[start + j]);
            }
            if nl < n {
                assert(rest[nl - start] == cs@[nl as int]);
            }
            lemma_index_of(rest, '\n', nl - start);
        }
        let end = if nl < n && nl > start && cs[nl - 1] == '\r' {
            nl - 1
        } else {
            nl
        };
        let line = output.substring_char(start, end);
        let ghost later = if nl < n {
            output@.skip(nl + 1)
        } else {
            Seq::<char>::empty()
        };
        proof {
            if nl < n {
                assert(rest.skip(nl - start + 1) =~= later);
                assert(line@ =~= ended_line(rest.take(nl - start)));
                assert(text_lines(rest) == seq![line@] + text_lines(later));
            } else {
                assert(line@ =~= rest);
                assert(text_lines(Seq::<char>::empty()) =~= Seq::<Seq<char>>::empty());
                assert(text_lines(rest) =~= seq![line@] + text_lines(later));
            }
            assert((seq![line@] + text_lines(later)).drop_first() =~= text_lines(later));
            assert((seq![line@] + text_lines(later))[0] == line@);
        }
        let ghost cur = (path@, head@, branch@, is_bare);
        let ghost next = scan_line(done, cur, line@);
        match strip_prefix(line, "worktree ") {
            Some(p) => {
                if path.unicode_len() > 0 {
                    let w = Worktree { path, head, branch, is_bare };
                    keep_worktree(&mut out, w, Ghost(done));
                    proof {
                        done = done.push(cur);
                    }
                }
                path = String::from_str(p);
                head = String::new();
                branch = String::new();
                is_bare = false;
            },
            None => match strip_prefix(line, "HEAD ") {
                Some(h) => {
                    head = String::from_str(h);
                },
                None => match strip_prefix(line, "branch ") {
                    Some(b) => {
                        branch = match strip_prefix(b, "refs/heads/") {
                            Some(x) => String::from_str(x),
                            None => String::from_str(b),
                        };
                    },
                    None => {
                        if str_eq(line, "bare") {
                            is_bare = true;
                        }
                    },
                },
            },
        }
        assert(next.0 == done);
        assert(next.1 == (path@, head@, branch@, is_bare));
        start = if nl < n {
            nl + 1
        } else {
            n
        };
        assert(output@.skip(start as int) =~= later);
    }
    assert(output@.skip(start as int) =~= Seq::<char>::empty());
    assert(text_lines(Seq::<char>::empty()) =~= Seq::<Seq<char>>::empty());
    if path.unicode_len() > 0 {
        let ghost cur = (path@, head@, branch@, is_bare);
        let w = Worktree { path, head, branch, is_bare };
        keep_worktree(&mut out, w, Ghost(done));
        proof {
            done = done.push(cur);
        }
    }
    out
}

} // verus!
