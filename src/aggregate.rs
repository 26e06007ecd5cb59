//! Counting the sessions that need action and the worst status of each
//! group, for dashboard badges.

use vstd::prelude::*;
use crate::attention::AttentionStatus;
use crate::text::str_eq;

verus! {

/// The worst status within a group: waiting for input outranks an error.
#[derive(Clone, Copy, Debug, PartialEq, Eq, Structural)]
pub enum GroupAttention {
    Waiting,
    Error,
}

/// Sessions that need action, and the worst status of each group.
#[derive(Debug)]
pub struct AttentionCounts {
    /// Number of sessions that need action (waiting or errored).
    pub total: u32,
    /// Each group that has such a session, once, with its worst status, in
    /// the order in which the groups first appear.
    pub groups: Vec<(String, GroupAttention)>,
}

/// The label under which a group status is shown.
pub open spec fn group_label(a: GroupAttention) -> Seq<char> {
    match a {
        GroupAttention::Waiting => "waiting"@,
        GroupAttention::Error => "error"@,
    }
}

impl GroupAttention {
    /// The label under which this status is shown: `waiting` or `error`.
    pub fn label(&self) -> (r: &'static str)
        ensures
            r@ == group_label(*self),
    {
        match self {
            GroupAttention::Waiting => "waiting",
            GroupAttention::Error => "error",
        }
    }
}

/// A status that asks for action.
pub open spec fn is_actionable(s: AttentionStatus) -> bool {
    s == AttentionStatus::NeedsInput || s == AttentionStatus::Error
}

/// How many of the classified sessions need action.
pub open spec fn actionable_count(rs: Seq<(String, AttentionStatus)>) -> nat
    decreases rs.len(),
{
    if rs.len() == 0 {
        0
    } else {
        actionable_count(rs.drop_last()) + if is_actionable(rs.last().1) {
            1nat
        } else {
            0nat
        }
    }
}

/// Some session of group `g` has status `s`.
pub open spec fn group_has(rs: Seq<(String, AttentionStatus)>, g: Seq<char>, s: AttentionStatus) -> bool {
    exists|i: int| 0 <= i < rs.len() && (#[trigger] rs[i]).0@ == g && rs[i].1 == s
}

/// The worst status of group `g`: waiting when any of its sessions needs
/// input, else error when any of them errored.
pub open spec fn group_status(rs: Seq<(String, AttentionStatus)>, g: Seq<char>) -> Option<GroupAttention> {
    if group_has(rs, g, AttentionStatus::NeedsInput) {
        Some(GroupAttention::Waiting)
    } else if group_has(rs, g, AttentionStatus::Error) {
        Some(GroupAttention::Error)
    } else {
        None
    }
}

/// `groups` names each group at most once.
pub open spec fn keys_unique(groups: Seq<(String, GroupAttention)>) -> bool {
    forall|i: int, j: int|
        0 <= i < j < groups.len() ==> (#[trigger] groups[i]).0@ != (#[trigger] groups[j]).0@
}

/// `groups` holds exactly the groups with a worst status, each with it.
pub open spec fn groups_match(
    groups: Seq<(String, GroupAttention)>,
    rs: Seq<(String, AttentionStatus)>,
) -> bool {
    &&& keys_unique(groups)
    &&& forall|i: int| 0 <= i < groups.len() ==> group_status(rs, (#[trigger] groups[i]).0@) == Some(groups[i].1)
    &&& forall|g: Seq<char>| #[trigger] group_status(rs, g) is Some ==> exists|i: int| 0 <= i < groups.len() && (#[trigger] groups[i]).0@ == g
}

/// The worst status of group `h` after one more classified session.
pub open spec fn status_after(
    prev: Option<GroupAttention>,
    h: Seq<char>,
    r: (String, AttentionStatus),
) -> Option<GroupAttention> {
    if h != r.0@ {
        prev
    } else if r.1 == AttentionStatus::NeedsInput {
        Some(GroupAttention::Waiting)
    } else if r.1 == AttentionStatus::Error {
        if prev == Some(GroupAttention::Waiting) {
            prev
        } else {
            Some(GroupAttention::Error)
        }
    } else {
        prev
    }
}

proof fn lemma_has_push(
    rs: Seq<(String, AttentionStatus)>,
    r: (String, AttentionStatus),
    h: Seq<char>,
    t: AttentionStatus,
)
    ensures
        group_has(rs.push(r), h, t) == (group_has(rs, h, t) || (r.0@ == h && r.1 == t)),
{
    let after = rs.push(r);
    if group_has(after, h, t) {
        let w = choose|w: int| 0 <= w < after.len() && (#[trigger] after[w]).0@ == h && after[w].1 == t;
        if w < rs.len() {
            assert(rs[w] == after[w]);
        }
    }
    if group_has(rs, h, t) {
        let w = choose|w: int| 0 <= w < rs.len() && (#[trigger] rs[w]).0@ == h && rs[w].1 == t;
        assert(rs[w] == after[w]);
    }
    if r.0@ == h && r.1 == t {
        assert(after[rs.len() as int] == r);
    }
}

proof fn lemma_status_push(rs: Seq<(String, AttentionStatus)>, r: (String, AttentionStatus), h: Seq<char>)
    ensures
        group_status(rs.push(r), h) == status_after(group_status(rs, h), h, r),
{
    lemma_has_push(rs, r, h, AttentionStatus::NeedsInput);
    lemma_has_push(rs, r, h, AttentionStatus::Error);
}

/// The position of group `g` in `groups`.
fn find_group(groups: &Vec<(String, GroupAttention)>, g: &str) -> (r: Option<usize>)
    ensures
        match r {
            Some(k) => k < groups@.len() && groups@[k as int].0@ == g@,
            None => forall|i: int| 0 <= i < groups@.len() ==> (#[trigger] groups@[i]).0@ != g@,
        },
{
    let mut k: usize = 0;
    while k < groups.len()
        invariant
            k <= groups@.len(),
            forall|i: int| 0 <= i < k ==> (#[trigger] groups@[i]).0@ != g@,
        decreases groups@.len() - k,
    {
        if str_eq(groups[k].0.as_str(), g) {
            return Some(k);
        }
        k += 1;
    }
    None
}

/// Counts the sessions that need action and the worst status of each group,
/// from each candidate session's group and classification. Other statuses
/// are no longer actionable and count for nothing.
pub fn get_attention_counts(classified: &[(String, AttentionStatus)]) -> (r: AttentionCounts)
    requires
        classified@.len() <= u32::MAX,
    ensures
        r.total == actionable_count(classified@),
        groups_match(r.groups@, classified@),
{
    let mut total: u32 = 0;
    let mut groups: Vec<(String, GroupAttention)> = Vec::new();
    let mut i: usize = 0;
    while i < classified.len()
        invariant
            i <= classified@.len() <= u32::MAX,
            total == actionable_count(classified@.take(i as int)),
            total <= i,
            groups_match(groups@, classified@.take(i as int)),
        decreases classified@.len() - i,
    {
        let ghost before = classified@.take(i as int);
        let ghost after = classified@.take(i + 1);
        let ghost old_groups = groups@;
        assert(after =~= before.push(classified@[i as int]));
        assert(after.drop_last() =~= before);
        assert(actionable_count(after) == actionable_count(before) + if is_actionable(classified@[i as int].1) { 1nat } else { 0nat });
        let g = &classified[i].0;
        let s = classified[i].1;
        assert forall|h: Seq<char>| #[trigger] group_status(after, h) == status_after(
            group_status(before, h),
            h,
            classified@[i as int],
        ) by {
            lemma_status_push(before, classified@[i as int], h);
        }
        if s == AttentionStatus::NeedsInput || s == AttentionStatus::Error {
            let rank = if s == AttentionStatus::NeedsInput {
                GroupAttention::Waiting
            } else {
                GroupAttention::Error
            };
            total = total + 1;
            match find_group(&groups, g.as_str()) {
                None => {
                    proof {
                        if group_status(before, g@) is Some {
                            let w = choose|w: int| 0 <= w < old_groups.len() && (#[trigger] old_groups[w]).0@ == g@;
                        }
                    }
                    groups.push((g.clone(), rank));
                    assert forall|x: int, y: int| 0 <= x < y < groups@.len() implies (#[trigger] groups@[x]).0@ != (#[trigger] groups@[y]).0@ by {
                        if y < old_groups.len() {
                            assert(old_groups[x] == groups@[x] && old_groups[y] == groups@[y]);
                        } else {
                            assert(old_groups[x] == groups@[x]);
                        }
                    }
                    assert forall|x: int| 0 <= x < groups@.len() implies group_status(after, (#[trigger] groups@[x]).0@) == Some(groups@[x].1) by {
                        if x < old_groups.len() {
                            assert(old_groups[x] == groups@[x]);
                        }
                    }
                    assert forall|h: Seq<char>| #[trigger] group_status(after, h) is Some implies exists|x: int| 0 <= x < groups@.len() && (#[trigger] groups@[x]).0@ == h by {
                        if h == g@ {
                            assert(groups@[old_groups.len() as int].0@ == h);
                        } else {
                            let w = choose|w: int| 0 <= w < old_groups.len() && (#[trigger] old_groups[w]).0@ == h;
                            assert(groups@[w] == old_groups[w]);
                        }
                    }
                },
                Some(k) => {
                    if rank == GroupAttention::Waiting && groups[k].1 == GroupAttention::Error {
                        let key = groups[k].0.clone();
                        groups.set(k, (key, GroupAttention::Waiting));
                    }
                    assert(groups@.len() == old_groups.len());
                    assert forall|x: int| 0 <= x < groups@.len() implies (#[trigger] groups@[x]).0@ == old_groups[x].0@ by {}
                    assert forall|x: int, y: int| 0 <= x < y < groups@.len() implies (#[trigger] groups@[x]).0@ != (#[trigger] groups@[y]).0@ by {
                        assert(old_groups[x].0@ != old_groups[y].0@);
                    }
                    assert forall|x: int| 0 <= x < groups@.len() implies group_status(after, (#[trigger] groups@[x]).0@) == Some(groups@[x].1) by {
                        if x != k {
                            assert(old_groups[x].0@ != old_groups[k as int].0@);
                        }
                    }
                    assert forall|h: Seq<char>| #[trigger] group_status(after, h) is Some implies exists|x: int| 0 <= x < groups@.len() && (#[trigger] groups@[x]).0@ == h by {
                        if h == g@ {
                            assert(groups@[k as int].0@ == h);
                        } else {
                            let w = choose|w: int| 0 <= w < old_groups.len() && (#[trigger] old_groups[w]).0@ == h;
                            assert(groups@[w].0@ == old_groups[w].0@);
                        }
                    }
                },
            }
        } else {
            assert forall|h: Seq<char>| #[trigger] group_status(after, h) is Some implies exists|x: int| 0 <= x < groups@.len() && (#[trigger] groups@[x]).0@ == h by {
                assert(group_status(before, h) is Some);
            }
        }
        assert(groups_match(groups@, after));
        i += 1;
    }
    assert(classified@.take(i as int) =~= classified@);
    AttentionCounts { total, groups }
}

/// A group with a session that needs input is reported as waiting, never
/// as in error, whatever errors its other sessions have: in every report
/// that matches the classified sessions, its one entry is `waiting`.
pub proof fn lemma_waiting_dominates(
    rs: Seq<(String, AttentionStatus)>,
    g: Seq<char>,
    groups: Seq<(String, GroupAttention)>,
)
    requires
        group_has(rs, g, AttentionStatus::NeedsInput),
        groups_match(groups, rs),
    ensures
        group_status(rs, g) == Some(GroupAttention::Waiting),
        exists|i: int| 0 <= i < groups.len() && (#[trigger] groups[i]).0@ == g,
        forall|i: int|
            0 <= i < groups.len() && (#[trigger] groups[i]).0@ == g ==> groups[i].1
                == GroupAttention::Waiting && group_label(groups[i].1) == "waiting"@,
{
}

/// Once a group is waiting, a later errored session does not change that.
pub proof fn lemma_error_never_overwrites_waiting(
    rs: Seq<(String, AttentionStatus)>,
    later: (String, AttentionStatus),
    g: Seq<char>,
)
    requires
        group_status(rs, g) == Some(GroupAttention::Waiting),
        later.1 == AttentionStatus::Error,
    ensures
        group_status(rs.push(later), g) == Some(GroupAttention::Waiting),
{
    lemma_status_push(rs, later, g);
}

} // verus!
