//! The library's general guarantees, stated and proved once over the cache
//! model: what the rebuilt children index holds, what a root task derives,
//! why the read-with-repair cycle reaches a fixed point, and why a parent
//! whose last active child went away loses its hierarchy tag.

use crate::cache::{
    active_kids, derived_project, distinct_uuids, lemma_active_kids_nonempty,
    lemma_active_kids_push, names_parent, walk, TaskCache, Walk,
};
use crate::task::{active, opt_text, spec_has_tag, Task};
use vstd::prelude::*;

verus! {

/// How often `x` occurs in `s`.
pub open spec fn count_of(s: Seq<Seq<char>>, x: Seq<char>) -> nat
    decreases s.len(),
{
    if s.len() == 0 {
        0
    } else {
        (if s.last() == x {
            1nat
        } else {
            0nat
        }) + count_of(s.drop_last(), x)
    }
}

proof fn lemma_count_push(s: Seq<Seq<char>>, e: Seq<char>, x: Seq<char>)
    ensures
        count_of(s.push(e), x) == count_of(s, x) + (if e == x {
            1nat
        } else {
            0nat
        }),
{
    assert(s.push(e).drop_last() =~= s);
    assert(s.push(e).last() == e);
}

/// When no task carries `u`, `u` stands in no rebuilt child list.
proof fn lemma_kids_count_zero(ts: Seq<Task>, p: Seq<char>, u: Seq<char>)
    requires
        forall|j: int| 0 <= j < ts.len() ==> (#[trigger] ts[j]).uuid@ != u,
    ensures
        count_of(active_kids(ts, p), u) == 0,
    decreases ts.len(),
{
    if ts.len() == 0 {
        assert(active_kids(ts, p) =~= Seq::<Seq<char>>::empty()) by {
            reveal(Seq::filter);
        }
    } else {
        let s0 = ts.drop_last();
        let last = ts.last();
        assert(ts =~= s0.push(last));
        assert forall|j: int| 0 <= j < s0.len() implies (#[trigger] s0[j]).uuid@ != u by {
            assert(s0[j] == ts[j]);
        }
        lemma_kids_count_zero(s0, p, u);
        lemma_active_kids_push(s0, last, p);
        if names_parent(last, p) {
            lemma_count_push(active_kids(s0, p), last.uuid@, u);
            assert(ts[ts.len() - 1].uuid@ != u);
        }
    }
}

/// An active task naming parent `p` contributes its identifier to `p`'s
/// rebuilt child list exactly once.
proof fn lemma_refresh_child_once(ts: Seq<Task>, p: Seq<char>, i: int)
    requires
        distinct_uuids(ts),
        0 <= i < ts.len(),
        names_parent(ts[i], p),
    ensures
        count_of(active_kids(ts, p), ts[i].uuid@) == 1,
    decreases ts.len(),
{
    let s0 = ts.drop_last();
    let last = ts.last();
    assert(ts =~= s0.push(last));
    lemma_active_kids_push(s0, last, p);
    if i == ts.len() - 1 {
        assert(names_parent(last, p));
        assert forall|j: int| 0 <= j < s0.len() implies (#[trigger] s0[j]).uuid@ != ts[i].uuid@ by {
            assert(s0[j] == ts[j]);
            assert(ts[j].uuid@ != ts[i].uuid@);
        }
        lemma_kids_count_zero(s0, p, ts[i].uuid@);
        lemma_count_push(active_kids(s0, p), last.uuid@, ts[i].uuid@);
    } else {
        assert(distinct_uuids(s0)) by {
            assert forall|a: int, b: int|
                0 <= a < b < s0.len() implies (#[trigger] s0[a]).uuid@ != (
            #[trigger] s0[b]).uuid@ by {
                assert(s0[a] == ts[a] && s0[b] == ts[b]);
            }
        }
        assert(s0[i] == ts[i]);
        lemma_refresh_child_once(s0, p, i);
        if names_parent(last, p) {
            lemma_count_push(active_kids(s0, p), last.uuid@, ts[i].uuid@);
            assert(ts[ts.len() - 1].uuid@ != ts[i].uuid@);
        }
    }
}

/// A completed or deleted task contributes to no rebuilt child list.
proof fn lemma_refresh_inactive_absent(ts: Seq<Task>, p: Seq<char>, i: int)
    requires
        distinct_uuids(ts),
        0 <= i < ts.len(),
        !active(ts[i].status),
    ensures
        count_of(active_kids(ts, p), ts[i].uuid@) == 0,
    decreases ts.len(),
{
    let s0 = ts.drop_last();
    let last = ts.last();
    assert(ts =~= s0.push(last));
    lemma_active_kids_push(s0, last, p);
    if i == ts.len() - 1 {
        assert(!names_parent(last, p));
        assert forall|j: int| 0 <= j < s0.len() implies (#[trigger] s0[j]).uuid@ != ts[i].uuid@ by {
            assert(s0[j] == ts[j]);
        }
        lemma_kids_count_zero(s0, p, ts[i].uuid@);
    } else {
        assert(distinct_uuids(s0)) by {
            assert forall|a: int, b: int|
                0 <= a < b < s0.len() implies (#[trigger] s0[a]).uuid@ != (
            #[trigger] s0[b]).uuid@ by {
                assert(s0[a] == ts[a] && s0[b] == ts[b]);
            }
        }
        assert(s0[i] == ts[i]);
        lemma_refresh_inactive_absent(s0, p, i);
        if names_parent(last, p) {
            lemma_count_push(active_kids(s0, p), last.uuid@, ts[i].uuid@);
            assert(ts[ts.len() - 1].uuid@ != ts[i].uuid@);
        }
    }
}

/// After a bulk reload of records with distinct identifiers, every record
/// that is active and names parent `p` stands exactly once in `p`'s child
/// list, and a completed or deleted record stands in no child list.
pub proof fn lemma_children_exact_after_refresh(c: TaskCache, ts: Seq<Task>, p: Seq<char>, i: int)
    requires
        c.refreshed_from(ts),
        distinct_uuids(ts),
        0 <= i < ts.len(),
    ensures
        names_parent(ts[i], p) ==> c.kids_at(p) is Some && count_of(c.kids_at(p)->0, ts[i].uuid@)
            == 1,
        !active(ts[i].status) ==> match c.kids_at(p) {
            Option::Some(kids) => count_of(kids, ts[i].uuid@) == 0,
            Option::None => true,
        },
{
    if names_parent(ts[i], p) {
        lemma_refresh_child_once(ts, p, i);
        assert(active_kids(ts, p).len() > 0) by {
            if active_kids(ts, p).len() == 0 {
                assert(count_of(active_kids(ts, p), ts[i].uuid@) == 0);
            }
        }
    }
    if !active(ts[i].status) {
        lemma_refresh_inactive_absent(ts, p, i);
    }
}

/// A cached root task (one without a hierarchy link) derives no project
/// name: its ancestor walk is the empty chain, and the empty chain derives
/// nothing.
pub proof fn lemma_root_derives_nothing(c: TaskCache, t: Task)
    requires
        c.task_at(t.uuid@) == Option::Some(t),
        t.partof is None,
    ensures
        c.ancestor_walk(t) matches Walk::Chain(chain) && chain.len() == 0 && derived_project(
            chain,
        ) is None,
{
}

/// The ancestor walk reads only each record's hierarchy link and
/// description, so a single-task reload that preserves both leaves every
/// walk over the snapshot unchanged.
pub proof fn lemma_walk_stable(
    c1: TaskCache,
    c2: TaskCache,
    o: Task,
    t: Task,
    link: Option<Seq<char>>,
    fuel: nat,
)
    requires
        c1.task_at(t.uuid@) == Option::Some(o),
        opt_text(o.partof) == opt_text(t.partof),
        o.description@ == t.description@,
        c2.task_at(t.uuid@) == Option::Some(t),
        forall|id: Seq<char>| id != t.uuid@ ==> c2.task_at(id) == c1.task_at(id),
    ensures
        walk(c2.tasks@, link, fuel) == walk(c1.tasks@, link, fuel),
    decreases fuel,
{
    match link {
        Option::None => {},
        Option::Some(p) => {
            if p == t.uuid@ {
                if fuel > 0 {
                    lemma_walk_stable(c1, c2, o, t, opt_text(t.partof), (fuel - 1) as nat);
                }
            } else {
                assert(c2.task_at(p) == c1.task_at(p));
                match c1.task_at(p) {
                    Option::None => {},
                    Option::Some(r) => {
                        if fuel > 0 {
                            lemma_walk_stable(c1, c2, o, t, opt_text(r.partof), (fuel - 1) as nat);
                        }
                    },
                }
            }
        },
    }
}

/// The read-with-repair cycle reaches a fixed point.  When the reload after
/// a repair hands back a record whose hierarchy link and description are
/// unchanged, whose project field holds the derived name, and whose
/// hierarchy tag matches the children index, the reloaded cache derives the
/// same chain and finds both policies satisfied: by the contracts of
/// `plan_project_fix` and `plan_tag_fix`, a second read plans no corrective
/// mutation.
pub proof fn lemma_read_repair_idempotent(
    c1: TaskCache,
    c2: TaskCache,
    o: Task,
    t: Task,
    chain: Seq<Seq<char>>,
)
    requires
        c1.task_at(t.uuid@) == Option::Some(o),
        opt_text(o.partof) == opt_text(t.partof),
        o.description@ == t.description@,
        c1.ancestor_walk(o) == Walk::Chain(chain),
        opt_text(t.project) == derived_project(chain),
        spec_has_tag(t, "project"@) == c1.tag_needed(t.uuid@),
        c2.task_at(t.uuid@) == Option::Some(t),
        forall|id: Seq<char>| id != t.uuid@ ==> c2.task_at(id) == c1.task_at(id),
        c2.tasks@.len() == c1.tasks@.len(),
        c2.children@ == c1.children@,
    ensures
        c2.ancestor_walk(t) == Walk::Chain(chain),
        opt_text(t.project) == derived_project(chain),
        spec_has_tag(t, "project"@) == c2.tag_needed(t.uuid@),
{
    lemma_walk_stable(c1, c2, o, t, opt_text(t.partof), c1.tasks@.len() as nat);
}

/// The hierarchy-tag policy settles the tag.  When the reload after a tag
/// repair hands back a record whose tag matches what the children index
/// needed, the cached record carries the tag exactly when the index records
/// children for it — a childless task without the tag, a parent with it —
/// and `plan_tag_fix` plans nothing further.
pub proof fn lemma_tag_policy_settles(c1: TaskCache, c2: TaskCache, t: Task)
    requires
        spec_has_tag(t, "project"@) == c1.tag_needed(t.uuid@),
        c2.task_at(t.uuid@) == Option::Some(t),
        c2.children@ == c1.children@,
    ensures
        spec_has_tag(t, "project"@) == c2.tag_needed(t.uuid@),
        !c2.tag_needed(t.uuid@) ==> !spec_has_tag(t, "project"@),
        c2.tag_needed(t.uuid@) ==> spec_has_tag(t, "project"@),
{
}

/// A parent whose last active child went away loses its hierarchy tag:
/// after a bulk reload in which no active task names `p`, the children
/// index records nothing for `p`, so a read with the tag policy on plans
/// the removal of the tag from any record of `p` that still carries it (by
/// the contract of `plan_tag_fix`).
pub proof fn lemma_last_child_gone(c: TaskCache, ts: Seq<Task>, p: Seq<char>)
    requires
        c.refreshed_from(ts),
        forall|j: int| 0 <= j < ts.len() ==> !names_parent(#[trigger] ts[j], p),
    ensures
        !c.tag_needed(p),
{
    lemma_active_kids_nonempty(ts, p);
}

} // verus!
