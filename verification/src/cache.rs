use crate::error::{Error, ErrorKind};
use crate::task::{active, opt_text, Task};
use crate::text::texts;
use vstd::prelude::*;

verus! {

/// The child identifiers recorded for one parent task.
pub struct ChildEntry {
    pub parent: String,
    pub kids: Vec<String>,
}

/// An in-memory mirror of the external task state: the authoritative local
/// snapshot of every task, a derived parent-to-children index over the
/// active tasks, and the two self-healing read policies, fixed at
/// construction.
pub struct TaskCache {
    pub tasks: Vec<Task>,
    pub children: Vec<ChildEntry>,
    /// When set, reading a task compares its project field against the name
    /// derived from its ancestor chain and plans a correction on drift.
    pub derive_project: bool,
    /// When set, reading a task compares its hierarchy tag against the
    /// children index and plans a correction on drift.
    pub derive_tag: bool,
}

/// The first record carrying the given identifier, if any.
pub open spec fn lookup(ts: Seq<Task>, id: Seq<char>) -> Option<Task>
    decreases ts.len(),
{
    if ts.len() == 0 {
        Option::None
    } else if ts[0].uuid@ == id {
        Option::Some(ts[0])
    } else {
        lookup(ts.drop_first(), id)
    }
}

/// The record carrying the given identifier that stands latest in the
/// sequence, if any: the one a keyed map retains after inserting them all
/// in order.
pub open spec fn newest_with(ts: Seq<Task>, id: Seq<char>) -> Option<Task>
    decreases ts.len(),
{
    if ts.len() == 0 {
        Option::None
    } else {
        match newest_with(ts.drop_first(), id) {
            Option::Some(t) => Option::Some(t),
            Option::None => if ts[0].uuid@ == id {
                Option::Some(ts[0])
            } else {
                Option::None
            },
        }
    }
}

/// The identifier texts of one entry's child list, in order.
pub open spec fn kid_texts(e: ChildEntry) -> Seq<Seq<char>> {
    texts(e.kids@)
}

/// The child list recorded for the given parent, if any.
pub open spec fn child_lookup(cs: Seq<ChildEntry>, p: Seq<char>) -> Option<Seq<Seq<char>>>
    decreases cs.len(),
{
    if cs.len() == 0 {
        Option::None
    } else if cs[0].parent@ == p {
        Option::Some(kid_texts(cs[0]))
    } else {
        child_lookup(cs.drop_first(), p)
    }
}

/// No two records carry the same identifier.
pub open spec fn distinct_uuids(ts: Seq<Task>) -> bool {
    forall|i: int, j: int| 0 <= i < j < ts.len() ==> (#[trigger] ts[i]).uuid@ != (#[trigger] ts[j]).uuid@
}

/// No two entries record the same parent.
pub open spec fn distinct_parents(cs: Seq<ChildEntry>) -> bool {
    forall|i: int, j: int|
        0 <= i < j < cs.len() ==> (#[trigger] cs[i]).parent@ != (#[trigger] cs[j]).parent@
}

pub proof fn lemma_lookup_push(ts: Seq<Task>, t: Task, id: Seq<char>)
    ensures
        lookup(ts.push(t), id) == match lookup(ts, id) {
            Option::Some(f) => Option::Some(f),
            Option::None => if t.uuid@ == id {
                Option::Some(t)
            } else {
                Option::None
            },
        },
    decreases ts.len(),
{
    let ts2 = ts.push(t);
    assert(ts2.len() == ts.len() + 1);
    if ts.len() == 0 {
        assert(ts2[0] == t);
        if t.uuid@ == id {
            assert(lookup(ts2, id) == Option::Some(ts2[0]));
        } else {
            assert(lookup(ts2, id) == lookup(ts2.drop_first(), id));
            assert(ts2.drop_first() =~= Seq::<Task>::empty());
            assert(lookup(ts2, id) is None);
        }
    } else {
        assert(ts2[0] == ts[0]);
        if ts[0].uuid@ == id {
            assert(lookup(ts2, id) == Option::Some(ts2[0]));
            assert(lookup(ts, id) == Option::Some(ts[0]));
        } else {
            assert(lookup(ts2, id) == lookup(ts2.drop_first(), id));
            assert(ts2.drop_first() =~= ts.drop_first().push(t));
            lemma_lookup_push(ts.drop_first(), t, id);
            assert(lookup(ts, id) == lookup(ts.drop_first(), id));
        }
    }
}

pub proof fn lemma_lookup_update(ts: Seq<Task>, idx: int, t: Task, id: Seq<char>)
    requires
        0 <= idx < ts.len(),
        ts[idx].uuid@ == t.uuid@,
        distinct_uuids(ts),
    ensures
        t.uuid@ == id ==> lookup(ts.update(idx, t), id) == Option::Some(t),
        t.uuid@ != id ==> lookup(ts.update(idx, t), id) == lookup(ts, id),
        distinct_uuids(ts.update(idx, t)),
    decreases ts.len(),
{
    let ts2 = ts.update(idx, t);
    assert(distinct_uuids(ts2)) by {
        assert forall|i: int, j: int| 0 <= i < j < ts2.len() implies (#[trigger] ts2[i]).uuid@ != (
        #[trigger] ts2[j]).uuid@ by {
            assert(ts[i].uuid@ != ts[j].uuid@);
        }
    }
    if idx == 0 {
        if ts[0].uuid@ != id {
            assert(ts2.drop_first() =~= ts.drop_first());
        }
    } else {
        assert(ts2.drop_first() =~= ts.drop_first().update(idx - 1, t));
        assert(distinct_uuids(ts.drop_first())) by {
            assert forall|i: int, j: int|
                0 <= i < j < ts.drop_first().len() implies (#[trigger] ts.drop_first()[i]).uuid@
                != (#[trigger] ts.drop_first()[j]).uuid@ by {
                assert(ts[i + 1].uuid@ != ts[j + 1].uuid@);
            }
        }
        assert(ts[0].uuid@ != ts[idx].uuid@);
        lemma_lookup_update(ts.drop_first(), idx - 1, t, id);
    }
}

pub proof fn lemma_child_lookup_push(cs: Seq<ChildEntry>, e: ChildEntry, q: Seq<char>)
    ensures
        child_lookup(cs.push(e), q) == match child_lookup(cs, q) {
            Option::Some(f) => Option::Some(f),
            Option::None => if e.parent@ == q {
                Option::Some(kid_texts(e))
            } else {
                Option::None
            },
        },
    decreases cs.len(),
{
    let cs2 = cs.push(e);
    assert(cs2.len() == cs.len() + 1);
    if cs.len() == 0 {
        assert(cs2[0] == e);
        if e.parent@ == q {
            assert(child_lookup(cs2, q) == Option::Some(kid_texts(cs2[0])));
            assert(kid_texts(cs2[0]) == kid_texts(e));
        } else {
            assert(child_lookup(cs2, q) == child_lookup(cs2.drop_first(), q));
            assert(cs2.drop_first() =~= Seq::<ChildEntry>::empty());
            assert(child_lookup(cs2, q) is None);
        }
    } else {
        assert(cs2[0] == cs[0]);
        if cs[0].parent@ == q {
            assert(child_lookup(cs2, q) == Option::Some(kid_texts(cs2[0])));
            assert(kid_texts(cs2[0]) == kid_texts(cs[0]));
            assert(child_lookup(cs, q) == Option::Some(kid_texts(cs[0])));
        } else {
            assert(child_lookup(cs2, q) == child_lookup(cs2.drop_first(), q));
            assert(cs2.drop_first() =~= cs.drop_first().push(e));
            lemma_child_lookup_push(cs.drop_first(), e, q);
            assert(child_lookup(cs, q) == child_lookup(cs.drop_first(), q));
        }
    }
}

impl TaskCache {
    /// The cached record for an identifier, if any.
    pub open spec fn task_at(self, id: Seq<char>) -> Option<Task> {
        lookup(self.tasks@, id)
    }

    /// The recorded child list of a parent, if any.
    pub open spec fn kids_at(self, p: Seq<char>) -> Option<Seq<Seq<char>>> {
        child_lookup(self.children@, p)
    }

    /// The state a bulk reload leaves behind: the snapshot holds the latest
    /// record of each exported identifier, and the children index records a
    /// parent exactly when some exported active task names it, listing those
    /// tasks' identifiers in scan order.
    pub open spec fn refreshed_from(self, ts: Seq<Task>) -> bool {
        &&& forall|id: Seq<char>| #![auto] self.task_at(id) == newest_with(ts, id)
        &&& forall|p: Seq<char>| #![auto]
            self.kids_at(p) == if active_kids(ts, p).len() > 0 {
                Option::Some(active_kids(ts, p))
            } else {
                Option::None::<Seq<Seq<char>>>
            }
    }

    /// Well-formed: identifiers key the snapshot, parents key the index.
    pub open spec fn wf(self) -> bool {
        distinct_uuids(self.tasks@) && distinct_parents(self.children@)
    }

    /// Both policy switches, unchanged by every operation after construction.
    pub open spec fn policies(self) -> (bool, bool) {
        (self.derive_project, self.derive_tag)
    }

    /// An empty cache with both self-healing policies off.
    pub fn new() -> (c: TaskCache)
        ensures
            c.wf(),
            c.tasks@.len() == 0,
            c.children@.len() == 0,
            !c.derive_project,
            !c.derive_tag,
    {
        TaskCache {
            tasks: Vec::new(),
            children: Vec::new(),
            derive_project: false,
            derive_tag: false,
        }
    }

    /// An empty cache with the two self-healing policies chosen up front.
    pub fn with_policies(derive_project: bool, derive_tag: bool) -> (c: TaskCache)
        ensures
            c.wf(),
            c.tasks@.len() == 0,
            c.children@.len() == 0,
            c.derive_project == derive_project,
            c.derive_tag == derive_tag,
    {
        TaskCache { tasks: Vec::new(), children: Vec::new(), derive_project, derive_tag }
    }

    /// Index of the record carrying `uuid` in the snapshot, if any.
    fn position_of(&self, uuid: &str) -> (r: Option<usize>)
        ensures
            match r {
                Option::Some(i) => i < self.tasks@.len() && self.tasks@[i as int].uuid@ == uuid@
                    && self.task_at(uuid@) == Option::Some(self.tasks@[i as int]),
                Option::None => self.task_at(uuid@) is None,
            },
    {
        proof {
            assert(self.tasks@.subrange(0, self.tasks@.len() as int) =~= self.tasks@);
        }
        let mut i: usize = 0;
        while i < self.tasks.len()
            invariant
                0 <= i <= self.tasks@.len(),
                lookup(self.tasks@, uuid@) == lookup(
                    self.tasks@.subrange(i as int, self.tasks@.len() as int),
                    uuid@,
                ),
            decreases self.tasks@.len() - i,
        {
            let ghost suffix = self.tasks@.subrange(i as int, self.tasks@.len() as int);
            if crate::text::str_eq(self.tasks[i].uuid.as_str(), uuid) {
                return Option::Some(i);
            }
            proof {
                assert(suffix.drop_first() =~= self.tasks@.subrange(
                    i as int + 1,
                    self.tasks@.len() as int,
                ));
            }
            i = i + 1;
        }
        Option::None
    }

    /// The cached record for `uuid`, or `None` when the cache holds none.
    pub fn find(&self, uuid: &str) -> (r: Option<&Task>)
        ensures
            match r {
                Option::Some(t) => self.task_at(uuid@) == Option::Some(*t),
                Option::None => self.task_at(uuid@) is None,
            },
    {
        match self.position_of(uuid) {
            Option::Some(i) => Option::Some(&self.tasks[i]),
            Option::None => Option::None,
        }
    }

    /// The read step of the read-with-repair cycle: the cached record for
    /// `uuid`, or a not-found error when the cache holds none.  The repair
    /// steps around it are planned by `plan_project_fix` and `plan_tag_fix`
    /// and applied through the external tool between reads.
    pub fn get_task(&self, uuid: &str) -> (r: Result<&Task, Error>)
        ensures
            match r {
                Result::Ok(t) => self.task_at(uuid@) == Option::Some(*t),
                Result::Err(e) => self.task_at(uuid@) is None && e.kind
                    == ErrorKind::NotFoundError,
            },
    {
        match self.find(uuid) {
            Option::Some(t) => Result::Ok(t),
            Option::None => Result::Err(
                Error::not_found(String::from_str("Uuid not found in Cache")),
            ),
        }
    }

    /// The ancestor walk for a cached record, with fuel the snapshot size.
    pub open spec fn ancestor_walk(self, t: Task) -> Walk {
        walk(self.tasks@, opt_text(t.partof), self.tasks@.len() as nat)
    }

    /// The ancestor-path derivation, standalone and purely in-memory: walks
    /// the hierarchy links from the task up to its root, collects each
    /// ancestor's description root-most first, joins them with `.`,
    /// lowercases, and strips whitespace.  A root task has no derived name.
    /// Fails with a not-found error when the task or an ancestor is absent
    /// from the snapshot, and with a decoding error when the cached links
    /// loop instead of reaching a root.
    #[verifier::loop_isolation(false)]
    pub fn get_project_name(&self, uuid: &str) -> (r: Result<Option<String>, Error>)
        ensures
            match self.task_at(uuid@) {
                Option::None => r is Err && r->Err_0.kind == ErrorKind::NotFoundError,
                Option::Some(t) => match self.ancestor_walk(t) {
                    Walk::Chain(chain) => r is Ok && opt_text(r->Ok_0) == derived_project(chain),
                    Walk::MissingParent => r is Err && r->Err_0.kind == ErrorKind::NotFoundError,
                    Walk::Unending => r is Err && r->Err_0.kind == ErrorKind::DecodeError,
                },
            },
    {
        let t0 = match self.find(uuid) {
            Option::None => {
                return Result::Err(Error::not_found(String::from_str("Uuid not found in Cache")));
            },
            Option::Some(t) => t,
        };
        let ghost full = self.ancestor_walk(*t0);
        let mut fuel = self.tasks.len();
        let mut link: Option<String> = clone_opt(&t0.partof);
        let mut descs: Vec<String> = Vec::new();
        proof {
            assert(texts(descs@) =~= Seq::<Seq<char>>::empty());
            if full is Chain {
                assert(full->Chain_0 + texts(descs@) =~= full->Chain_0);
            }
        }
        while link.is_some()
            invariant
                combine(walk(self.tasks@, opt_text(link), fuel as nat), texts(descs@)) == full,
            decreases fuel,
        {
            // The loop condition rules the second arm out.
            let p: String = if let Option::Some(q) = &link {
                q.clone()
            } else {
                proof {
                    assert(false);
                }
                String::new()
            };
            let ghost fuel0 = fuel as nat;
            let ghost acc0 = texts(descs@);
            proof {
                assert(opt_text(link) == Option::Some(p@));
            }
            let parent = match self.find(p.as_str()) {
                Option::None => {
                    proof {
                        assert(walk(self.tasks@, opt_text(link), fuel as nat)
                            == Walk::MissingParent);
                        assert(full == Walk::MissingParent);
                    }
                    return Result::Err(
                        Error::not_found(String::from_str("Uuid not found in Cache")),
                    );
                },
                Option::Some(parent) => parent,
            };
            if fuel == 0 {
                proof {
                    assert(walk(self.tasks@, opt_text(link), fuel as nat) == Walk::Unending);
                    assert(full == Walk::Unending);
                }
                return Result::Err(
                    Error::decode(String::from_str("Task hierarchy does not reach a root")),
                );
            }
            let ghost descs0 = descs@;
            descs.insert(0, parent.description.clone());
            link = clone_opt(&parent.partof);
            fuel = fuel - 1;
            proof {
                assert(descs@ == descs0.insert(0, parent.description));
                assert(texts(descs@) =~= seq![parent.description@] + texts(descs0));
                let w1 = walk(self.tasks@, opt_text(parent.partof), (fuel0 - 1) as nat);
                if w1 is Chain {
                    let s = w1->Chain_0;
                    assert(walk(self.tasks@, opt_text(Option::Some(p)), fuel0) == Walk::Chain(
                        s.push(parent.description@),
                    ));
                    assert(s.push(parent.description@) + acc0 =~= s + (seq![parent.description@]
                        + acc0));
                } else {
                    assert(walk(self.tasks@, opt_text(Option::Some(p)), fuel0) == w1);
                }
            }
        }
        proof {
            if full is Chain {
                assert(Seq::<Seq<char>>::empty() + texts(descs@) =~= texts(descs@));
            }
            assert(full == Walk::Chain(texts(descs@)));
        }
        if descs.len() == 0 {
            Result::Ok(Option::None)
        } else {
            let joined = crate::text::join_with_dot(&descs);
            let lowered = crate::text::lowercase(joined.as_str());
            let stripped = crate::text::strip_whitespace(lowered.as_str());
            Result::Ok(Option::Some(stripped))
        }
    }

    /// Whether the record at `id` must carry the hierarchy tag: the
    /// children index records it as somebody's parent.
    pub open spec fn tag_needed(self, id: Seq<char>) -> bool {
        self.kids_at(id) is Some
    }

    /// The project-derivation step of the read-with-repair cycle: compares
    /// the cached project field of the record at `uuid` against the name
    /// derived from its ancestor chain and asks for the mutation that
    /// aligns the two; asks for nothing when the policy is off or they
    /// already agree.  The caller applies the fix through the external tool
    /// and reloads the record.
    pub fn plan_project_fix(&self, uuid: &str) -> (r: Result<ProjectFix, Error>)
        ensures
            !self.derive_project ==> r is Ok && r->Ok_0 is NoChange,
            self.derive_project ==> match self.task_at(uuid@) {
                Option::None => r is Err && r->Err_0.kind == ErrorKind::NotFoundError,
                Option::Some(t) => match self.ancestor_walk(t) {
                    Walk::Chain(chain) => r is Ok && match r->Ok_0 {
                        ProjectFix::NoChange => opt_text(t.project) == derived_project(chain),
                        ProjectFix::Assign(s) => derived_project(chain) == Option::Some(s@)
                            && opt_text(t.project) != derived_project(chain),
                        ProjectFix::Clear => derived_project(chain) is None && t.project is Some,
                    },
                    Walk::MissingParent => r is Err && r->Err_0.kind == ErrorKind::NotFoundError,
                    Walk::Unending => r is Err && r->Err_0.kind == ErrorKind::DecodeError,
                },
            },
    {
        if !self.derive_project {
            return Result::Ok(ProjectFix::NoChange);
        }
        let expected = match self.get_project_name(uuid) {
            Result::Err(e) => {
                return Result::Err(e);
            },
            Result::Ok(x) => x,
        };
        // A derived name was just computed, so the record is present.
        let t = match self.find(uuid) {
            Option::None => {
                proof {
                    assert(false);
                }
                return Result::Ok(ProjectFix::NoChange);
            },
            Option::Some(t) => t,
        };
        match (&t.project, &expected) {
            (Option::None, Option::None) => Result::Ok(ProjectFix::NoChange),
            (Option::Some(cur), Option::Some(want)) => {
                if crate::text::str_eq(cur.as_str(), want.as_str()) {
                    Result::Ok(ProjectFix::NoChange)
                } else {
                    Result::Ok(ProjectFix::Assign(want.clone()))
                }
            },
            (Option::None, Option::Some(want)) => Result::Ok(ProjectFix::Assign(want.clone())),
            (Option::Some(_), Option::None) => Result::Ok(ProjectFix::Clear),
        }
    }

    /// The hierarchy-tag step of the read-with-repair cycle: the record at
    /// `uuid` must carry the tag `project` exactly when the children index
    /// records it as a parent.  Asks for the mutation that aligns the two,
    /// and for nothing when the policy is off or they already agree.
    pub fn plan_tag_fix(&self, uuid: &str) -> (r: Result<TagFix, Error>)
        ensures
            !self.derive_tag ==> r is Ok && r->Ok_0 is NoChange,
            self.derive_tag ==> match self.task_at(uuid@) {
                Option::None => r is Err && r->Err_0.kind == ErrorKind::NotFoundError,
                Option::Some(t) => r is Ok && (match r->Ok_0 {
                    TagFix::NoChange => crate::task::spec_has_tag(t, "project"@) == self.tag_needed(
                        uuid@,
                    ),
                    TagFix::Add => !crate::task::spec_has_tag(t, "project"@) && self.tag_needed(
                        uuid@,
                    ),
                    TagFix::Remove => crate::task::spec_has_tag(t, "project"@) && !self.tag_needed(
                        uuid@,
                    ),
                }),
            },
    {
        if !self.derive_tag {
            return Result::Ok(TagFix::NoChange);
        }
        let t = match self.find(uuid) {
            Option::None => {
                return Result::Err(Error::not_found(String::from_str("Uuid not found in Cache")));
            },
            Option::Some(t) => t,
        };
        let carried = t.has_tag("project");
        let needed = self.child_position(uuid).is_some();
        if carried && !needed {
            Result::Ok(TagFix::Remove)
        } else if needed && !carried {
            Result::Ok(TagFix::Add)
        } else {
            Result::Ok(TagFix::NoChange)
        }
    }

    /// Index of the entry recording `parent`, if any.
    fn child_position(&self, parent: &str) -> (r: Option<usize>)
        ensures
            match r {
                Option::Some(i) => i < self.children@.len() && self.children@[i as int].parent@
                    == parent@ && self.kids_at(parent@) == Option::Some(
                    kid_texts(self.children@[i as int]),
                ),
                Option::None => self.kids_at(parent@) is None,
            },
    {
        proof {
            assert(self.children@.subrange(0, self.children@.len() as int) =~= self.children@);
        }
        let mut i: usize = 0;
        while i < self.children.len()
            invariant
                0 <= i <= self.children@.len(),
                child_lookup(self.children@, parent@) == child_lookup(
                    self.children@.subrange(i as int, self.children@.len() as int),
                    parent@,
                ),
            decreases self.children@.len() - i,
        {
            let ghost suffix = self.children@.subrange(i as int, self.children@.len() as int);
            if crate::text::str_eq(self.children[i].parent.as_str(), parent) {
                return Option::Some(i);
            }
            proof {
                assert(suffix.drop_first() =~= self.children@.subrange(
                    i as int + 1,
                    self.children@.len() as int,
                ));
            }
            i = i + 1;
        }
        Option::None
    }

    /// Bulk reload.  Replaces the whole snapshot with the exported records
    /// (of records sharing an identifier the latest wins, as in a keyed
    /// map) and rebuilds the children index from scratch: a parent gets an
    /// entry exactly when some exported active task names it, and the entry
    /// lists those tasks' identifiers in scan order.
    #[verifier::rlimit(50)]
    pub fn refresh(&mut self, tasks: Vec<Task>)
        ensures
            final(self).wf(),
            final(self).refreshed_from(tasks@),
            forall|id: Seq<char>| #![auto] final(self).task_at(id) == newest_with(tasks@, id),
            forall|p: Seq<char>| #![auto]
                final(self).kids_at(p) == if active_kids(tasks@, p).len() > 0 {
                    Option::Some(active_kids(tasks@, p))
                } else {
                    Option::None::<Seq<Seq<char>>>
                },
            final(self).policies() == old(self).policies(),
    {
        let ghost input = tasks@;
        let n = tasks.len();
        self.children = Vec::new();
        self.tasks = Vec::new();
        let mut i: usize = 0;
        while i < n
            invariant
                0 <= i <= n,
                n == input.len(),
                tasks@ == input,
                self.tasks@.len() == 0,
                self.derive_project == old(self).derive_project,
                self.derive_tag == old(self).derive_tag,
                distinct_parents(self.children@),
                forall|q: Seq<char>| #![auto]
                    child_lookup(self.children@, q) == if parent_seen(input, q, i as int) {
                        Option::Some(active_kids(input, q))
                    } else {
                        Option::None::<Seq<Seq<char>>>
                    },
            decreases n - i,
        {
            let t = &tasks[i];
            let mut built = false;
            if t.status.is_active() {
                if let Option::Some(p) = &t.partof {
                    if self.child_position(p.as_str()).is_none() {
                        built = true;
                        let mut kids: Vec<String> = Vec::new();
                        let mut j: usize = 0;
                        proof {
                            assert(input.subrange(0, 0) =~= Seq::<Task>::empty());
                            assert(active_kids(input.subrange(0, 0), p@) =~= Seq::<
                                Seq<char>,
                            >::empty()) by {
                                reveal(Seq::filter);
                            }
                            assert(texts(kids@) =~= Seq::<Seq<char>>::empty());
                        }
                        while j < n
                            invariant
                                0 <= j <= n,
                                n == input.len(),
                                tasks@ == input,
                                opt_text(input[i as int].partof) == Option::Some(p@),
                                texts(kids@) == active_kids(input.subrange(0, j as int), p@),
                            decreases n - j,
                        {
                            let u = &tasks[j];
                            let ghost kids0 = kids@;
                            if u.status.is_active() {
                                if let Option::Some(qq) = &u.partof {
                                    if crate::text::str_eq(qq.as_str(), p.as_str()) {
                                        kids.push(u.uuid.clone());
                                    }
                                }
                            }
                            proof {
                                let pre = input.subrange(0, j as int);
                                assert(input.subrange(0, j as int + 1) =~= pre.push(
                                    input[j as int],
                                ));
                                lemma_active_kids_push(pre, input[j as int], p@);
                                if names_parent(input[j as int], p@) {
                                    assert(kids@ == kids0.push(input[j as int].uuid));
                                    assert(texts(kids@) =~= texts(kids0).push(
                                        input[j as int].uuid@,
                                    ));
                                } else {
                                    assert(kids@ == kids0);
                                }
                            }
                            j = j + 1;
                        }
                        proof {
                            assert(input.subrange(0, n as int) =~= input);
                        }
                        let entry = ChildEntry { parent: p.clone(), kids };
                        let ghost cs_old = self.children@;
                        self.children.push(entry);
                        proof {
                            let e = self.children@[cs_old.len() as int];
                            assert(e.parent@ == p@ && kid_texts(e) == active_kids(input, p@));
                            lemma_child_lookup_absent(cs_old, p@);
                            assert(distinct_parents(self.children@)) by {
                                assert forall|a: int, b: int|
                                    0 <= a < b < self.children@.len() implies (
                                #[trigger] self.children@[a]).parent@ != (
                                #[trigger] self.children@[b]).parent@ by {
                                    assert(self.children@[a] == cs_old[a]);
                                    if b < cs_old.len() {
                                        assert(self.children@[b] == cs_old[b]);
                                    }
                                }
                            }
                            assert forall|q: Seq<char>| #![auto]
                                child_lookup(self.children@, q) == if parent_seen(
                                    input,
                                    q,
                                    i as int + 1,
                                ) {
                                    Option::Some(active_kids(input, q))
                                } else {
                                    Option::None::<Seq<Seq<char>>>
                                } by {
                                lemma_child_lookup_push(cs_old, e, q);
                                lemma_parent_seen_step(input, q, i as int);
                                if q == p@ {
                                    assert(names_parent(input[i as int], p@));
                                    assert(parent_seen(input, q, i as int + 1));
                                } else {
                                    assert(!names_parent(input[i as int], q));
                                }
                            }
                        }
                    }
                }
            }
            if !built {
                proof {
                    assert forall|q: Seq<char>| #![auto]
                        child_lookup(self.children@, q) == if parent_seen(
                            input,
                            q,
                            i as int + 1,
                        ) {
                            Option::Some(active_kids(input, q))
                        } else {
                            Option::None::<Seq<Seq<char>>>
                        } by {
                        lemma_parent_seen_step(input, q, i as int);
                        if names_parent(input[i as int], q) {
                            assert(opt_text(input[i as int].partof) == Option::Some(q));
                            assert(child_lookup(self.children@, q) is Some);
                        }
                    }
                }
            }
            i = i + 1;
        }
        let ghost cs_now = self.children@;
        proof {
            assert forall|p: Seq<char>| #![auto]
                child_lookup(cs_now, p) == if active_kids(input, p).len() > 0 {
                    Option::Some(active_kids(input, p))
                } else {
                    Option::None::<Seq<Seq<char>>>
                } by {
                lemma_active_kids_nonempty(input, p);
            }
            assert(input.subrange(n as int, n as int) =~= Seq::<Task>::empty());
        }
        let mut rest = tasks;
        proof {
            assert(rest@ =~= input.subrange(0, rest@.len() as int));
        }
        while rest.len() > 0
            invariant
                rest@.len() <= n,
                n == input.len(),
                rest@ == input.subrange(0, rest@.len() as int),
                self.children@ == cs_now,
                self.derive_project == old(self).derive_project,
                self.derive_tag == old(self).derive_tag,
                distinct_uuids(self.tasks@),
                forall|id: Seq<char>| #![auto]
                    lookup(self.tasks@, id) == newest_with(
                        input.subrange(rest@.len() as int, n as int),
                        id,
                    ),
            decreases rest@.len(),
        {
            let ghost k = rest@.len() as int;
            let t = rest.pop().unwrap();
            proof {
                assert(t == input[k - 1]);
                assert(rest@ =~= input.subrange(0, k - 1));
                assert(input.subrange(k - 1, n as int).drop_first() =~= input.subrange(
                    k,
                    n as int,
                ));
                assert(input.subrange(k - 1, n as int)[0] == input[k - 1]);
            }
            let ghost st = self.tasks@;
            match self.position_of(t.uuid.as_str()) {
                Option::Some(_) => {
                    proof {
                        assert forall|id: Seq<char>| #![auto]
                            lookup(self.tasks@, id) == newest_with(
                                input.subrange(k - 1, n as int),
                                id,
                            ) by {
                            if id == input[k - 1].uuid@ {
                                assert(lookup(self.tasks@, id) is Some);
                            }
                        }
                    }
                },
                Option::None => {
                    self.tasks.push(t);
                    proof {
                        assert forall|id: Seq<char>| #![auto]
                            lookup(self.tasks@, id) == newest_with(
                                input.subrange(k - 1, n as int),
                                id,
                            ) by {
                            lemma_lookup_push(st, input[k - 1], id);
                        }
                        assert(distinct_uuids(self.tasks@)) by {
                            assert forall|a: int, b: int|
                                0 <= a < b < self.tasks@.len() implies (
                            #[trigger] self.tasks@[a]).uuid@ != (
                            #[trigger] self.tasks@[b]).uuid@ by {
                                assert(self.tasks@[a] == st[a]);
                                if b < st.len() {
                                    assert(self.tasks@[b] == st[b]);
                                } else {
                                    assert(lookup(st, input[k - 1].uuid@) is None);
                                    lemma_lookup_present(st, a);
                                }
                            }
                        }
                    }
                },
            }
        }
        proof {
            assert(input.subrange(0, n as int) =~= input);
        }
    }

    /// Replaces the snapshot entry for `task.uuid` with the fresh record, or
    /// adds one when the identifier is new.  The children index is left
    /// untouched: a single-task reload never moves a task between child
    /// lists.
    pub fn update(&mut self, task: Task)
        requires
            old(self).wf(),
        ensures
            final(self).wf(),
            final(self).task_at(task.uuid@) == Option::Some(task),
            forall|id: Seq<char>|
                id != task.uuid@ ==> final(self).task_at(id) == old(self).task_at(id),
            final(self).children == old(self).children,
            final(self).policies() == old(self).policies(),
            old(self).task_at(task.uuid@) is Some ==> final(self).tasks@.len() == old(
                self,
            ).tasks@.len(),
            old(self).task_at(task.uuid@) is None ==> final(self).tasks@.len() == old(
                self,
            ).tasks@.len() + 1,
    {
        let ghost old_tasks = self.tasks@;
        match self.position_of(task.uuid.as_str()) {
            Option::Some(i) => {
                let ghost t = task;
                let _ = self.tasks.remove(i);
                self.tasks.insert(i, task);
                proof {
                    assert(self.tasks@ =~= old_tasks.update(i as int, t));
                    assert forall|id: Seq<char>| true implies {
                        &&& t.uuid@ == id ==> lookup(self.tasks@, id) == Option::Some(t)
                        &&& t.uuid@ != id ==> lookup(self.tasks@, id) == lookup(old_tasks, id)
                    } by {
                        lemma_lookup_update(old_tasks, i as int, t, id);
                    }
                    lemma_lookup_update(old_tasks, i as int, t, t.uuid@);
                }
            },
            Option::None => {
                let ghost t = task;
                self.tasks.push(task);
                proof {
                    assert forall|id: Seq<char>| true implies {
                        &&& t.uuid@ == id ==> lookup(self.tasks@, id) == Option::Some(t)
                        &&& t.uuid@ != id ==> lookup(self.tasks@, id) == lookup(old_tasks, id)
                    } by {
                        lemma_lookup_push(old_tasks, t, id);
                    }
                    assert(distinct_uuids(self.tasks@)) by {
                        assert forall|i: int, j: int|
                            0 <= i < j < self.tasks@.len() implies (
                        #[trigger] self.tasks@[i]).uuid@ != (#[trigger] self.tasks@[j]).uuid@ by {
                            if j == self.tasks@.len() - 1 {
                                assert(lookup(old_tasks, t.uuid@) is None);
                                lemma_lookup_present(old_tasks, i);
                            }
                        }
                    }
                }
            },
        }
    }
}

/// Outcome of walking a task's hierarchy links up towards a root.
pub enum Walk {
    /// The descriptions of the ancestors, root-most first.
    Chain(Seq<Seq<char>>),
    /// Some link names an identifier the snapshot does not hold.
    MissingParent,
    /// The links never reach a root: the cached hierarchy loops.
    Unending,
}

/// Follows hierarchy links through the snapshot, collecting each ancestor's
/// description, root-most first.  `fuel` bounds the number of hops: a
/// snapshot whose identifiers are distinct holds any acyclic chain within
/// `ts.len()` hops, so running out exposes a loop.
pub open spec fn walk(ts: Seq<Task>, link: Option<Seq<char>>, fuel: nat) -> Walk
    decreases fuel,
{
    match link {
        Option::None => Walk::Chain(seq![]),
        Option::Some(p) => match lookup(ts, p) {
            Option::None => Walk::MissingParent,
            Option::Some(parent) => if fuel == 0 {
                Walk::Unending
            } else {
                match walk(ts, opt_text(parent.partof), (fuel - 1) as nat) {
                    Walk::Chain(s) => Walk::Chain(s.push(parent.description@)),
                    w => w,
                }
            },
        },
    }
}

/// A partial walk with the descriptions already collected appended behind it.
pub open spec fn combine(w: Walk, acc: Seq<Seq<char>>) -> Walk {
    match w {
        Walk::Chain(s) => Walk::Chain(s + acc),
        other => other,
    }
}

/// The dotted, lowercased, whitespace-stripped path over a chain of
/// ancestor descriptions.
pub open spec fn project_name_of(chain: Seq<Seq<char>>) -> Seq<char> {
    crate::text::strip_ws(crate::text::lower_of(crate::text::join_dot(chain)))
}

/// The project name the derivation policy expects over a completed walk:
/// absent for a root task, the derived path otherwise.
pub open spec fn derived_project(chain: Seq<Seq<char>>) -> Option<Seq<char>> {
    if chain.len() == 0 {
        Option::None
    } else {
        Option::Some(project_name_of(chain))
    }
}

/// The corrective mutation the project-derivation policy asks for.
#[derive(Debug)]
pub enum ProjectFix {
    /// The cached project field already equals the derived name.
    NoChange,
    /// Set the project field to the derived name.
    Assign(String),
    /// Clear the project field: the task is a root, no name is derived.
    Clear,
}

/// The corrective mutation the hierarchy-tag policy asks for.
#[derive(Debug)]
pub enum TagFix {
    /// The tag already matches the children index.
    NoChange,
    /// Add the hierarchy tag: the task has recorded children.
    Add,
    /// Remove the hierarchy tag: the task has no recorded children.
    Remove,
}

/// A copy of an optional string.
fn clone_opt(o: &Option<String>) -> (r: Option<String>)
    ensures
        r == *o,
{
    match o {
        Option::None => Option::None,
        Option::Some(s) => Option::Some(s.clone()),
    }
}

/// An active record naming `q` as its parent.
pub open spec fn names_parent(t: Task, q: Seq<char>) -> bool {
    active(t.status) && opt_text(t.partof) == Option::Some(q)
}

/// The identifiers of the active tasks that name `p` as parent, in scan
/// order.
pub open spec fn active_kids(ts: Seq<Task>, p: Seq<char>) -> Seq<Seq<char>> {
    ts.filter(|t: Task| names_parent(t, p)).map_values(|t: Task| t.uuid@)
}

pub proof fn lemma_active_kids_push(ts: Seq<Task>, t: Task, p: Seq<char>)
    ensures
        names_parent(t, p) ==> active_kids(ts.push(t), p) == active_kids(ts, p).push(t.uuid@),
        !names_parent(t, p) ==> active_kids(ts.push(t), p) == active_kids(ts, p),
{
    reveal(Seq::filter);
    assert(ts.push(t).drop_last() =~= ts);
    assert(ts.push(t).last() == t);
    if names_parent(t, p) {
        assert(ts.push(t).filter(|u: Task| names_parent(u, p)) == ts.filter(
            |u: Task| names_parent(u, p),
        ).push(t));
        assert(active_kids(ts.push(t), p) =~= active_kids(ts, p).push(t.uuid@));
    } else {
        assert(active_kids(ts.push(t), p) =~= active_kids(ts, p));
    }
}

pub proof fn lemma_active_kids_nonempty(ts: Seq<Task>, p: Seq<char>)
    ensures
        active_kids(ts, p).len() > 0 <==> exists|j: int|
            0 <= j < ts.len() && names_parent(#[trigger] ts[j], p),
    decreases ts.len(),
{
    reveal(Seq::filter);
    if ts.len() == 0 {
    } else {
        let s0 = ts.drop_last();
        lemma_active_kids_nonempty(s0, p);
        assert(ts.drop_last() == s0);
        lemma_active_kids_push(s0, ts.last(), p);
        assert(s0.push(ts.last()) =~= ts);
        if names_parent(ts.last(), p) {
            assert(names_parent(ts[ts.len() - 1], p));
        } else {
            assert(active_kids(ts, p) == active_kids(s0, p));
            if exists|j: int| 0 <= j < ts.len() && names_parent(#[trigger] ts[j], p) {
                let j = choose|j: int| 0 <= j < ts.len() && names_parent(#[trigger] ts[j], p);
                assert(j < ts.len() - 1);
                assert(names_parent(s0[j], p));
            }
            if exists|j: int| 0 <= j < s0.len() && names_parent(#[trigger] s0[j], p) {
                let j = choose|j: int| 0 <= j < s0.len() && names_parent(#[trigger] s0[j], p);
                assert(names_parent(ts[j], p));
            }
        }
    }
}

/// Some task among the first `upto` names `q` as its parent while active.
pub open spec fn parent_seen(ts: Seq<Task>, q: Seq<char>, upto: int) -> bool {
    exists|j: int| 0 <= j < upto && names_parent(#[trigger] ts[j], q)
}

pub proof fn lemma_parent_seen_step(ts: Seq<Task>, q: Seq<char>, i: int)
    requires
        0 <= i < ts.len(),
    ensures
        parent_seen(ts, q, i + 1) == (parent_seen(ts, q, i) || names_parent(ts[i], q)),
{
    if parent_seen(ts, q, i + 1) && !names_parent(ts[i], q) {
        let j = choose|j: int| 0 <= j < i + 1 && names_parent(#[trigger] ts[j], q);
        assert(0 <= j < i && names_parent(ts[j], q));
    }
}

/// When no entry records `q`, no entry's parent is `q`.
pub proof fn lemma_child_lookup_absent(cs: Seq<ChildEntry>, q: Seq<char>)
    requires
        child_lookup(cs, q) is None,
    ensures
        forall|i: int| 0 <= i < cs.len() ==> (#[trigger] cs[i]).parent@ != q,
    decreases cs.len(),
{
    if cs.len() > 0 {
        lemma_child_lookup_absent(cs.drop_first(), q);
        assert forall|i: int| 0 <= i < cs.len() implies (#[trigger] cs[i]).parent@ != q by {
            if i > 0 {
                assert(cs.drop_first()[i - 1] == cs[i]);
            }
        }
    }
}

/// A record standing in the sequence is found under its identifier.
pub proof fn lemma_lookup_present(ts: Seq<Task>, i: int)
    requires
        0 <= i < ts.len(),
    ensures
        lookup(ts, ts[i].uuid@) is Some,
    decreases ts.len(),
{
    if ts[0].uuid@ != ts[i].uuid@ {
        assert(ts.drop_first()[i - 1] == ts[i]);
        lemma_lookup_present(ts.drop_first(), i - 1);
    }
}

} // verus!
