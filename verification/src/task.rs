use vstd::prelude::*;

verus! {

/// Lifecycle states of a task, as the external tool reports them.
#[derive(Clone, Copy, Debug, PartialEq, Eq, Structural)]
pub enum Status {
    Pending,
    Completed,
    Deleted,
    Waiting,
    Recurring,
}

/// A task counts as active unless it was completed or deleted.
pub open spec fn active(s: Status) -> bool {
    s != Status::Completed && s != Status::Deleted
}

/// The keyword naming a status in the external tool's export records.
pub open spec fn status_text(s: Status) -> Seq<char> {
    match s {
        Status::Pending => "pending"@,
        Status::Completed => "completed"@,
        Status::Deleted => "deleted"@,
        Status::Waiting => "waiting"@,
        Status::Recurring => "recurring"@,
    }
}

/// The status a keyword of the export format names, if it names one.
pub open spec fn status_of_text(s: Seq<char>) -> Option<Status> {
    if s == "pending"@ {
        Option::Some(Status::Pending)
    } else if s == "completed"@ {
        Option::Some(Status::Completed)
    } else if s == "deleted"@ {
        Option::Some(Status::Deleted)
    } else if s == "waiting"@ {
        Option::Some(Status::Waiting)
    } else if s == "recurring"@ {
        Option::Some(Status::Recurring)
    } else {
        Option::None
    }
}

impl Status {
    pub fn is_active(&self) -> (r: bool)
        ensures
            r == active(*self),
    {
        match self {
            Status::Completed => false,
            Status::Deleted => false,
            _ => true,
        }
    }

    /// The keyword this status carries in export records.
    pub fn to_text(&self) -> (r: String)
        ensures
            r@ == status_text(*self),
    {
        match self {
            Status::Pending => String::from_str("pending"),
            Status::Completed => String::from_str("completed"),
            Status::Deleted => String::from_str("deleted"),
            Status::Waiting => String::from_str("waiting"),
            Status::Recurring => String::from_str("recurring"),
        }
    }

    /// Reads a status keyword of the export format; a keyword naming no
    /// status yields nothing, and the caller reports the decoding failure.
    pub fn from_text(s: &str) -> (r: Option<Status>)
        ensures
            r == status_of_text(s@),
    {
        if crate::text::str_eq(s, "pending") {
            Option::Some(Status::Pending)
        } else if crate::text::str_eq(s, "completed") {
            Option::Some(Status::Completed)
        } else if crate::text::str_eq(s, "deleted") {
            Option::Some(Status::Deleted)
        } else if crate::text::str_eq(s, "waiting") {
            Option::Some(Status::Waiting)
        } else if crate::text::str_eq(s, "recurring") {
            Option::Some(Status::Recurring)
        } else {
            Option::None
        }
    }
}

/// One timestamped free-text note attached to a task.
#[derive(Clone, Debug)]
pub struct Annotation {
    pub entry: String,
    pub description: String,
}

/// A snapshot of one external task at a point in time.
///
/// Identifiers are carried in their canonical textual form: lowercase
/// hexadecimal groups of 8-4-4-4-12 digits separated by hyphens.
/// Timestamps are carried as the raw text the external tool emitted; the
/// cache never interprets them.
#[derive(Clone, Debug)]
pub struct Task {
    pub status: Status,
    pub uuid: String,
    pub entry: String,
    pub description: String,
    /// Identifier of the parent task; absence marks a root task.
    pub partof: Option<String>,
    pub annotations: Option<Vec<Annotation>>,
    pub due: Option<String>,
    pub modified: Option<String>,
    /// Dotted ancestor path; may be automatically managed by the cache.
    pub project: Option<String>,
    /// Labels; the label `project` may be automatically managed by the cache.
    pub tags: Option<Vec<String>>,
    pub wait: Option<String>,
}

/// The text of an optional string field, `None` when the field is absent.
pub open spec fn opt_text(o: Option<String>) -> Option<Seq<char>> {
    match o {
        Option::None => Option::None,
        Option::Some(s) => Option::Some(s@),
    }
}

/// Whether a record carries the given tag.
pub open spec fn spec_has_tag(t: Task, tag: Seq<char>) -> bool {
    match t.tags {
        Option::None => false,
        Option::Some(v) => crate::text::texts(v@).contains(tag),
    }
}

impl Task {
    /// Does this record carry `tag`?
    pub fn has_tag(&self, tag: &str) -> (r: bool)
        ensures
            r == spec_has_tag(*self, tag@),
    {
        match &self.tags {
            Option::None => false,
            Option::Some(v) => {
                let ghost tag_views = crate::text::texts(v@);
                let mut i: usize = 0;
                while i < v.len()
                    invariant
                        0 <= i <= v.len(),
                        self.tags == Option::Some(*v),
                        tag_views == crate::text::texts(v@),
                        forall|j: int| 0 <= j < i ==> #[trigger] tag_views[j] != tag@,
                    decreases v.len() - i,
                {
                    if crate::text::str_eq(v[i].as_str(), tag) {
                        proof {
                            assert(tag_views[i as int] == tag@);
                        }
                        return true;
                    }
                    i = i + 1;
                }
                proof {
                    assert(!tag_views.contains(tag@));
                }
                false
            },
        }
    }
}

} // verus!
