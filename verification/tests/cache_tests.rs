use task_cache::cache::{ProjectFix, TagFix, TaskCache};
use task_cache::client;
use task_cache::error::ErrorKind;
use task_cache::task::{Status, Task};

const ID_A: &str = "aaaaaaaa-aaaa-aaaa-aaaa-aaaaaaaaaaaa";
const ID_B: &str = "bbbbbbbb-bbbb-bbbb-bbbb-bbbbbbbbbbbb";
const ID_C: &str = "cccccccc-cccc-cccc-cccc-cccccccccccc";
const ID_D: &str = "dddddddd-dddd-dddd-dddd-dddddddddddd";

fn task(uuid: &str, description: &str, status: Status, partof: Option<&str>) -> Task {
    Task {
        status,
        uuid: uuid.to_string(),
        entry: "20240101T000000Z".to_string(),
        description: description.to_string(),
        partof: partof.map(|p| p.to_string()),
        annotations: None,
        due: None,
        modified: None,
        project: None,
        tags: None,
        wait: None,
    }
}

fn kids_of<'a>(cache: &'a TaskCache, parent: &str) -> Option<&'a Vec<String>> {
    cache.children.iter().find(|e| e.parent == parent).map(|e| &e.kids)
}

#[test]
fn first_task_of_an_export() {
    let records = vec![task(ID_A, "one", Status::Pending, None), task(ID_B, "two", Status::Pending, None)];
    let got = task_cache::client::first_task(records).unwrap();
    assert_eq!(got.uuid, ID_A);
    let err = task_cache::client::first_task(Vec::new()).unwrap_err();
    assert_eq!(err.kind, ErrorKind::NotFoundError);
}

#[test]
fn error_constructors_carry_kind_and_message() {
    let e = task_cache::error::Error::io("spawn failed".to_string());
    assert_eq!(e.kind, ErrorKind::IoError);
    assert_eq!(e.msg, "spawn failed");
}

#[test]
fn new_cache_is_empty_with_policies_off() {
    let cache = TaskCache::new();
    assert!(cache.tasks.is_empty());
    assert!(cache.children.is_empty());
    assert!(!cache.derive_project);
    assert!(!cache.derive_tag);
}

#[test]
fn with_policies_keeps_the_switches() {
    let cache = TaskCache::with_policies(true, false);
    assert!(cache.derive_project);
    assert!(!cache.derive_tag);
}

#[test]
fn get_task_on_missing_id_is_not_found() {
    let cache = TaskCache::new();
    let err = cache.get_task(ID_A).unwrap_err();
    assert_eq!(err.kind, ErrorKind::NotFoundError);
}

#[test]
fn update_then_get_task_returns_the_record() {
    let mut cache = TaskCache::new();
    cache.update(task(ID_A, "Buy milk", Status::Pending, None));
    let got = cache.get_task(ID_A).unwrap();
    assert_eq!(got.description, "Buy milk");
    assert_eq!(got.partof, None);
}

#[test]
fn create_feedback_flows_into_the_cache() {
    // The creation half: the invocation is built, the tool's verbose
    // feedback names the new identifier, and the reloaded record lands in
    // the cache.
    let inv = client::create("Buy milk", None);
    assert_eq!(inv.args[2], "Buy milk");
    let feedback = format!("Created task 1.\nNew uuid: {}\n", ID_A);
    let id = client::extract_uuid(&feedback).unwrap();
    assert_eq!(id, ID_A);
    let mut cache = TaskCache::new();
    cache.update(task(&id, "Buy milk", Status::Pending, None));
    let got = cache.get_task(&id).unwrap();
    assert_eq!(got.description, "Buy milk");
    assert_eq!(got.partof, None);
}

#[test]
fn update_replaces_the_entry_wholesale() {
    let mut cache = TaskCache::new();
    cache.update(task(ID_A, "old text", Status::Pending, None));
    cache.update(task(ID_A, "new text", Status::Waiting, None));
    assert_eq!(cache.tasks.len(), 1);
    let got = cache.get_task(ID_A).unwrap();
    assert_eq!(got.description, "new text");
    assert!(matches!(got.status, Status::Waiting));
}

#[test]
fn refresh_indexes_only_active_children() {
    let mut cache = TaskCache::new();
    cache.refresh(vec![
        task(ID_A, "Foo", Status::Pending, None),
        task(ID_B, "Bar", Status::Pending, Some(ID_A)),
        task(ID_C, "Gone", Status::Deleted, Some(ID_A)),
        task(ID_D, "Done", Status::Completed, Some(ID_A)),
    ]);
    let kids = kids_of(&cache, ID_A).unwrap();
    assert_eq!(kids, &vec![ID_B.to_string()]);
    assert!(kids.iter().filter(|k| *k == ID_B).count() == 1);
    assert!(kids_of(&cache, ID_B).is_none());
}

#[test]
fn refresh_keeps_scan_order_of_children() {
    let mut cache = TaskCache::new();
    cache.refresh(vec![
        task(ID_A, "root", Status::Pending, None),
        task(ID_C, "second", Status::Pending, Some(ID_A)),
        task(ID_B, "first", Status::Pending, Some(ID_A)),
    ]);
    let kids = kids_of(&cache, ID_A).unwrap();
    assert_eq!(kids, &vec![ID_C.to_string(), ID_B.to_string()]);
}

#[test]
fn refresh_replaces_earlier_state() {
    let mut cache = TaskCache::new();
    cache.refresh(vec![
        task(ID_A, "root", Status::Pending, None),
        task(ID_B, "child", Status::Pending, Some(ID_A)),
    ]);
    cache.refresh(vec![task(ID_A, "root", Status::Pending, None)]);
    assert!(cache.get_task(ID_B).is_err());
    assert!(kids_of(&cache, ID_A).is_none());
}

#[test]
fn refresh_keeps_the_latest_of_a_repeated_identifier() {
    let mut cache = TaskCache::new();
    cache.refresh(vec![
        task(ID_A, "older", Status::Pending, None),
        task(ID_A, "newer", Status::Pending, None),
    ]);
    assert_eq!(cache.get_task(ID_A).unwrap().description, "newer");
}

#[test]
fn project_name_of_root_is_none() {
    let mut cache = TaskCache::new();
    cache.refresh(vec![task(ID_A, "Foo", Status::Pending, None)]);
    assert_eq!(cache.get_project_name(ID_A).unwrap(), None);
}

#[test]
fn project_name_joins_ancestors_root_most_first() {
    let mut cache = TaskCache::new();
    cache.refresh(vec![
        task(ID_A, "Foo", Status::Pending, None),
        task(ID_B, "Bar", Status::Pending, Some(ID_A)),
        task(ID_C, "Baz", Status::Pending, Some(ID_B)),
    ]);
    assert_eq!(cache.get_project_name(ID_C).unwrap(), Some("foo.bar".to_string()));
    assert_eq!(cache.get_project_name(ID_B).unwrap(), Some("foo".to_string()));
    assert_eq!(cache.get_project_name(ID_A).unwrap(), None);
}

#[test]
fn project_name_lowercases_and_strips_whitespace() {
    let mut cache = TaskCache::new();
    cache.refresh(vec![
        task(ID_A, "Foo Qux", Status::Pending, None),
        task(ID_B, "BAR", Status::Pending, Some(ID_A)),
        task(ID_C, "Baz", Status::Pending, Some(ID_B)),
    ]);
    assert_eq!(cache.get_project_name(ID_C).unwrap(), Some("fooqux.bar".to_string()));
}

#[test]
fn project_name_of_missing_task_is_not_found() {
    let cache = TaskCache::new();
    let err = cache.get_project_name(ID_A).unwrap_err();
    assert_eq!(err.kind, ErrorKind::NotFoundError);
}

#[test]
fn project_name_with_missing_ancestor_is_not_found() {
    let mut cache = TaskCache::new();
    cache.refresh(vec![task(ID_B, "Bar", Status::Pending, Some(ID_A))]);
    let err = cache.get_project_name(ID_B).unwrap_err();
    assert_eq!(err.kind, ErrorKind::NotFoundError);
}

#[test]
fn project_name_on_a_hierarchy_loop_is_decode_error() {
    let mut cache = TaskCache::new();
    cache.refresh(vec![
        task(ID_A, "Foo", Status::Pending, Some(ID_B)),
        task(ID_B, "Bar", Status::Pending, Some(ID_A)),
    ]);
    let err = cache.get_project_name(ID_A).unwrap_err();
    assert_eq!(err.kind, ErrorKind::DecodeError);
}

#[test]
fn project_fix_is_nothing_when_policy_off() {
    let mut cache = TaskCache::new();
    cache.refresh(vec![
        task(ID_A, "Foo", Status::Pending, None),
        task(ID_B, "Bar", Status::Pending, Some(ID_A)),
    ]);
    assert!(matches!(cache.plan_project_fix(ID_B).unwrap(), ProjectFix::NoChange));
}

#[test]
fn project_fix_assigns_the_derived_name() {
    let mut cache = TaskCache::with_policies(true, false);
    cache.refresh(vec![
        task(ID_A, "Foo", Status::Pending, None),
        task(ID_B, "Bar", Status::Pending, Some(ID_A)),
    ]);
    match cache.plan_project_fix(ID_B).unwrap() {
        ProjectFix::Assign(name) => assert_eq!(name, "foo"),
        other => panic!("expected an assignment, got {:?}", other),
    }
}

#[test]
fn project_fix_clears_a_stale_name_on_a_root() {
    let mut cache = TaskCache::with_policies(true, false);
    let mut root = task(ID_A, "Foo", Status::Pending, None);
    root.project = Some("stale".to_string());
    cache.refresh(vec![root]);
    assert!(matches!(cache.plan_project_fix(ID_A).unwrap(), ProjectFix::Clear));
}

#[test]
fn project_fix_is_nothing_once_reconciled() {
    let mut cache = TaskCache::with_policies(true, false);
    let mut child = task(ID_B, "Bar", Status::Pending, Some(ID_A));
    child.project = Some("foo".to_string());
    cache.refresh(vec![task(ID_A, "Foo", Status::Pending, None), child]);
    assert!(matches!(cache.plan_project_fix(ID_B).unwrap(), ProjectFix::NoChange));
}

#[test]
fn tag_fix_adds_the_tag_to_a_parent() {
    let mut cache = TaskCache::with_policies(false, true);
    cache.refresh(vec![
        task(ID_A, "Foo", Status::Pending, None),
        task(ID_B, "Bar", Status::Pending, Some(ID_A)),
    ]);
    assert!(matches!(cache.plan_tag_fix(ID_A).unwrap(), TagFix::Add));
    assert!(matches!(cache.plan_tag_fix(ID_B).unwrap(), TagFix::NoChange));
}

#[test]
fn tag_fix_removes_the_tag_from_a_childless_task() {
    let mut cache = TaskCache::with_policies(false, true);
    let mut lone = task(ID_A, "Foo", Status::Pending, None);
    lone.tags = Some(vec!["project".to_string()]);
    cache.refresh(vec![lone]);
    assert!(matches!(cache.plan_tag_fix(ID_A).unwrap(), TagFix::Remove));
}

#[test]
fn tag_fix_is_nothing_when_policy_off() {
    let mut cache = TaskCache::new();
    let mut lone = task(ID_A, "Foo", Status::Pending, None);
    lone.tags = Some(vec!["project".to_string()]);
    cache.refresh(vec![lone]);
    assert!(matches!(cache.plan_tag_fix(ID_A).unwrap(), TagFix::NoChange));
}

#[test]
fn read_with_repair_is_idempotent() {
    // One full repair cycle against a pretend external store, then a second
    // read: no further corrective mutation is planned.
    let mut cache = TaskCache::with_policies(true, true);
    cache.refresh(vec![
        task(ID_A, "Foo", Status::Pending, None),
        task(ID_B, "Bar", Status::Pending, Some(ID_A)),
    ]);
    // First read: the project policy asks for the derived name.
    let fix = cache.plan_project_fix(ID_B).unwrap();
    let name = match fix {
        ProjectFix::Assign(name) => name,
        other => panic!("expected an assignment, got {:?}", other),
    };
    // The external store applies it; the reload hands back the new record.
    let mut reloaded = task(ID_B, "Bar", Status::Pending, Some(ID_A));
    reloaded.project = Some(name);
    cache.update(reloaded);
    // The tag policy finds nothing to do for a leaf.
    assert!(matches!(cache.plan_tag_fix(ID_B).unwrap(), TagFix::NoChange));
    // Second read: both policies are already satisfied.
    assert!(matches!(cache.plan_project_fix(ID_B).unwrap(), ProjectFix::NoChange));
    assert!(matches!(cache.plan_tag_fix(ID_B).unwrap(), TagFix::NoChange));
}

#[test]
fn deleting_the_last_child_drops_the_tag_after_refresh() {
    let mut cache = TaskCache::with_policies(false, true);
    let mut parent = task(ID_A, "Foo", Status::Pending, None);
    parent.tags = Some(vec!["project".to_string()]);
    cache.refresh(vec![parent.clone(), task(ID_B, "Bar", Status::Pending, Some(ID_A))]);
    // The parent rightly carries the tag while the child is active.
    assert!(matches!(cache.plan_tag_fix(ID_A).unwrap(), TagFix::NoChange));
    // The child is deleted on the external side; the next bulk reload
    // leaves the parent without an entry, so the read plans the removal.
    cache.refresh(vec![parent, task(ID_B, "Bar", Status::Deleted, Some(ID_A))]);
    assert!(matches!(cache.plan_tag_fix(ID_A).unwrap(), TagFix::Remove));
}
