use taskchampion::storage::inmemory::InMemoryStorage;
use taskchampion::{Operations, Replica};
use taskchampion_swift::annotation::create_annotation;
use taskchampion_swift::operation::{new_operations, to_tc_operations};
use taskchampion_swift::status::Status;
use taskchampion_swift::tag::create_tag;
use taskchampion_swift::task::{without_recurring, Task};
use taskchampion_swift::uuid::{parse_uuid, uuid_v4};

fn new_task(rt: &tokio::runtime::Runtime, rep: &mut Replica<InMemoryStorage>, ops: &mut Operations) -> Task {
    let u = uuid_v4();
    let t = rt
        .block_on(rep.create_task(taskchampion::Uuid::from_bytes(u.v), ops))
        .unwrap();
    Task::new(t)
}

fn tags(names: &[&str]) -> Option<Vec<taskchampion_swift::tag::Tag>> {
    Some(names.iter().map(|n| create_tag(n.to_string()).unwrap()).collect())
}

#[test]
fn new_task_fields_read_back() {
    let rt = tokio::runtime::Runtime::new().unwrap();
    let mut rep = Replica::new(InMemoryStorage::new());
    let mut ops = Operations::new();
    let mut t = new_task(&rt, &mut rep, &mut ops);
    let ok = t.apply_new_task_fields(
        &mut ops,
        "buy milk".to_string(),
        Some("0042".to_string()),
        None,
        Some("home".to_string()),
        tags(&["shop", "errand"]),
    );
    assert!(ok);
    assert_eq!(t.get_description(), "buy milk");
    assert_eq!(t.get_status(), Status::Pending);
    assert_eq!(t.get_priority(), "none");
    assert_eq!(t.get_project(), Some("home".to_string()));
    assert_eq!(t.get_due(), Some("42".to_string()));
    assert!(t.get_modified().is_some());
    let mut names: Vec<String> = t
        .get_tags()
        .iter()
        .filter(|g| !g.is_synthetic())
        .map(|g| g.get_value())
        .collect();
    names.sort();
    assert_eq!(names, vec!["errand".to_string(), "shop".to_string()]);
    assert!(t.get_tags().iter().any(|g| g.get_value() == "PENDING"));
    rt.block_on(rep.commit_operations(ops)).unwrap();
    let stored = rt
        .block_on(rep.get_task(taskchampion::Uuid::from_bytes(t.get_uuid().v)))
        .unwrap()
        .unwrap();
    assert_eq!(Task::new(stored).get_description(), "buy milk");
}

#[test]
fn new_task_refuses_synthetic_tag_and_bad_due() {
    let rt = tokio::runtime::Runtime::new().unwrap();
    let mut rep = Replica::new(InMemoryStorage::new());
    let mut ops = Operations::new();
    let mut t = new_task(&rt, &mut rep, &mut ops);
    assert!(!t.apply_new_task_fields(&mut ops, "a".to_string(), None, None, None, tags(&["PENDING"])));
    let mut t2 = new_task(&rt, &mut rep, &mut ops);
    assert!(!t2.apply_new_task_fields(&mut ops, "b".to_string(), Some("tomorrow".to_string()), Some("H".to_string()), None, None));
    let mut t3 = new_task(&rt, &mut rep, &mut ops);
    assert!(t3.apply_new_task_fields(&mut ops, "c".to_string(), None, Some("H".to_string()), None, None));
    assert_eq!(t3.get_priority(), "H");
    assert_eq!(t3.get_project(), None);
    assert_eq!(t3.get_due(), None);
}

#[test]
fn update_replaces_fields_and_tags() {
    let rt = tokio::runtime::Runtime::new().unwrap();
    let mut rep = Replica::new(InMemoryStorage::new());
    let mut ops = Operations::new();
    let mut t = new_task(&rt, &mut rep, &mut ops);
    assert!(t.apply_new_task_fields(&mut ops, "a".to_string(), Some("10".to_string()), None, None, tags(&["old", "keep"])));
    let anns = Some(vec![
        create_annotation("first".to_string(), "100".to_string()).unwrap(),
        create_annotation("second".to_string(), "200".to_string()).unwrap(),
    ]);
    let ok = t.apply_task_update(
        &mut ops,
        "b".to_string(),
        None,
        Some("L".to_string()),
        Some("work".to_string()),
        "completed".to_string(),
        anns,
        tags(&["keep", "new"]),
    );
    assert!(ok);
    assert_eq!(t.get_description(), "b");
    assert_eq!(t.get_status(), Status::Completed);
    assert_eq!(t.get_priority(), "L");
    assert_eq!(t.get_project(), Some("work".to_string()));
    assert_eq!(t.get_due(), None);
    let mut names: Vec<String> = t
        .get_tags()
        .iter()
        .filter(|g| !g.is_synthetic())
        .map(|g| g.get_value())
        .collect();
    names.sort();
    assert_eq!(names, vec!["keep".to_string(), "new".to_string()]);
    assert!(t.annotations_are_representable());
    let mut anns: Vec<(i64, String)> = t
        .get_annotations()
        .iter()
        .map(|a| (a.get_entry(), a.get_description()))
        .collect();
    anns.sort();
    assert_eq!(anns, vec![(100, "first".to_string()), (200, "second".to_string())]);
}

#[test]
fn update_keeps_unknown_status_text() {
    let rt = tokio::runtime::Runtime::new().unwrap();
    let mut rep = Replica::new(InMemoryStorage::new());
    let mut ops = Operations::new();
    let mut t = new_task(&rt, &mut rep, &mut ops);
    assert!(t.apply_task_update(&mut ops, "x".to_string(), Some("5".to_string()), None, None, "wishful".to_string(), None, None));
    assert_eq!(t.get_status(), Status::Unknown("wishful".to_string()));
    assert_eq!(t.get_due(), Some("5".to_string()));
    assert!(!t.apply_task_update(&mut ops, "x".to_string(), Some("5x".to_string()), None, None, "pending".to_string(), None, None));
}

#[test]
fn start_and_stop() {
    let rt = tokio::runtime::Runtime::new().unwrap();
    let mut rep = Replica::new(InMemoryStorage::new());
    let mut ops = Operations::new();
    let mut t = new_task(&rt, &mut rep, &mut ops);
    assert_eq!(t.get_start(), None);
    t.start(&mut ops);
    let started = t.get_start();
    assert!(started.is_some());
    t.start(&mut ops);
    assert_eq!(t.get_start(), started);
    assert!(t.get_tags().iter().any(|g| g.get_value() == "ACTIVE"));
    t.stop(&mut ops);
    assert_eq!(t.get_start(), None);
}

#[test]
fn pending_list_drops_recurring_templates() {
    let rt = tokio::runtime::Runtime::new().unwrap();
    let mut rep = Replica::new(InMemoryStorage::new());
    let mut ops = Operations::new();
    let mut a = new_task(&rt, &mut rep, &mut ops);
    let mut b = new_task(&rt, &mut rep, &mut ops);
    let mut c = new_task(&rt, &mut rep, &mut ops);
    assert!(a.apply_task_update(&mut ops, "a".to_string(), None, None, None, "pending".to_string(), None, None));
    assert!(b.apply_task_update(&mut ops, "b".to_string(), None, None, None, "recurring".to_string(), None, None));
    assert!(c.apply_task_update(&mut ops, "c".to_string(), None, None, None, "completed".to_string(), None, None));
    let kept = without_recurring(vec![a, b, c]);
    let names: Vec<String> = kept.iter().map(|t| t.get_description()).collect();
    assert_eq!(names, vec!["a".to_string(), "c".to_string()]);
}

#[test]
fn task_uuid_matches_creation() {
    let rt = tokio::runtime::Runtime::new().unwrap();
    let mut rep = Replica::new(InMemoryStorage::new());
    let mut ops = Operations::new();
    let u = parse_uuid("01020304-0506-0708-090a-0b0c0d0e0f10").unwrap();
    let t = Task::new(rt.block_on(rep.create_task(taskchampion::Uuid::from_bytes(u.v), &mut ops)).unwrap());
    assert_eq!(t.get_uuid().to_string(), "01020304-0506-0708-090a-0b0c0d0e0f10");
}

#[test]
fn operations_convert_in_order() {
    assert!(new_operations().is_empty());
    let ops = vec![
        taskchampion_swift::operation::Operation { inner: taskchampion::Operation::UndoPoint },
        taskchampion_swift::operation::Operation { inner: taskchampion::Operation::UndoPoint },
    ];
    let tc = to_tc_operations(ops);
    assert_eq!(tc.len(), 2);
    assert!(tc[0].is_undo_point());
}

#[test]
fn task_data_keeps_uuid() {
    let rt = tokio::runtime::Runtime::new().unwrap();
    let mut rep = Replica::new(InMemoryStorage::new());
    let mut ops = Operations::new();
    let u = parse_uuid("a1a2a3a4-b1b2-c1c2-d1d2-d3d4d5d6d7d8").unwrap();
    let mut t = Task::new(rt.block_on(rep.create_task(taskchampion::Uuid::from_bytes(u.v), &mut ops)).unwrap());
    assert!(t.apply_new_task_fields(&mut ops, "d".to_string(), None, None, None, None));
    rt.block_on(rep.commit_operations(ops)).unwrap();
    let all = rt.block_on(rep.all_task_data()).unwrap();
    let data: Vec<taskchampion_swift::task::TaskData> =
        all.into_values().map(taskchampion_swift::task::TaskData::from).collect();
    assert_eq!(data.len(), 1);
    assert_eq!(data[0].get_uuid().v, u.v);
}

#[test]
fn annotation_entry_out_of_range_is_detected() {
    let rt = tokio::runtime::Runtime::new().unwrap();
    let mut rep = Replica::new(InMemoryStorage::new());
    let mut ops = Operations::new();
    let mut t = new_task(&rt, &mut rep, &mut ops);
    assert!(t.annotations_are_representable());
    t.inner
        .set_value("annotation_99999999999999", Some("far".to_string()), &mut ops)
        .unwrap();
    assert!(!t.annotations_are_representable());
    assert!(t.try_get_annotations().is_none());
    let mut t2 = new_task(&rt, &mut rep, &mut ops);
    t2.inner
        .set_value("annotation_x", Some("not a time".to_string()), &mut ops)
        .unwrap();
    assert!(t2.annotations_are_representable());
    assert!(t2.get_annotations().is_empty());
    assert_eq!(t2.try_get_annotations().map(|v| v.len()), Some(0));
}

#[test]
fn end_time_follows_status() {
    let rt = tokio::runtime::Runtime::new().unwrap();
    let mut rep = Replica::new(InMemoryStorage::new());
    let mut ops = Operations::new();
    let mut t = new_task(&rt, &mut rep, &mut ops);
    assert!(t.apply_task_update(&mut ops, "e".to_string(), None, None, None, "completed".to_string(), None, None));
    assert!(t.inner.get_value("end").is_some());
    assert!(t.get_tags().iter().any(|g| g.get_value() == "COMPLETED"));
    assert!(t.apply_task_update(&mut ops, "e".to_string(), None, None, None, "pending".to_string(), None, None));
    assert!(t.inner.get_value("end").is_none());
    assert_eq!(t.inner.get_value("status"), Some("pending"));
}

#[test]
fn update_keeps_other_properties() {
    let rt = tokio::runtime::Runtime::new().unwrap();
    let mut rep = Replica::new(InMemoryStorage::new());
    let mut ops = Operations::new();
    let mut t = new_task(&rt, &mut rep, &mut ops);
    t.inner.set_value("recur", Some("weekly".to_string()), &mut ops).unwrap();
    t.inner.set_value("tag_a:b", Some(String::new()), &mut ops).unwrap();
    assert!(t.apply_task_update(&mut ops, "f".to_string(), None, None, None, "pending".to_string(), None, tags(&["x"])));
    assert_eq!(t.get_recur(), Some("weekly".to_string()));
    assert_eq!(t.inner.get_value("tag_a:b"), Some(""));
    assert_eq!(t.inner.get_value("tag_x"), Some(""));
}

fn stored(rt: &tokio::runtime::Runtime, rep: &mut Replica<InMemoryStorage>, t: &Task) -> Task {
    let u = taskchampion::Uuid::from_bytes(t.get_uuid().v);
    Task::new(rt.block_on(rep.get_task(u)).unwrap().unwrap())
}

fn props_of(t: &Task) -> std::collections::HashMap<String, String> {
    t.inner
        .clone()
        .into_task_data()
        .iter()
        .map(|(k, v)| (k.clone(), v.clone()))
        .collect()
}

fn replay(
    mut m: std::collections::HashMap<String, String>,
    ops: &[taskchampion::Operation],
    uuid: taskchampion::Uuid,
) -> std::collections::HashMap<String, String> {
    for o in ops {
        match o {
            taskchampion::Operation::Update { uuid: u, property, value, .. } => {
                assert_eq!(*u, uuid);
                match value {
                    Some(v) => {
                        m.insert(property.clone(), v.clone());
                    }
                    None => {
                        m.remove(property);
                    }
                }
            }
            _ => panic!("an edit recorded something other than an update"),
        }
    }
    m
}

#[test]
fn recorded_operations_replay_to_the_task() {
    let rt = tokio::runtime::Runtime::new().unwrap();
    let mut rep = Replica::new(InMemoryStorage::new());
    let mut ops = Operations::new();
    let mut t = new_task(&rt, &mut rep, &mut ops);
    let uuid = taskchampion::Uuid::from_bytes(t.get_uuid().v);
    let before = props_of(&t);
    let from = ops.len();
    assert!(t.apply_new_task_fields(&mut ops, "a".to_string(), Some("1700000000".to_string()), None, Some("p".to_string()), tags(&["x"])));
    assert_eq!(replay(before, &ops[from..], uuid), props_of(&t));
    let before = props_of(&t);
    let from = ops.len();
    let anns = Some(vec![create_annotation("n".to_string(), "300".to_string()).unwrap()]);
    assert!(t.apply_task_update(&mut ops, "b".to_string(), None, Some("H".to_string()), None, "completed".to_string(), anns, tags(&["y"])));
    assert_eq!(replay(before, &ops[from..], uuid), props_of(&t));
    let before = props_of(&t);
    let from = ops.len();
    t.start(&mut ops);
    assert_eq!(replay(before, &ops[from..], uuid), props_of(&t));
    let before = props_of(&t);
    let from = ops.len();
    t.stop(&mut ops);
    assert!(ops.len() > from);
    match ops.last().unwrap() {
        taskchampion::Operation::Update { property, value, .. } => {
            assert_eq!(property, "start");
            assert_eq!(*value, None);
        }
        _ => panic!("stop did not record an update"),
    }
    assert_eq!(replay(before, &ops[from..], uuid), props_of(&t));
}

#[test]
fn committed_creation_and_update_read_back() {
    let rt = tokio::runtime::Runtime::new().unwrap();
    let mut rep = Replica::new(InMemoryStorage::new());
    let mut ops = Operations::new();
    let mut t = new_task(&rt, &mut rep, &mut ops);
    assert!(t.apply_new_task_fields(&mut ops, "a".to_string(), Some("1700000000".to_string()), None, None, None));
    rt.block_on(rep.commit_operations(ops)).unwrap();
    let s = stored(&rt, &mut rep, &t);
    assert_eq!(s.get_description(), "a");
    assert_eq!(s.get_status(), Status::Pending);
    assert_eq!(s.get_priority(), "none");
    assert_eq!(s.get_due(), Some("1700000000".to_string()));
    let pending = rt.block_on(rep.pending_tasks()).unwrap();
    assert_eq!(pending.len(), 1);
    let mut t = s;
    let mut ops = Operations::new();
    assert!(t.apply_task_update(&mut ops, "a".to_string(), None, None, None, "pending".to_string(), None, None));
    assert_eq!(t.get_due(), None);
    rt.block_on(rep.commit_operations(ops)).unwrap();
    assert_eq!(stored(&rt, &mut rep, &t).get_due(), None);
}

#[test]
fn failed_update_leaves_the_stored_task() {
    let rt = tokio::runtime::Runtime::new().unwrap();
    let mut rep = Replica::new(InMemoryStorage::new());
    let mut ops = Operations::new();
    let mut t = new_task(&rt, &mut rep, &mut ops);
    assert!(t.apply_new_task_fields(&mut ops, "a".to_string(), None, None, None, None));
    rt.block_on(rep.commit_operations(ops)).unwrap();
    let mut ops = Operations::new();
    let mut u = stored(&rt, &mut rep, &t);
    assert!(!u.apply_task_update(&mut ops, "b".to_string(), Some("tomorrow".to_string()), None, None, "completed".to_string(), None, None));
    let s = stored(&rt, &mut rep, &t);
    assert_eq!(s.get_description(), "a");
    assert_eq!(s.get_status(), Status::Pending);
}

#[test]
fn committed_start_and_stop_read_back() {
    let rt = tokio::runtime::Runtime::new().unwrap();
    let mut rep = Replica::new(InMemoryStorage::new());
    let mut ops = Operations::new();
    let mut t = new_task(&rt, &mut rep, &mut ops);
    assert!(t.apply_new_task_fields(&mut ops, "a".to_string(), None, None, None, None));
    t.start(&mut ops);
    rt.block_on(rep.commit_operations(ops)).unwrap();
    let mut s = stored(&rt, &mut rep, &t);
    assert_eq!(s.get_start(), t.get_start());
    assert!(s.get_start().is_some());
    let mut ops = Operations::new();
    s.stop(&mut ops);
    rt.block_on(rep.commit_operations(ops)).unwrap();
    assert_eq!(stored(&rt, &mut rep, &t).get_start(), None);
}

#[test]
fn committed_recurring_update_leaves_pending_list() {
    let rt = tokio::runtime::Runtime::new().unwrap();
    let mut rep = Replica::new(InMemoryStorage::new());
    let mut ops = Operations::new();
    let mut t = new_task(&rt, &mut rep, &mut ops);
    assert!(t.apply_new_task_fields(&mut ops, "a".to_string(), None, None, None, None));
    rt.block_on(rep.commit_operations(ops)).unwrap();
    let listed = |rep: &mut Replica<InMemoryStorage>| {
        let tasks: Vec<Task> = rt.block_on(rep.pending_tasks()).unwrap().into_iter().map(Task::new).collect();
        without_recurring(tasks).len()
    };
    assert_eq!(listed(&mut rep), 1);
    let mut ops = Operations::new();
    assert!(t.apply_task_update(&mut ops, "a".to_string(), None, None, None, "recurring".to_string(), None, None));
    rt.block_on(rep.commit_operations(ops)).unwrap();
    assert_eq!(listed(&mut rep), 0);
}

#[test]
fn repeated_update_keeps_fields() {
    let rt = tokio::runtime::Runtime::new().unwrap();
    let mut rep = Replica::new(InMemoryStorage::new());
    let mut ops = Operations::new();
    let mut t = new_task(&rt, &mut rep, &mut ops);
    let run = |t: &mut Task, ops: &mut Operations| {
        let anns = Some(vec![create_annotation("n".to_string(), "300".to_string()).unwrap()]);
        assert!(t.apply_task_update(ops, "d".to_string(), Some("77".to_string()), Some("M".to_string()), Some("q".to_string()), "completed".to_string(), anns, tags(&["z"])));
    };
    run(&mut t, &mut ops);
    let mut first = props_of(&t);
    run(&mut t, &mut ops);
    let mut second = props_of(&t);
    for k in ["end", "modified"] {
        first.remove(k);
        second.remove(k);
    }
    assert_eq!(first, second);
}

#[test]
fn random_uuid_first_byte_is_not_zero() {
    for _ in 0..2000 {
        let u = uuid_v4();
        assert!(u.v[0] != 0);
        assert_eq!(u.v[6] >> 4, 4);
        assert_eq!(u.v[8] & 0xC0, 0x80);
    }
}

#[test]
fn entry_time_is_the_given_now() {
    let rt = tokio::runtime::Runtime::new().unwrap();
    let mut rep = Replica::new(InMemoryStorage::new());
    let mut ops = Operations::new();
    let mut t = new_task(&rt, &mut rep, &mut ops);
    assert!(t.apply_new_task_fields_at(&mut ops, 1234, "a".to_string(), None, None, None, None));
    assert_eq!(t.inner.clone().into_task_data().get("entry"), Some("1234"));
    let mut t2 = new_task(&rt, &mut rep, &mut ops);
    assert!(t2.apply_new_task_fields(&mut ops, "b".to_string(), None, None, None, None));
    let entry: i64 = t2.inner.clone().into_task_data().get("entry").unwrap().parse().unwrap();
    assert!(entry > 1_600_000_000);
}

#[test]
fn each_property_is_listed_once() {
    let rt = tokio::runtime::Runtime::new().unwrap();
    let mut rep = Replica::new(InMemoryStorage::new());
    let mut ops = Operations::new();
    let mut t = new_task(&rt, &mut rep, &mut ops);
    assert!(t.apply_new_task_fields(&mut ops, "a".to_string(), None, None, None, tags(&["x", "y"])));
    t.inner.set_value("annotation_7", Some("first".to_string()), &mut ops).unwrap();
    t.inner.set_value("annotation_+7", Some("second".to_string()), &mut ops).unwrap();
    let users: Vec<String> = t.get_tags().iter().filter(|g| !g.is_synthetic()).map(|g| g.get_value()).collect();
    assert_eq!(users.len(), 2);
    let mut anns: Vec<(i64, String)> = t.get_annotations().iter().map(|a| (a.get_entry(), a.get_description())).collect();
    anns.sort();
    assert_eq!(anns, vec![(7, "first".to_string()), (7, "second".to_string())]);
}
