//! The boundary with TaskChampion: its types as Verus sees them, names for
//! what its values hold, and one trusted wrapper for each of its functions
//! that the library calls.
use vstd::prelude::*;
use crate::annotation::Annotation;
use crate::model::{
    agree_except, annotation_key, holds_timestamp, key_description, key_due, key_end, key_entry,
    key_modified, key_priority, key_start, key_status, lookup, modified_touched, opt_text,
    set_effect, status_of, tag_key, text_or_empty, Props, annotation_entry,
    annotations_representable, has_annotation, one_entry_per_property,
};
use crate::status::{status_text, Status, StatusView};
use crate::tag::{
    active_tag, all_ascii_upper, completed_tag, deleted_tag, is_tag_name, pending_tag, Tag,
};
use crate::text::int_text;
use crate::time::in_time_range;
use taskchampion::Task as TcTask;
use taskchampion::TaskData as TcTaskData;
use taskchampion::Operation as TcOperation;
use taskchampion::Error as TcError;

verus! {

#[verifier::external_type_specification]
#[verifier::external_body]
pub struct ExTask(TcTask);

#[verifier::external_type_specification]
#[verifier::external_body]
pub struct ExTaskData(TcTaskData);

#[verifier::external_type_specification]
#[verifier::external_body]
pub struct ExOperation(TcOperation);

#[verifier::external_type_specification]
#[verifier::external_body]
pub struct ExError(TcError);

/// The properties of a TaskChampion task (its task data's key/value map).
pub uninterp spec fn task_props(t: taskchampion::Task) -> Map<Seq<char>, Seq<char>>;

/// The UUID that a TaskChampion task was made with.
pub uninterp spec fn task_uuid(t: taskchampion::Task) -> Seq<u8>;

/// The properties held by a TaskChampion `TaskData`.
pub uninterp spec fn data_props(d: taskchampion::TaskData) -> Map<Seq<char>, Seq<char>>;

/// The UUID that a TaskChampion `TaskData` was made with.
pub uninterp spec fn data_uuid(d: taskchampion::TaskData) -> Seq<u8>;

/// What an operation records.  For an `Update`: the UUID of the task it
/// edits, the property, and the value set (`None` when the property is
/// removed).  `None` for the other kinds of operation.
///
/// TaskChampion's task setters change a task only through
/// `TaskData::update`, which sets or removes one property and pushes one
/// `Update` holding the task's UUID, that property and that value.  So the
/// wrappers below state, with `records`, that the operations a call appends
/// replay the call's edit, and that the last one sets the property that the
/// call is about.
pub uninterp spec fn op_update(o: taskchampion::Operation) -> Option<(Seq<u8>, Seq<char>, Option<Seq<char>>)>;

/// `b` is `a` with operations appended.
pub open spec fn ops_extended(a: Seq<taskchampion::Operation>, b: Seq<taskchampion::Operation>) -> bool {
    a.len() <= b.len() && b.subrange(0, a.len() as int) == a
}

/// The operations that `b` has beyond `a`.
pub open spec fn appended(a: Seq<taskchampion::Operation>, b: Seq<taskchampion::Operation>) -> Seq<taskchampion::Operation> {
    b.subrange(a.len() as int, b.len() as int)
}

/// Properties `m` with one operation applied: an update sets (or removes)
/// its property; any other operation leaves them as they are.
pub open spec fn apply_update(m: Props, o: taskchampion::Operation) -> Props {
    match op_update(o) {
        Some((_, k, Some(v))) => m.insert(k, v),
        Some((_, k, None)) => m.remove(k),
        None => m,
    }
}

/// Properties `m` with a list of operations applied, first to last.
pub open spec fn apply_updates(m: Props, ops: Seq<taskchampion::Operation>) -> Props
    decreases ops.len(),
{
    if ops.len() == 0 {
        m
    } else {
        apply_update(apply_updates(m, ops.drop_last()), ops.last())
    }
}

/// Every operation of the list updates the task with UUID `uuid`.
pub open spec fn updates_of(ops: Seq<taskchampion::Operation>, uuid: Seq<u8>) -> bool {
    forall|i: int| 0 <= i < ops.len() ==> (op_update(#[trigger] ops[i]) matches Some((u, _, _)) && u == uuid)
}

/// The edit of a task from properties `a` to properties `b` is recorded in
/// the operations that `new_ops` appends to `old_ops`: they are updates of
/// the task with UUID `uuid`, and applied in order to `a` they give `b`.
pub open spec fn records(
    a: Props,
    b: Props,
    old_ops: Seq<taskchampion::Operation>,
    new_ops: Seq<taskchampion::Operation>,
    uuid: Seq<u8>,
) -> bool {
    &&& ops_extended(old_ops, new_ops)
    &&& updates_of(appended(old_ops, new_ops), uuid)
    &&& apply_updates(a, appended(old_ops, new_ops)) == b
}

/// Applying two lists of operations in turn is applying their concatenation.
pub proof fn lemma_apply_updates_concat(
    m: Props,
    x: Seq<taskchampion::Operation>,
    y: Seq<taskchampion::Operation>,
)
    ensures
        apply_updates(m, x + y) == apply_updates(apply_updates(m, x), y),
    decreases y.len(),
{
    if y.len() == 0 {
        assert(x + y =~= x);
    } else {
        lemma_apply_updates_concat(m, x, y.drop_last());
        assert((x + y).drop_last() =~= x + y.drop_last());
        assert((x + y).last() == y.last());
    }
}

/// No operation appended records no edit.
pub proof fn lemma_records_none(a: Props, ops: Seq<taskchampion::Operation>, uuid: Seq<u8>)
    ensures
        records(a, a, ops, ops, uuid),
{
    assert(ops.subrange(0, ops.len() as int) =~= ops);
    assert(appended(ops, ops) =~= Seq::<taskchampion::Operation>::empty());
}

/// Two recorded edits in turn are one recorded edit.
pub proof fn lemma_records_trans(
    a: Props,
    b: Props,
    c: Props,
    o1: Seq<taskchampion::Operation>,
    o2: Seq<taskchampion::Operation>,
    o3: Seq<taskchampion::Operation>,
    uuid: Seq<u8>,
)
    requires
        records(a, b, o1, o2, uuid),
        records(b, c, o2, o3, uuid),
    ensures
        records(a, c, o1, o3, uuid),
{
    let x = appended(o1, o2);
    let y = appended(o2, o3);
    assert(o3.subrange(0, o1.len() as int) =~= o3.subrange(0, o2.len() as int).subrange(0, o1.len() as int));
    assert(appended(o1, o3) =~= x + y) by {
        assert forall|i: int| 0 <= i < appended(o1, o3).len() implies appended(o1, o3)[i] == (x + y)[i] by {
            if i < x.len() {
                assert(o3.subrange(0, o2.len() as int)[o1.len() + i] == o3[o1.len() + i]);
            }
        }
    }
    assert forall|i: int| 0 <= i < (x + y).len() implies (op_update(#[trigger] (x + y)[i]) matches Some((u, _, _)) && u == uuid) by {
        if i < x.len() {
            assert((x + y)[i] == x[i]);
        } else {
            assert((x + y)[i] == y[i - x.len()]);
        }
    }
    lemma_apply_updates_concat(a, x, y);
}

/// The effect of `set_status`: the status text is stored; `end` is removed
/// when the task becomes pending or recurring, and stamped (when absent)
/// when it becomes completed or deleted.
pub open spec fn status_effect(a: Props, b: Props, s: StatusView) -> bool {
    &&& lookup(b, key_status()) == Some(status_text(s))
    &&& agree_except(a, b, set![key_status(), key_end(), key_modified()])
    &&& modified_touched(a, b)
    &&& match s {
        StatusView::Pending | StatusView::Recurring => !b.contains_key(key_end()),
        StatusView::Completed | StatusView::Deleted => if a.contains_key(key_end()) {
            lookup(b, key_end()) == lookup(a, key_end())
        } else {
            holds_timestamp(b, key_end())
        },
        StatusView::Unknown(_) => lookup(b, key_end()) == lookup(a, key_end()),
    }
}

/// Some entry of a list of tags (names and synthetic flags) has the name `n`.
pub open spec fn tag_listed(r: Seq<(String, bool)>, n: Seq<char>) -> bool {
    exists|i: int| 0 <= i < r.len() && #[trigger] r[i].0@ == n
}

/// `Task::get_uuid`, as bytes.
#[verifier::external_body]
pub(crate) fn task_get_uuid(t: &taskchampion::Task) -> (r: [u8; 16])
    ensures
        r@ == task_uuid(*t),
{
    *t.get_uuid().as_bytes()
}

/// `Task::get_description`: the `description` property, or empty.
#[verifier::external_body]
pub(crate) fn task_get_description(t: &taskchampion::Task) -> (r: String)
    ensures
        r@ == text_or_empty(task_props(*t), key_description()),
{
    String::from(t.get_description())
}

/// `Task::get_priority`: the `priority` property, or empty.
#[verifier::external_body]
pub(crate) fn task_get_priority(t: &taskchampion::Task) -> (r: String)
    ensures
        r@ == text_or_empty(task_props(*t), key_priority()),
{
    String::from(t.get_priority())
}

/// `Task::get_status`: the status that the `status` property names, or
/// pending when there is none.
#[verifier::external_body]
pub(crate) fn task_get_status(t: &taskchampion::Task) -> (r: Status)
    ensures
        r@ == status_of(task_props(*t)),
{
    match t.get_status() {
        taskchampion::Status::Pending => Status::Pending,
        taskchampion::Status::Completed => Status::Completed,
        taskchampion::Status::Deleted => Status::Deleted,
        taskchampion::Status::Recurring => Status::Recurring,
        taskchampion::Status::Unknown(s) => Status::Unknown(s),
    }
}

/// `Task::into_task_data` on a clone of the task: the same properties and
/// UUID.
#[verifier::external_body]
pub(crate) fn task_data_of(t: &taskchampion::Task) -> (r: taskchampion::TaskData)
    ensures
        data_props(r) == task_props(*t),
        data_uuid(r) == task_uuid(*t),
{
    t.clone().into_task_data()
}

/// `TaskData::get`: the value of a property, if present.
#[verifier::external_body]
pub(crate) fn data_get(d: &taskchampion::TaskData, key: &str) -> (r: Option<String>)
    ensures
        opt_text(r) == lookup(data_props(*d), key@),
{
    d.get(key).map(String::from)
}

/// `TaskData::get_uuid`, as bytes.
#[verifier::external_body]
pub(crate) fn data_get_uuid(d: &taskchampion::TaskData) -> (r: [u8; 16])
    ensures
        r@ == data_uuid(*d),
{
    *d.get_uuid().as_bytes()
}

/// `TaskData::properties`: the names of the properties present, each once,
/// in no particular order.
#[verifier::external_body]
pub(crate) fn data_properties(d: &taskchampion::TaskData) -> (r: Vec<String>)
    ensures
        forall|i: int| 0 <= i < r.len() ==> data_props(*d).contains_key(#[trigger] r@[i]@),
        forall|k: Seq<char>|
            data_props(*d).contains_key(k) ==> exists|i: int| 0 <= i < r.len() && #[trigger] r@[i]@ == k,
{
    d.properties().map(String::clone).collect()
}

/// `Task::get_tags`, each tag handed out as its name and whether it is
/// synthetic.  Every `tag_<name>` property whose name is a valid tag yields
/// that tag; then come the synthetic tags that the task's state implies:
/// `PENDING`, `COMPLETED` and `DELETED` by its status, `ACTIVE` by a
/// `start` property, and `WAITING`, `BLOCKED`, `UNBLOCKED` and `BLOCKING`
/// by the time and by other tasks, which these clauses leave open.  Each
/// user tag is listed once; a synthetic tag may be listed twice, for a
/// `tag_<NAME>` property and for the task's state, which is left open too.
#[verifier::external_body]
pub(crate) fn task_get_tags(t: &TcTask) -> (r: Vec<(String, bool)>)
    ensures
        forall|i: int|
            #![trigger r@[i]]
            0 <= i < r.len() ==> is_tag_name(r@[i].0@) && r@[i].1 == all_ascii_upper(r@[i].0@),
        forall|i: int|
            #![trigger r@[i]]
            0 <= i < r.len() && !r@[i].1 ==> task_props(*t).contains_key(tag_key(r@[i].0@)),
        forall|n: Seq<char>|
            is_tag_name(n) && task_props(*t).contains_key(#[trigger] tag_key(n)) ==> exists|i: int|
                #![trigger r@[i]]
                0 <= i < r.len() && r@[i].0@ == n,
        forall|i: int, j: int|
            #![trigger r@[i], r@[j]]
            0 <= i < r.len() && 0 <= j < r.len() && i != j && !r@[i].1 ==> r@[i].0@ != r@[j].0@,
        tag_listed(r@, pending_tag()) <==> (status_of(task_props(*t)) == StatusView::Pending
            || task_props(*t).contains_key(tag_key(pending_tag()))),
        tag_listed(r@, completed_tag()) <==> (status_of(task_props(*t)) == StatusView::Completed
            || task_props(*t).contains_key(tag_key(completed_tag()))),
        tag_listed(r@, deleted_tag()) <==> (status_of(task_props(*t)) == StatusView::Deleted
            || task_props(*t).contains_key(tag_key(deleted_tag()))),
        tag_listed(r@, active_tag()) <==> (task_props(*t).contains_key(key_start())
            || task_props(*t).contains_key(tag_key(active_tag()))),
{
    t.get_tags().map(|tag| (tag.to_string(), tag.is_synthetic())).collect()
}

/// `Task::get_annotations`, each annotation handed out as its entry time
/// in seconds and its text: one for each `annotation_<secs>` property whose
/// suffix parses as an `i64`, one entry for each such property, in no
/// particular order.  The entry times are
/// converted by `taskchampion::utc_timestamp`, which panics on one that is
/// not representable, hence the precondition.
#[verifier::external_body]
pub(crate) fn task_get_annotations(t: &TcTask) -> (r: Vec<(i64, String)>)
    requires
        annotations_representable(task_props(*t)),
    ensures
        forall|i: int|
            0 <= i < r.len() ==> has_annotation(task_props(*t), #[trigger] r@[i].0 as int, r@[i].1@),
        forall|k: Seq<char>|
            task_props(*t).contains_key(k) && (#[trigger] annotation_entry(k)) is Some ==> exists|
                i: int,
            |
                #![trigger r@[i]]
                0 <= i < r.len() && annotation_entry(k) == Some(r@[i].0 as int) && task_props(*t)[k]
                    == r@[i].1@,
        one_entry_per_property(task_props(*t), r@.map_values(|p: (i64, String)| (p.0 as int, p.1@))),
{
    t.get_annotations().map(|a| (a.entry.timestamp(), a.description)).collect()
}

/// `Task::set_description`: always succeeds.
#[verifier::external_body]
pub(crate) fn task_set_description(
    t: &mut taskchampion::Task,
    v: String,
    ops: &mut Vec<taskchampion::Operation>,
) -> (r: Result<(), taskchampion::Error>)
    ensures
        r is Ok,
        set_effect(task_props(*old(t)), task_props(*final(t)), key_description(), Some(v@)),
        task_uuid(*final(t)) == task_uuid(*old(t)),
        records(task_props(*old(t)), task_props(*final(t)), old(ops)@, final(ops)@, task_uuid(*old(t))),
        final(ops)@.len() > old(ops)@.len(),
        op_update(final(ops)@.last()) == Some((task_uuid(*old(t)), key_description(), Some(v@))),
{
    t.set_description(v, ops)
}

/// `Task::set_priority`: always succeeds.
#[verifier::external_body]
pub(crate) fn task_set_priority(
    t: &mut taskchampion::Task,
    v: String,
    ops: &mut Vec<taskchampion::Operation>,
) -> (r: Result<(), taskchampion::Error>)
    ensures
        r is Ok,
        set_effect(task_props(*old(t)), task_props(*final(t)), key_priority(), Some(v@)),
        task_uuid(*final(t)) == task_uuid(*old(t)),
        records(task_props(*old(t)), task_props(*final(t)), old(ops)@, final(ops)@, task_uuid(*old(t))),
        final(ops)@.len() > old(ops)@.len(),
        op_update(final(ops)@.last()) == Some((task_uuid(*old(t)), key_priority(), Some(v@))),
{
    t.set_priority(v, ops)
}

/// `Task::set_value`: sets (or, for `None`, removes) a property other than
/// `modified`; always succeeds.
#[verifier::external_body]
pub(crate) fn task_set_value(
    t: &mut taskchampion::Task,
    key: &str,
    v: Option<String>,
    ops: &mut Vec<taskchampion::Operation>,
) -> (r: Result<(), taskchampion::Error>)
    requires
        key@ != key_modified(),
    ensures
        r is Ok,
        set_effect(task_props(*old(t)), task_props(*final(t)), key@, opt_text(v)),
        task_uuid(*final(t)) == task_uuid(*old(t)),
        records(task_props(*old(t)), task_props(*final(t)), old(ops)@, final(ops)@, task_uuid(*old(t))),
        final(ops)@.len() > old(ops)@.len(),
        op_update(final(ops)@.last()) == Some((task_uuid(*old(t)), key@, opt_text(v))),
{
    t.set_value(key, v, ops)
}

/// `Task::set_status`, with the status converted one variant for one.
#[verifier::external_body]
pub(crate) fn task_set_status(
    t: &mut taskchampion::Task,
    s: Status,
    ops: &mut Vec<taskchampion::Operation>,
) -> (r: Result<(), taskchampion::Error>)
    ensures
        r is Ok,
        status_effect(task_props(*old(t)), task_props(*final(t)), s@),
        task_uuid(*final(t)) == task_uuid(*old(t)),
        records(task_props(*old(t)), task_props(*final(t)), old(ops)@, final(ops)@, task_uuid(*old(t))),
        final(ops)@.len() > old(ops)@.len(),
        op_update(final(ops)@.last()) == Some((task_uuid(*old(t)), key_status(), Some(status_text(s@)))),
{
    let s = match s {
        Status::Pending => taskchampion::Status::Pending,
        Status::Completed => taskchampion::Status::Completed,
        Status::Deleted => taskchampion::Status::Deleted,
        Status::Recurring => taskchampion::Status::Recurring,
        Status::Unknown(v) => taskchampion::Status::Unknown(v),
    };
    t.set_status(s, ops)
}

/// `Task::set_entry`, with the time given in seconds since the epoch and
/// converted by `taskchampion::utc_timestamp`; stores the decimal seconds.
#[verifier::external_body]
pub(crate) fn task_set_entry(
    t: &mut taskchampion::Task,
    secs: Option<i64>,
    ops: &mut Vec<taskchampion::Operation>,
) -> (r: Result<(), taskchampion::Error>)
    requires
        secs matches Some(s) ==> in_time_range(s as int),
    ensures
        r is Ok,
        set_effect(
            task_props(*old(t)),
            task_props(*final(t)),
            key_entry(),
            match secs {
                Some(s) => Some(int_text(s as int)),
                None => None,
            },
        ),
        task_uuid(*final(t)) == task_uuid(*old(t)),
        records(task_props(*old(t)), task_props(*final(t)), old(ops)@, final(ops)@, task_uuid(*old(t))),
        final(ops)@.len() > old(ops)@.len(),
        op_update(final(ops)@.last()) == Some((task_uuid(*old(t)), key_entry(), match secs {
            Some(s) => Some(int_text(s as int)),
            None => None,
        })),
{
    t.set_entry(secs.map(taskchampion::utc_timestamp), ops)
}

/// `Task::set_due`, with the time given in seconds since the epoch and
/// converted by `taskchampion::utc_timestamp`; stores the decimal seconds.
#[verifier::external_body]
pub(crate) fn task_set_due(
    t: &mut taskchampion::Task,
    secs: Option<i64>,
    ops: &mut Vec<taskchampion::Operation>,
) -> (r: Result<(), taskchampion::Error>)
    requires
        secs matches Some(s) ==> in_time_range(s as int),
    ensures
        r is Ok,
        set_effect(
            task_props(*old(t)),
            task_props(*final(t)),
            key_due(),
            match secs {
                Some(s) => Some(int_text(s as int)),
                None => None,
            },
        ),
        task_uuid(*final(t)) == task_uuid(*old(t)),
        records(task_props(*old(t)), task_props(*final(t)), old(ops)@, final(ops)@, task_uuid(*old(t))),
        final(ops)@.len() > old(ops)@.len(),
        op_update(final(ops)@.last()) == Some((task_uuid(*old(t)), key_due(), match secs {
            Some(s) => Some(int_text(s as int)),
            None => None,
        })),
{
    t.set_due(secs.map(taskchampion::utc_timestamp), ops)
}

/// `Task::add_tag`, with the tag converted from its name: a synthetic tag
/// is refused and nothing changes; a user tag sets `tag_<name>` to empty.
#[verifier::external_body]
pub(crate) fn task_add_tag(
    t: &mut taskchampion::Task,
    tag: &Tag,
    ops: &mut Vec<taskchampion::Operation>,
) -> (r: Result<(), taskchampion::Error>)
    ensures
        r is Ok <==> !all_ascii_upper(tag@),
        r is Err ==> *final(t) == *old(t) && final(ops)@ == old(ops)@,
        r is Ok ==> set_effect(
            task_props(*old(t)),
            task_props(*final(t)),
            tag_key(tag@),
            Some(Seq::empty()),
        ),
        task_uuid(*final(t)) == task_uuid(*old(t)),
        records(task_props(*old(t)), task_props(*final(t)), old(ops)@, final(ops)@, task_uuid(*old(t))),
        r is Ok ==> final(ops)@.len() > old(ops)@.len(),
        r is Ok ==> op_update(final(ops)@.last()) == Some((task_uuid(*old(t)), tag_key(tag@), Some(Seq::<char>::empty()))),
{
    let tag = taskchampion::Tag::try_from(tag.name.as_str()).unwrap();
    t.add_tag(&tag, ops)
}

/// `Task::remove_tag`, with the tag converted from its name: a synthetic
/// tag is refused and nothing changes; a user tag removes `tag_<name>`.
#[verifier::external_body]
pub(crate) fn task_remove_tag(
    t: &mut taskchampion::Task,
    tag: &Tag,
    ops: &mut Vec<taskchampion::Operation>,
) -> (r: Result<(), taskchampion::Error>)
    ensures
        r is Ok <==> !all_ascii_upper(tag@),
        r is Err ==> *final(t) == *old(t) && final(ops)@ == old(ops)@,
        r is Ok ==> set_effect(task_props(*old(t)), task_props(*final(t)), tag_key(tag@), None),
        task_uuid(*final(t)) == task_uuid(*old(t)),
        records(task_props(*old(t)), task_props(*final(t)), old(ops)@, final(ops)@, task_uuid(*old(t))),
        r is Ok ==> final(ops)@.len() > old(ops)@.len(),
        r is Ok ==> op_update(final(ops)@.last()) == Some((task_uuid(*old(t)), tag_key(tag@), None::<Seq<char>>)),
{
    let tag = taskchampion::Tag::try_from(tag.name.as_str()).unwrap();
    t.remove_tag(&tag, ops)
}

/// `Task::add_annotation`, with the annotation converted (its entry time by
/// `taskchampion::utc_timestamp`): sets `annotation_<secs>` to the text.
#[verifier::external_body]
pub(crate) fn task_add_annotation(
    t: &mut taskchampion::Task,
    ann: &Annotation,
    ops: &mut Vec<taskchampion::Operation>,
) -> (r: Result<(), taskchampion::Error>)
    ensures
        r is Ok,
        set_effect(
            task_props(*old(t)),
            task_props(*final(t)),
            annotation_key(ann@.0),
            Some(ann@.1),
        ),
        task_uuid(*final(t)) == task_uuid(*old(t)),
        records(task_props(*old(t)), task_props(*final(t)), old(ops)@, final(ops)@, task_uuid(*old(t))),
        final(ops)@.len() > old(ops)@.len(),
        op_update(final(ops)@.last()) == Some((task_uuid(*old(t)), annotation_key(ann@.0), Some(ann@.1))),
{
    let ann = taskchampion::Annotation {
        entry: taskchampion::utc_timestamp(ann.entry),
        description: ann.description.clone(),
    };
    t.add_annotation(ann, ops)
}

/// `Task::start`: a task that has a `start` property is left as it is;
/// otherwise `start` is stamped with the current time.
#[verifier::external_body]
pub(crate) fn task_start(t: &mut taskchampion::Task, ops: &mut Vec<taskchampion::Operation>) -> (r:
    Result<(), taskchampion::Error>)
    ensures
        r is Ok,
        task_props(*old(t)).contains_key(key_start()) ==> task_props(*final(t)) == task_props(
            *old(t),
        ),
        !task_props(*old(t)).contains_key(key_start()) ==> {
            &&& holds_timestamp(task_props(*final(t)), key_start())
            &&& agree_except(
                task_props(*old(t)),
                task_props(*final(t)),
                set![key_start(), key_modified()],
            )
            &&& modified_touched(task_props(*old(t)), task_props(*final(t)))
        },
        task_uuid(*final(t)) == task_uuid(*old(t)),
        records(task_props(*old(t)), task_props(*final(t)), old(ops)@, final(ops)@, task_uuid(*old(t))),
{
    t.start(ops)
}

/// `Task::stop`: removes the `start` property.
#[verifier::external_body]
pub(crate) fn task_stop(t: &mut taskchampion::Task, ops: &mut Vec<taskchampion::Operation>) -> (r:
    Result<(), taskchampion::Error>)
    ensures
        r is Ok,
        set_effect(task_props(*old(t)), task_props(*final(t)), key_start(), None),
        task_uuid(*final(t)) == task_uuid(*old(t)),
        records(task_props(*old(t)), task_props(*final(t)), old(ops)@, final(ops)@, task_uuid(*old(t))),
        final(ops)@.len() > old(ops)@.len(),
        op_update(final(ops)@.last()) == Some((task_uuid(*old(t)), key_start(), None::<Seq<char>>)),
{
    t.stop(ops)
}

/// The current time in seconds: `chrono::Utc::now().timestamp()`, which lies in
/// the representable range.
#[verifier::external_body]
pub(crate) fn now_secs() -> (r: i64)
    ensures
        in_time_range(r as int),
{
    taskchampion::chrono::Utc::now().timestamp()
}

} // verus!
