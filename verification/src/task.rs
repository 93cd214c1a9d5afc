//! Tasks: reading their properties, and the edits that creating, updating,
//! starting and stopping a task make.
use vstd::prelude::*;
use vstd::string::StrSliceExecFns;
use crate::annotation::Annotation;
use crate::backend::{
    data_get, data_get_uuid, data_properties, data_props, data_uuid, lemma_records_none, lemma_records_trans,
    now_secs, records, tag_listed, apply_updates, appended, updates_of, task_add_annotation, task_add_tag, task_data_of,
    task_get_annotations, task_get_description, task_get_priority, task_get_status,
    task_get_tags, task_get_uuid, task_props, task_remove_tag, task_set_description,
    task_set_due, task_set_entry, task_set_priority, task_set_status, task_set_value, task_start,
    task_stop, task_uuid,
};
use crate::model::{
    agree_except, all_tag_keys, annotation_entry, is_tag_key, annotation_key, annotation_keys,
    annotation_prefix, annotations_representable, has_annotation, one_entry_per_property, holds_timestamp,
    key_description, key_due, key_end, key_entry, key_modified, key_priority, key_project,
    key_recur, key_scheduled, key_start, key_status, key_until, lemma_annotation_key,
    lemma_fixed_keys_not_tags, lemma_has_annotation_in_range, lemma_keys_distinct,
    lemma_modified_trans, lemma_tag_key, lookup, modified_touched, opt_text, set_effect,
    status_of, tag_key, tag_keys, text_or_empty, Props,
};
use crate::status::{
    lemma_status_text_round_trip, pending_text, status_from_string, status_from_text, Status,
    StatusView,
};
use crate::tag::{
    active_tag, all_ascii_upper, completed_tag, deleted_tag, is_tag_name, is_user_tag_name,
    pending_tag, Tag,
};
use crate::text::{chars_of, i64_text_value, int_text, int_to_string, parse_i64, starts_with_chars};
use crate::time::{in_time_range, time_text_usable};
use crate::uuid::Uuid;

verus! {

/// A task of the replica.
pub struct Task {
    pub inner: taskchampion::Task,
}

impl View for Task {
    type V = Props;

    open spec fn view(&self) -> Props {
        task_props(self.inner)
    }
}

/// The data of a task, without the replica's dependency information.
pub struct TaskData {
    pub inner: taskchampion::TaskData,
}

impl From<taskchampion::Task> for Task {
    fn from(inner: taskchampion::Task) -> (r: Task) {
        Task { inner }
    }
}

impl vstd::std_specs::convert::FromSpecImpl<taskchampion::Task> for Task {
    open spec fn obeys_from_spec() -> bool {
        true
    }

    open spec fn from_spec(v: taskchampion::Task) -> Task {
        Task { inner: v }
    }
}

impl From<taskchampion::TaskData> for TaskData {
    fn from(inner: taskchampion::TaskData) -> (r: TaskData) {
        TaskData { inner }
    }
}

impl vstd::std_specs::convert::FromSpecImpl<taskchampion::TaskData> for TaskData {
    open spec fn obeys_from_spec() -> bool {
        true
    }

    open spec fn from_spec(v: taskchampion::TaskData) -> TaskData {
        TaskData { inner: v }
    }
}

impl Task {
    /// Wraps a TaskChampion task.
    pub fn new(inner: taskchampion::Task) -> (r: Task)
        ensures
            r.inner == inner,
    {
        Task { inner }
    }

    /// The task's UUID.
    pub fn get_uuid(&self) -> (r: Uuid)
        ensures
            r.v@ == task_uuid(self.inner),
    {
        Uuid { v: task_get_uuid(&self.inner) }
    }

    /// The task's description; empty when it has none.
    pub fn get_description(&self) -> (r: String)
        ensures
            r@ == text_or_empty(self@, key_description()),
    {
        task_get_description(&self.inner)
    }

    /// The task's status; pending when it has none.
    pub fn get_status(&self) -> (r: Status)
        ensures
            r@ == status_of(self@),
    {
        task_get_status(&self.inner)
    }

    /// The task's priority; empty when it has none.
    pub fn get_priority(&self) -> (r: String)
        ensures
            r@ == text_or_empty(self@, key_priority()),
    {
        task_get_priority(&self.inner)
    }

    /// The raw text of one of the task's properties.
    fn property(&self, key: &str) -> (r: Option<String>)
        ensures
            opt_text(r) == lookup(self@, key@),
    {
        let data = task_data_of(&self.inner);
        data_get(&data, key)
    }

    /// The `due` property, as stored (decimal seconds since the epoch).
    pub fn get_due(&self) -> (r: Option<String>)
        ensures
            opt_text(r) == lookup(self@, key_due()),
    {
        proof {
            reveal_strlit("due");
            assert("due"@ =~= key_due());
        }
        self.property("due")
    }

    /// The `project` property.
    pub fn get_project(&self) -> (r: Option<String>)
        ensures
            opt_text(r) == lookup(self@, key_project()),
    {
        proof {
            reveal_strlit("project");
            assert("project"@ =~= key_project());
        }
        self.property("project")
    }

    /// The `recur` property.
    pub fn get_recur(&self) -> (r: Option<String>)
        ensures
            opt_text(r) == lookup(self@, key_recur()),
    {
        proof {
            reveal_strlit("recur");
            assert("recur"@ =~= key_recur());
        }
        self.property("recur")
    }

    /// The `start` property, as stored.
    pub fn get_start(&self) -> (r: Option<String>)
        ensures
            opt_text(r) == lookup(self@, key_start()),
    {
        proof {
            reveal_strlit("start");
            assert("start"@ =~= key_start());
        }
        self.property("start")
    }

    /// The `scheduled` property, as stored.
    pub fn get_scheduled(&self) -> (r: Option<String>)
        ensures
            opt_text(r) == lookup(self@, key_scheduled()),
    {
        proof {
            reveal_strlit("scheduled");
            assert("scheduled"@ =~= key_scheduled());
        }
        self.property("scheduled")
    }

    /// The `until` property, as stored.
    pub fn get_until(&self) -> (r: Option<String>)
        ensures
            opt_text(r) == lookup(self@, key_until()),
    {
        proof {
            reveal_strlit("until");
            assert("until"@ =~= key_until());
        }
        self.property("until")
    }

    /// The `modified` property, as stored.
    pub fn get_modified(&self) -> (r: Option<String>)
        ensures
            opt_text(r) == lookup(self@, key_modified()),
    {
        proof {
            reveal_strlit("modified");
            assert("modified"@ =~= key_modified());
        }
        self.property("modified")
    }
}

impl Task {
    /// The task's tags: each user tag recorded as a `tag_<name>` property,
    /// and synthetic tags that describe its state.
    pub fn get_tags(&self) -> (r: Vec<Tag>)
        ensures
            lists_tags(self@, r@),
            tags_include(r@, pending_tag()) <==> (status_of(self@) == StatusView::Pending
                || self@.contains_key(tag_key(pending_tag()))),
            tags_include(r@, completed_tag()) <==> (status_of(self@) == StatusView::Completed
                || self@.contains_key(tag_key(completed_tag()))),
            tags_include(r@, deleted_tag()) <==> (status_of(self@) == StatusView::Deleted
                || self@.contains_key(tag_key(deleted_tag()))),
            tags_include(r@, active_tag()) <==> (self@.contains_key(key_start()) || self@.contains_key(
                tag_key(active_tag()),
            )),
    {
        let raw = task_get_tags(&self.inner);
        let mut r: Vec<Tag> = Vec::new();
        let mut i: usize = 0;
        while i < raw.len()
            invariant
                i <= raw.len(),
                r.len() == i,
                forall|j: int|
                    #![trigger raw@[j]]
                    0 <= j < raw.len() ==> is_tag_name(raw@[j].0@) && raw@[j].1 == all_ascii_upper(
                        raw@[j].0@,
                    ),
                forall|j: int| 0 <= j < i ==> #[trigger] r@[j]@ == raw@[j].0@,
            decreases raw.len() - i,
        {
            let name = raw[i].0.clone();
            let synthetic = raw[i].1;
            assert(raw@[i as int].0@ == name@);
            r.push(Tag::from_valid_name(name, synthetic));
            i = i + 1;
        }
        proof {
            assert forall|n: Seq<char>|
                is_tag_name(n) && self@.contains_key(#[trigger] tag_key(n)) implies exists|i: int|
                0 <= i < r.len() && #[trigger] r@[i]@ == n by {
                let j = choose|j: int| #![trigger raw@[j]] 0 <= j < raw.len() && raw@[j].0@ == n;
                assert(r@[j]@ == n);
            }
            assert forall|i: int|
                0 <= i < r.len() && !all_ascii_upper(#[trigger] r@[i]@) implies self@.contains_key(
                    tag_key(r@[i]@),
                ) by {
                assert(raw@[i].0@ == r@[i]@);
            }
            lemma_same_tags_listed(raw@, r@, pending_tag());
            lemma_same_tags_listed(raw@, r@, completed_tag());
            lemma_same_tags_listed(raw@, r@, deleted_tag());
            lemma_same_tags_listed(raw@, r@, active_tag());
        }
        r
    }
}

/// `r` lists the tags that properties `m` record: each entry names a tag;
/// each user tag among them has its `tag_<name>` property; every
/// `tag_<name>` property whose name is a tag is listed; and no user tag is
/// listed twice.
pub open spec fn lists_tags(m: Props, r: Seq<Tag>) -> bool {
    &&& forall|i: int| 0 <= i < r.len() ==> is_tag_name(#[trigger] r[i]@)
    &&& forall|i: int|
        0 <= i < r.len() && !all_ascii_upper(#[trigger] r[i]@) ==> m.contains_key(tag_key(r[i]@))
    &&& forall|n: Seq<char>|
        is_tag_name(n) && m.contains_key(#[trigger] tag_key(n)) ==> exists|i: int|
            0 <= i < r.len() && #[trigger] r[i]@ == n
    &&& forall|i: int, j: int|
        0 <= i < r.len() && 0 <= j < r.len() && i != j && !all_ascii_upper(#[trigger] r[i]@) ==> r[i]@
            != #[trigger] r[j]@
}

/// `r` lists the annotations that properties `m` record: each entry comes
/// from an annotation property, and each annotation property whose entry
/// time is an `i64` gives exactly one entry.
pub open spec fn lists_annotations(m: Props, r: Seq<Annotation>) -> bool {
    &&& forall|i: int| 0 <= i < r.len() ==> has_annotation(m, #[trigger] r[i]@.0, r[i]@.1)
    &&& forall|k: Seq<char>|
        m.contains_key(k) && (#[trigger] annotation_entry(k)) is Some ==> exists|i: int|
            #![trigger r[i]]
            0 <= i < r.len() && annotation_entry(k) == Some(r[i]@.0) && m[k] == r[i]@.1
    &&& one_entry_per_property(m, ann_views(r))
}

/// Some annotation of the list has entry time and text `x`.
pub open spec fn annotations_include(anns: Seq<Annotation>, x: (int, Seq<char>)) -> bool {
    exists|i: int| 0 <= i < anns.len() && #[trigger] anns[i]@ == x
}

/// Some tag of the list is named `n`.
pub open spec fn tags_include(tags: Seq<Tag>, n: Seq<char>) -> bool {
    exists|i: int| 0 <= i < tags.len() && #[trigger] tags[i]@ == n
}

proof fn lemma_same_tags_listed(raw: Seq<(String, bool)>, r: Seq<Tag>, n: Seq<char>)
    requires
        raw.len() == r.len(),
        forall|j: int| 0 <= j < r.len() ==> #[trigger] r[j]@ == raw[j].0@,
    ensures
        tag_listed(raw, n) <==> tags_include(r, n),
{
    if tag_listed(raw, n) {
        let j = choose|j: int| 0 <= j < raw.len() && #[trigger] raw[j].0@ == n;
        assert(r[j]@ == n);
    }
    if tags_include(r, n) {
        let j = choose|j: int| 0 <= j < r.len() && #[trigger] r[j]@ == n;
        assert(raw[j].0@ == n);
    }
}

impl TaskData {
    /// Wraps a TaskChampion task's data.
    pub fn new(inner: taskchampion::TaskData) -> (r: TaskData)
        ensures
            r.inner == inner,
    {
        TaskData { inner }
    }

    /// The UUID of the task.
    pub fn get_uuid(&self) -> (r: Uuid)
        ensures
            r.v@ == data_uuid(self.inner),
    {
        Uuid { v: data_get_uuid(&self.inner) }
    }
}

/// The names of a list of tags.
pub open spec fn tag_names(tags: Seq<Tag>) -> Seq<Seq<char>> {
    tags.map_values(|t: Tag| t@)
}

/// The tags of an optional list; none when absent.
pub open spec fn tag_seq(tags: Option<Vec<Tag>>) -> Seq<Tag> {
    match tags {
        Some(v) => v@,
        None => Seq::empty(),
    }
}

/// None of the tags is synthetic.
pub open spec fn all_user_tags(names: Seq<Seq<char>>) -> bool {
    forall|i: int| 0 <= i < names.len() ==> !all_ascii_upper(#[trigger] names[i])
}

/// The optional due text is absent or parses as an `i64`.
pub open spec fn due_parses(due: Option<Seq<char>>) -> bool {
    match due {
        Some(d) => i64_text_value(d) is Some,
        None => true,
    }
}

/// The properties that creating a task sets.
pub open spec fn creation_keys(names: Seq<Seq<char>>) -> Set<Seq<char>> {
    set![
        key_description(),
        key_status(),
        key_end(),
        key_project(),
        key_priority(),
        key_entry(),
        key_due(),
        key_modified(),
    ].union(tag_keys(names))
}

/// What a new task's properties `b` hold after its fields were filled in
/// from properties `a`: the description, status pending (and no end time),
/// the project, the priority, an entry time, each tag, and the due time
/// when one is given; every other property is as it was.
pub open spec fn new_task_fields(
    a: Props,
    b: Props,
    description: Seq<char>,
    due: Option<Seq<char>>,
    priority: Seq<char>,
    project: Option<Seq<char>>,
    names: Seq<Seq<char>>,
) -> bool {
    &&& lookup(b, key_description()) == Some(description)
    &&& lookup(b, key_status()) == Some(pending_text())
    &&& !b.contains_key(key_end())
    &&& lookup(b, key_project()) == project
    &&& lookup(b, key_priority()) == Some(priority)
    &&& holds_timestamp(b, key_entry())
    &&& forall|i: int| 0 <= i < names.len() ==> lookup(b, #[trigger] tag_key(names[i])) == Some(Seq::<char>::empty())
    &&& match due {
        Some(d) => lookup(b, key_due()) == Some(int_text(i64_text_value(d)->0)),
        None => lookup(b, key_due()) == lookup(a, key_due()),
    }
    &&& agree_except(a, b, creation_keys(names))
    &&& modified_touched(a, b)
}

/// The priority that a task gets: the one given, or `none`.
pub open spec fn priority_or_none(p: Option<Seq<char>>) -> Seq<char> {
    match p {
        Some(v) => v,
        None => seq!['n', 'o', 'n', 'e'],
    }
}

impl Task {
    /// Fills in a newly created task as `apply_new_task_fields_at` does, with
    /// the entry time read from the clock.
    pub fn apply_new_task_fields(
        &mut self,
        ops: &mut Vec<taskchampion::Operation>,
        description: String,
        due: Option<String>,
        priority: Option<String>,
        project: Option<String>,
        tags: Option<Vec<Tag>>,
    ) -> (r: bool)
        requires
            all_user_tags(tag_names(tag_seq(tags))) ==> (due matches Some(d) ==> time_text_usable(d@)),
        ensures
            r == (all_user_tags(tag_names(tag_seq(tags)))
                && due_parses(opt_text(due))),
            r ==> new_task_fields(
                old(self)@,
                final(self)@,
                description@,
                opt_text(due),
                priority_or_none(opt_text(priority)),
                opt_text(project),
                tag_names(tag_seq(tags)),
            ),
            task_uuid(final(self).inner) == task_uuid(old(self).inner),
            records(old(self)@, final(self)@, old(ops)@, final(ops)@, task_uuid(old(self).inner)),
    {
        let now = now_secs();
        self.apply_new_task_fields_at(ops, now, description, due, priority, project, tags)
    }

    /// Fills in a newly created task: description, pending status, project,
    /// priority (`none` when not given), entry time `now` (seconds since the
    /// epoch), the tags, and the due time (seconds since the epoch, as text).
    /// The edits are recorded in `ops`.  Fails, with the task part-way
    /// edited, when a tag is synthetic or the due text is not an `i64`.
    pub fn apply_new_task_fields_at(
        &mut self,
        ops: &mut Vec<taskchampion::Operation>,
        now: i64,
        description: String,
        due: Option<String>,
        priority: Option<String>,
        project: Option<String>,
        tags: Option<Vec<Tag>>,
    ) -> (r: bool)
        requires
            in_time_range(now as int),
            all_user_tags(tag_names(tag_seq(tags))) ==> (due matches Some(d) ==> time_text_usable(d@)),
        ensures
            r == (all_user_tags(tag_names(tag_seq(tags)))
                && due_parses(opt_text(due))),
            r ==> new_task_fields(
                old(self)@,
                final(self)@,
                description@,
                opt_text(due),
                priority_or_none(opt_text(priority)),
                opt_text(project),
                tag_names(tag_seq(tags)),
            ),
            r ==> lookup(final(self)@, key_entry()) == Some(int_text(now as int)),
            task_uuid(final(self).inner) == task_uuid(old(self).inner),
            records(old(self)@, final(self)@, old(ops)@, final(ops)@, task_uuid(old(self).inner)),
    {
        let ghost a = self@;
        let ghost desc = description@;
        let ghost proj = opt_text(project);
        let ghost prio = priority_or_none(opt_text(priority));
        let ghost due_v = opt_text(due);
        let ghost tag_list: Seq<Tag> = tag_seq(tags);
        let ghost names = tag_names(tag_list);
        proof {
            lemma_keys_distinct(Seq::empty(), 0);
        }
        let ghost o0 = ops@;
        let ghost u = task_uuid(self.inner);
        let _ = task_set_description(&mut self.inner, description, ops);
        let ghost s1 = self@;
        let ghost o1 = ops@;
        let _ = task_set_status(&mut self.inner, Status::Pending, ops);
        let ghost s2 = self@;
        let ghost o2 = ops@;
        proof {
            reveal_strlit("project");
            assert("project"@ =~= key_project());
        }
        let _ = task_set_value(&mut self.inner, "project", project, ops);
        let ghost s3 = self@;
        let ghost o3 = ops@;
        let p = match priority {
            Some(p) => p,
            None => {
                proof {
                    reveal_strlit("none");
                    assert("none"@ =~= seq!['n', 'o', 'n', 'e']);
                }
                "none".to_owned()
            },
        };
        let _ = task_set_priority(&mut self.inner, p, ops);
        let ghost s4 = self@;
        let ghost o4 = ops@;
        let _ = task_set_entry(&mut self.inner, Some(now), ops);
        proof {
            lemma_records_trans(a, s1, s2, o0, o1, o2, u);
            lemma_records_trans(a, s2, s3, o0, o2, o3, u);
            lemma_records_trans(a, s3, s4, o0, o3, o4, u);
            lemma_records_trans(a, s4, self@, o0, o4, ops@, u);
            lemma_modified_trans(a, s1, s2);
            lemma_modified_trans(a, s2, s3);
            lemma_modified_trans(a, s3, s4);
            lemma_modified_trans(a, s4, self@);
        }
        let ghost s5 = self@;
        let ghost ops5 = ops@;
        proof {
            crate::text::lemma_int_text_round_trip(now as int);
        }
        let tag_vec: Vec<Tag> = match tags {
            Some(v) => v,
            None => Vec::new(),
        };
        assert(tag_vec@ == tag_list);
        let ghost o5 = ops@;
        let added = self.add_tags(ops, &tag_vec);
        proof {
            lemma_records_trans(a, s5, self@, o0, o5, ops@, u);
        }
        if !added {
            return false;
        }
        proof {
            assert forall|j: int| 0 <= j < names.len() implies lookup(self@, #[trigger] tag_key(names[j])) == Some(Seq::<char>::empty()) by {
                assert(names.contains(names[j]));
            }
            lemma_modified_trans(a, s5, self@);
        }
        let ghost s6 = self@;
        let ghost o6 = ops@;
        match due {
            Some(d) => match parse_i64(d.as_str()) {
                Some(secs) => {
                    let _ = task_set_due(&mut self.inner, Some(secs), ops);
                },
                None => {
                    return false;
                },
            },
            None => {},
        }
        proof {
            if ops@ == o6 {
                lemma_records_none(s6, o6, u);
            }
            lemma_records_trans(a, s6, self@, o0, o6, ops@, u);
            lemma_modified_trans(a, s6, self@);
            assert(lookup(self@, key_end()) == lookup(s6, key_end()));
            assert(lookup(self@, key_entry()) == lookup(s6, key_entry()));
        }
        true
    }
}

/// The entry times and texts of a list of annotations.
pub open spec fn ann_views(anns: Seq<Annotation>) -> Seq<(int, Seq<char>)> {
    anns.map_values(|a: Annotation| a@)
}

/// No annotation after the `i`th and before the `n`th has the same entry
/// time as the `i`th.
pub open spec fn latest_before(v: Seq<(int, Seq<char>)>, i: int, n: int) -> bool {
    forall|j: int| i < j < n ==> #[trigger] v[j].0 != v[i].0
}

/// No annotation after the `i`th has the same entry time (so the `i`th is
/// the one whose text that entry time keeps).
pub open spec fn latest_entry(v: Seq<(int, Seq<char>)>, i: int) -> bool {
    latest_before(v, i, v.len() as int)
}

/// What adding the first `n` annotations has made of the properties `a`.
pub open spec fn annotations_added(a: Props, b: Props, v: Seq<(int, Seq<char>)>, n: int) -> bool {
    &&& forall|j: int| 0 <= j < n ==> in_time_range(#[trigger] v[j].0)
    &&& forall|j: int|
        0 <= j < n && latest_before(v, j, n) ==> lookup(b, #[trigger] annotation_key(v[j].0)) == Some(
            v[j].1,
        )
    &&& agree_except(a, b, annotation_keys(v.take(n)).insert(key_modified()))
}

proof fn lemma_annotation_values(b: Props, c: Props, v: Seq<(int, Seq<char>)>, i: int)
    requires
        0 <= i < v.len(),
        forall|j: int| 0 <= j < i ==> in_time_range(#[trigger] v[j].0),
        forall|j: int|
            0 <= j < i && latest_before(v, j, i) ==> lookup(b, #[trigger] annotation_key(v[j].0))
                == Some(v[j].1),
        in_time_range(v[i].0),
        set_effect(b, c, annotation_key(v[i].0), Some(v[i].1)),
    ensures
        forall|j: int|
            0 <= j < i + 1 && latest_before(v, j, i + 1) ==> lookup(c, #[trigger] annotation_key(v[j].0))
                == Some(v[j].1),
{
    assert forall|j: int| 0 <= j < i + 1 && latest_before(v, j, i + 1) implies lookup(
        c,
        #[trigger] annotation_key(v[j].0),
    ) == Some(v[j].1) by {
        if j < i {
            assert(v[i].0 != v[j].0);
            lemma_annotation_key(v[i].0, v[j].0);
            assert(annotation_key(v[j].0)[0] == 'a');
            assert(key_modified()[0] == 'm');
            assert(latest_before(v, j, i));
            assert(lookup(c, annotation_key(v[j].0)) == lookup(b, annotation_key(v[j].0)));
        }
    }
}

proof fn lemma_annotation_others(a: Props, b: Props, c: Props, v: Seq<(int, Seq<char>)>, i: int)
    requires
        0 <= i < v.len(),
        agree_except(a, b, annotation_keys(v.take(i)).insert(key_modified())),
        set_effect(b, c, annotation_key(v[i].0), Some(v[i].1)),
    ensures
        agree_except(a, c, annotation_keys(v.take(i + 1)).insert(key_modified())),
{
    let ki = annotation_key(v[i].0);
    let t1 = v.take(i);
    let t2 = v.take(i + 1);
    assert forall|k: Seq<char>| !annotation_keys(t2).insert(key_modified()).contains(k) implies #[trigger] lookup(
        c,
        k,
    ) == lookup(a, k) by {
        assert(k != ki) by {
            assert(t2[i] == v[i]);
        }
        assert(!annotation_keys(t1).insert(key_modified()).contains(k)) by {
            if annotation_keys(t1).contains(k) {
                let w = choose|w: int| 0 <= w < t1.len() && k == annotation_key(t1[w].0);
                assert(t2[w] == t1[w]);
            }
        }
        assert(lookup(b, k) == lookup(a, k));
    }
}

proof fn lemma_annotation_step(a: Props, b: Props, c: Props, v: Seq<(int, Seq<char>)>, i: int)
    requires
        0 <= i < v.len(),
        annotations_added(a, b, v, i),
        in_time_range(v[i].0),
        set_effect(b, c, annotation_key(v[i].0), Some(v[i].1)),
    ensures
        annotations_added(a, c, v, i + 1),
{
    lemma_annotation_values(b, c, v, i);
    lemma_annotation_others(a, b, c, v, i);
    assert forall|j: int| 0 <= j < i + 1 implies in_time_range(#[trigger] v[j].0) by {
        if j < i {
            assert(in_time_range(v[j].0));
        }
    }
}

impl Task {
    /// Adds each tag in turn, and fails at the first synthetic one.
    fn add_tags(&mut self, ops: &mut Vec<taskchampion::Operation>, tags: &Vec<Tag>) -> (r: bool)
        ensures
            r == all_user_tags(tag_names(tags@)),
            r ==> forall|n: Seq<char>|
                #[trigger] lookup(final(self)@, tag_key(n)) == if tag_names(tags@).contains(n) {
                    Some(Seq::<char>::empty())
                } else {
                    lookup(old(self)@, tag_key(n))
                },
            r ==> agree_except(old(self)@, final(self)@, tag_keys(tag_names(tags@)).insert(key_modified())),
            r ==> modified_touched(old(self)@, final(self)@),
            task_uuid(final(self).inner) == task_uuid(old(self).inner),
            records(old(self)@, final(self)@, old(ops)@, final(ops)@, task_uuid(old(self).inner)),
    {
        let ghost start = self@;
        let ghost names = tag_names(tags@);
        let mut i: usize = 0;
        proof {
            lemma_records_none(self@, ops@, task_uuid(self.inner));
        }
        while i < tags.len()
            invariant
                start == old(self)@,
                names == tag_names(tags@),
                i <= tags.len(),
                forall|n: Seq<char>|
                    #[trigger] lookup(self@, tag_key(n)) == if names.take(i as int).contains(n) {
                        Some(Seq::<char>::empty())
                    } else {
                        lookup(start, tag_key(n))
                    },
                agree_except(start, self@, tag_keys(names.take(i as int)).insert(key_modified())),
                forall|j: int| 0 <= j < i ==> !all_ascii_upper(#[trigger] names[j]),
                modified_touched(start, self@),
                task_uuid(self.inner) == task_uuid(old(self).inner),
                records(start, self@, old(ops)@, ops@, task_uuid(old(self).inner)),
            decreases tags.len() - i,
        {
            let ghost before = self@;
            let ghost ops_before = ops@;
            assert(names[i as int] == tags@[i as int]@);
            let added = task_add_tag(&mut self.inner, &tags[i], ops);
            proof {
                lemma_records_trans(start, before, self@, old(ops)@, ops_before, ops@, task_uuid(old(self).inner));
            }
            match added {
                Ok(()) => {},
                Err(_) => {
                    return false;
                },
            }
            proof {
                lemma_modified_trans(start, before, self@);
                let m = names[i as int];
                let t1 = names.take(i as int);
                let t2 = names.take(i + 1);
                assert(t2 =~= t1.push(m));
                assert forall|n: Seq<char>| #[trigger] lookup(self@, tag_key(n)) == if t2.contains(n) {
                    Some(Seq::<char>::empty())
                } else {
                    lookup(start, tag_key(n))
                } by {
                    lemma_tag_key(n, m);
                    lemma_keys_distinct(n, 0);
                    if n != m {
                        assert(lookup(self@, tag_key(n)) == lookup(before, tag_key(n)));
                        assert(t2.contains(n) == t1.contains(n)) by {
                            if t2.contains(n) {
                                let w = choose|w: int| 0 <= w < t2.len() && t2[w] == n;
                                assert(t1[w] == n);
                            }
                        }
                    } else {
                        assert(t2[i as int] == n);
                    }
                }
                assert forall|k: Seq<char>| !tag_keys(t2).insert(key_modified()).contains(k) implies #[trigger] lookup(
                    self@,
                    k,
                ) == lookup(start, k) by {
                    assert(k != tag_key(m)) by {
                        assert(t2[i as int] == m);
                    }
                    assert(!tag_keys(t1).insert(key_modified()).contains(k)) by {
                        if tag_keys(t1).contains(k) {
                            let w = choose|w: int| 0 <= w < t1.len() && k == tag_key(t1[w]);
                            assert(t2[w] == t1[w]);
                        }
                    }
                    assert(lookup(before, k) == lookup(start, k));
                }
            }
            i = i + 1;
        }
        assert(names.take(i as int) =~= names);
        true
    }

    /// Removes every user tag that the task carries.
    fn remove_user_tags(&mut self, ops: &mut Vec<taskchampion::Operation>)
        ensures
            forall|n: Seq<char>|
                #[trigger] lookup(final(self)@, tag_key(n)) == if is_user_tag_name(n) {
                    None
                } else {
                    lookup(old(self)@, tag_key(n))
                },
            agree_except(old(self)@, final(self)@, all_tag_keys().insert(key_modified())),
            modified_touched(old(self)@, final(self)@),
            task_uuid(final(self).inner) == task_uuid(old(self).inner),
            records(old(self)@, final(self)@, old(ops)@, final(ops)@, task_uuid(old(self).inner)),
    {
        let ghost start = self@;
        let existing = self.get_tags();
        let mut i: usize = 0;
        proof {
            lemma_records_none(self@, ops@, task_uuid(self.inner));
        }
        while i < existing.len()
            invariant
                i <= existing.len(),
                lists_tags(start, existing@),
                forall|n: Seq<char>|
                    #[trigger] lookup(self@, tag_key(n)) == if is_user_tag_name(n) && exists|j: int|
                        0 <= j < i && #[trigger] existing@[j]@ == n {
                        None
                    } else {
                        lookup(start, tag_key(n))
                    },
                agree_except(start, self@, all_tag_keys().insert(key_modified())),
                modified_touched(start, self@),
                task_uuid(self.inner) == task_uuid(old(self).inner),
                records(start, self@, old(ops)@, ops@, task_uuid(old(self).inner)),
            decreases existing.len() - i,
        {
            let ghost before = self@;
            let ghost ops_before = ops@;
            if !existing[i].is_synthetic() {
                let _ = task_remove_tag(&mut self.inner, &existing[i], ops);
                proof {
                    lemma_records_trans(start, before, self@, old(ops)@, ops_before, ops@, task_uuid(old(self).inner));
                    lemma_modified_trans(start, before, self@);
                    let m = existing@[i as int]@;
                    assert(is_user_tag_name(m));
                    lemma_tag_key(m, m);
                    assert forall|n: Seq<char>|
                        #[trigger] lookup(self@, tag_key(n)) == if is_user_tag_name(n) && exists|j: int|
                            0 <= j < i + 1 && #[trigger] existing@[j]@ == n {
                            None
                        } else {
                            lookup(start, tag_key(n))
                        } by {
                        lemma_tag_key(n, m);
                        lemma_keys_distinct(n, 0);
                        if n != m {
                            assert(lookup(self@, tag_key(n)) == lookup(before, tag_key(n)));
                            assert((exists|j: int| 0 <= j < i + 1 && #[trigger] existing@[j]@ == n)
                                == (exists|j: int| 0 <= j < i && #[trigger] existing@[j]@ == n));
                        } else {
                            assert(existing@[i as int]@ == n);
                        }
                    }
                    assert forall|k: Seq<char>| !all_tag_keys().insert(key_modified()).contains(k) implies #[trigger] lookup(
                        self@,
                        k,
                    ) == lookup(start, k) by {
                        assert(k != tag_key(m));
                        assert(lookup(before, k) == lookup(start, k));
                    }
                }
            } else {
                proof {
                    assert forall|n: Seq<char>|
                        #[trigger] lookup(self@, tag_key(n)) == if is_user_tag_name(n) && exists|j: int|
                            0 <= j < i + 1 && #[trigger] existing@[j]@ == n {
                            None
                        } else {
                            lookup(start, tag_key(n))
                        } by {
                        if is_user_tag_name(n) && existing@[i as int]@ == n {
                            assert(all_ascii_upper(existing@[i as int]@));
                        }
                        assert((is_user_tag_name(n) && exists|j: int| 0 <= j < i + 1 && #[trigger] existing@[j]@ == n)
                            == (is_user_tag_name(n) && exists|j: int| 0 <= j < i && #[trigger] existing@[j]@ == n));
                    }
                }
            }
            i = i + 1;
        }
        proof {
            assert forall|n: Seq<char>|
                #[trigger] lookup(self@, tag_key(n)) == if is_user_tag_name(n) {
                    None
                } else {
                    lookup(start, tag_key(n))
                } by {
                if is_user_tag_name(n) && start.contains_key(tag_key(n)) {
                    let j = choose|j: int| 0 <= j < existing.len() && #[trigger] existing@[j]@ == n;
                    assert(exists|j: int| 0 <= j < i && #[trigger] existing@[j]@ == n);
                }
            }
        }
    }

    /// Adds each annotation in turn.  Annotations with the same entry time
    /// overwrite one another, so the last one of each entry time stays.
    fn add_annotations(&mut self, ops: &mut Vec<taskchampion::Operation>, anns: &Vec<Annotation>)
        ensures
            forall|i: int|
                0 <= i < anns.len() && latest_entry(ann_views(anns@), i) ==> lookup(
                    final(self)@,
                    #[trigger] annotation_key(ann_views(anns@)[i].0),
                ) == Some(ann_views(anns@)[i].1),
            agree_except(
                old(self)@,
                final(self)@,
                annotation_keys(ann_views(anns@)).insert(key_modified()),
            ),
            forall|i: int| 0 <= i < anns.len() ==> in_time_range(#[trigger] ann_views(anns@)[i].0),
            modified_touched(old(self)@, final(self)@),
            task_uuid(final(self).inner) == task_uuid(old(self).inner),
            records(old(self)@, final(self)@, old(ops)@, final(ops)@, task_uuid(old(self).inner)),
    {
        let ghost start = self@;
        let ghost v = ann_views(anns@);
        let mut i: usize = 0;
        proof {
            lemma_records_none(self@, ops@, task_uuid(self.inner));
        }
        assert(annotation_keys(v.take(0)) =~= Set::empty());
        while i < anns.len()
            invariant
                v == ann_views(anns@),
                i <= anns.len(),
                annotations_added(start, self@, v, i as int),
                modified_touched(start, self@),
                task_uuid(self.inner) == task_uuid(old(self).inner),
                records(start, self@, old(ops)@, ops@, task_uuid(old(self).inner)),
            decreases anns.len() - i,
        {
            let ghost before = self@;
            let ghost ops_before = ops@;
            let _ = anns[i].get_entry();
            assert(v[i as int] == anns@[i as int]@);
            let _ = task_add_annotation(&mut self.inner, &anns[i], ops);
            proof {
                lemma_records_trans(start, before, self@, old(ops)@, ops_before, ops@, task_uuid(old(self).inner));
                lemma_modified_trans(start, before, self@);
                lemma_annotation_step(start, before, self@, v, i as int);
            }
            i = i + 1;
        }
        assert(v.take(i as int) =~= v);
    }
}

/// The annotations of an optional list; none when absent.
pub open spec fn ann_seq(anns: Option<Vec<Annotation>>) -> Seq<Annotation> {
    match anns {
        Some(v) => v@,
        None => Seq::empty(),
    }
}

/// The properties that updating a task may change.
pub open spec fn update_keys(anns: Seq<(int, Seq<char>)>) -> Set<Seq<char>> {
    set![
        key_description(),
        key_status(),
        key_end(),
        key_project(),
        key_priority(),
        key_due(),
        key_modified(),
    ].union(annotation_keys(anns)).union(all_tag_keys())
}

/// What a task's properties `b` hold after an update of properties `a`:
/// the description; the status text as given; an end time exactly when the
/// status is completed or deleted; the project; the priority; each
/// annotation (the last one of each entry time); exactly the given user tags
/// (tag properties that name no user tag stay as they were); the due time
/// as given, or none; every other property as it was.
pub open spec fn updated_fields(
    a: Props,
    b: Props,
    description: Seq<char>,
    due: Option<Seq<char>>,
    priority: Seq<char>,
    project: Option<Seq<char>>,
    status: Seq<char>,
    anns: Seq<(int, Seq<char>)>,
    names: Seq<Seq<char>>,
) -> bool {
    &&& lookup(b, key_description()) == Some(description)
    &&& lookup(b, key_status()) == Some(status)
    &&& match status_from_text(status) {
        StatusView::Completed | StatusView::Deleted => holds_timestamp(b, key_end()),
        _ => !b.contains_key(key_end()),
    }
    &&& lookup(b, key_project()) == project
    &&& lookup(b, key_priority()) == Some(priority)
    &&& forall|i: int|
        0 <= i < anns.len() && latest_entry(anns, i) ==> lookup(b, #[trigger] annotation_key(anns[i].0))
            == Some(anns[i].1)
    &&& forall|n: Seq<char>|
        #[trigger] lookup(b, tag_key(n)) == if names.contains(n) {
            Some(Seq::<char>::empty())
        } else if is_user_tag_name(n) {
            None
        } else {
            lookup(a, tag_key(n))
        }
    &&& lookup(b, key_due()) == match due {
        Some(d) => Some(int_text(i64_text_value(d)->0)),
        None => None,
    }
    &&& agree_except(a, b, update_keys(anns))
    &&& modified_touched(a, b)
}

impl Task {
    /// Applies an update to a task as `apply_task_update_at` does, with the
    /// time of a completion or deletion read from the clock.
    pub fn apply_task_update(
        &mut self,
        ops: &mut Vec<taskchampion::Operation>,
        description: String,
        due: Option<String>,
        priority: Option<String>,
        project: Option<String>,
        status: String,
        annotations: Option<Vec<Annotation>>,
        tags: Option<Vec<Tag>>,
    ) -> (r: bool)
        requires
            all_user_tags(tag_names(tag_seq(tags))) ==> (due matches Some(d) ==> time_text_usable(d@)),
        ensures
            r == (all_user_tags(tag_names(tag_seq(tags))) && due_parses(opt_text(due))),
            r ==> updated_fields(
                old(self)@,
                final(self)@,
                description@,
                opt_text(due),
                priority_or_none(opt_text(priority)),
                opt_text(project),
                status@,
                ann_views(ann_seq(annotations)),
                tag_names(tag_seq(tags)),
            ),
            task_uuid(final(self).inner) == task_uuid(old(self).inner),
            records(old(self)@, final(self)@, old(ops)@, final(ops)@, task_uuid(old(self).inner)),
    {
        let now = now_secs();
        self.apply_task_update_at(ops, now, description, due, priority, project, status, annotations, tags)
    }

    /// Applies an update to a task: description, pending status then the
    /// given status (a completed or deleted task gets `now` as its end time),
    /// project, priority (`none` when not given), the
    /// annotations, the user tags replaced by the given ones, and the due
    /// time (seconds since the epoch, as text; removed when not given).  The
    /// edits are recorded in `ops`.  Fails, with the task part-way edited,
    /// when a tag is synthetic or the due text is not an `i64`.
    pub fn apply_task_update_at(
        &mut self,
        ops: &mut Vec<taskchampion::Operation>,
        now: i64,
        description: String,
        due: Option<String>,
        priority: Option<String>,
        project: Option<String>,
        status: String,
        annotations: Option<Vec<Annotation>>,
        tags: Option<Vec<Tag>>,
    ) -> (r: bool)
        requires
            in_time_range(now as int),
            all_user_tags(tag_names(tag_seq(tags))) ==> (due matches Some(d) ==> time_text_usable(d@)),
        ensures
            r == (all_user_tags(tag_names(tag_seq(tags))) && due_parses(opt_text(due))),
            r ==> updated_fields(
                old(self)@,
                final(self)@,
                description@,
                opt_text(due),
                priority_or_none(opt_text(priority)),
                opt_text(project),
                status@,
                ann_views(ann_seq(annotations)),
                tag_names(tag_seq(tags)),
            ),
            r ==> (status_from_text(status@) == StatusView::Completed || status_from_text(status@)
                == StatusView::Deleted) ==> lookup(final(self)@, key_end()) == Some(int_text(now as int)),
            task_uuid(final(self).inner) == task_uuid(old(self).inner),
            records(old(self)@, final(self)@, old(ops)@, final(ops)@, task_uuid(old(self).inner)),
    {
        let ghost a = self@;
        let ghost o0 = ops@;
        let ghost u = task_uuid(self.inner);
        let ghost anns_v = ann_views(ann_seq(annotations));
        let ghost names = tag_names(tag_seq(tags));
        let ghost st_text = status@;
        proof {
            lemma_keys_distinct(Seq::empty(), 0);
            lemma_fixed_keys_not_tags();
        }
        let _ = task_set_description(&mut self.inner, description, ops);
        let ghost s1 = self@;
        let ghost o1 = ops@;
        let _ = task_set_status(&mut self.inner, Status::Pending, ops);
        let ghost s2 = self@;
        let ghost o2 = ops@;
        proof {
            reveal_strlit("project");
            assert("project"@ =~= key_project());
        }
        let _ = task_set_value(&mut self.inner, "project", project, ops);
        let ghost s3 = self@;
        let ghost o3 = ops@;
        let p = match priority {
            Some(p) => p,
            None => {
                proof {
                    reveal_strlit("none");
                    assert("none"@ =~= seq!['n', 'o', 'n', 'e']);
                }
                "none".to_owned()
            },
        };
        let _ = task_set_priority(&mut self.inner, p, ops);
        let ghost s4 = self@;
        let ghost o4 = ops@;
        let st = status_from_string(status.as_str());
        let done = match st {
            Status::Completed | Status::Deleted => true,
            _ => false,
        };
        if done {
            proof {
                reveal_strlit("end");
                assert("end"@ =~= key_end());
            }
            let stamp = int_to_string(now);
            let _ = task_set_value(&mut self.inner, "end", Some(stamp), ops);
        } else {
            proof {
                lemma_records_none(s4, o4, u);
            }
        }
        let ghost s4e = self@;
        let ghost o4e = ops@;
        let _ = task_set_status(&mut self.inner, st, ops);
        let ghost s5 = self@;
        let ghost o5 = ops@;
        proof {
            lemma_status_text_round_trip(st_text);
            crate::text::lemma_int_text_round_trip(now as int);
            lemma_records_trans(a, s1, s2, o0, o1, o2, u);
            lemma_records_trans(a, s2, s3, o0, o2, o3, u);
            lemma_records_trans(a, s3, s4, o0, o3, o4, u);
            lemma_records_trans(a, s4, s4e, o0, o4, o4e, u);
            lemma_records_trans(a, s4e, s5, o0, o4e, o5, u);
            lemma_modified_trans(a, s1, s2);
            lemma_modified_trans(a, s2, s3);
            lemma_modified_trans(a, s3, s4);
            lemma_modified_trans(a, s4, s4e);
            lemma_modified_trans(a, s4e, s5);
            lemma_modified_trans(s4, s4e, s5);
            assert(agree_except(s4, s5, set![key_status(), key_end(), key_modified()])) by {
                assert forall|k: Seq<char>| !set![key_status(), key_end(), key_modified()].contains(k) implies #[trigger] lookup(s5, k) == lookup(s4, k) by {
                    assert(lookup(s5, k) == lookup(s4e, k));
                }
            }
            if done {
                assert(lookup(s4e, key_end()) == Some(int_text(now as int)));
                assert(lookup(s5, key_end()) == Some(int_text(now as int)));
            }
        }
        let ann_vec: Vec<Annotation> = match annotations {
            Some(v) => v,
            None => Vec::new(),
        };
        assert(ann_views(ann_vec@) == anns_v);
        self.add_annotations(ops, &ann_vec);
        let ghost s6 = self@;
        let ghost o6 = ops@;
        self.remove_user_tags(ops);
        let ghost s7 = self@;
        let ghost o7 = ops@;
        proof {
            lemma_records_trans(a, s5, s6, o0, o5, o6, u);
            lemma_records_trans(a, s6, s7, o0, o6, o7, u);
        }
        let tag_vec: Vec<Tag> = match tags {
            Some(v) => v,
            None => Vec::new(),
        };
        assert(tag_names(tag_vec@) == names);
        let added = self.add_tags(ops, &tag_vec);
        proof {
            lemma_records_trans(a, s7, self@, o0, o7, ops@, u);
        }
        if !added {
            return false;
        }
        let ghost s8 = self@;
        let ghost o8 = ops@;
        match due {
            Some(d) => match parse_i64(d.as_str()) {
                Some(secs) => {
                    let _ = task_set_due(&mut self.inner, Some(secs), ops);
                },
                None => {
                    return false;
                },
            },
            None => {
                let _ = task_set_due(&mut self.inner, None, ops);
            },
        }
        proof {
            lemma_records_trans(a, s8, self@, o0, o8, ops@, u);
            lemma_modified_trans(a, s5, s6);
            lemma_modified_trans(a, s6, s7);
            lemma_modified_trans(a, s7, s8);
            lemma_modified_trans(a, s8, self@);
            lemma_update_agree(a, s1, s2, s3, s4, s5, s6, s7, s8, self@, anns_v, names);
            assert forall|n: Seq<char>|
                #[trigger] lookup(self@, tag_key(n)) == if names.contains(n) {
                    Some(Seq::<char>::empty())
                } else if is_user_tag_name(n) {
                    None
                } else {
                    lookup(a, tag_key(n))
                } by {
                lemma_update_tags(a, s5, s6, s7, s8, self@, anns_v, names, n);
            }
            assert forall|i: int|
                0 <= i < anns_v.len() && latest_entry(anns_v, i) implies lookup(self@, #[trigger] annotation_key(anns_v[i].0))
                == Some(anns_v[i].1) by {
                lemma_update_annotation(s6, s7, s8, self@, names, anns_v[i].0);
            }
            lemma_update_fixed(s5, s6, s7, s8, self@, anns_v, names, key_description());
            lemma_update_fixed(s5, s6, s7, s8, self@, anns_v, names, key_status());
            lemma_update_fixed(s5, s6, s7, s8, self@, anns_v, names, key_end());
            lemma_update_fixed(s5, s6, s7, s8, self@, anns_v, names, key_project());
            lemma_update_fixed(s5, s6, s7, s8, self@, anns_v, names, key_priority());
        }
        true
    }
}

/// Outside the properties that an update may change, the chain of update
/// steps changes nothing.
proof fn lemma_update_agree(
    a: Props,
    s1: Props,
    s2: Props,
    s3: Props,
    s4: Props,
    s5: Props,
    s6: Props,
    s7: Props,
    s8: Props,
    s9: Props,
    anns: Seq<(int, Seq<char>)>,
    names: Seq<Seq<char>>,
)
    requires
        agree_except(a, s1, set![key_description(), key_modified()]),
        agree_except(s1, s2, set![key_status(), key_end(), key_modified()]),
        agree_except(s2, s3, set![key_project(), key_modified()]),
        agree_except(s3, s4, set![key_priority(), key_modified()]),
        agree_except(s4, s5, set![key_status(), key_end(), key_modified()]),
        agree_except(s5, s6, annotation_keys(anns).insert(key_modified())),
        agree_except(s6, s7, all_tag_keys().insert(key_modified())),
        agree_except(s7, s8, tag_keys(names).insert(key_modified())),
        agree_except(s8, s9, set![key_due(), key_modified()]),
    ensures
        agree_except(a, s9, update_keys(anns)),
{
    assert forall|k: Seq<char>| !update_keys(anns).contains(k) implies #[trigger] lookup(s9, k) == lookup(a, k) by {
        assert(!tag_keys(names).contains(k)) by {
            if tag_keys(names).contains(k) {
                let w = choose|w: int| 0 <= w < names.len() && k == tag_key(names[w]);
                lemma_tag_key(names[w], names[w]);
            }
        }
    }
}

/// A tag property, through the chain of update steps, ends up holding the
/// new tags and no other user tag.
proof fn lemma_update_tags(
    a: Props,
    s5: Props,
    s6: Props,
    s7: Props,
    s8: Props,
    s9: Props,
    anns: Seq<(int, Seq<char>)>,
    names: Seq<Seq<char>>,
    n: Seq<char>,
)
    requires
        agree_except(a, s5, set![key_description(), key_status(), key_end(), key_project(), key_priority(), key_modified()]),
        agree_except(s5, s6, annotation_keys(anns).insert(key_modified())),
        agree_except(s8, s9, set![key_due(), key_modified()]),
        lookup(s7, tag_key(n)) == if is_user_tag_name(n) {
            None
        } else {
            lookup(s6, tag_key(n))
        },
        lookup(s8, tag_key(n)) == if names.contains(n) {
            Some(Seq::<char>::empty())
        } else {
            lookup(s7, tag_key(n))
        },
        forall|i: int| 0 <= i < anns.len() ==> in_time_range(#[trigger] anns[i].0),
    ensures
        lookup(s9, tag_key(n)) == if names.contains(n) {
            Some(Seq::<char>::empty())
        } else if is_user_tag_name(n) {
            None
        } else {
            lookup(a, tag_key(n))
        },
{
    let k = tag_key(n);
    lemma_tag_key(n, n);
    lemma_keys_distinct(n, 0);
    assert(!annotation_keys(anns).contains(k)) by {
        if annotation_keys(anns).contains(k) {
            let w = choose|w: int| 0 <= w < anns.len() && k == annotation_key(anns[w].0);
            lemma_annotation_key(anns[w].0, anns[w].0);
        }
    }
}

/// An annotation's property keeps its text through the tag and due steps
/// of an update.
proof fn lemma_update_annotation(s6: Props, s7: Props, s8: Props, s9: Props, names: Seq<Seq<char>>, e: int)
    requires
        in_time_range(e),
        agree_except(s6, s7, all_tag_keys().insert(key_modified())),
        agree_except(s7, s8, tag_keys(names).insert(key_modified())),
        agree_except(s8, s9, set![key_due(), key_modified()]),
    ensures
        lookup(s9, annotation_key(e)) == lookup(s6, annotation_key(e)),
{
    let k = annotation_key(e);
    lemma_annotation_key(e, e);
    lemma_keys_distinct(Seq::empty(), e);
    assert(!tag_keys(names).contains(k)) by {
        if tag_keys(names).contains(k) {
            let w = choose|w: int| 0 <= w < names.len() && k == tag_key(names[w]);
            lemma_tag_key(names[w], names[w]);
        }
    }
}

/// A property that the data model defines, other than `due`, keeps its
/// value through the annotation, tag and due steps of an update.
proof fn lemma_update_fixed(s5: Props, s6: Props, s7: Props, s8: Props, s9: Props, anns: Seq<(int, Seq<char>)>, names: Seq<Seq<char>>, k: Seq<char>)
    requires
        k == key_description() || k == key_status() || k == key_end() || k == key_project() || k == key_priority(),
        forall|i: int| 0 <= i < anns.len() ==> in_time_range(#[trigger] anns[i].0),
        agree_except(s5, s6, annotation_keys(anns).insert(key_modified())),
        agree_except(s6, s7, all_tag_keys().insert(key_modified())),
        agree_except(s7, s8, tag_keys(names).insert(key_modified())),
        agree_except(s8, s9, set![key_due(), key_modified()]),
    ensures
        lookup(s9, k) == lookup(s5, k),
{
    lemma_keys_distinct(Seq::empty(), 0);
    lemma_fixed_keys_not_tags();
    assert(!annotation_keys(anns).contains(k)) by {
        if annotation_keys(anns).contains(k) {
            let w = choose|w: int| 0 <= w < anns.len() && k == annotation_key(anns[w].0);
            lemma_keys_distinct(Seq::empty(), anns[w].0);
        }
    }
    assert(!tag_keys(names).contains(k)) by {
        if tag_keys(names).contains(k) {
            let w = choose|w: int| 0 <= w < names.len() && k == tag_key(names[w]);
            lemma_tag_key(names[w], names[w]);
        }
    }
}

impl Task {
    /// Starts the task as `start_at` does, at the time read from the clock.
    pub fn start(&mut self, ops: &mut Vec<taskchampion::Operation>)
        ensures
            old(self)@.contains_key(key_start()) ==> final(self)@ == old(self)@,
            !old(self)@.contains_key(key_start()) ==> {
                &&& holds_timestamp(final(self)@, key_start())
                &&& agree_except(old(self)@, final(self)@, set![key_start(), key_modified()])
                &&& modified_touched(old(self)@, final(self)@)
            },
            task_uuid(final(self).inner) == task_uuid(old(self).inner),
            records(old(self)@, final(self)@, old(ops)@, final(ops)@, task_uuid(old(self).inner)),
    {
        let now = now_secs();
        self.start_at(ops, now);
    }

    /// Starts the task at `now` (seconds since the epoch): a task that is not
    /// started gets `now` as its `start` time; a started task is handed to
    /// TaskChampion's `start`, which leaves it as it is.
    pub fn start_at(&mut self, ops: &mut Vec<taskchampion::Operation>, now: i64)
        requires
            in_time_range(now as int),
        ensures
            old(self)@.contains_key(key_start()) ==> final(self)@ == old(self)@,
            !old(self)@.contains_key(key_start()) ==> {
                &&& lookup(final(self)@, key_start()) == Some(int_text(now as int))
                &&& holds_timestamp(final(self)@, key_start())
                &&& agree_except(old(self)@, final(self)@, set![key_start(), key_modified()])
                &&& modified_touched(old(self)@, final(self)@)
            },
            task_uuid(final(self).inner) == task_uuid(old(self).inner),
            records(old(self)@, final(self)@, old(ops)@, final(ops)@, task_uuid(old(self).inner)),
    {
        match self.get_start() {
            Some(_) => {
                let _ = task_start(&mut self.inner, ops);
            },
            None => {
                proof {
                    reveal_strlit("start");
                    assert("start"@ =~= key_start());
                    lemma_keys_distinct(Seq::empty(), 0);
                    crate::text::lemma_int_text_round_trip(now as int);
                }
                let stamp = int_to_string(now);
                let _ = task_set_value(&mut self.inner, "start", Some(stamp), ops);
            },
        }
    }

    /// Stops the task: removes `start`.
    pub fn stop(&mut self, ops: &mut Vec<taskchampion::Operation>)
        ensures
            set_effect(old(self)@, final(self)@, key_start(), None),
            task_uuid(final(self).inner) == task_uuid(old(self).inner),
            records(old(self)@, final(self)@, old(ops)@, final(ops)@, task_uuid(old(self).inner)),
    {
        let _ = task_stop(&mut self.inner, ops);
    }

    /// True when every annotation property's entry time is representable,
    /// which reading the task's annotations needs.
    pub fn annotations_are_representable(&self) -> (r: bool)
        ensures
            r == annotations_representable(self@),
    {
        let data = task_data_of(&self.inner);
        let names = data_properties(&data);
        proof {
            reveal_strlit("annotation_");
            assert("annotation_"@ =~= annotation_prefix());
        }
        let prefix = chars_of("annotation_");
        let mut i: usize = 0;
        while i < names.len()
            invariant
                i <= names.len(),
                prefix@ == annotation_prefix(),
                data_props(data) == self@,
                forall|j: int| 0 <= j < names.len() ==> data_props(data).contains_key(#[trigger] names@[j]@),
                forall|k: Seq<char>|
                    data_props(data).contains_key(k) ==> exists|j: int| 0 <= j < names.len() && #[trigger] names@[j]@ == k,
                forall|j: int| 0 <= j < i ==> match #[trigger] annotation_entry(names@[j]@) {
                    Some(v) => in_time_range(v),
                    None => true,
                },
            decreases names.len() - i,
        {
            let name = names[i].as_str();
            let cs = chars_of(name);
            if starts_with_chars(&cs, &prefix) {
                let n = name.unicode_len();
                let suffix = name.substring_char(11, n);
                assert(suffix@ =~= name@.skip(11));
                match parse_i64(suffix) {
                    Some(v) => {
                        if v < crate::time::MIN_TIMESTAMP || v > crate::time::MAX_TIMESTAMP {
                            proof {
                                assert(annotation_prefix().len() == 11);
                                assert(annotation_entry(names@[i as int]@) == Some(v as int));
                                assert(self@.contains_key(names@[i as int]@));
                            }
                            return false;
                        }
                    },
                    None => {},
                }
            }
            i = i + 1;
        }
        proof {
            assert forall|k: Seq<char>| self@.contains_key(k) implies match #[trigger] annotation_entry(k) {
                Some(v) => in_time_range(v),
                None => true,
            } by {
                let j = choose|j: int| 0 <= j < names.len() && #[trigger] names@[j]@ == k;
                assert(match annotation_entry(names@[j]@) {
                    Some(v) => in_time_range(v),
                    None => true,
                });
            }
        }
        true
    }

    /// The task's annotations: one for each `annotation_<secs>` property
    /// whose suffix is an `i64`, with that entry time and the property's
    /// text, in no particular order.
    pub fn get_annotations(&self) -> (r: Vec<Annotation>)
        requires
            annotations_representable(self@),
        ensures
            lists_annotations(self@, r@),
    {
        let raw = task_get_annotations(&self.inner);
        let mut r: Vec<Annotation> = Vec::new();
        let mut i: usize = 0;
        while i < raw.len()
            invariant
                i <= raw.len(),
                r.len() == i,
                annotations_representable(self@),
                forall|j: int|
                    0 <= j < raw.len() ==> has_annotation(self@, #[trigger] raw@[j].0 as int, raw@[j].1@),
                forall|j: int| #![trigger r@[j]] 0 <= j < i ==> r@[j]@ == (raw@[j].0 as int, raw@[j].1@),
            decreases raw.len() - i,
        {
            let e = raw[i].0;
            let d = raw[i].1.clone();
            proof {
                assert(has_annotation(self@, raw@[i as int].0 as int, raw@[i as int].1@));
                lemma_has_annotation_in_range(self@, e as int, raw@[i as int].1@);
            }
            r.push(Annotation::from_parts(e, d));
            i = i + 1;
        }
        proof {
            assert forall|i: int| 0 <= i < r.len() implies has_annotation(self@, #[trigger] r@[i]@.0, r@[i]@.1) by {
                assert(r@[i]@ == (raw@[i].0 as int, raw@[i].1@));
                assert(has_annotation(self@, raw@[i].0 as int, raw@[i].1@));
            }
            assert forall|k: Seq<char>|
                self@.contains_key(k) && (#[trigger] annotation_entry(k)) is Some implies exists|i: int|
                    #![trigger r@[i]]
                    0 <= i < r.len() && annotation_entry(k) == Some(r@[i]@.0) && self@[k] == r@[i]@.1 by {
                let j = choose|j: int|
                    #![trigger raw@[j]]
                    0 <= j < raw.len() && annotation_entry(k) == Some(raw@[j].0 as int) && self@[k]
                        == raw@[j].1@;
                assert(r@[j]@ == (raw@[j].0 as int, raw@[j].1@));
            }
            assert(ann_views(r@) =~= raw@.map_values(|p: (i64, String)| (p.0 as int, p.1@)));
        }
        r
    }
}

impl Task {
    /// The task's annotations, or `None` when some annotation property
    /// records an entry time that is not representable (reading them would
    /// then panic).
    pub fn try_get_annotations(&self) -> (r: Option<Vec<Annotation>>)
        ensures
            r is Some <==> annotations_representable(self@),
            r matches Some(v) ==> lists_annotations(self@, v@),
    {
        if self.annotations_are_representable() {
            Some(self.get_annotations())
        } else {
            None
        }
    }
}

/// True when a task's status is not recurring: recurring tasks are
/// templates that generate instances, not tasks to act on.
pub open spec fn is_actionable(t: Task) -> bool {
    status_of(t@) != StatusView::Recurring
}

/// The tasks that are not recurring templates, in their order.
pub fn without_recurring(tasks: Vec<Task>) -> (r: Vec<Task>)
    ensures
        r@ == tasks@.filter(|t: Task| is_actionable(t)),
        r@ == tasks@.filter(|t: Task| status_of(t@) != StatusView::Recurring),
{
    proof {
        lemma_pending_list_drops_only_recurring(tasks@);
    }
    let ghost all = tasks@;
    let mut r: Vec<Task> = Vec::new();
    for t in it: tasks.into_iter()
        invariant
            all == it.seq(),
            r@ == it.seq().take(it.index() as int).filter(|t: Task| is_actionable(t)),
    {
        let ghost i = it.index();
        proof {
            reveal_with_fuel(Seq::<_>::filter, 1);
        }
        let st = t.get_status();
        let keep = match st {
            Status::Recurring => false,
            _ => true,
        };
        assert(it.seq().take(i + 1).drop_last() =~= it.seq().take(i));
        if keep {
            r.push(t);
        }
    }
    assert(all.take(all.len() as int) =~= all);
    r
}

/// A task is left out of the pending list exactly when its status is
/// recurring: the list keeps every other task, in order, whatever else it
/// holds (a start time, tags, a due time, any other property).
pub proof fn lemma_pending_list_drops_only_recurring(tasks: Seq<Task>)
    ensures
        tasks.filter(|t: Task| is_actionable(t)) == tasks.filter(|t: Task| status_of(t@) != StatusView::Recurring),
{
    assert((|t: Task| is_actionable(t)) =~= (|t: Task| status_of(t@) != StatusView::Recurring));
}

/// A task filled in at creation reads back what was written: its
/// description, status pending, priority, project, each tag as a user tag
/// property, and a due text that parses to the same number as the one given.
pub proof fn lemma_new_task_reads_back(
    a: Props,
    b: Props,
    description: Seq<char>,
    due: Option<Seq<char>>,
    priority: Seq<char>,
    project: Option<Seq<char>>,
    names: Seq<Seq<char>>,
)
    requires
        new_task_fields(a, b, description, due, priority, project, names),
        due_parses(due),
    ensures
        text_or_empty(b, key_description()) == description,
        status_of(b) == StatusView::Pending,
        text_or_empty(b, key_priority()) == priority,
        lookup(b, key_project()) == project,
        forall|i: int| 0 <= i < names.len() ==> b.contains_key(#[trigger] tag_key(names[i])),
        due matches Some(d) ==> i64_text_value(b[key_due()]) == i64_text_value(d),
{
    if let Some(d) = due {
        crate::text::lemma_int_text_round_trip(i64_text_value(d)->0);
    }
    assert forall|i: int| 0 <= i < names.len() implies b.contains_key(#[trigger] tag_key(names[i])) by {
        assert(lookup(b, tag_key(names[i])) == Some(Seq::<char>::empty()));
    }
}

/// A task after an update reads back what was written: its description,
/// the status that the status text names, its priority and project, as user
/// tags exactly the given tags, and a due text that parses to the same
/// number as the one given (or no due time).
pub proof fn lemma_updated_task_reads_back(
    a: Props,
    b: Props,
    description: Seq<char>,
    due: Option<Seq<char>>,
    priority: Seq<char>,
    project: Option<Seq<char>>,
    status: Seq<char>,
    anns: Seq<(int, Seq<char>)>,
    names: Seq<Seq<char>>,
)
    requires
        updated_fields(a, b, description, due, priority, project, status, anns, names),
        due_parses(due),
    ensures
        text_or_empty(b, key_description()) == description,
        status_of(b) == status_from_text(status),
        text_or_empty(b, key_priority()) == priority,
        lookup(b, key_project()) == project,
        forall|n: Seq<char>|
            crate::tag::is_user_tag_name(n) ==> (b.contains_key(#[trigger] tag_key(n)) <==> names.contains(n)),
        due matches Some(d) ==> i64_text_value(b[key_due()]) == i64_text_value(d),
        due is None ==> !b.contains_key(key_due()),
{
    if let Some(d) = due {
        crate::text::lemma_int_text_round_trip(i64_text_value(d)->0);
    }
    assert forall|n: Seq<char>|
        crate::tag::is_user_tag_name(n) implies (b.contains_key(#[trigger] tag_key(n)) <==> names.contains(n)) by {
        assert(lookup(b, tag_key(n)) == if names.contains(n) {
            Some(Seq::<char>::empty())
        } else if is_user_tag_name(n) {
            None
        } else {
            lookup(a, tag_key(n))
        });
    }
}

/// The tags given at creation are listed among the task's tags.
pub proof fn lemma_created_tags_listed(
    a: Props,
    b: Props,
    description: Seq<char>,
    due: Option<Seq<char>>,
    priority: Seq<char>,
    project: Option<Seq<char>>,
    names: Seq<Seq<char>>,
    listed: Seq<Tag>,
)
    requires
        new_task_fields(a, b, description, due, priority, project, names),
        forall|i: int| 0 <= i < names.len() ==> is_tag_name(#[trigger] names[i]),
        lists_tags(b, listed),
    ensures
        forall|i: int| 0 <= i < names.len() ==> tags_include(listed, #[trigger] names[i]),
{
    assert forall|i: int| 0 <= i < names.len() implies tags_include(listed, #[trigger] names[i]) by {
        assert(lookup(b, tag_key(names[i])) == Some(Seq::<char>::empty()));
        assert(b.contains_key(tag_key(names[i])));
    }
}

/// After an update, the user tags listed among the task's tags are exactly
/// the tags given.
pub proof fn lemma_updated_tags_listed(
    a: Props,
    b: Props,
    description: Seq<char>,
    due: Option<Seq<char>>,
    priority: Seq<char>,
    project: Option<Seq<char>>,
    status: Seq<char>,
    anns: Seq<(int, Seq<char>)>,
    names: Seq<Seq<char>>,
    listed: Seq<Tag>,
)
    requires
        updated_fields(a, b, description, due, priority, project, status, anns, names),
        forall|i: int| 0 <= i < names.len() ==> is_user_tag_name(#[trigger] names[i]),
        lists_tags(b, listed),
    ensures
        forall|n: Seq<char>| is_user_tag_name(n) ==> (#[trigger] tags_include(listed, n) <==> names.contains(n)),
{
    assert forall|n: Seq<char>| is_user_tag_name(n) implies (#[trigger] tags_include(listed, n) <==> names.contains(n)) by {
        assert(lookup(b, tag_key(n)) == if names.contains(n) {
            Some(Seq::<char>::empty())
        } else if is_user_tag_name(n) {
            None
        } else {
            lookup(a, tag_key(n))
        });
        if names.contains(n) {
            assert(b.contains_key(tag_key(n)));
        }
        if tags_include(listed, n) {
            let j = choose|j: int| 0 <= j < listed.len() && #[trigger] listed[j]@ == n;
            assert(!all_ascii_upper(listed[j]@));
            assert(b.contains_key(tag_key(listed[j]@)));
        }
    }
}

/// The annotation property of an entry time records that entry time.
proof fn lemma_annotation_entry_of_key(e: int)
    requires
        i64::MIN <= e <= i64::MAX,
    ensures
        annotation_entry(annotation_key(e)) == Some(e),
{
    let k = annotation_key(e);
    assert(k.subrange(0, 11) =~= annotation_prefix());
    assert(k.skip(11) =~= int_text(e));
    crate::text::lemma_int_text_round_trip(e);
}

/// After an update, each annotation given (the last one of each entry
/// time) is listed among the task's annotations.
pub proof fn lemma_updated_annotations_listed(
    a: Props,
    b: Props,
    description: Seq<char>,
    due: Option<Seq<char>>,
    priority: Seq<char>,
    project: Option<Seq<char>>,
    status: Seq<char>,
    anns: Seq<(int, Seq<char>)>,
    names: Seq<Seq<char>>,
    listed: Seq<Annotation>,
)
    requires
        updated_fields(a, b, description, due, priority, project, status, anns, names),
        forall|i: int| 0 <= i < anns.len() ==> in_time_range(#[trigger] anns[i].0),
        lists_annotations(b, listed),
    ensures
        forall|i: int|
            0 <= i < anns.len() && latest_entry(anns, i) ==> annotations_include(listed, #[trigger] anns[i]),
{
    assert forall|i: int| 0 <= i < anns.len() && latest_entry(anns, i) implies annotations_include(listed, #[trigger] anns[i]) by {
        let k = annotation_key(anns[i].0);
        lemma_annotation_entry_of_key(anns[i].0);
        assert(lookup(b, k) == Some(anns[i].1));
        assert(b.contains_key(k));
        let j = choose|j: int|
            #![trigger listed[j]]
            0 <= j < listed.len() && annotation_entry(k) == Some(listed[j]@.0) && b[k] == listed[j]@.1;
        assert(listed[j]@ == anns[i]);
    }
}

/// A property that records a tag names that tag.
proof fn lemma_tag_key_of(k: Seq<char>)
    requires
        is_tag_key(k),
    ensures
        k == tag_key(k.skip(4)),
{
    assert(k =~= tag_key(k.skip(4)));
}

/// Each annotation of a list has, at or after it, a last one of the same
/// entry time.
proof fn lemma_latest_exists(v: Seq<(int, Seq<char>)>, i: int)
    requires
        0 <= i < v.len(),
    ensures
        exists|j: int| i <= j < v.len() && v[j].0 == v[i].0 && #[trigger] latest_entry(v, j),
    decreases v.len() - i,
{
    if latest_entry(v, i) {
        assert(i <= i < v.len() && v[i].0 == v[i].0 && latest_entry(v, i));
    } else {
        let j = choose|j: int| i < j < v.len() && #[trigger] v[j].0 == v[i].0;
        lemma_latest_exists(v, j);
    }
}

/// Repeating an update with the same arguments changes nothing but the
/// `end` and `modified` timestamps: every other property (the description,
/// status, priority, project, due time, tags and annotations among them) is
/// as the first update left it.
pub proof fn lemma_repeated_update_same_fields(
    a: Props,
    b: Props,
    c: Props,
    description: Seq<char>,
    due: Option<Seq<char>>,
    priority: Seq<char>,
    project: Option<Seq<char>>,
    status: Seq<char>,
    anns: Seq<(int, Seq<char>)>,
    names: Seq<Seq<char>>,
)
    requires
        updated_fields(a, b, description, due, priority, project, status, anns, names),
        updated_fields(b, c, description, due, priority, project, status, anns, names),
    ensures
        agree_except(b, c, set![key_end(), key_modified()]),
{
    assert forall|k: Seq<char>| !set![key_end(), key_modified()].contains(k) implies #[trigger] lookup(c, k) == lookup(b, k) by {
        if annotation_keys(anns).contains(k) {
            let i = choose|i: int| 0 <= i < anns.len() && k == annotation_key(anns[i].0);
            lemma_latest_exists(anns, i);
            let j = choose|j: int| i <= j < anns.len() && anns[j].0 == anns[i].0 && #[trigger] latest_entry(anns, j);
            assert(lookup(c, annotation_key(anns[j].0)) == Some(anns[j].1));
            assert(lookup(b, annotation_key(anns[j].0)) == Some(anns[j].1));
        } else if all_tag_keys().contains(k) {
            lemma_tag_key_of(k);
            let n = k.skip(4);
            assert(lookup(c, tag_key(n)) == lookup(b, tag_key(n)));
        }
    }
}

/// The properties that the operations appended from `old_ops` to `new_ops`
/// give when applied, in order, to properties `a`.
pub open spec fn replayed(
    a: Props,
    old_ops: Seq<taskchampion::Operation>,
    new_ops: Seq<taskchampion::Operation>,
) -> Props {
    apply_updates(a, appended(old_ops, new_ops))
}

/// What filling in a new task records is what it reads back: the recorded
/// operations update that task only, and applied in order to the task as
/// it was they give its description, status pending, priority, project,
/// each given tag, and a due text that parses to the number given.
pub proof fn lemma_committed_creation_reads_back(
    a: Props,
    b: Props,
    old_ops: Seq<taskchampion::Operation>,
    new_ops: Seq<taskchampion::Operation>,
    uuid: Seq<u8>,
    description: Seq<char>,
    due: Option<Seq<char>>,
    priority: Seq<char>,
    project: Option<Seq<char>>,
    names: Seq<Seq<char>>,
)
    requires
        records(a, b, old_ops, new_ops, uuid),
        new_task_fields(a, b, description, due, priority, project, names),
        due_parses(due),
    ensures
        updates_of(appended(old_ops, new_ops), uuid),
        text_or_empty(replayed(a, old_ops, new_ops), key_description()) == description,
        status_of(replayed(a, old_ops, new_ops)) == StatusView::Pending,
        text_or_empty(replayed(a, old_ops, new_ops), key_priority()) == priority,
        lookup(replayed(a, old_ops, new_ops), key_project()) == project,
        forall|i: int| 0 <= i < names.len() ==> replayed(a, old_ops, new_ops).contains_key(#[trigger] tag_key(names[i])),
        due matches Some(d) ==> i64_text_value(replayed(a, old_ops, new_ops)[key_due()]) == i64_text_value(d),
{
    lemma_new_task_reads_back(a, b, description, due, priority, project, names);
}

/// What an update records is what it reads back: the recorded operations
/// update that task only, and applied in order to the task as it was they
/// give its description, the status that the status text names, its
/// priority and project, exactly the given user tags, each given annotation
/// (the last of each entry time), and the due time given, or none.
pub proof fn lemma_committed_update_reads_back(
    a: Props,
    b: Props,
    old_ops: Seq<taskchampion::Operation>,
    new_ops: Seq<taskchampion::Operation>,
    uuid: Seq<u8>,
    description: Seq<char>,
    due: Option<Seq<char>>,
    priority: Seq<char>,
    project: Option<Seq<char>>,
    status: Seq<char>,
    anns: Seq<(int, Seq<char>)>,
    names: Seq<Seq<char>>,
)
    requires
        records(a, b, old_ops, new_ops, uuid),
        updated_fields(a, b, description, due, priority, project, status, anns, names),
        due_parses(due),
    ensures
        updates_of(appended(old_ops, new_ops), uuid),
        text_or_empty(replayed(a, old_ops, new_ops), key_description()) == description,
        status_of(replayed(a, old_ops, new_ops)) == status_from_text(status),
        text_or_empty(replayed(a, old_ops, new_ops), key_priority()) == priority,
        lookup(replayed(a, old_ops, new_ops), key_project()) == project,
        forall|n: Seq<char>|
            is_user_tag_name(n) ==> (replayed(a, old_ops, new_ops).contains_key(#[trigger] tag_key(n)) <==> names.contains(n)),
        forall|i: int|
            0 <= i < anns.len() && latest_entry(anns, i) ==> lookup(
                replayed(a, old_ops, new_ops),
                #[trigger] annotation_key(anns[i].0),
            ) == Some(anns[i].1),
        due matches Some(d) ==> i64_text_value(replayed(a, old_ops, new_ops)[key_due()]) == i64_text_value(d),
        due is None ==> !replayed(a, old_ops, new_ops).contains_key(key_due()),
{
    lemma_updated_task_reads_back(a, b, description, due, priority, project, status, anns, names);
}

} // verus!
