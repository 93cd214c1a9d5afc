//! The model of a task: its properties, a map from property names to
//! texts, and the names of the properties that the data model defines.
use vstd::prelude::*;
use crate::status::{status_from_text, StatusView};
use crate::text::{i64_text_value, int_text};
use crate::time::in_time_range;

verus! {

/// A task's properties.
pub type Props = Map<Seq<char>, Seq<char>>;

/// The value of property `k`, if the task has it.
pub open spec fn lookup(m: Props, k: Seq<char>) -> Option<Seq<char>> {
    if m.contains_key(k) {
        Some(m[k])
    } else {
        None
    }
}

/// The text of an optional string.
pub open spec fn opt_text(o: Option<String>) -> Option<Seq<char>> {
    match o {
        Some(s) => Some(s@),
        None => None,
    }
}

/// `b` has the same properties as `a`, but for those named in `keys`.
pub open spec fn agree_except(a: Props, b: Props, keys: Set<Seq<char>>) -> bool {
    forall|k: Seq<char>| !keys.contains(k) ==> #[trigger] lookup(b, k) == lookup(a, k)
}

pub open spec fn key_description() -> Seq<char> {
    seq!['d', 'e', 's', 'c', 'r', 'i', 'p', 't', 'i', 'o', 'n']
}

pub open spec fn key_status() -> Seq<char> {
    seq!['s', 't', 'a', 't', 'u', 's']
}

pub open spec fn key_priority() -> Seq<char> {
    seq!['p', 'r', 'i', 'o', 'r', 'i', 't', 'y']
}

pub open spec fn key_project() -> Seq<char> {
    seq!['p', 'r', 'o', 'j', 'e', 'c', 't']
}

pub open spec fn key_entry() -> Seq<char> {
    seq!['e', 'n', 't', 'r', 'y']
}

pub open spec fn key_due() -> Seq<char> {
    seq!['d', 'u', 'e']
}

pub open spec fn key_modified() -> Seq<char> {
    seq!['m', 'o', 'd', 'i', 'f', 'i', 'e', 'd']
}

pub open spec fn key_end() -> Seq<char> {
    seq!['e', 'n', 'd']
}

pub open spec fn key_start() -> Seq<char> {
    seq!['s', 't', 'a', 'r', 't']
}

pub open spec fn key_recur() -> Seq<char> {
    seq!['r', 'e', 'c', 'u', 'r']
}

pub open spec fn key_scheduled() -> Seq<char> {
    seq!['s', 'c', 'h', 'e', 'd', 'u', 'l', 'e', 'd']
}

pub open spec fn key_until() -> Seq<char> {
    seq!['u', 'n', 't', 'i', 'l']
}

/// The property that records a user tag: `tag_<name>`.
pub open spec fn tag_key(name: Seq<char>) -> Seq<char> {
    seq!['t', 'a', 'g', '_'] + name
}

/// The property that records an annotation made at `secs`:
/// `annotation_<secs>`.
pub open spec fn annotation_key(secs: int) -> Seq<char> {
    seq!['a', 'n', 'n', 'o', 't', 'a', 't', 'i', 'o', 'n', '_'] + int_text(secs)
}

pub open spec fn annotation_prefix() -> Seq<char> {
    seq!['a', 'n', 'n', 'o', 't', 'a', 't', 'i', 'o', 'n', '_']
}

/// The entry time that an `annotation_<secs>` property records: the text
/// after the prefix, read as an `i64`.
pub open spec fn annotation_entry(k: Seq<char>) -> Option<int> {
    if k.len() >= 11 && k.subrange(0, 11) == annotation_prefix() {
        i64_text_value(k.skip(11))
    } else {
        None
    }
}

/// Every annotation property's entry time is a representable instant.
pub open spec fn annotations_representable(m: Props) -> bool {
    forall|k: Seq<char>|
        m.contains_key(k) ==> match #[trigger] annotation_entry(k) {
            Some(v) => in_time_range(v),
            None => true,
        }
}

/// Some annotation property of `m` records entry time `e` with text `d`.
pub open spec fn has_annotation(m: Props, e: int, d: Seq<char>) -> bool {
    exists|k: Seq<char>| m.contains_key(k) && #[trigger] annotation_entry(k) == Some(e) && m[k] == d
}

/// Entry `i` of `v` comes from property `f(i)` of `m`, which records that
/// entry time and text; different entries come from different properties;
/// and every annotation property of `m` gives an entry.
pub open spec fn keyed_by(m: Props, v: Seq<(int, Seq<char>)>, f: spec_fn(int) -> Seq<char>) -> bool {
    &&& forall|i: int|
        0 <= i < v.len() ==> m.contains_key(#[trigger] f(i)) && annotation_entry(f(i)) == Some(v[i].0)
            && m[f(i)] == v[i].1
    &&& forall|i: int, j: int| 0 <= i < v.len() && 0 <= j < v.len() && i != j ==> #[trigger] f(i) != #[trigger] f(j)
    &&& forall|k: Seq<char>|
        m.contains_key(k) && (#[trigger] annotation_entry(k)) is Some ==> exists|i: int|
            0 <= i < v.len() && #[trigger] f(i) == k
}

/// The entries of `v` match the annotation properties of `m` one for one.
pub open spec fn one_entry_per_property(m: Props, v: Seq<(int, Seq<char>)>) -> bool {
    exists|f: spec_fn(int) -> Seq<char>| keyed_by(m, v, f)
}

/// An annotation recorded in a task whose annotation entry times are all
/// representable has a representable entry time.
pub proof fn lemma_has_annotation_in_range(m: Props, e: int, d: Seq<char>)
    requires
        annotations_representable(m),
        has_annotation(m, e, d),
    ensures
        in_time_range(e),
{
    let k = choose|k: Seq<char>| m.contains_key(k) && #[trigger] annotation_entry(k) == Some(e) && m[k] == d;
    assert(m.contains_key(k));
}

/// The status that a task's properties give it; `Pending` when it has none.
pub open spec fn status_of(m: Props) -> StatusView {
    match lookup(m, key_status()) {
        Some(s) => status_from_text(s),
        None => StatusView::Pending,
    }
}

/// A property's text, or the empty text when the task lacks it.
pub open spec fn text_or_empty(m: Props, k: Seq<char>) -> Seq<char> {
    match lookup(m, k) {
        Some(s) => s,
        None => Seq::empty(),
    }
}

/// The property holds the decimal text of a representable timestamp.
pub open spec fn holds_timestamp(m: Props, k: Seq<char>) -> bool {
    m.contains_key(k) && (i64_text_value(m[k]) matches Some(v) && in_time_range(v))
}

/// The `modified` property is either unchanged or set to a timestamp.
pub open spec fn modified_touched(a: Props, b: Props) -> bool {
    lookup(b, key_modified()) == lookup(a, key_modified()) || holds_timestamp(b, key_modified())
}

/// The effect of setting property `k` to `v` (removing it for `None`): `k`
/// takes the new value, `modified` may be stamped with the time, and nothing
/// else changes.
pub open spec fn set_effect(a: Props, b: Props, k: Seq<char>, v: Option<Seq<char>>) -> bool {
    &&& lookup(b, k) == v
    &&& agree_except(a, b, set![k, key_modified()])
    &&& modified_touched(a, b)
}

/// The properties that record the given user tags.
pub open spec fn tag_keys(names: Seq<Seq<char>>) -> Set<Seq<char>> {
    Set::new(|k: Seq<char>| exists|i: int| 0 <= i < names.len() && k == tag_key(names[i]))
}

/// True for the properties that record a tag: those that begin `tag_`.
pub open spec fn is_tag_key(k: Seq<char>) -> bool {
    k.len() >= 4 && k.subrange(0, 4) == seq!['t', 'a', 'g', '_']
}

/// All properties that record a tag.
pub open spec fn all_tag_keys() -> Set<Seq<char>> {
    Set::new(|k: Seq<char>| is_tag_key(k))
}

/// The properties that record the given annotations.
pub open spec fn annotation_keys(anns: Seq<(int, Seq<char>)>) -> Set<Seq<char>> {
    Set::new(|k: Seq<char>| exists|i: int| 0 <= i < anns.len() && k == annotation_key(anns[i].0))
}

/// A tag's property records that tag, and only that one.
pub proof fn lemma_tag_key(n: Seq<char>, m: Seq<char>)
    ensures
        is_tag_key(tag_key(n)),
        tag_key(n) == tag_key(m) ==> n == m,
{
    assert(tag_key(n).subrange(0, 4) =~= seq!['t', 'a', 'g', '_']);
    assert(tag_key(n).skip(4) =~= n);
    assert(tag_key(m).skip(4) =~= m);
}

/// An annotation's property records the annotations of that entry time
/// only, and is not a tag's property.
pub proof fn lemma_annotation_key(x: int, y: int)
    requires
        i64::MIN <= x <= i64::MAX,
        i64::MIN <= y <= i64::MAX,
    ensures
        annotation_key(x) == annotation_key(y) ==> x == y,
        !is_tag_key(annotation_key(x)),
{
    assert(annotation_key(x).skip(11) =~= int_text(x));
    assert(annotation_key(y).skip(11) =~= int_text(y));
    crate::text::lemma_int_text_round_trip(x);
    crate::text::lemma_int_text_round_trip(y);
    assert(annotation_key(x)[0] == 'a');
    assert(annotation_key(x).subrange(0, 4)[0] == 'a');
}

/// None of the property names that the data model defines records a tag.
pub proof fn lemma_fixed_keys_not_tags()
    ensures
        !is_tag_key(key_description()),
        !is_tag_key(key_status()),
        !is_tag_key(key_end()),
        !is_tag_key(key_project()),
        !is_tag_key(key_priority()),
        !is_tag_key(key_entry()),
        !is_tag_key(key_due()),
        !is_tag_key(key_modified()),
        !is_tag_key(key_start()),
{
    assert(key_description().subrange(0, 4)[0] == 'd');
    assert(key_status().subrange(0, 4)[0] == 's');
    assert(key_end().len() < 4);
    assert(key_due().len() < 4);
    assert(key_project().subrange(0, 4)[0] == 'p');
    assert(key_priority().subrange(0, 4)[0] == 'p');
    assert(key_entry().subrange(0, 4)[0] == 'e');
    assert(key_modified().subrange(0, 4)[0] == 'm');
    assert(key_start().subrange(0, 4)[0] == 's');
}

/// Stamping `modified` twice is stamping it once, provided the second step
/// left it alone or stamped it.
pub proof fn lemma_modified_trans(a: Props, b: Props, c: Props)
    requires
        modified_touched(a, b),
        modified_touched(b, c),
    ensures
        modified_touched(a, c),
{
}

/// The property names that the data model defines all differ from one
/// another and from every `tag_` and `annotation_` property.
pub proof fn lemma_keys_distinct(n: Seq<char>, secs: int)
    ensures
        tag_key(n) != key_description(),
        tag_key(n) != key_status(),
        tag_key(n) != key_priority(),
        tag_key(n) != key_project(),
        tag_key(n) != key_entry(),
        tag_key(n) != key_due(),
        tag_key(n) != key_modified(),
        tag_key(n) != key_end(),
        tag_key(n) != key_start(),
        tag_key(n) != annotation_key(secs),
        annotation_key(secs) != key_description(),
        annotation_key(secs) != key_status(),
        annotation_key(secs) != key_priority(),
        annotation_key(secs) != key_project(),
        annotation_key(secs) != key_due(),
        annotation_key(secs) != key_modified(),
        annotation_key(secs) != key_end(),
        key_description() != key_status(),
        key_description() != key_priority(),
        key_description() != key_project(),
        key_description() != key_entry(),
        key_description() != key_due(),
        key_description() != key_modified(),
        key_description() != key_end(),
        key_status() != key_priority(),
        key_status() != key_project(),
        key_status() != key_entry(),
        key_status() != key_due(),
        key_status() != key_modified(),
        key_status() != key_end(),
        key_priority() != key_project(),
        key_priority() != key_entry(),
        key_priority() != key_due(),
        key_priority() != key_modified(),
        key_priority() != key_end(),
        key_project() != key_entry(),
        key_project() != key_due(),
        key_project() != key_modified(),
        key_project() != key_end(),
        key_entry() != key_due(),
        key_entry() != key_modified(),
        key_entry() != key_end(),
        key_due() != key_modified(),
        key_due() != key_end(),
        key_modified() != key_end(),
        key_start() != key_modified(),
{
    assert(tag_key(n)[0] == 't');
    assert(annotation_key(secs)[0] == 'a');
    assert(annotation_key(secs)[1] == 'n');
    assert(key_description()[0] == 'd');
    assert(key_status()[0] == 's');
    assert(key_priority()[0] == 'p');
    assert(key_project()[0] == 'p');
    assert(key_entry()[0] == 'e');
    assert(key_due()[0] == 'd');
    assert(key_modified()[0] == 'm');
    assert(key_end()[0] == 'e');
    assert(key_start()[0] == 's');
    assert(key_description()[1] == 'e');
    assert(key_due()[1] == 'u');
    assert(key_status()[1] == 't');
    assert(key_start()[1] == 't');
    assert(key_priority()[1] == 'r');
    assert(key_project()[1] == 'r');
    assert(key_priority()[2] == 'i');
    assert(key_project()[2] == 'o');
    assert(key_entry()[1] == 'n');
    assert(key_end()[1] == 'n');
    assert(key_entry().len() != key_end().len());
    assert(key_status().len() != key_start().len());
}

} // verus!
