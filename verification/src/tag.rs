//! Tags: user tags, which a task carries as `tag_<name>` properties, and the
//! reserved upper-case synthetic tags that describe a task's state.
use vstd::prelude::*;
use crate::text::is_digit;

verus! {

/// True when `c` has the Unicode `White_Space` property, which is what
/// `char::is_whitespace` tests.
pub open spec fn is_unicode_whitespace(c: char) -> bool {
    ('\u{9}' <= c && c <= '\u{d}') || c == ' ' || c == '\u{85}' || c == '\u{a0}' || c
        == '\u{1680}' || ('\u{2000}' <= c && c <= '\u{200a}') || c == '\u{2028}' || c
        == '\u{2029}' || c == '\u{202f}' || c == '\u{205f}' || c == '\u{3000}'
}

/// True when `c` is an upper-case ASCII letter.
pub open spec fn is_ascii_upper(c: char) -> bool {
    'A' <= c && c <= 'Z'
}

/// True when every character of `s` is an upper-case ASCII letter (true of
/// the empty text).
pub open spec fn all_ascii_upper(s: Seq<char>) -> bool {
    forall|i: int| 0 <= i < s.len() ==> is_ascii_upper(#[trigger] s[i])
}

/// The characters that cannot begin a user tag: `+-*/()<>^!%=~`.
pub open spec fn is_operator_char(c: char) -> bool {
    c == '+' || c == '-' || c == '*' || c == '/' || c == '(' || c == ')' || c == '<' || c == '>'
        || c == '^' || c == '!' || c == '%' || c == '=' || c == '~'
}

pub open spec fn waiting_tag() -> Seq<char> {
    seq!['W', 'A', 'I', 'T', 'I', 'N', 'G']
}

pub open spec fn active_tag() -> Seq<char> {
    seq!['A', 'C', 'T', 'I', 'V', 'E']
}

pub open spec fn pending_tag() -> Seq<char> {
    seq!['P', 'E', 'N', 'D', 'I', 'N', 'G']
}

pub open spec fn completed_tag() -> Seq<char> {
    seq!['C', 'O', 'M', 'P', 'L', 'E', 'T', 'E', 'D']
}

pub open spec fn deleted_tag() -> Seq<char> {
    seq!['D', 'E', 'L', 'E', 'T', 'E', 'D']
}

pub open spec fn blocked_tag() -> Seq<char> {
    seq!['B', 'L', 'O', 'C', 'K', 'E', 'D']
}

pub open spec fn unblocked_tag() -> Seq<char> {
    seq!['U', 'N', 'B', 'L', 'O', 'C', 'K', 'E', 'D']
}

pub open spec fn blocking_tag() -> Seq<char> {
    seq!['B', 'L', 'O', 'C', 'K', 'I', 'N', 'G']
}

/// The names of the synthetic tags.
pub open spec fn is_synthetic_tag_name(s: Seq<char>) -> bool {
    s == waiting_tag() || s == active_tag() || s == pending_tag() || s == completed_tag() || s
        == deleted_tag() || s == blocked_tag() || s == unblocked_tag() || s == blocking_tag()
}

/// A valid user tag: not all upper-case ASCII letters, not empty, no
/// whitespace anywhere, a first character that is neither a digit nor one of
/// `+-*/()<>^!%=~`, and no `:` after the first character.
pub open spec fn is_user_tag_name(s: Seq<char>) -> bool {
    &&& !all_ascii_upper(s)
    &&& s.len() > 0
    &&& !is_unicode_whitespace(s[0])
    &&& !is_digit(s[0])
    &&& !is_operator_char(s[0])
    &&& forall|i: int| 1 <= i < s.len() ==> !is_unicode_whitespace(#[trigger] s[i]) && s[i] != ':'
}

/// A text that names a tag: a synthetic tag's name, or a valid user tag.
pub open spec fn is_tag_name(s: Seq<char>) -> bool {
    (all_ascii_upper(s) && is_synthetic_tag_name(s)) || is_user_tag_name(s)
}

/// A tag, held by its name.
#[derive(Debug)]
pub struct Tag {
    pub(crate) name: String,
    pub(crate) synthetic: bool,
}

impl Tag {
    #[verifier::type_invariant]
    spec fn well_formed(self) -> bool {
        is_tag_name(self.name@) && self.synthetic == all_ascii_upper(self.name@)
    }
}

impl View for Tag {
    type V = Seq<char>;

    closed spec fn view(&self) -> Seq<char> {
        self.name@
    }
}

/// Parses a tag with `TryFrom<&str>` for `taskchampion::Tag` and hands out
/// whether it is synthetic.  Per that crate's source, the text is accepted
/// exactly when `is_tag_name` holds, and the tag is synthetic exactly when
/// the text is all upper-case ASCII letters.
#[verifier::external_body]
fn tag_kind(value: &str) -> (r: Option<bool>)
    ensures
        r is Some <==> is_tag_name(value@),
        r matches Some(b) ==> b == all_ascii_upper(value@),
{
    match taskchampion::Tag::try_from(value) {
        Ok(t) => Some(t.is_synthetic()),
        Err(_) => None,
    }
}

/// The tag named `value`, if it names one.
pub fn create_tag(value: String) -> (r: Option<Tag>)
    ensures
        r is Some <==> is_tag_name(value@),
        r matches Some(t) ==> t@ == value@,
{
    match tag_kind(value.as_str()) {
        Some(synthetic) => Some(Tag { name: value, synthetic }),
        None => None,
    }
}

impl Tag {
    /// Builds a tag from a name that is known to be valid.
    pub(crate) fn from_valid_name(name: String, synthetic: bool) -> (r: Tag)
        requires
            is_tag_name(name@),
            synthetic == all_ascii_upper(name@),
        ensures
            r@ == name@,
    {
        Tag { name, synthetic }
    }

    /// The tag's name.
    pub fn get_value(&self) -> (r: String)
        ensures
            r@ == self@,
            is_tag_name(r@),
    {
        proof {
            use_type_invariant(self);
        }
        self.name.clone()
    }

    /// True for the synthetic tags, whose names are all upper-case letters.
    pub fn is_synthetic(&self) -> (r: bool)
        ensures
            r == all_ascii_upper(self@),
            r ==> is_synthetic_tag_name(self@),
            !r ==> is_user_tag_name(self@),
    {
        proof {
            use_type_invariant(self);
        }
        self.synthetic
    }
}

} // verus!
