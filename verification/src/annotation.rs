//! Annotations: timestamped notes attached to a task.
use vstd::prelude::*;
use crate::text::{i64_text_value, parse_i64};
use crate::time::{in_time_range, time_text_usable};

verus! {

/// An annotation: its entry time in seconds since the epoch, and its text.
#[derive(Debug)]
pub struct Annotation {
    pub(crate) entry: i64,
    pub(crate) description: String,
}

impl Annotation {
    #[verifier::type_invariant]
    spec fn well_formed(self) -> bool {
        in_time_range(self.entry as int)
    }
}

impl View for Annotation {
    type V = (int, Seq<char>);

    closed spec fn view(&self) -> (int, Seq<char>) {
        (self.entry as int, self.description@)
    }
}

/// An annotation with the given text, made at the time that `entry` gives
/// in seconds since the epoch; `None` when `entry` is not an `i64`.
pub fn create_annotation(description: String, entry: String) -> (r: Option<Annotation>)
    requires
        time_text_usable(entry@),
    ensures
        r is Some <==> i64_text_value(entry@) is Some,
        r matches Some(a) ==> a@ == (i64_text_value(entry@)->0, description@),
{
    match parse_i64(entry.as_str()) {
        Some(secs) => Some(Annotation { entry: secs, description }),
        None => None,
    }
}

impl Annotation {
    /// Builds an annotation from an entry time known to be representable.
    pub(crate) fn from_parts(entry: i64, description: String) -> (r: Annotation)
        requires
            in_time_range(entry as int),
        ensures
            r@ == (entry as int, description@),
    {
        Annotation { entry, description }
    }

    /// The annotation's text.
    pub fn get_description(&self) -> (r: String)
        ensures
            r@ == self@.1,
    {
        self.description.clone()
    }

    /// The annotation's entry time, in seconds since the epoch.
    pub fn get_entry(&self) -> (r: i64)
        ensures
            r == self@.0,
            in_time_range(r as int),
    {
        proof {
            use_type_invariant(self);
        }
        self.entry
    }
}

} // verus!
