//! The status of a task, as the task data model names it.
use vstd::prelude::*;
use crate::text::str_equals;

verus! {

/// The status of a task.  `Unknown` carries a status text that the data
/// model does not define, so that it survives a round trip.
#[derive(Clone, Debug, PartialEq, Eq)]
pub enum Status {
    Pending,
    Completed,
    Deleted,
    Recurring,
    Unknown(String),
}

/// The mathematical model of a [`Status`].
pub enum StatusView {
    Pending,
    Completed,
    Deleted,
    Recurring,
    Unknown(Seq<char>),
}

impl View for Status {
    type V = StatusView;

    open spec fn view(&self) -> StatusView {
        match self {
            Status::Pending => StatusView::Pending,
            Status::Completed => StatusView::Completed,
            Status::Deleted => StatusView::Deleted,
            Status::Recurring => StatusView::Recurring,
            Status::Unknown(s) => StatusView::Unknown(s@),
        }
    }
}

pub open spec fn pending_text() -> Seq<char> {
    seq!['p', 'e', 'n', 'd', 'i', 'n', 'g']
}

pub open spec fn completed_text() -> Seq<char> {
    seq!['c', 'o', 'm', 'p', 'l', 'e', 't', 'e', 'd']
}

pub open spec fn deleted_text() -> Seq<char> {
    seq!['d', 'e', 'l', 'e', 't', 'e', 'd']
}

pub open spec fn recurring_text() -> Seq<char> {
    seq!['r', 'e', 'c', 'u', 'r', 'r', 'i', 'n', 'g']
}

/// The status that a status text in a task's properties stands for.
pub open spec fn status_from_text(s: Seq<char>) -> StatusView {
    if s == pending_text() {
        StatusView::Pending
    } else if s == completed_text() {
        StatusView::Completed
    } else if s == deleted_text() {
        StatusView::Deleted
    } else if s == recurring_text() {
        StatusView::Recurring
    } else {
        StatusView::Unknown(s)
    }
}

/// The text under which a status is stored in a task's properties.
pub open spec fn status_text(s: StatusView) -> Seq<char> {
    match s {
        StatusView::Pending => pending_text(),
        StatusView::Completed => completed_text(),
        StatusView::Deleted => deleted_text(),
        StatusView::Recurring => recurring_text(),
        StatusView::Unknown(t) => t,
    }
}

/// The name under which a status is displayed: the variant's name.
pub open spec fn status_display(s: StatusView) -> Seq<char> {
    match s {
        StatusView::Pending => seq!['P', 'e', 'n', 'd', 'i', 'n', 'g'],
        StatusView::Completed => seq!['C', 'o', 'm', 'p', 'l', 'e', 't', 'e', 'd'],
        StatusView::Deleted => seq!['D', 'e', 'l', 'e', 't', 'e', 'd'],
        StatusView::Recurring => seq!['R', 'e', 'c', 'u', 'r', 'r', 'i', 'n', 'g'],
        StatusView::Unknown(_) => seq!['U', 'n', 'k', 'n', 'o', 'w', 'n'],
    }
}

/// Reads a status text: the four names of the data model give their
/// status, and any other text gives `Unknown` holding that text.
pub fn status_from_string(s: &str) -> (r: Status)
    ensures
        r@ == status_from_text(s@),
{
    proof {
        reveal_strlit("pending");
        reveal_strlit("completed");
        reveal_strlit("deleted");
        reveal_strlit("recurring");
        assert("pending"@ =~= pending_text());
        assert("completed"@ =~= completed_text());
        assert("deleted"@ =~= deleted_text());
        assert("recurring"@ =~= recurring_text());
    }
    if str_equals(s, "pending") {
        Status::Pending
    } else if str_equals(s, "completed") {
        Status::Completed
    } else if str_equals(s, "deleted") {
        Status::Deleted
    } else if str_equals(s, "recurring") {
        Status::Recurring
    } else {
        Status::Unknown(s.to_owned())
    }
}

impl Status {
    /// The status's display name ("Pending", ..., and "Unknown" for any
    /// status the data model does not define).
    pub fn get_value(&self) -> (r: String)
        ensures
            r@ == status_display(self@),
    {
        proof {
            reveal_strlit("Pending");
            reveal_strlit("Completed");
            reveal_strlit("Deleted");
            reveal_strlit("Recurring");
            reveal_strlit("Unknown");
        }
        match self {
            Status::Pending => "Pending".to_owned(),
            Status::Completed => "Completed".to_owned(),
            Status::Deleted => "Deleted".to_owned(),
            Status::Recurring => "Recurring".to_owned(),
            Status::Unknown(_) => "Unknown".to_owned(),
        }
    }
}

/// A status text read as a status is stored again as the same text.
pub proof fn lemma_status_text_round_trip(s: Seq<char>)
    ensures
        status_text(status_from_text(s)) == s,
{
}

} // verus!
