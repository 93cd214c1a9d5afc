//! Timestamps, as whole seconds since the Unix epoch, and the range of
//! them that a UTC date-time can represent.
use vstd::prelude::*;
use crate::text::{i64_text_value, parse_i64};

verus! {

/// The earliest representable instant, 1 January of year -262143, 00:00:00.
pub const MIN_TIMESTAMP: i64 = -8334601315200i64;

/// The latest representable second, 31 December of year 262142, 23:59:59.
pub const MAX_TIMESTAMP: i64 = 8210266876799i64;

/// True when `secs` seconds after the epoch is a representable instant.
pub open spec fn in_time_range(secs: int) -> bool {
    MIN_TIMESTAMP <= secs <= MAX_TIMESTAMP
}

/// True when a text that may give a timestamp is safe to use as one: it
/// either does not parse as an `i64`, or it gives a representable instant.
pub open spec fn time_text_usable(s: Seq<char>) -> bool {
    match i64_text_value(s) {
        Some(v) => in_time_range(v),
        None => true,
    }
}

/// Tells whether `s` is safe to use as a timestamp text (see
/// `time_text_usable`).
pub fn is_usable_time_text(s: &str) -> (r: bool)
    ensures
        r == time_text_usable(s@),
{
    match parse_i64(s) {
        Some(v) => MIN_TIMESTAMP <= v && v <= MAX_TIMESTAMP,
        None => true,
    }
}

} // verus!
