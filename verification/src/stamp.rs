//! The time stamp that names a collection's directory.

use vstd::prelude::*;

verus! {

/// The stamp of the moment `seconds` after the start of 1970 in UTC, as
/// year, month, day, an underscore, hour, minute and second; none where the
/// moment is out of the calendar's range.
pub uninterp spec fn utc_stamp(seconds: i64) -> Option<Seq<char>>;

/// `chrono::DateTime::from_timestamp` with no nanoseconds, and on the moment
/// it gives `format` with `%Y%m%d_%H%M%S`, written out as a string. The
/// result depends on `seconds` alone.
#[verifier::external_body]
pub(crate) fn stamp_of(seconds: i64) -> (r: Option<String>)
    ensures
        r is Some <==> utc_stamp(seconds) is Some,
        r is Some ==> r->Some_0@ == utc_stamp(seconds)->Some_0,
{
    match chrono::DateTime::from_timestamp(seconds, 0) {
        Some(moment) => Some(moment.format("%Y%m%d_%H%M%S").to_string()),
        None => None,
    }
}

} // verus!
