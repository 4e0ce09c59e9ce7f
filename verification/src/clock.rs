//! Moments in time as text.

use vstd::prelude::*;

use crate::profile::Timestamp;
use crate::text::join;

verus! {

/// What `chrono` writes for a moment in UTC by a pattern; `None` for a moment
/// that it cannot hold.
pub uninterp spec fn utc_text(secs: i64, nanos: u32, pattern: Seq<char>) -> Option<Seq<char>>;

/// Patterns that the library writes moments by.
pub open spec fn known_pattern(pattern: Seq<char>) -> bool {
    pattern == "%Y%m%dT%H%M%S%3fZ"@ || pattern == "%Y-%m-%d %H:%M UTC"@
}

/// A character of a moment in a file name: a digit, a sign before a year that
/// has not four digits, or one of the two letters of the pattern.
pub open spec fn stamp_char(c: char) -> bool {
    '0' <= c <= '9' || c == '+' || c == '-' || c == 'T' || c == 'Z'
}

/// `DateTime::<Utc>::from_timestamp` and `DateTime::format` of `chrono`: see
/// [`utc_text`]. By the pattern for file names it writes digits, a sign where
/// the year has not four digits, and the pattern's letters.
#[verifier::external_body]
fn format_utc(secs: i64, nanos: u32, pattern: &str) -> (r: Option<String>)
    requires
        known_pattern(pattern@),
    ensures
        match utc_text(secs, nanos, pattern@) {
            Some(t) => r matches Some(s) && s@ == t,
            None => r is None,
        },
        r matches Some(s) ==> (pattern@ == "%Y%m%dT%H%M%S%3fZ"@ ==> forall|i: int|
            0 <= i < s@.len() ==> stamp_char(#[trigger] s@[i])),
{
    chrono::DateTime::from_timestamp(secs, nanos).map(|t| t.format(pattern).to_string())
}

/// A moment as the stem of a file name, to the millisecond. It holds no colon or
/// other character that a file system refuses.
pub fn file_stamp(at: Timestamp) -> (r: Option<String>)
    ensures
        match utc_text(at.secs, at.nanos, "%Y%m%dT%H%M%S%3fZ"@) {
            Some(t) => r matches Some(s) && s@ == t,
            None => r is None,
        },
        r matches Some(s) ==> forall|i: int| 0 <= i < s@.len() ==> stamp_char(#[trigger] s@[i]),
{
    format_utc(at.secs, at.nanos, "%Y%m%dT%H%M%S%3fZ")
}

/// A moment for a list, to the minute.
pub fn list_stamp(at: Timestamp) -> (r: Option<String>)
    ensures
        match utc_text(at.secs, at.nanos, "%Y-%m-%d %H:%M UTC"@) {
            Some(t) => r matches Some(s) && s@ == t,
            None => r is None,
        },
{
    format_utc(at.secs, at.nanos, "%Y-%m-%d %H:%M UTC")
}

/// Name of the file for a report of this moment.
pub fn report_file(at: Timestamp, extension: &str) -> (r: Option<String>)
    ensures
        match utc_text(at.secs, at.nanos, "%Y%m%dT%H%M%S%3fZ"@) {
            Some(t) => r matches Some(s) && s@ == t + extension@,
            None => r is None,
        },
{
    match file_stamp(at) {
        Some(stamp) => Some(stamp_with(&stamp, extension)),
        None => None,
    }
}

/// A stamp followed by an extension.
pub fn stamp_with(stamp: &str, extension: &str) -> (s: String)
    ensures
        s@ == stamp@ + extension@,
{
    join(stamp, extension)
}

} // verus!
