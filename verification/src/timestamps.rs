//! Timestamps: the checks that the changeset format and the proposal
//! schedules put on date-time text, made through `chrono`.
use vstd::prelude::*;
use chrono::{DateTime, NaiveDateTime, Utc};
use crate::text::opt_view;

verus! {

/// What chrono makes of RFC 3339 text: the same instant rendered in UTC by
/// `to_rfc3339`, or `None` when `DateTime::parse_from_rfc3339` rejects it.
pub uninterp spec fn rfc3339_in_utc(text: Seq<char>) -> Option<Seq<char>>;

/// What chrono makes of `text` under the strftime pattern `fmt`: the value
/// parsed by `NaiveDateTime::parse_from_str(text, fmt)` and rendered again by
/// `format(fmt)`, or `None` when the parse fails.
pub uninterp spec fn naive_reformatted(text: Seq<char>, fmt: Seq<char>) -> Option<Seq<char>>;

/// The canonical SQLite date-time pattern, `YYYY-MM-DD HH:MM:SS`.
pub open spec fn sqlite_format() -> Seq<char> {
    "%Y-%m-%d %H:%M:%S"@
}

/// What chrono makes of SQLite date-time text: `text` read and written again
/// with the canonical pattern.
pub open spec fn sqlite_timestamp_reformatted(text: Seq<char>) -> Option<Seq<char>> {
    naive_reformatted(text, sqlite_format())
}

/// A pattern that names no time-zone item (`%z`, `%Z`, `%+` and their
/// variants): a `NaiveDateTime` has no offset, and chrono's formatting of such
/// an item fails.
pub open spec fn names_no_offset(fmt: Seq<char>) -> bool {
    !fmt.contains('z') && !fmt.contains('Z') && !fmt.contains('+')
}

/// Calls chrono's `DateTime::parse_from_rfc3339` on `text`, then, on success,
/// `with_timezone(&Utc)` and `to_rfc3339`. The contract only ties the result
/// to `text` through `rfc3339_in_utc`; chrono's grammar is not restated.
#[verifier::external_body]
fn chrono_rfc3339_in_utc(text: &str) -> (r: Option<String>)
    ensures
        opt_view(r) == rfc3339_in_utc(text@),
{
    match DateTime::parse_from_rfc3339(text) {
        Ok(parsed) => Some(parsed.with_timezone(&Utc).to_rfc3339()),
        Err(_) => None,
    }
}

/// Calls chrono's `NaiveDateTime::parse_from_str(text, fmt)` and, on
/// success, `format(fmt)` rendered to a `String`. The contract only ties the
/// result to `text` and `fmt` through `naive_reformatted`. The pattern names
/// no offset item, without which `to_string` on the formatted value panics.
#[verifier::external_body]
fn chrono_reformat(text: &str, fmt: &str) -> (r: Option<String>)
    requires
        names_no_offset(fmt@),
    ensures
        opt_view(r) == naive_reformatted(text@, fmt@),
{
    match NaiveDateTime::parse_from_str(text, fmt) {
        Ok(parsed) => Some(parsed.format(fmt).to_string()),
        Err(_) => None,
    }
}

/// The UTC RFC 3339 form of `text`, or `None` when it is not RFC 3339.
pub fn rfc3339_utc(text: &str) -> (r: Option<String>)
    ensures
        opt_view(r) == rfc3339_in_utc(text@),
{
    chrono_rfc3339_in_utc(text)
}

/// How SQLite date-time text fares against the canonical
/// `YYYY-MM-DD HH:MM:SS` form.
#[derive(Debug, Clone, Copy, PartialEq, Eq)]
pub enum TimestampCheck {
    /// chrono does not read it as `%Y-%m-%d %H:%M:%S`.
    Unparsable,
    /// It parses, but renders back differently (for example without zero padding).
    NotCanonical,
    /// It is canonical.
    Canonical,
}

/// Classifies `text` as canonical SQLite date-time text or not: canonical
/// exactly when chrono parses it and renders it back unchanged.
pub fn check_sqlite_timestamp(text: &str) -> (r: TimestampCheck)
    ensures
        r == match sqlite_timestamp_reformatted(text@) {
            None => TimestampCheck::Unparsable,
            Some(t) => if t == text@ {
                TimestampCheck::Canonical
            } else {
                TimestampCheck::NotCanonical
            },
        },
{
    proof {
        reveal_strlit("%Y-%m-%d %H:%M:%S");
    }
    match chrono_reformat(text, "%Y-%m-%d %H:%M:%S") {
        None => TimestampCheck::Unparsable,
        Some(rendered) => {
            let original: String = text.to_owned();
            if rendered == original {
                TimestampCheck::Canonical
            } else {
                TimestampCheck::NotCanonical
            }
        },
    }
}

} // verus!
