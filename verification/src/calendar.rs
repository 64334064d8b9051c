//! The calendar day of a unix time, as chrono tells it.

use vstd::prelude::*;

verus! {

/// The day of the unix time `secs` in UTC, written `<YYYY>/<MM>/<DD>`, or
/// `None` where the calendar does not reach that time.
pub uninterp spec fn utc_date_text(secs: int) -> Option<Seq<char>>;

/// Formats the UTC day of a unix time.
///
/// Turns `secs` into a time with `chrono::DateTime::from_timestamp`, with no
/// nanoseconds, and writes it with `chrono::DateTime::format` and the
/// pattern `%Y/%m/%d`. The text is a function of `secs` alone (the time zone
/// is fixed and no locale is read), and chrono gives `None` for the same
/// values of `secs` every time. The contract claims no more than that: it
/// calls what comes back `utc_date_text(secs)`, and says nothing of what
/// that is.
#[verifier::external_body]
pub(crate) fn utc_date(secs: i64) -> (date: Option<String>)
    ensures
        match date {
            Some(text) => utc_date_text(secs as int) == Some(text@),
            None => utc_date_text(secs as int).is_none(),
        },
{
    match chrono::DateTime::from_timestamp(secs, 0) {
        Some(at) => Some(at.format("%Y/%m/%d").to_string()),
        None => None,
    }
}

} // verus!
