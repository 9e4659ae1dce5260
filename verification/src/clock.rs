//! Dates as the repository writes them.

use chrono::{DateTime, Offset, TimeZone, Utc};
use chrono_tz::Asia::Seoul;
use vstd::prelude::*;

verus! {

/// The calendar date in Seoul at a moment, in the form year-month-day: the moment is given
/// in seconds since the start of 1970 in coordinated universal time. There is none for a
/// moment beyond the years that the calendar covers.
pub uninterp spec fn seoul_date(seconds: i64) -> Option<Seq<char>>;

/// `DateTime::from_timestamp` of the crate chrono, the offset that the crate chrono-tz has
/// for Asia/Seoul at that moment, and `NaiveDateTime::checked_add_offset`, printed as a
/// date: what comes out depends on the moment alone.
#[verifier::external_body]
pub(crate) fn seoul_date_of(seconds: i64) -> (date: Option<String>)
    ensures
        date.deep_view() == seoul_date(seconds),
{
    let moment = DateTime::<Utc>::from_timestamp(seconds, 0)?.naive_utc();
    let offset = Seoul.offset_from_utc_datetime(&moment).fix();
    let local = moment.checked_add_offset(offset)?;
    Some(local.date().to_string())
}

/// The calendar date in Seoul at a moment.
pub fn date_in_seoul(seconds: i64) -> (date: Option<String>)
    ensures
        date.deep_view() == seoul_date(seconds),
{
    seoul_date_of(seconds)
}

} // verus!
