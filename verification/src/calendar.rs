//! Calendar fields of a moment given in milliseconds since the epoch.

use chrono::{DateTime, Datelike, Timelike};
use vstd::prelude::*;

verus! {

/// The fields of a moment in UTC: day of the week counted from Monday as
/// 0, day of the month, month, hour and minute.
pub struct Moment {
    pub weekday: u32,
    pub day: u32,
    pub month: u32,
    pub hour: u32,
    pub minute: u32,
}

/// The UTC calendar fields of the moment `millis` milliseconds after the
/// epoch; `None` where the calendar does not reach it.
pub uninterp spec fn utc_moment(millis: i64) -> Option<Moment>;

/// `chrono::DateTime::from_timestamp_millis` with the accessors `weekday`,
/// `day`, `month`, `hour` and `minute`: the calendar fields of a moment in
/// UTC. The contract only names them.
#[verifier::external_body]
pub(crate) fn moment_of(millis: i64) -> (r: Option<Moment>)
    ensures
        r == utc_moment(millis),
{
    DateTime::from_timestamp_millis(millis).map(|t| Moment {
        weekday: t.weekday().num_days_from_monday(),
        day: t.day(),
        month: t.month(),
        hour: t.hour(),
        minute: t.minute(),
    })
}

} // verus!
