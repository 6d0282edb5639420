//! The clock, and timestamps as RFC 3339 text.
use vstd::prelude::*;

use chrono::{DateTime, Utc};

use crate::error::AppError;

verus! {

/// The current time as whole seconds since the Unix epoch and the
/// nanoseconds past that second (`chrono::Utc::now`, then `timestamp` and
/// `timestamp_subsec_nanos`). The seconds lie within chrono's range of dates,
/// below 10^13 either way, and the pair is an instant chrono represents
/// (`DateTime::from_timestamp` round-trips with these two readings).
#[verifier::external_body]
pub(crate) fn now_parts() -> (res: (i64, u32))
    ensures
        -10_000_000_000_000 < res.0 < 10_000_000_000_000,
        rfc3339_text(res.0 as int, res.1 as int) is Some,
{
    let now = Utc::now();
    (now.timestamp(), now.timestamp_subsec_nanos())
}

/// The RFC 3339 text of the instant `secs` seconds and `nanos` nanoseconds
/// after the Unix epoch, in UTC (`DateTime::from_timestamp` then `to_rfc3339`),
/// or `None` when chrono has no such instant.
pub uninterp spec fn rfc3339_text(secs: int, nanos: int) -> Option<Seq<char>>;

/// The RFC 3339 text of an instant given as seconds and nanoseconds since the
/// Unix epoch (`DateTime::from_timestamp` then `to_rfc3339`).
#[verifier::external_body]
pub(crate) fn rfc3339_at(secs: i64, nanos: u32) -> (res: Option<String>)
    ensures
        res is Some <==> rfc3339_text(secs as int, nanos as int) is Some,
        res matches Some(t) ==> Some(t@) == rfc3339_text(secs as int, nanos as int),
{
    DateTime::<Utc>::from_timestamp(secs, nanos).map(|t| t.to_rfc3339())
}

/// An instant: seconds and nanoseconds since the Unix epoch.
#[derive(Debug, Clone, PartialEq, Eq)]
pub struct Instant {
    pub secs: i64,
    pub nanos: u32,
}

/// The current instant.
pub fn now() -> (res: Instant)
    ensures
        -10_000_000_000_000 < res.secs < 10_000_000_000_000,
        rfc3339_text(res.secs as int, res.nanos as int) is Some,
{
    let (secs, nanos) = now_parts();
    Instant { secs, nanos }
}

/// The current time as RFC 3339 text, as records store it.
pub fn now_text() -> (res: Result<String, AppError>)
    ensures
        res is Ok,
        res matches Ok(t) ==> exists|secs: int, nanos: int| Some(t@) == #[trigger] rfc3339_text(secs, nanos),
{
    let t = now();
    match rfc3339_after(&t, 0) {
        Some(s) => Ok(s),
        None => Err(AppError::Internal(String::from_str("timestamp out of range"))),
    }
}

/// The RFC 3339 text of `t` plus `seconds`; `None` past chrono's range of dates.
pub fn rfc3339_after(t: &Instant, seconds: i64) -> (res: Option<String>)
    requires
        -10_000_000_000_000 < t.secs < 10_000_000_000_000,
        -10_000_000_000_000 < seconds < 10_000_000_000_000,
    ensures
        res is Some <==> rfc3339_text(t.secs + seconds, t.nanos as int) is Some,
        res matches Some(s) ==> Some(s@) == rfc3339_text(t.secs + seconds, t.nanos as int),
{
    rfc3339_at(t.secs + seconds, t.nanos)
}

} // verus!
