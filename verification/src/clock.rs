//! Points in time, and the span after which a list is due for a refresh.

use vstd::prelude::*;

verus! {

/// A point in time: whole seconds since the start of 1970, and the
/// nanoseconds that have passed of the second after.
#[derive(Clone, Copy, Debug, PartialEq, Eq, Structural)]
pub struct Timestamp {
    pub sec: i64,
    pub nsec: i32,
}

/// The largest number of hours that `time::Duration` holds.
pub const MAX_HOURS: i64 = 2_562_047_788_015;

/// Whether `now` lies more than `seconds` after `then`.
pub open spec fn is_after(now: Timestamp, then: Timestamp, seconds: int) -> bool {
    now.sec > then.sec + seconds || (now.sec == then.sec + seconds && now.nsec > then.nsec)
}

/// Decides [`is_after`].
pub fn after(now: Timestamp, then: Timestamp, seconds: i64) -> (late: bool)
    ensures
        late == is_after(now, then, seconds as int),
{
    if seconds >= 0 && then.sec > i64::MAX - seconds {
        false
    } else if seconds < 0 && then.sec < i64::MIN - seconds {
        true
    } else {
        let due: i64 = then.sec + seconds;
        now.sec > due || (now.sec == due && now.nsec > then.nsec)
    }
}

/// Reads the clock with `time::now` and hands back the point in time that
/// the answer names, as `Tm::to_timespec` gives it. Nothing is known of it
/// before the call.
#[verifier::external_body]
pub(crate) fn current_time() -> (now: Timestamp) {
    let spec = time::now().to_timespec();
    Timestamp { sec: spec.sec, nsec: spec.nsec }
}

/// The whole seconds of `time::Duration::hours(hours)`, read with
/// `Duration::num_seconds`: 3600 for each hour. The crate panics on a span
/// of more than `i64::MAX` milliseconds, which [`MAX_HOURS`] keeps out.
#[verifier::external_body]
pub(crate) fn hours_in_seconds(hours: i64) -> (seconds: i64)
    requires
        -MAX_HOURS <= hours <= MAX_HOURS,
    ensures
        seconds == hours * 3600,
{
    time::Duration::hours(hours).num_seconds()
}

} // verus!
