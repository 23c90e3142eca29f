use vstd::prelude::*;

verus! {

/// The latest second that the system clock can be read at: the last second
/// of the last day whose number still fits 32 bits, counted from the start
/// of the calendar, where the Unix epoch is day 719 163. That is
/// (2^31 - 1 - 719 163) days and 86 399 seconds after the epoch.
pub const LATEST_READING: i64 = 185_480_451_503_999;

/// Calls `Utc::now` of the `chrono` crate and takes its `timestamp`: the
/// system clock in whole seconds since the Unix epoch.
///
/// Two things are claimed of the value. It is never negative: `Utc::now`
/// measures the time that has passed since the epoch. And it is no later
/// than [`LATEST_READING`]: `Utc::now` builds its value with
/// `DateTime::from_timestamp`, which takes no second whose day, counted from
/// the start of the calendar, does not fit 32 bits.
#[verifier::external_body]
pub(crate) fn system_seconds() -> (now: i64)
    ensures
        0 <= now <= LATEST_READING,
{
    chrono::Utc::now().timestamp()
}

} // verus!
