//! A-share trading session: weekdays 09:15–11:30 and 13:00–15:00 local time
//! (call-auction buffer included).

use vstd::prelude::*;

verus! {

/// A local wall-clock reading: weekday (0 = Monday ... 6 = Sunday) and the
/// time of day.
#[derive(Clone, Copy, Debug, PartialEq, Eq, Structural)]
pub struct LocalClock {
    pub weekday: u32,
    pub hour: u32,
    pub minute: u32,
    pub second: u32,
    pub nanosecond: u32,
}

/// Seconds since midnight of a clock reading.
pub open spec fn seconds_of_day(c: LocalClock) -> int {
    c.hour * 3600 + c.minute * 60 + c.second
}

/// The reading lies in the closed interval `[start, end]` (seconds of day,
/// both at a whole second), ordered as `chrono::NaiveTime` orders times.
pub open spec fn within(c: LocalClock, start: int, end: int) -> bool {
    let s = seconds_of_day(c);
    start <= s && (s < end || (s == end && c.nanosecond == 0))
}

/// The market is in session at this reading (09:15 = 33300 s, 11:30 =
/// 41400 s, 13:00 = 46800 s, 15:00 = 54000 s after midnight).
pub open spec fn in_session(c: LocalClock) -> bool {
    c.weekday < 5 && (within(c, 33300, 41400) || within(c, 46800, 54000))
}

fn within_exec(sod: u64, nanos: u32, start: u64, end: u64) -> (r: bool)
    ensures
        r == (start <= sod && (sod < end || (sod == end && nanos == 0))),
{
    start <= sod && (sod < end || (sod == end && nanos == 0))
}

/// Whether the A-share market is in session at the given local time:
/// weekdays 09:15–11:30 and 13:00–15:00, both ends included.
pub fn is_trading_session(local: LocalClock) -> (r: bool)
    ensures
        r == in_session(local),
{
    if local.weekday >= 5 {
        return false;
    }
    let sod: u64 = local.hour as u64 * 3600 + local.minute as u64 * 60 + local.second as u64;
    within_exec(sod, local.nanosecond, 33300, 41400) || within_exec(sod, local.nanosecond, 46800, 54000)
}

/// The market is never in session on a Saturday or a Sunday.
pub proof fn law_weekend_closed(c: LocalClock)
    requires
        c.weekday >= 5,
    ensures
        !in_session(c),
{
}

} // verus!
