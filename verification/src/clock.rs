//! The time query that a conductor offers to the code it hosts.

use vstd::prelude::*;

verus! {

/// A time as the duration since the Unix epoch: whole seconds, and the
/// nanoseconds beyond them.
#[derive(Clone, Copy, Debug, PartialEq, Eq, Structural)]
pub struct SysTime {
    pub seconds: u64,
    pub nanos: u32,
}

impl SysTime {
    /// The duration in nanoseconds.
    pub open spec fn total_nanos(&self) -> int {
        self.seconds * 1_000_000_000 + self.nanos
    }

    /// The whole microseconds of the duration: what is left of it when the
    /// nanoseconds below a microsecond are cut off.
    pub open spec fn whole_micros(&self) -> int {
        self.seconds * 1_000_000 + self.nanos / 1000
    }

    /// The duration cut down to whole microseconds, for a clock that counts
    /// in signed 64-bit microseconds. A duration beyond what such a clock
    /// can hold gives its last value.
    pub fn micros_cut_and_capped(&self) -> (micros: i64)
        ensures
            self.whole_micros() <= i64::MAX ==> micros == self.whole_micros(),
            self.whole_micros() > i64::MAX ==> micros == i64::MAX,
    {
        let limit: u64 = 9_223_372_036_854;
        if self.seconds > limit {
            return i64::MAX;
        }
        let whole: u64 = self.seconds * 1_000_000;
        let part: u64 = (self.nanos / 1000) as u64;
        let total: u64 = whole + part;
        if total > 9_223_372_036_854_775_807u64 {
            i64::MAX
        } else {
            total as i64
        }
    }
}

/// Times are apart by exactly as much as the clock readings they were made
/// from, to the nanosecond, and the later reading gives the later time.
pub proof fn law_sys_time_is_exact(first: SysTime, second: SysTime)
    requires
        first.nanos < 1_000_000_000,
        second.nanos < 1_000_000_000,
    ensures
        second.total_nanos() - first.total_nanos() == (second.seconds - first.seconds) * 1_000_000_000
            + (second.nanos - first.nanos),
        first.total_nanos() <= second.total_nanos() <==> first.seconds < second.seconds || (first.seconds
            == second.seconds && first.nanos <= second.nanos),
        first.total_nanos() == second.total_nanos() <==> first == second,
{
}

/// The system time, from a clock reading of whole seconds and nanoseconds
/// since the Unix epoch: the reading as it came, with nothing rounded. A
/// reading before the epoch does not exist in this form.
pub fn sys_time(seconds: u64, nanos: u32) -> (time: SysTime)
    ensures
        time.seconds == seconds,
        time.nanos == nanos,
        time.total_nanos() == seconds * 1_000_000_000 + nanos,
{
    SysTime { seconds, nanos }
}

} // verus!
