use vstd::prelude::*;

verus! {

/// CPU time in microseconds, split into user and system time.
///
/// Read from the kernel it is the cumulative time of all terminated
/// children; inside a `RunMetrics` it is the share of one run.
#[derive(Clone, Copy, Debug, PartialEq, Eq, Structural)]
pub struct RUsage {
    pub user_tv_usec: i64,
    pub system_tv_usec: i64,
}

/// What one run of the command cost.
#[derive(Clone, Copy, Debug, PartialEq, Eq, Structural)]
pub struct RunMetrics {
    /// Elapsed real time of the run, in microseconds.
    pub wall_clock_usec: i64,
    /// CPU time of the run and of its subprocesses.
    pub rusage: RUsage,
}

pub const USEC_PER_SEC: i64 = 1_000_000;

/// Microseconds in a time value of whole seconds and microseconds.
pub open spec fn timeval_usec(sec: i64, usec: i64) -> int {
    sec * USEC_PER_SEC + usec
}

/// Whether an integer fits an `i64`.
pub open spec fn fits_i64(x: int) -> bool {
    i64::MIN <= x <= i64::MAX
}

/// A time value as microseconds, or `None` where that does not fit an `i64`.
fn timeval_to_usec(sec: i64, usec: i64) -> (r: Option<i64>)
    ensures
        r is Some <==> fits_i64(timeval_usec(sec, usec)),
        r matches Some(x) ==> x == timeval_usec(sec, usec),
{
    let s: i128 = sec as i128;
    assert(-0x8000_0000_0000_0000_0000_0000 < s * 1_000_000 < 0x8000_0000_0000_0000_0000_0000)
        by (nonlinear_arith)
        requires
            i64::MIN <= s <= i64::MAX,
    ;
    let wide: i128 = s * (USEC_PER_SEC as i128) + (usec as i128);
    if wide < i64::MIN as i128 || wide > i64::MAX as i128 {
        None
    } else {
        Some(wide as i64)
    }
}

impl RUsage {
    /// The usage of the two time values that the kernel reports, user time
    /// first; `None` where either does not fit an `i64` of microseconds.
    pub fn from_timevals(user_sec: i64, user_usec: i64, sys_sec: i64, sys_usec: i64) -> (r:
        Option<RUsage>)
        ensures
            r is Some <==> fits_i64(timeval_usec(user_sec, user_usec)) && fits_i64(
                timeval_usec(sys_sec, sys_usec),
            ),
            r matches Some(u) ==> u.user_tv_usec == timeval_usec(user_sec, user_usec)
                && u.system_tv_usec == timeval_usec(sys_sec, sys_usec),
    {
        let user = timeval_to_usec(user_sec, user_usec);
        let system = timeval_to_usec(sys_sec, sys_usec);
        match (user, system) {
            (Some(u), Some(s)) => Some(RUsage { user_tv_usec: u, system_tv_usec: s }),
            _ => None,
        }
    }
}

/// The usage between two cumulative snapshots, or `None` where a counter
/// went back or the difference does not fit an `i64`.
pub open spec fn delta_of(before: RUsage, after: RUsage) -> Option<RUsage> {
    let du = after.user_tv_usec - before.user_tv_usec;
    let ds = after.system_tv_usec - before.system_tv_usec;
    if 0 <= du <= i64::MAX && 0 <= ds <= i64::MAX {
        Some(RUsage { user_tv_usec: du as i64, system_tv_usec: ds as i64 })
    } else {
        None
    }
}

/// The CPU time consumed between two cumulative snapshots, taken in that
/// order; `None` where a counter went back, which the kernel never lets happen.
pub fn usage_delta(before: &RUsage, after: &RUsage) -> (r: Option<RUsage>)
    ensures
        r == delta_of(*before, *after),
{
    let du: i128 = after.user_tv_usec as i128 - before.user_tv_usec as i128;
    let ds: i128 = after.system_tv_usec as i128 - before.system_tv_usec as i128;
    if 0 <= du && du <= i64::MAX as i128 && 0 <= ds && ds <= i64::MAX as i128 {
        Some(RUsage { user_tv_usec: du as i64, system_tv_usec: ds as i64 })
    } else {
        None
    }
}

/// Two snapshots with no child terminated in between are equal, and the
/// usage between them is zero.
pub proof fn lemma_delta_of_same_snapshot(u: RUsage)
    ensures
        delta_of(u, u) == Some(RUsage { user_tv_usec: 0, system_tv_usec: 0 }),
{
}

} // verus!
