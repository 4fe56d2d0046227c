use vstd::prelude::*;

verus! {

/// A time of day as chrono's `NaiveTime` holds it: whole seconds since
/// midnight, and nanoseconds, which reach past a second only within a leap
/// second (the last second of a minute).
#[derive(Clone, Copy, Debug, PartialEq, Eq)]
pub struct TimeOfDay {
    pub secs: u32,
    pub frac: u32,
}

/// A billion nanoseconds: one second.
pub open spec fn nanos_per_sec() -> int {
    1_000_000_000
}

impl TimeOfDay {
    /// The times of day that chrono represents.
    pub open spec fn wf(&self) -> bool {
        &&& self.secs < 86400
        &&& self.frac < 2_000_000_000
        &&& self.frac >= 1_000_000_000 ==> self.secs % 60 == 59
    }
}

/// The whole seconds from `earlier` to `later`, rounded toward zero, as
/// chrono computes `(later - earlier).num_seconds()` for two `NaiveTime`s
/// (a leap second of either time counts as part of the span).
pub open spec fn seconds_since_spec(later: TimeOfDay, earlier: TimeOfDay) -> int {
    let adj: int = if later.secs > earlier.secs && earlier.frac >= nanos_per_sec() {
        1
    } else if later.secs < earlier.secs && later.frac >= nanos_per_sec() {
        -1
    } else {
        0
    };
    let frac = later.frac - earlier.frac;
    let total = later.secs - earlier.secs + adj + frac / nanos_per_sec();
    let nanos = frac % nanos_per_sec();
    if total < 0 && nanos > 0 {
        total + 1
    } else {
        total
    }
}

/// Calls chrono: `(later - earlier).num_seconds()` on the two `NaiveTime`s
/// that the arguments denote. The contract restates chrono 0.4's
/// `NaiveTime::signed_duration_since` and `TimeDelta::num_seconds`.
#[verifier::external_body]
fn seconds_since(later: TimeOfDay, earlier: TimeOfDay) -> (r: i64)
    requires
        later.wf(),
        earlier.wf(),
    ensures
        r == seconds_since_spec(later, earlier),
{
    let a = chrono::NaiveTime::from_num_seconds_from_midnight_opt(later.secs, later.frac).unwrap();
    let b = chrono::NaiveTime::from_num_seconds_from_midnight_opt(earlier.secs, earlier.frac).unwrap();
    (a - b).num_seconds()
}

/// Noon: the time at which the daily income and the market update run.
pub open spec fn noon() -> TimeOfDay {
    TimeOfDay { secs: 43200, frac: 0 }
}

/// How long to wait from `now` until the next noon.
pub open spec fn until_noon_spec(now: TimeOfDay) -> int {
    if now.secs < 43200 {
        seconds_since_spec(noon(), now)
    } else {
        86400 - now.secs + 43200
    }
}

/// The number of seconds to sleep from `now` until the next noon: before
/// noon, chrono's whole seconds up to noon; from noon on, the seconds left in
/// the day plus the twelve hours to noon. The wait is never negative, never
/// longer than a day, and from a whole second it ends exactly at noon.
pub fn seconds_until_noon(now: TimeOfDay) -> (r: i64)
    requires
        now.wf(),
    ensures
        r == until_noon_spec(now),
        0 <= r <= 86400,
        now.frac == 0 ==> (now.secs + r) % 86400 == 43200,
{
    let target = TimeOfDay { secs: 43200, frac: 0 };
    if now.secs < target.secs {
        let r = seconds_since(target, now);
        assert(0 <= r <= 86400) by {
            assert(now.frac < 2 * nanos_per_sec());
        }
        r
    } else {
        let remaining_today: i64 = 86400 - now.secs as i64;
        remaining_today + 43200
    }
}

} // verus!
