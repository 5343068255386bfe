//! Instants in time, measured in whole seconds since the Unix epoch, UTC.
//!
//! The scheduler only ever needs second precision and hour/minute arithmetic,
//! so an instant is a plain `i64` of epoch seconds. The calendar conversion
//! below (civil date to epoch seconds) lets callers and tests name instants
//! the way a human would write them.

use vstd::prelude::*;

verus! {

/// Latest instant the scheduler accepts: 9999-12-31T23:59:59Z in epoch
/// seconds. Keeps all hour arithmetic far away from `i64` overflow and
/// inside the range the calendar collaborators accept.
pub const MAX_SCHEDULE_SECONDS: i64 = 253402300799;

/// Minute-of-hour of an instant, 0 to 59.
pub open spec fn minute_of(t: int) -> int {
    (t / 60) % 60
}

/// Second-of-minute of an instant, 0 to 59.
pub open spec fn second_of(t: int) -> int {
    t % 60
}

/// The first instant of the hour that `t` lies in.
pub open spec fn hour_start(t: int) -> int {
    t - (t % 3600)
}

/// The top of the hour strictly after `t`: `t` plus the seconds left in the
/// minute-of-hour arithmetic, landing exactly on `:00:00`.
pub open spec fn next_top_of_hour(t: int) -> int {
    t + (60 - minute_of(t)) * 60 - second_of(t)
}

/// The minute/second decomposition of an instant agrees with its offset in
/// the hour, so the next top of the hour is exactly one hour past the start
/// of the current one.
pub proof fn lemma_next_top_of_hour(t: int)
    requires
        0 <= t,
    ensures
        next_top_of_hour(t) == hour_start(t) + 3600,
        next_top_of_hour(t) % 3600 == 0,
        t < next_top_of_hour(t) <= t + 3600,
{
    let m = (t / 60) % 60;
    let s = t % 60;
    assert(t % 3600 == m * 60 + s) by {
        vstd::arithmetic::div_mod::lemma_breakdown(t, 60, 60);
    }
    assert((t - t % 3600) % 3600 == 0) by {
        vstd::arithmetic::div_mod::lemma_mod_multiples_vanish(t / 3600, 0, 3600);
        vstd::arithmetic::div_mod::lemma_fundamental_div_mod(t, 3600);
    }
    assert(next_top_of_hour(t) % 3600 == 0) by {
        assert(next_top_of_hour(t) == (t - t % 3600) + 3600);
        vstd::arithmetic::div_mod::lemma_mod_add_multiples_vanish((t - t % 3600), 3600);
    }
    assert(0 <= t % 3600 < 3600) by {
        vstd::arithmetic::div_mod::lemma_mod_bound(t, 3600);
    }
}

/// Computes `next_top_of_hour` on machine integers.
pub fn next_top_of_hour_at(t: i64) -> (r: i64)
    requires
        0 <= t <= MAX_SCHEDULE_SECONDS,
    ensures
        r == next_top_of_hour(t as int),
        t < r <= t + 3600,
        r % 3600 == 0,
{
    proof {
        lemma_next_top_of_hour(t as int);
    }
    let minute: i64 = (t / 60) % 60;
    let second: i64 = t % 60;
    t + (60 - minute) * 60 - second
}

/// Computes `hour_start` on machine integers.
pub fn hour_start_at(t: i64) -> (r: i64)
    requires
        0 <= t,
    ensures
        r == hour_start(t as int),
        r <= t,
        r % 3600 == 0,
{
    proof {
        vstd::arithmetic::div_mod::lemma_mod_bound(t as int, 3600);
        vstd::arithmetic::div_mod::lemma_mod_multiples_vanish(t as int / 3600, 0, 3600);
        vstd::arithmetic::div_mod::lemma_fundamental_div_mod(t as int, 3600);
    }
    t - t % 3600
}

} // verus!
