//! Cron expressions: parsing and fire-time enumeration, through the `cron`
//! crate.
//!
//! The dialect is second-precision seven-field cron (`sec min hour dom mon
//! dow year`) with the `@hourly`-style aliases. What a given expression
//! fires at is named, not spelled out: `cron_fires_in` stands for the fire
//! times that the crate enumerates.

use vstd::prelude::*;

use std::str::FromStr;

verus! {

#[verifier::external_type_specification]
#[verifier::external_body]
pub struct ExSchedule(cron::Schedule);

/// Whether a cron expression is grammatical. A function of the expression
/// alone.
pub uninterp spec fn cron_parses(expr: Seq<char>) -> bool;

/// The source expression a parsed schedule was built from and carries.
pub uninterp spec fn schedule_source(s: cron::Schedule) -> Seq<char>;

/// The fire times (epoch seconds, UTC) of a cron expression in the window
/// `(start, end]`, in ascending order. A function of the expression and
/// the window alone.
pub uninterp spec fn cron_fires_in(expr: Seq<char>, start: int, end: int) -> Seq<int>;

/// Relies on cron::Schedule::from_str: whether an expression parses
/// depends on the expression alone, and the schedule keeps its source
/// expression.
#[verifier::external_body]
pub fn parse_schedule(expr: &str) -> (r: Option<cron::Schedule>)
    ensures
        r is Some <==> cron_parses(expr@),
        r matches Option::Some(s) ==> schedule_source(s) == expr@,
{
    cron::Schedule::from_str(expr).ok()
}

/// Relies on cron::Schedule::after over Utc: the fire times of a schedule
/// are a function of its source expression and the start instant alone,
/// yielded in ascending order, each strictly after the start. The iterator
/// is unbounded, so only the times up to `end` are taken from it.
#[verifier::external_body]
pub fn fire_times_through(s: &cron::Schedule, start: i64, end: i64) -> (r: Vec<i64>)
    requires
        0 <= start <= end <= crate::time::MAX_SCHEDULE_SECONDS,
    ensures
        r@.map_values(|t: i64| t as int) == cron_fires_in(
            schedule_source(*s),
            start as int,
            end as int,
        ),
        forall|i: int| 0 <= i < r@.len() ==> start < #[trigger] r@[i] <= end,
        forall|i: int, j: int| 0 <= i < j < r@.len() ==> r@[i] < r@[j],
{
    let from = chrono::DateTime::<chrono::Utc>::from_timestamp(start, 0).unwrap();
    s.after(&from).map(|d| d.timestamp()).take_while(|t| *t <= end).collect()
}

} // verus!
