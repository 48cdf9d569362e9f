//! Cron expressions and when they are due.

use std::str::FromStr;
use vstd::prelude::*;
use crate::text::opt_text;

verus! {

/// The first second that a calendar date can be given to.
pub const FIRST_INSTANT: i64 = -8_334_601_228_800;

/// The last second that a calendar date can be given to.
pub const LAST_INSTANT: i64 = 8_210_266_876_799;

/// The seconds of 365 days.
pub const YEAR_SECS: i64 = 31_536_000;

/// What is wrong with a cron expression, where something is.
pub uninterp spec fn cron_fault(expr: Seq<char>) -> Option<Seq<char>>;

/// The first time after `at` that a cron expression names, where there is one.
pub uninterp spec fn tick_after(expr: Seq<char>, at: i64) -> Option<i64>;

/// `cron::Schedule::from_str`: its error as text, where it gives one.
#[verifier::external_body]
pub(crate) fn expression_fault(expr: &str) -> (r: Option<String>)
    ensures
        opt_text(r) == cron_fault(expr@),
{
    cron::Schedule::from_str(expr).err().map(|e| e.to_string())
}

/// The first item of `cron::Schedule::after` in UTC, as a whole second. It is
/// later than the second it starts from. The last second of the calendar is left
/// out: there the search for the next one panics.
#[verifier::external_body]
pub(crate) fn next_tick(expr: &str, at: i64) -> (r: Option<i64>)
    requires
        cron_fault(expr@) is None,
        FIRST_INSTANT <= at < LAST_INSTANT,
    ensures
        r == tick_after(expr@, at),
        r is Some ==> r->0 > at,
{
    let schedule = cron::Schedule::from_str(expr).ok()?;
    let start = chrono::DateTime::<chrono::Utc>::from_timestamp(at, 0)?;
    schedule.after(&start).next().map(|t| t.timestamp())
}

/// When a schedule runs next: never where the expression is none, and now where
/// it names no further time.
pub open spec fn next_run_of(expr: Seq<char>, now: i64) -> Option<i64> {
    if cron_fault(expr) is Some {
        None
    } else if tick_after(expr, now) is Some {
        tick_after(expr, now)
    } else {
        Some(now)
    }
}

/// When a schedule runs next.
pub fn next_run(expr: &str, now: i64) -> (r: Option<i64>)
    requires
        FIRST_INSTANT <= now < LAST_INSTANT,
    ensures
        r == next_run_of(expr@, now),
        r is Some ==> r->0 >= now,
{
    if expression_fault(expr).is_some() {
        return None;
    }
    match next_tick(expr, now) {
        Some(t) => Some(t),
        None => Some(now),
    }
}

/// Since when a tick makes a schedule due: since its last run, or, where it has
/// never run, since it was last changed. A time that no date can be given to is
/// taken as a year ago and as now.
pub open spec fn run_floor(last_run_at: i64, updated_at: i64, now: i64) -> int {
    if last_run_at > 0 {
        if last_run_at <= LAST_INSTANT {
            last_run_at as int
        } else {
            now - YEAR_SECS
        }
    } else if FIRST_INSTANT <= updated_at <= LAST_INSTANT {
        updated_at as int
    } else {
        now as int
    }
}

/// Whether a tick of the schedule lies after its floor and not after now.
pub open spec fn is_due(expr: Seq<char>, last_run_at: i64, updated_at: i64, now: i64) -> bool {
    cron_fault(expr) is None && (tick_after(
        expr,
        run_floor(last_run_at, updated_at, now) as i64,
    ) matches Some(t) && t <= now)
}

/// Whether a schedule is due. It is not before its floor has passed: what has
/// just run, or has just been changed, waits for the next tick.
pub fn due(expr: &str, last_run_at: i64, updated_at: i64, now: i64) -> (r: bool)
    requires
        0 <= now < LAST_INSTANT,
        run_floor(last_run_at, updated_at, now) != LAST_INSTANT,
    ensures
        r == is_due(expr@, last_run_at, updated_at, now),
        r ==> run_floor(last_run_at, updated_at, now) < now,
{
    if expression_fault(expr).is_some() {
        return false;
    }
    let floor: i64 = if last_run_at > 0 {
        if last_run_at <= LAST_INSTANT {
            last_run_at
        } else {
            now - YEAR_SECS
        }
    } else if FIRST_INSTANT <= updated_at && updated_at <= LAST_INSTANT {
        updated_at
    } else {
        now
    };
    match next_tick(expr, floor) {
        Some(t) => t <= now,
        None => false,
    }
}

/// A schedule that has run is due from the first tick after its last run on, however
/// long ago that run was, and not before. It stays due until it is entered as run.
pub proof fn law_due_from_the_first_tick_on(
    expr: Seq<char>,
    last_run_at: i64,
    updated_at: i64,
    now: i64,
    later: i64,
    tick: i64,
)
    requires
        cron_fault(expr) is None,
        0 < last_run_at <= LAST_INSTANT,
        tick_after(expr, last_run_at) == Some(tick),
        now <= later,
    ensures
        is_due(expr, last_run_at, updated_at, now) <==> tick <= now,
        is_due(expr, last_run_at, updated_at, now) ==> is_due(expr, last_run_at, updated_at, later),
{
}

/// A schedule that has never run is due from the first tick after its last change on.
pub proof fn law_new_schedules_wait_for_a_tick(
    expr: Seq<char>,
    last_run_at: i64,
    updated_at: i64,
    now: i64,
    tick: i64,
)
    requires
        cron_fault(expr) is None,
        last_run_at <= 0,
        FIRST_INSTANT <= updated_at <= LAST_INSTANT,
        tick_after(expr, updated_at) == Some(tick),
    ensures
        is_due(expr, last_run_at, updated_at, now) <==> tick <= now,
{
}

/// A time that no date can be given to is taken as a year ago where it is the last
/// run, and as now where it is the last change.
pub proof fn law_impossible_times_are_replaced(
    expr: Seq<char>,
    last_run_at: i64,
    updated_at: i64,
    now: i64,
)
    requires
        cron_fault(expr) is None,
        0 <= now < LAST_INSTANT,
    ensures
        last_run_at > LAST_INSTANT ==> (is_due(expr, last_run_at, updated_at, now) <==> (tick_after(
            expr,
            (now - 365 * 24 * 60 * 60) as i64,
        ) matches Some(t) && now >= t)),
        last_run_at <= 0 && !(FIRST_INSTANT <= updated_at <= LAST_INSTANT) ==> (is_due(
            expr,
            last_run_at,
            updated_at,
            now,
        ) <==> (tick_after(expr, now) matches Some(t) && now >= t)),
{
}

/// What is no cron expression is never due and has no next run; nor is a schedule due
/// whose expression names no time after its last run.
pub proof fn law_no_tick_no_run(expr: Seq<char>, last_run_at: i64, updated_at: i64, now: i64)
    ensures
        cron_fault(expr) is Some ==> !is_due(expr, last_run_at, updated_at, now) && next_run_of(
            expr,
            now,
        ) is None,
        0 < last_run_at <= LAST_INSTANT && tick_after(expr, last_run_at) is None ==> !is_due(
            expr,
            last_run_at,
            updated_at,
            now,
        ),
{
}

/// The next run that is announced for a schedule that runs now is when it is next
/// due.
pub proof fn law_announced_runs_happen(expr: Seq<char>, now: i64, updated_at: i64, later: i64)
    requires
        cron_fault(expr) is None,
        0 < now < LAST_INSTANT,
        tick_after(expr, now) is Some,
    ensures
        next_run_of(expr, now) == tick_after(expr, now),
        is_due(expr, now, updated_at, later) <==> next_run_of(expr, now)->0 <= later,
{
}

} // verus!
