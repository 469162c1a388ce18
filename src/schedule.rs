//! The cron evaluator: parses a frequency expression and enumerates the
//! trigger instants that remain on the current UTC day.

use crate::clock::{day_of, valid_instant, SECS_PER_DAY};
use std::str::FromStr;
use vstd::prelude::*;

verus! {

/// cron's parsed schedule, carried as an opaque value.
#[verifier::external_type_specification]
#[verifier::external_body]
pub struct ExSchedule(cron::Schedule);

/// cron's parse error, mapped to `ScheduleError` right after the call.
#[verifier::external_type_specification]
#[verifier::external_body]
pub struct ExCronError(cron::error::Error);

/// Whether the cron crate accepts `expr` as a schedule expression.
pub uninterp spec fn cron_accepts(expr: Seq<char>) -> bool;

/// Relies on cron's `Schedule::from_str`: whether an expression parses
/// depends on its text alone.
#[verifier::external_body]
fn parse_schedule(expr: &str) -> (r: Result<cron::Schedule, cron::error::Error>)
    ensures
        r is Ok <==> cron_accepts(expr@),
{
    cron::Schedule::from_str(expr)
}

/// The first instant after `after` (in whole seconds) that the cron
/// expression `expr` matches, if any.
pub uninterp spec fn cron_next(expr: Seq<char>, after: int) -> Option<int>;

/// A frequency expression that the evaluator rejects.
#[derive(Clone, Copy, Debug, PartialEq, Eq, Structural)]
pub enum ScheduleError {
    Unparsable,
}

/// A parsed frequency expression, with the text it was parsed from.
pub struct Frequency {
    source: String,
    schedule: cron::Schedule,
}

impl Frequency {
    /// The text the schedule was parsed from.
    pub closed spec fn expr(&self) -> Seq<char> {
        self.source@
    }
}

/// Relies on cron's `Schedule::after` iterator: its first item is the
/// earliest instant matching the parsed expression that lies at least one
/// second after the given one; it depends on the expression and the
/// instant alone.
#[verifier::external_body]
fn next_trigger(f: &Frequency, after: i64) -> (r: Option<i64>)
    requires
        valid_instant(after as int),
    ensures
        r is Some <==> cron_next(f.expr(), after as int) is Some,
        r matches Some(t) ==> cron_next(f.expr(), after as int) == Some(t as int) && after < t,
{
    let from = chrono::DateTime::from_timestamp(after, 0).unwrap();
    f.schedule.after(&from).next().map(|d| d.timestamp())
}

/// The first instant of the UTC day after the one of `now`.
pub open spec fn day_end(now: int) -> int {
    (day_of(now) + 1) * 86400
}

/// The triggers of `expr` after `cur` and before `end`, in order: each one
/// is the next trigger after the previous.
pub open spec fn day_triggers(expr: Seq<char>, cur: int, end: int) -> Seq<int>
    decreases end - cur,
{
    if cur >= end {
        Seq::empty()
    } else {
        match cron_next(expr, cur) {
            Some(t) => if cur < t && t < end {
                seq![t] + day_triggers(expr, t, end)
            } else {
                Seq::empty()
            },
            None => Seq::empty(),
        }
    }
}

/// The triggers of `expr` that remain on the UTC day of `now`.
pub open spec fn todays_trigger_list(expr: Seq<char>, now: int) -> Seq<int> {
    day_triggers(expr, now, day_end(now))
}

/// The instants as integers.
pub open spec fn instants(ts: Seq<i64>) -> Seq<int> {
    ts.map_values(|t: i64| t as int)
}

/// The instants of `ts` are strictly increasing, all after `now` and on
/// the UTC day of `now`.
pub open spec fn upcoming_today(ts: Seq<i64>, now: int) -> bool {
    &&& forall|k: int| 0 <= k < ts.len() ==> now < #[trigger] ts[k]
    &&& forall|k: int| 0 <= k < ts.len() ==> day_of(#[trigger] ts[k] as int) == day_of(now)
    &&& forall|j: int, k: int| 0 <= j < k < ts.len() ==> ts[j] < ts[k]
}

impl Frequency {
    /// Parses a seven-field (or six-field) cron expression.
    pub fn parse(expr: &str) -> (r: Result<Frequency, ScheduleError>)
        ensures
            r is Ok <==> cron_accepts(expr@),
            r matches Ok(f) ==> f.expr() == expr@,
            r matches Err(e) ==> e == ScheduleError::Unparsable,
    {
        match parse_schedule(expr) {
            Ok(schedule) => Ok(Frequency { source: expr.to_owned(), schedule }),
            Err(_) => Err(ScheduleError::Unparsable),
        }
    }

    /// The trigger instants strictly after `now` that fall on the UTC day
    /// of `now`, in increasing order.
    pub fn upcoming_on_day(&self, now: i64) -> (r: Vec<i64>)
        requires
            valid_instant(now as int),
        ensures
            instants(r@) == todays_trigger_list(self.expr(), now as int),
            upcoming_today(r@, now as int),
    {
        let end: i64 = (now / SECS_PER_DAY + 1) * SECS_PER_DAY;
        let ghost e = self.expr();
        let mut out: Vec<i64> = Vec::new();
        let mut cur: i64 = now;
        while cur < end
            invariant
                valid_instant(now as int),
                e == self.expr(),
                end == day_end(now as int),
                now <= cur < end,
                upcoming_today(out@, now as int),
                out@.len() > 0 ==> out@.last() == cur,
                instants(out@) + day_triggers(e, cur as int, end as int)
                    == todays_trigger_list(e, now as int),
            ensures
                instants(out@) == todays_trigger_list(e, now as int),
                upcoming_today(out@, now as int),
            decreases end - cur,
        {
            let ghost before = out@;
            match next_trigger(self, cur) {
                Some(t) => {
                    if t < end {
                        out.push(t);
                        proof {
                            assert(instants(out@) =~= instants(before).push(t as int));
                            assert(instants(out@) + day_triggers(e, t as int, end as int)
                                =~= instants(before) + day_triggers(e, cur as int, end as int));
                        }
                        cur = t;
                    } else {
                        assert(day_triggers(e, cur as int, end as int) =~= Seq::<int>::empty());
                        assert(instants(out@) + Seq::<int>::empty() =~= instants(out@));
                        break;
                    }
                },
                None => {
                    assert(day_triggers(e, cur as int, end as int) =~= Seq::<int>::empty());
                    assert(instants(out@) + Seq::<int>::empty() =~= instants(out@));
                    break;
                },
            }
        }
        out
    }
}

/// Parses `expr` and returns the triggers that remain on the day of `now`.
pub fn todays_triggers(expr: &str, now: i64) -> (r: Result<Vec<i64>, ScheduleError>)
    requires
        valid_instant(now as int),
    ensures
        r is Ok <==> cron_accepts(expr@),
        r matches Ok(ts) ==> instants(ts@) == todays_trigger_list(expr@, now as int),
        r matches Ok(ts) ==> upcoming_today(ts@, now as int),
        r matches Err(e) ==> e == ScheduleError::Unparsable,
{
    match Frequency::parse(expr) {
        Ok(f) => Ok(f.upcoming_on_day(now)),
        Err(e) => Err(e),
    }
}

} // verus!
