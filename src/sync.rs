use crate::client::{classified, range_decodes, range_entry_of, range_items_of, steps_of, FitbitClient};
use crate::day::Day;
use crate::error::FitbitError;
use crate::json::Json;
use crate::metrics::{all_timed_upserted, live_fits, live_upserted, FitbitMetrics};
use vstd::prelude::*;

verus! {

/// A day counted from the common era, with its step count, as a day.
pub open spec fn dated(p: (i32, u64)) -> (Day, u64) {
    (Day { days_from_ce: p.0 }, p.1)
}

/// The days and step counts of a well-formed range payload, in order.
pub open spec fn range_days_of(v: Json) -> Seq<(Day, u64)> {
    let items = range_items_of(v)->0;
    Seq::new(items.len(), |i: int| dated(range_entry_of(items[i])->0))
}

/// Records today's step count from the result of its read, as the live
/// point of the gauge. Returns whether the point was recorded: it is not
/// where the gauge holds past days, which are then left as they are. On any
/// error the gauge is left as it was.
pub fn update_current_metrics(metrics: &mut FitbitMetrics, response: Result<Json, FitbitError>) -> (r: Result<bool, FitbitError>)
    requires
        old(metrics).wf(),
    ensures
        final(metrics).wf(),
        match classified(response) {
            Ok(v) => match steps_of(v) {
                Some(n) => r == Ok::<bool, FitbitError>(live_fits(old(metrics).points@))
                    && final(metrics).points@ == live_upserted(old(metrics).points@, n),
                None => r matches Err(FitbitError::InvalidData) && final(metrics).points@ == old(metrics).points@,
            },
            Err(e) => r == Err::<bool, FitbitError>(e) && final(metrics).points@ == old(metrics).points@,
        },
{
    match FitbitClient::fetch_steps(response) {
        Ok(n) => Ok(metrics.upsert_live(n)),
        Err(e) => Err(e),
    }
}

/// Records the daily step counts from the result of a range read, each as
/// the point of its day. The gauge changes only once the whole payload has
/// been read; on any error it is left as it was.
pub fn update_historical_metrics(metrics: &mut FitbitMetrics, response: Result<Json, FitbitError>) -> (r: Result<(), FitbitError>)
    requires
        old(metrics).wf(),
    ensures
        final(metrics).wf(),
        match classified(response) {
            Ok(v) => if range_decodes(v) {
                r is Ok && final(metrics).points@ == all_timed_upserted(old(metrics).points@, range_days_of(v))
            } else {
                r matches Err(FitbitError::InvalidData) && final(metrics).points@ == old(metrics).points@
            },
            Err(e) => r == Err::<(), FitbitError>(e) && final(metrics).points@ == old(metrics).points@,
        },
{
    let ghost given = response;
    let days = match FitbitClient::fetch_steps_range(response) {
        Ok(days) => days,
        Err(e) => return Err(e),
    };
    proof {
        let v = classified(given)->Ok_0;
        assert(days@ =~= range_days_of(v));
    }
    let mut k: usize = 0;
    while k < days.len()
        invariant
            0 <= k <= days@.len(),
            metrics.wf(),
            metrics.points@ == all_timed_upserted(old(metrics).points@, days@.take(k as int)),
        decreases days@.len() - k,
    {
        let (day, n) = days[k];
        metrics.upsert_timed(day, n);
        assert(days@.take(k + 1).drop_last() =~= days@.take(k as int));
        k = k + 1;
    }
    assert(days@.take(k as int) =~= days@);
    Ok(())
}

/// The days that a historical read covers: from `start`, by default `span`
/// days before `yesterday`, to `end`, by default `yesterday`. Nothing where
/// the default start lies before the first day that can be counted.
pub fn history_window(yesterday: Day, span: u16, start: Option<Day>, end: Option<Day>) -> (r: Option<(Day, Day)>)
    ensures
        match start {
            Some(s) => r == Some((s, end.unwrap_or(yesterday))),
            None => if yesterday.days_from_ce - span >= i32::MIN {
                r == Some((Day { days_from_ce: (yesterday.days_from_ce - span) as i32 }, end.unwrap_or(yesterday)))
            } else {
                r is None
            },
        },
{
    let last = match end {
        Some(e) => e,
        None => yesterday,
    };
    let first = match start {
        Some(s) => s,
        None => match yesterday.days_before(span) {
            Some(s) => s,
            None => return None,
        },
    };
    Some((first, last))
}

/// What an inbound request asks for.
#[derive(Clone, Copy, Debug, PartialEq, Eq, Structural)]
pub enum Route {
    /// `GET /metrics`: refresh today's count and render the gauge.
    Metrics,
    /// `GET /history`: load past days and render the gauge.
    History,
    /// Anything else.
    NotFound,
}

/// The route of a request with the given method and path.
pub fn route(is_get: bool, path: &str) -> (r: Route)
    ensures
        r == (if is_get && path@ == "/metrics"@ {
            Route::Metrics
        } else if is_get && path@ == "/history"@ {
            Route::History
        } else {
            Route::NotFound
        }),
{
    let p = String::from_str(path);
    if is_get && p == String::from_str("/metrics") {
        Route::Metrics
    } else if is_get && p == String::from_str("/history") {
        Route::History
    } else {
        Route::NotFound
    }
}

/// Where the background renewal stands.
#[derive(Clone, Copy, Debug, PartialEq, Eq, Structural)]
pub enum RenewalState {
    /// Waiting for the next tick.
    Idle,
    /// One renewal attempt is in flight.
    Renewing,
}

/// What an ended renewal attempt calls for.
#[derive(Clone, Copy, Debug, PartialEq, Eq, Structural)]
pub enum RenewalReport {
    /// The credential is current: nothing to report.
    Renewed,
    /// The renewal secret was refused: report it; stale credentials are
    /// served until an operator supplies a fresh one.
    GrantRefused,
    /// The attempt failed otherwise: log it; the next tick tries again.
    RetryNextTick,
}

/// The background renewal task's state: at most one attempt at a time.
#[derive(Debug)]
pub struct RenewalScheduler {
    pub state: RenewalState,
}

impl RenewalScheduler {
    pub fn new() -> (r: Self)
        ensures
            r.state == RenewalState::Idle,
    {
        RenewalScheduler { state: RenewalState::Idle }
    }

    /// The timer fired. Starts an attempt, and returns `true`, only where
    /// none is in flight.
    pub fn on_tick(&mut self) -> (r: bool)
        ensures
            r == (old(self).state == RenewalState::Idle),
            final(self).state == RenewalState::Renewing,
    {
        let start = self.state == RenewalState::Idle;
        self.state = RenewalState::Renewing;
        start
    }

    /// The attempt in flight ended with `result`; the task is idle again.
    pub fn on_resolved(&mut self, result: &Result<(), FitbitError>) -> (r: RenewalReport)
        ensures
            final(self).state == RenewalState::Idle,
            r == match result {
                Ok(_) => RenewalReport::Renewed,
                Err(FitbitError::InvalidGrant) => RenewalReport::GrantRefused,
                Err(_) => RenewalReport::RetryNextTick,
            },
    {
        self.state = RenewalState::Idle;
        match result {
            Ok(_) => RenewalReport::Renewed,
            Err(FitbitError::InvalidGrant) => RenewalReport::GrantRefused,
            Err(_) => RenewalReport::RetryNextTick,
        }
    }
}

} // verus!
