//! The one-time playoff backfill: when a league's postseason is on, its
//! earlier playoff days are fetched once, going back a day at a time, so
//! the bracket has every series. It looks back at most
//! [`PLAYOFF_LOOKBACK_DAYS`] and stops after [`PLAYOFF_GAP_DAYS`] days in a
//! row without playoff games, when the provider has no such history, or on
//! an error (the backfill is then tried again later). The program fetches
//! each day, records its games and waits between days; this module decides
//! what comes next.

use vstd::prelude::*;

verus! {

/// How many days back the backfill looks at most.
pub const PLAYOFF_LOOKBACK_DAYS: u64 = 45;

/// How many days in a row without playoff games end the backfill.
pub const PLAYOFF_GAP_DAYS: u32 = 5;

/// Where a backfill stands: the day it is looking at (days before today),
/// how many days in a row had no playoff games, and how many playoff games
/// it has found.
#[derive(Clone, Copy, Debug, PartialEq, Eq, Structural)]
pub struct BackfillState {
    pub back: u64,
    pub empty: u32,
    pub found: usize,
}

/// What fetching one day gave.
#[derive(Clone, Copy, Debug, PartialEq, Eq, Structural)]
pub enum DayOutcome {
    /// The day's scoreboard, with this many playoff games (games in a
    /// series); the caller records them.
    Games(usize),
    /// The provider keeps no scoreboards of past days.
    Unsupported,
    /// Any other error.
    Failed,
    /// The calendar has no such day.
    NoDay,
}

/// What to do next.
#[derive(Clone, Copy, Debug, PartialEq, Eq, Structural)]
pub enum BackfillAction {
    /// Wait a second, then fetch the day this many days before today.
    Next(u64),
    /// Wait a second, then finish: every day in reach was looked at.
    Finish,
    /// Finish now.
    Stop,
    /// Finish now, and mark the league's backfill to be tried again later.
    Retry,
}

/// A state that a backfill can be in.
pub open spec fn valid(s: BackfillState) -> bool {
    1 <= s.back <= PLAYOFF_LOOKBACK_DAYS && s.empty < PLAYOFF_GAP_DAYS
}

/// Where a backfill starts: yesterday, nothing found yet.
pub open spec fn start_state() -> BackfillState {
    BackfillState { back: 1, empty: 0, found: 0 }
}

/// After a day that was looked at: the next day back while there is one in
/// reach, else the end.
pub open spec fn after_day(s: BackfillState) -> (BackfillState, BackfillAction) {
    if s.back < PLAYOFF_LOOKBACK_DAYS {
        (BackfillState { back: (s.back + 1) as u64, ..s }, BackfillAction::Next((s.back + 1) as u64))
    } else {
        (s, BackfillAction::Finish)
    }
}

/// The backfill's next state and action once day `s.back` gave `day`.
pub open spec fn next(s: BackfillState, day: DayOutcome) -> (BackfillState, BackfillAction) {
    match day {
        DayOutcome::NoDay => (s, BackfillAction::Stop),
        DayOutcome::Unsupported => (s, BackfillAction::Stop),
        DayOutcome::Failed => (s, BackfillAction::Retry),
        DayOutcome::Games(n) => if n == 0 {
            if s.empty + 1 >= PLAYOFF_GAP_DAYS {
                (BackfillState { empty: (s.empty + 1) as u32, ..s }, BackfillAction::Stop)
            } else {
                after_day(BackfillState { empty: (s.empty + 1) as u32, ..s })
            }
        } else {
            after_day(BackfillState { empty: 0, found: (s.found + n) as usize, ..s })
        },
    }
}

/// Starts a backfill: fetch yesterday first.
pub fn backfill_start() -> (r: (BackfillState, BackfillAction))
    ensures
        r == (start_state(), BackfillAction::Next(1)),
        valid(r.0),
{
    (BackfillState { back: 1, empty: 0, found: 0 }, BackfillAction::Next(1))
}

/// The next state and action once the day `s.back` days before today gave
/// `day`. A state that goes on (`Next`) is again one a backfill can be in.
pub fn backfill_step(s: BackfillState, day: DayOutcome) -> (r: (BackfillState, BackfillAction))
    requires
        valid(s),
        day matches DayOutcome::Games(n) ==> s.found + n <= usize::MAX,
    ensures
        r == next(s, day),
        r.1 matches BackfillAction::Next(b) ==> valid(r.0) && r.0.back == b,
{
    match day {
        DayOutcome::NoDay => (s, BackfillAction::Stop),
        DayOutcome::Unsupported => (s, BackfillAction::Stop),
        DayOutcome::Failed => (s, BackfillAction::Retry),
        DayOutcome::Games(n) => {
            let t = if n == 0 {
                BackfillState { empty: s.empty + 1, ..s }
            } else {
                BackfillState { empty: 0, found: s.found + n, ..s }
            };
            if n == 0 && t.empty >= PLAYOFF_GAP_DAYS {
                (t, BackfillAction::Stop)
            } else if t.back < PLAYOFF_LOOKBACK_DAYS {
                (BackfillState { back: t.back + 1, ..t }, BackfillAction::Next(t.back + 1))
            } else {
                (t, BackfillAction::Finish)
            }
        },
    }
}

/// A backfill ends: each step either moves one day further back, within
/// [`PLAYOFF_LOOKBACK_DAYS`], or finishes; so no backfill looks at more
/// than that many days.
pub proof fn law_backfill_ends(s: BackfillState, day: DayOutcome)
    requires
        valid(s),
    ensures
        next(s, day).1 matches BackfillAction::Next(b) ==> b == s.back + 1 && b <= PLAYOFF_LOOKBACK_DAYS,
        s.back == PLAYOFF_LOOKBACK_DAYS ==> !(next(s, day).1 is Next),
{
}

/// Five days in a row without playoff games stop the backfill, and a day
/// with playoff games starts the count again.
pub proof fn law_gap_stops(s: BackfillState, n: usize)
    requires
        valid(s),
        s.found + n <= usize::MAX,
    ensures
        n == 0 && s.empty + 1 == PLAYOFF_GAP_DAYS ==> next(s, DayOutcome::Games(n)).1 == BackfillAction::Stop,
        n > 0 ==> next(s, DayOutcome::Games(n)).0.empty == 0 && next(s, DayOutcome::Games(n)).0.found == s.found + n,
{
}

} // verus!
