//! Cadence alignment: decides when a sampling tick is due.
//!
//! Ticks are aligned to the wall clock: one every 15 seconds, at seconds 0,
//! 15, 30 and 45 of each minute. The caller polls; the tick fires at most
//! once in any one second.

use vstd::prelude::*;

verus! {

/// Distance in seconds between two consecutive tick boundaries.
pub const CADENCE_SECONDS: i64 = 15;

/// The seconds-within-minute of the unix time `now`, in `0..60`.
pub open spec fn second_of_minute(now: int) -> int {
    now % 60
}

/// Whether the second `now` lies on a cadence boundary of its minute.
pub open spec fn on_boundary(now: int) -> bool {
    second_of_minute(now) % (CADENCE_SECONDS as int) == 0
}

/// Whether a tick is due at the second `now`, where the last tick fired at
/// the second `last_fired_at`, or none has fired yet.
pub open spec fn tick_due(now: i64, last_fired_at: Option<i64>) -> bool {
    on_boundary(now as int) && last_fired_at != Some(now)
}

/// Decides whether the tick body should run at the unix time `now`, given in
/// whole seconds. A caller that gets `false` idles briefly and asks again; a
/// caller that gets `true` records `now` as the second of its last tick.
pub fn should_tick(now: i64, last_fired_at: Option<i64>) -> (fire: bool)
    ensures
        fire == tick_due(now, last_fired_at),
{
    // The cadence divides the minute, so a second is a multiple of the
    // cadence within its minute exactly when the unix time is one.
    if now % CADENCE_SECONDS != 0 {
        return false;
    }
    match last_fired_at {
        Some(last) => last != now,
        None => true,
    }
}

/// The boundaries are the seconds 0, 15, 30 and 45 of every minute, and no
/// others.
pub proof fn lemma_boundaries_are_quarter_minutes(now: int)
    ensures
        0 <= second_of_minute(now) < 60,
        on_boundary(now) <==> (second_of_minute(now) == 0 || second_of_minute(now) == 15
            || second_of_minute(now) == 30 || second_of_minute(now) == 45),
{
}

/// On a boundary a tick is due unless the last tick fired in this very
/// second: before the first tick, and after any tick of another second,
/// however long ago. Off a boundary no tick is due, and none is due twice in
/// one second.
pub proof fn lemma_tick_fires_once_per_boundary(now: i64, last_fired_at: Option<i64>)
    ensures
        !on_boundary(now as int) ==> !tick_due(now, last_fired_at),
        on_boundary(now as int) ==> tick_due(now, None),
        on_boundary(now as int) && last_fired_at != Some(now) ==> tick_due(now, last_fired_at),
        !tick_due(now, Some(now)),
{
}

} // verus!
