//! What the watchdog of a round does each time it wakes up.
use vstd::prelude::*;

verus! {

/// Milliseconds between two displays of the hash rate.
pub const STATS_INTERVAL_MS: u128 = 2_000;

/// What to do on a wake-up.
#[derive(Clone, Copy, Debug, PartialEq, Eq, Structural)]
pub enum WatchdogAction {
    /// The search is over.
    Exit,
    /// The user wants to stop: end the search and exit.
    StopSearch,
    /// Show the attempts since the last display.
    Display { attempts: u64 },
    /// Sleep on.
    Sleep,
}

/// The action for a wake-up, from whether the search is over, whether the user
/// wants to stop, the time since the last display, the attempts so far and
/// those that the last display counted.
pub fn watch(
    search_over: bool,
    shutdown: bool,
    since_display_ms: u128,
    total_attempts: u64,
    displayed_attempts: u64,
) -> (r: WatchdogAction)
    ensures
        r == WatchdogAction::Exit <==> search_over,
        r == WatchdogAction::StopSearch <==> !search_over && shutdown,
        r == WatchdogAction::Sleep <==> !search_over && !shutdown && since_display_ms
            < STATS_INTERVAL_MS,
        r is Display <==> !search_over && !shutdown && since_display_ms >= 2_000,
        r matches WatchdogAction::Display { attempts } ==> attempts == (if total_attempts
            >= displayed_attempts {
            total_attempts - displayed_attempts
        } else {
            0
        }),
{
    if search_over {
        WatchdogAction::Exit
    } else if shutdown {
        WatchdogAction::StopSearch
    } else if since_display_ms >= STATS_INTERVAL_MS {
        WatchdogAction::Display { attempts: total_attempts.saturating_sub(displayed_attempts) }
    } else {
        WatchdogAction::Sleep
    }
}

} // verus!
