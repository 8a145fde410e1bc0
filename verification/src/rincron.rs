//! The daemon loop's decisions: what one iteration does given the two signal
//! flags, and where the configuration lives for a given home directory. The
//! host runs the loop itself: it polls the flags, performs I/O, and calls
//! back into the library for every decision and state change.

use crate::text::str_eq;
use vstd::prelude::*;
use vstd::string::StringExecFns;

verus! {

/// The polling timeout in milliseconds, which doubles as the tick
/// granularity for stabilization countdowns: the same value must drive the
/// event poll and the per-tick decrement, or debounce timing drifts from
/// wall-clock expectations.
pub const WATCH_INTERVAL_MS: u64 = 100;

/// What one iteration of the daemon loop does.
#[derive(Clone, Copy, Debug, PartialEq, Eq, Structural)]
pub enum LoopAction {
    /// Stop requested: leave the loop; outstanding children keep running.
    Exit,
    /// Reload requested: clear the reload flag, re-read the configuration,
    /// and skip event processing this cycle.
    Reload,
    /// Otherwise: reap children, advance countdowns, poll and dispatch
    /// events, evaluate due checks, execute ready commands.
    Tick,
}

/// The decision of one loop iteration: a requested stop wins, then a
/// requested reload, else an ordinary tick.
pub open spec fn spec_loop_action(sigterm: bool, reload: bool) -> LoopAction {
    if sigterm {
        LoopAction::Exit
    } else if reload {
        LoopAction::Reload
    } else {
        LoopAction::Tick
    }
}

/// Decides one loop iteration from the stop and reload flags, per
/// `spec_loop_action`.
pub fn loop_action(sigterm: bool, reload: bool) -> (r: LoopAction)
    ensures
        r == spec_loop_action(sigterm, reload),
{
    if sigterm {
        LoopAction::Exit
    } else if reload {
        LoopAction::Reload
    } else {
        LoopAction::Tick
    }
}

/// The configuration root for a user: `/etc` when there is no home
/// directory or the home is `/root`, else `<home>/.config`.
pub fn get_config_root(home: Option<String>) -> (r: String)
    ensures
        home is None ==> r@ == "/etc"@,
        home matches Some(h) ==> r@ == (if h@ == "/root"@ {
            "/etc"@
        } else {
            h@ + "/.config"@
        }),
{
    match home {
        None => "/etc".to_owned(),
        Some(h) => {
            if str_eq(h.as_str(), "/root") {
                "/etc".to_owned()
            } else {
                let mut out = h;
                out.append("/.config");
                out
            }
        },
    }
}

/// The path of the single configuration file under a configuration root.
pub fn config_file_path(root: &str) -> (r: String)
    ensures
        r@ == root@ + "/rincron-mini.json"@,
{
    let mut out = root.to_owned();
    out.append("/rincron-mini.json");
    out
}

/// The pattern matching every configuration file in the configuration
/// directory under a configuration root.
pub fn config_dir_pattern(root: &str) -> (r: String)
    ensures
        r@ == root@ + "/rincron-mini/*.json"@,
{
    let mut out = root.to_owned();
    out.append("/rincron-mini/*.json");
    out
}

} // verus!
