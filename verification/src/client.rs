//! The client's engine: when it runs, which log it follows, where it pushes.
use vstd::prelude::*;

use crate::config;
use crate::config::{Config, LogWatchMode};
use crate::text;

verus! {

/// What the engine is started with.
pub struct EnginePlan {
    /// The log that is followed.
    pub log_path: String,
    /// The player whose log it is.
    pub player_name: String,
    /// The address and the token for the remote push; `None` where events are
    /// processed locally only.
    pub remote_target: Option<(String, String)>,
}

/// The address and the token for the remote push: none unless the user has it
/// switched on and all that it needs is there.
pub open spec fn remote_target_of<F>(c: Config<F>) -> Option<(Seq<char>, Seq<char>)> {
    if c.remote_logging_enabled && c.log_profiles@.len() > 0 && c.spec_ingest_url() is Some
        && c.stream_token is Some {
        Some((c.spec_ingest_url()->0, c.stream_token->0@))
    } else {
        None
    }
}

/// The texts of a pair.
pub open spec fn pair_view(p: Option<(String, String)>) -> Option<(Seq<char>, Seq<char>)> {
    match p {
        Some((a, b)) => Some((a@, b@)),
        None => None,
    }
}

/// What the engine is started with; nothing where no log is configured. `times`
/// holds when each profile's file was written last, where that is known.
pub fn plan_engine<F>(cfg: &Config<F>, times: &Vec<Option<i128>>) -> (r: Option<EnginePlan>)
    requires
        times@.len() == cfg.log_profiles@.len(),
    ensures
        r is None <==> cfg.log_profiles@.len() == 0,
        r is Some ==> pair_view(r->0.remote_target) == remote_target_of(*cfg),
        r is Some ==> exists|active: Option<usize>|
            {
                &&& #[trigger] config::is_active(
                    cfg.log_profiles@,
                    cfg.log_watch_mode,
                    times@,
                    active,
                )
                &&& active is Some
                &&& ({
                    let p = cfg.log_profiles@[active->0 as int];
                    &&& r->0.log_path@ == p.path@
                    &&& config::is_effective(
                        text::opt_view(p.player),
                        p.path@,
                        r->0.player_name@,
                        |s: Option<Seq<char>>| config::player_in(s),
                    )
                })
            },
{
    let at: usize = match cfg.active_index(times) {
        Some(i) => i,
        None => {
            return None;
        },
    };
    let profile = &cfg.log_profiles[at];
    let remote_target: Option<(String, String)> = if cfg.remote_ready() {
        match (cfg.ingest_ws_url(), &cfg.stream_token) {
            (Some(url), Some(token)) => Some((url, token.clone())),
            _ => None,
        }
    } else {
        None
    };
    Some(
        EnginePlan {
            log_path: profile.path.clone(),
            player_name: profile.effective_player(),
            remote_target,
        },
    )
}

/// What the engine's monitor does next.
#[derive(Clone, Copy, PartialEq, Eq, Structural)]
pub enum MonitorStep {
    /// End.
    Stop,
    /// Look again after this many milliseconds.
    Wait(u64),
    /// Run the engine until it stops.
    Run,
}

/// What the monitor does before the engine runs: the program's end comes first,
/// then the user's switch, then whether there is a log to follow.
pub fn monitor_step(quit: bool, logging_enabled: bool, local_ready: bool) -> (r: MonitorStep)
    ensures
        r == if quit {
            MonitorStep::Stop
        } else if logging_enabled && local_ready {
            MonitorStep::Run
        } else {
            MonitorStep::Wait(1000)
        },
{
    if quit {
        MonitorStep::Stop
    } else if logging_enabled && local_ready {
        MonitorStep::Run
    } else {
        MonitorStep::Wait(1000)
    }
}

/// What the monitor does after the engine has stopped.
pub fn after_engine(quit: bool) -> (r: MonitorStep)
    ensures
        r == if quit {
            MonitorStep::Stop
        } else {
            MonitorStep::Wait(500)
        },
{
    if quit {
        MonitorStep::Stop
    } else {
        MonitorStep::Wait(500)
    }
}

/// Whether the engine stops: a restart is wanted, or the program ends.
pub fn engine_stops(restart: bool, quit: bool) -> (r: bool)
    ensures
        r == (restart || quit),
{
    restart || quit
}

/// Seconds between two looks at which log was written last.
pub const AUTO_DETECT_SECS: u64 = 8;

/// What the watcher remembers after a look, and whether it asks for a restart.
pub open spec fn watched(
    mode: LogWatchMode,
    last: Option<Seq<char>>,
    resolved: Option<Seq<char>>,
) -> (Option<Seq<char>>, bool) {
    match mode {
        LogWatchMode::Auto => (resolved, last is Some && resolved != last),
        LogWatchMode::Pinned(_) => (last, false),
    }
}

/// How many restarts the watcher asks for in a run of looks.
pub open spec fn restarts(
    mode: LogWatchMode,
    last: Option<Seq<char>>,
    looks: Seq<Option<Seq<char>>>,
) -> nat
    decreases looks.len(),
{
    if looks.len() == 0 {
        0
    } else {
        let (next, restart) = watched(mode, last, looks.first());
        (if restart {
            1nat
        } else {
            0nat
        }) + restarts(mode, next, looks.drop_first())
    }
}

/// What the watcher of the profiles remembers, and whether it asks for a
/// restart: in automatic mode, when the log that was written last is another
/// one than before. The first log that it sees is no change.
pub fn watch_step(mode: &LogWatchMode, last: Option<String>, resolved: Option<String>) -> (r: (
    Option<String>,
    bool,
))
    ensures
        (text::opt_view(r.0), r.1) == watched(*mode, text::opt_view(last), text::opt_view(resolved)),
{
    match mode {
        LogWatchMode::Pinned(_) => (last, false),
        LogWatchMode::Auto => {
            let same: bool = match (&last, &resolved) {
                (Some(a), Some(b)) => text::same(a.as_str(), b.as_str()),
                (None, None) => true,
                _ => false,
            };
            let restart: bool = last.is_some() && !same;
            (resolved, restart)
        },
    }
}

/// A log that stays the one written last asks for no restart, however often the
/// watcher looks; nor does any log where one is pinned.
pub proof fn steady_log_asks_for_nothing(
    mode: LogWatchMode,
    last: Option<Seq<char>>,
    log: Option<Seq<char>>,
    looks: Seq<Option<Seq<char>>>,
)
    requires
        mode is Auto ==> (last is None || last == log) && forall|i: int|
            0 <= i < looks.len() ==> looks[i] == log,
    ensures
        restarts(mode, last, looks) == 0,
    decreases looks.len(),
{
    if looks.len() > 0 {
        let rest = looks.drop_first();
        assert(mode is Auto ==> looks[0] == log);
        assert forall|i: int| 0 <= i < rest.len() && mode is Auto implies rest[i] == log by {
            assert(rest[i] == looks[i + 1]);
        }
        steady_log_asks_for_nothing(mode, watched(mode, last, looks.first()).0, log, rest);
    }
}

/// Another log being written last asks for one restart.
pub proof fn new_log_asks_for_one_restart(
    last: Seq<char>,
    log: Seq<char>,
    looks: Seq<Option<Seq<char>>>,
)
    requires
        looks.len() > 0,
        last != log,
        forall|i: int| 0 <= i < looks.len() ==> looks[i] == Some(log),
    ensures
        restarts(LogWatchMode::Auto, Some(last), looks) == 1,
{
    let rest = looks.drop_first();
    assert(looks[0] == Some(log));
    assert forall|i: int| 0 <= i < rest.len() implies rest[i] == Some(log) by {
        assert(rest[i] == looks[i + 1]);
    }
    steady_log_asks_for_nothing(LogWatchMode::Auto, Some(log), Some(log), rest);
}

} // verus!
