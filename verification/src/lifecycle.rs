//! From start to end: which parts of the bridge run, which logs are thrown away,
//! and when the bridge stops by itself.

use vstd::prelude::*;

use crate::config::{Config, Mode};
use crate::paths;
use crate::text;

verus! {

// ---------------------------------------------------------------------------
// Starting
// ---------------------------------------------------------------------------

/// The port where neither the command line nor the stored settings say one.
pub const DEFAULT_PORT: u16 = 9000;

/// The port: that of the command line, else the stored one.
pub fn choose_port(config: &Config, stored: Option<u16>) -> (port: u16)
    ensures
        port == (match config.ws_port {
            Some(p) => p,
            None => match stored {
                Some(p) => p,
                None => DEFAULT_PORT,
            },
        }),
{
    match config.ws_port {
        Some(p) => p,
        None => match stored {
            Some(p) => p,
            None => DEFAULT_PORT,
        },
    }
}

/// Which parts of the bridge run.
#[derive(Debug)]
pub struct StartupPlan {
    /// Read the game on this machine, and broadcast what it says.
    pub poll: bool,
    /// Stream to the relay at this address, with this key.
    pub uplink: Option<(String, String)>,
    /// Accept an agent that presents this key.
    pub room: Option<String>,
    /// Serve the dashboard.
    pub serve: bool,
    /// Open the dashboard in a browser.
    pub open_browser: bool,
    /// Stop when the dashboard is closed.
    pub stop_with_dashboard: bool,
}

/// The name of a mode.
pub open spec fn mode_name(mode: Mode) -> Seq<char> {
    match mode {
        Mode::Local => "Local"@,
        Mode::Agent => "Agent"@,
        Mode::Server => "Server"@,
    }
}

/// Whether a plan is the one that the options ask for.
pub open spec fn is_plan(plan: StartupPlan, config: Config, key: Option<String>) -> bool {
    let mode = config.spec_mode();
    &&& plan.poll == (mode != Mode::Server)
    &&& match plan.uplink {
        Some((url, k)) => mode == Mode::Agent && (config.relay_url matches Some(u) && u@ == url@)
            && (key matches Some(secret) && secret@ == k@),
        None => mode != Mode::Agent,
    }
    &&& match plan.room {
        Some(k) => mode == Mode::Server && (key matches Some(secret) && secret@ == k@),
        None => mode != Mode::Server,
    }
    &&& plan.serve == !(mode == Mode::Agent && config.headless)
    &&& plan.open_browser == (mode == Mode::Local && !config.no_browser)
    &&& plan.stop_with_dashboard == (mode == Mode::Local)
}

/// Which parts of the bridge run. Both ends of a relay need the key, and nothing
/// starts without it.
pub fn startup(config: &Config, key: Option<String>) -> (r: Result<StartupPlan, String>)
    ensures
        match r {
            Ok(plan) => (config.spec_mode() == Mode::Local || key is Some) && is_plan(
                plan,
                *config,
                key,
            ),
            Err(e) => config.spec_mode() != Mode::Local && key is None && e@
                == "an agent key is required in "@ + mode_name(config.spec_mode())
                + " mode — pass --agent-key or set $PITWALL_AGENT_KEY"@,
        },
{
    let mode = config.mode();
    if mode != Mode::Local && key.is_none() {
        let name = match mode {
            Mode::Local => "Local",
            Mode::Agent => "Agent",
            Mode::Server => "Server",
        };
        let mut e: String = "an agent key is required in ".to_owned();
        e.append(name);
        e.append(" mode — pass --agent-key or set $PITWALL_AGENT_KEY");
        return Err(e);
    }
    let mut uplink: Option<(String, String)> = None;
    let mut room: Option<String> = None;
    if let Some(k) = &key {
        if mode == Mode::Agent {
            if let Some(url) = &config.relay_url {
                uplink = Some((url.clone(), k.clone()));
            }
        }
        if mode == Mode::Server {
            room = Some(k.clone());
        }
    }
    Ok(
        StartupPlan {
            poll: mode != Mode::Server,
            uplink,
            room,
            serve: !(mode == Mode::Agent && config.headless),
            open_browser: mode == Mode::Local && !config.no_browser,
            stop_with_dashboard: mode == Mode::Local,
        },
    )
}

/// A relay reads no game and outlives its viewers; an agent streams and outlives
/// its own dashboard; only a local bridge stops with its dashboard.
pub proof fn law_only_a_local_bridge_stops_with_its_dashboard(
    plan: StartupPlan,
    config: Config,
    key: Option<String>,
)
    requires
        is_plan(plan, config, key),
    ensures
        plan.stop_with_dashboard ==> plan.poll && plan.serve && plan.uplink is None && plan.room
            is None,
        plan.room is Some ==> !plan.poll && plan.serve,
        plan.uplink is Some ==> plan.poll,
{
}

// ---------------------------------------------------------------------------
// Logs
// ---------------------------------------------------------------------------

/// Nanoseconds in a day.
pub const NANOS_PER_DAY: u64 = 86_400_000_000_000;

/// Whether a file is a log.
pub open spec fn is_log(name: Seq<char>, path: Seq<char>) -> bool {
    paths::extension(name) == Some("log"@) || text::contains(path, "lmu-pitwall.log"@)
}

/// Whether something was written before the last `days` days, where times are
/// nanoseconds since the epoch.
pub open spec fn is_older_than(modified: u64, now: u64, days: u64) -> bool {
    modified < now - days * NANOS_PER_DAY
}

/// Whether a file, by its name and its full path, is a log to be thrown away.
pub fn is_old_log(name: &str, path: &str, modified: u64, now: u64, keep_days: u64) -> (r: bool)
    ensures
        r == (is_log(name@, path@) && is_older_than(modified, now, keep_days)),
{
    let log = paths::has_extension(name, "log") || text::text_contains(path, "lmu-pitwall.log");
    proof {
        assert(keep_days * NANOS_PER_DAY <= u64::MAX * NANOS_PER_DAY) by (nonlinear_arith)
            requires
                keep_days <= u64::MAX,
        ;
    }
    let age: u128 = keep_days as u128 * 86_400_000_000_000u128;
    log && (modified as u128) + age < now as u128
}

// ---------------------------------------------------------------------------
// Stopping with the dashboard
// ---------------------------------------------------------------------------

/// How long the last client may be gone before the bridge stops, in nanoseconds:
/// long enough for a page to be loaded again.
pub const AUTO_SHUTDOWN_GRACE: u64 = 45_000_000_000;

/// Where the bridge stands with its clients.
#[derive(Debug, Clone, Copy, PartialEq, Eq, Structural)]
pub enum Watch {
    /// There has been no client yet.
    NobodyYet,
    /// There are clients.
    Watched,
    /// The last client left at this time.
    Left { at: u64 },
}

impl Watch {
    /// At first, with this many clients.
    pub fn new(count: usize) -> (w: Watch)
        ensures
            w == (if count > 0 {
                Watch::Watched
            } else {
                Watch::NobodyYet
            }),
    {
        if count > 0 {
            Watch::Watched
        } else {
            Watch::NobodyYet
        }
    }

    /// After the number of clients has changed at time `now`.
    pub open spec fn after(self, count: usize, now: u64) -> Watch {
        match self {
            Watch::NobodyYet => if count > 0 {
                Watch::Watched
            } else {
                Watch::NobodyYet
            },
            Watch::Watched => if count == 0 {
                Watch::Left { at: now }
            } else {
                Watch::Watched
            },
            Watch::Left { at } => if count > 0 {
                Watch::Watched
            } else {
                Watch::Left { at }
            },
        }
    }

    /// The number of clients has changed at time `now`.
    pub fn on_count(&mut self, count: usize, now: u64)
        ensures
            *final(self) == old(self).after(count, now),
    {
        let next = match *self {
            Watch::NobodyYet => if count > 0 {
                Watch::Watched
            } else {
                Watch::NobodyYet
            },
            Watch::Watched => if count == 0 {
                Watch::Left { at: now }
            } else {
                Watch::Watched
            },
            Watch::Left { at } => if count > 0 {
                Watch::Watched
            } else {
                Watch::Left { at }
            },
        };
        *self = next;
    }

    /// Whether the bridge stops at time `now`.
    pub open spec fn is_over(self, now: u64) -> bool {
        self matches Watch::Left { at } && now - at >= AUTO_SHUTDOWN_GRACE
    }

    /// Whether the bridge stops at time `now`.
    pub fn should_stop(&self, now: u64) -> (r: bool)
        ensures
            r == self.is_over(now),
    {
        match *self {
            Watch::Left { at } => now >= at && now - at >= AUTO_SHUTDOWN_GRACE,
            _ => false,
        }
    }

    /// The time at which the bridge stops if nobody comes back.
    pub fn deadline(&self) -> (t: Option<u64>)
        ensures
            match *self {
                Watch::Left { at } => t == (if at <= u64::MAX - AUTO_SHUTDOWN_GRACE {
                    Some((at + AUTO_SHUTDOWN_GRACE) as u64)
                } else {
                    None
                }),
                _ => t is None,
            },
    {
        match *self {
            Watch::Left { at } => at.checked_add(AUTO_SHUTDOWN_GRACE),
            _ => None,
        }
    }
}

/// After a number of changes, each a count and its time.
pub open spec fn after_all(w: Watch, changes: Seq<(usize, u64)>) -> Watch
    decreases changes.len(),
{
    if changes.len() == 0 {
        w
    } else {
        after_all(w, changes.drop_last()).after(changes.last().0, changes.last().1)
    }
}

/// A bridge that nobody has looked at yet never stops.
pub proof fn law_the_bridge_waits_for_a_first_client(changes: Seq<(usize, u64)>, now: u64)
    requires
        forall|i: int| 0 <= i < changes.len() ==> (#[trigger] changes[i]).0 == 0,
    ensures
        !after_all(Watch::NobodyYet, changes).is_over(now),
{
    lemma_nobody_yet(changes);
}

proof fn lemma_nobody_yet(changes: Seq<(usize, u64)>)
    requires
        forall|i: int| 0 <= i < changes.len() ==> (#[trigger] changes[i]).0 == 0,
    ensures
        after_all(Watch::NobodyYet, changes) == Watch::NobodyYet,
    decreases changes.len(),
{
    if changes.len() > 0 {
        assert(changes[changes.len() - 1].0 == 0);
        assert forall|i: int| 0 <= i < changes.drop_last().len() implies (
        #[trigger] changes.drop_last()[i]).0 == 0 by {
            assert(changes[i].0 == 0);
        }
        lemma_nobody_yet(changes.drop_last());
    }
}

/// A page that is loaded again within the grace period keeps the bridge running,
/// and so does every client that is there.
pub proof fn law_a_reload_does_not_stop_the_bridge(w: Watch, count: usize, then: u64, now: u64)
    requires
        count > 0,
    ensures
        !w.after(count, then).is_over(now),
{
}

/// A bridge that stops has been without a client for the whole grace period: the
/// last client left that long ago, and nobody has come since.
pub proof fn law_the_bridge_stops_only_after_the_grace_period(
    w: Watch,
    changes: Seq<(usize, u64)>,
    now: u64,
)
    requires
        w == Watch::Watched,
        after_all(w, changes).is_over(now),
    ensures
        exists|k: int|
            0 <= k < changes.len() && (#[trigger] changes[k]).0 == 0 && now - changes[k].1
                >= AUTO_SHUTDOWN_GRACE && forall|i: int|
                k <= i < changes.len() ==> (#[trigger] changes[i]).0 == 0,
{
    lemma_left_at(w, changes);
}

proof fn lemma_left_at(w: Watch, changes: Seq<(usize, u64)>)
    requires
        w == Watch::Watched,
    ensures
        after_all(w, changes) matches Watch::Left { at } ==> exists|k: int|
            0 <= k < changes.len() && (#[trigger] changes[k]).0 == 0 && changes[k].1 == at
                && forall|i: int| k <= i < changes.len() ==> (#[trigger] changes[i]).0 == 0,
        !(after_all(w, changes) is NobodyYet),
    decreases changes.len(),
{
    if changes.len() > 0 {
        let rest = changes.drop_last();
        let n = changes.len() - 1;
        lemma_left_at(w, rest);
        if after_all(w, changes) is Left {
            let at = after_all(w, changes)->at;
            if after_all(w, rest) is Left {
                let k = choose|k: int|
                    0 <= k < rest.len() && (#[trigger] rest[k]).0 == 0 && rest[k].1 == at
                        && forall|i: int| k <= i < rest.len() ==> (#[trigger] rest[i]).0 == 0;
                assert(changes[k].0 == 0 && changes[k].1 == at);
                assert forall|i: int| k <= i < changes.len() implies (
                #[trigger] changes[i]).0 == 0 by {
                    if i < n {
                        assert(rest[i].0 == 0);
                    }
                }
            } else {
                assert(changes[n].0 == 0 && changes[n].1 == at);
            }
        }
    }
}

// ---------------------------------------------------------------------------
// Laws, told by the options alone
// ---------------------------------------------------------------------------

/// The port of the command line counts, then the stored one, and then 9000.
pub proof fn law_the_port_of_the_command_line_counts(
    config: &Config,
    stored: Option<u16>,
    port: u16,
)
    requires
        call_ensures(choose_port, (config, stored), port),
    ensures
        config.ws_port is Some ==> config.ws_port == Some(port),
        config.ws_port is None && stored is Some ==> stored == Some(port),
        config.ws_port is None && stored is None ==> port == 9000,
{
}

/// A local bridge starts without a key, and both ends of a relay with one only.
pub proof fn law_a_relay_needs_a_key(
    config: &Config,
    key: Option<String>,
    r: Result<StartupPlan, String>,
)
    requires
        call_ensures(startup, (config, key), r),
    ensures
        r is Ok <==> key is Some || (!config.server && config.relay_url is None),
        r is Err && config.server ==> r->Err_0@ == "an agent key is required in "@ + "Server"@
            + " mode — pass --agent-key or set $PITWALL_AGENT_KEY"@,
        r is Err && !config.server ==> r->Err_0@ == "an agent key is required in "@ + "Agent"@
            + " mode — pass --agent-key or set $PITWALL_AGENT_KEY"@,
{
}

/// Which parts run: a relay has a room for agents with the key and reads no game; an
/// agent reads the game and streams it to the address with the key, and serves its
/// dashboard unless it is to run without; a local bridge reads the game, serves and
/// opens its dashboard unless it is not to, and stops with it.
pub proof fn law_the_options_decide_what_runs(
    config: &Config,
    key: Option<String>,
    plan: StartupPlan,
)
    requires
        call_ensures(startup, (config, key), Ok(plan)),
    ensures
        plan.poll <==> !config.server,
        plan.room is Some <==> config.server,
        plan.room is Some && key is Some ==> plan.room->Some_0@ == key->Some_0@,
        plan.uplink is Some <==> !config.server && config.relay_url is Some,
        plan.uplink is Some && key is Some ==> plan.uplink->Some_0.0@ == config.relay_url->Some_0@
            && plan.uplink->Some_0.1@ == key->Some_0@,
        plan.serve <==> config.server || config.relay_url is None || !config.headless,
        plan.open_browser <==> !config.server && config.relay_url is None && !config.no_browser,
        plan.stop_with_dashboard <==> !config.server && config.relay_url is None,
{
}

/// A log is thrown away once it is older than the days that it is kept for, and nothing
/// but logs is: files with the extension of a log, and those of this program.
pub proof fn law_old_logs_are_thrown_away(
    name: &str,
    path: &str,
    modified: u64,
    now: u64,
    keep_days: u64,
    r: bool,
)
    requires
        call_ensures(is_old_log, (name, path, modified, now, keep_days), r),
    ensures
        r ==> now - modified > keep_days * 86_400_000_000_000,
        r ==> paths::extension(name@) == Some("log"@) || text::contains(path@, "lmu-pitwall.log"@),
        now - modified > keep_days * 86_400_000_000_000 && paths::extension(name@) == Some("log"@)
            ==> r,
        now - modified > keep_days * 86_400_000_000_000 && text::contains(
            path@,
            "lmu-pitwall.log"@,
        ) ==> r,
{
}

/// The bridge is watched as long as there is a client; when the last one leaves, the
/// time counts from there, until another comes, and only once there has been one.
pub proof fn law_the_last_to_leave_starts_the_clock(w: Watch, count: usize, now: u64)
    ensures
        count > 0 ==> w.after(count, now) == Watch::Watched,
        count == 0 && w == Watch::Watched ==> w.after(count, now) == (Watch::Left { at: now }),
        count == 0 && w != Watch::Watched ==> w.after(count, now) == w,
{
}

/// The bridge stops 45 s after the last client left, not before, and in no other state.
pub proof fn law_the_bridge_stops_after_the_grace_period(w: Watch, now: u64)
    ensures
        w.is_over(now) <==> w is Left && now >= w->at + 45_000_000_000,
{
}

/// The deadline is the moment at which the bridge stops.
pub proof fn law_the_deadline_is_when_the_bridge_stops(w: &Watch, t: Option<u64>, now: u64)
    requires
        call_ensures(Watch::deadline, (w,), t),
    ensures
        t is Some ==> (w.is_over(now) <==> now >= t->Some_0),
        t is None ==> !w.is_over(now),
{
}

/// The bridge counts its clients: with one it is watched, and when the last one leaves
/// the clock starts, once.
pub proof fn law_clients_are_watched(w: &mut Watch, count: usize, now: u64, done: ())
    requires
        call_ensures(Watch::on_count, (w, count, now), done),
    ensures
        count > 0 ==> *final(w) == Watch::Watched,
        count == 0 && *old(w) == Watch::Watched ==> *final(w) == (Watch::Left { at: now }),
        count == 0 && *old(w) != Watch::Watched ==> *final(w) == *old(w),
{
    law_the_last_to_leave_starts_the_clock(*old(w), count, now);
}

/// The bridge stops when nobody has come back for three quarters of a minute.
pub proof fn law_the_bridge_stops_when_nobody_comes_back(w: Watch, now: u64, r: bool)
    requires
        call_ensures(Watch::should_stop, (&w, now), r),
    ensures
        r <==> w is Left && now >= w->at + 45_000_000_000,
{
    law_the_bridge_stops_after_the_grace_period(w, now);
}

/// A bridge that starts with clients is watched, and one without waits for its first.
pub proof fn law_a_watch_starts_with_the_clients(count: usize, w: Watch)
    requires
        call_ensures(Watch::new, (count,), w),
    ensures
        count > 0 ==> w == Watch::Watched,
        count == 0 ==> w == Watch::NobodyYet,
{
}

} // verus!
