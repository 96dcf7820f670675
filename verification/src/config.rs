//! How the process runs, as told by its command line.

use vstd::prelude::*;

use crate::text;

verus! {

/// How this process runs.
///
/// One binary plays all three parts: a driver's PC serving its own dashboard
/// (`Local`), a driver's PC streaming to a public host (`Agent`), and that host
/// serving the stream (`Server`).
#[derive(Debug, Clone, Copy, PartialEq, Eq, Structural)]
pub enum Mode {
    /// Poll shared memory and serve the dashboard locally.
    Local,
    /// Poll shared memory and stream it to a relay; the dashboard is optional.
    Agent,
    /// Serve the dashboard from an agent's uplink; no polling.
    Server,
}

/// The options of the command line.
#[derive(Debug)]
pub struct Config {
    /// WebSocket server port; overrides the stored port when given.
    pub ws_port: Option<u16>,
    /// Telemetry broadcast rate in frames per second.
    pub telemetry_fps: u32,
    /// Scoring broadcast rate in frames per second.
    pub scoring_fps: u32,
    /// Whether the game's REST API is polled.
    pub enable_rest_api: bool,
    /// Log level (trace, debug, info, warn, error).
    pub log_level: String,
    /// Do not open the browser on startup.
    pub no_browser: bool,
    /// Stream telemetry to this relay; implies agent mode.
    pub relay_url: Option<String>,
    /// Shared secret for the uplink.
    pub agent_key: Option<String>,
    /// Run as the relay.
    pub server: bool,
    /// Agent mode only: do not bind the local dashboard port.
    pub headless: bool,
    /// Agent mode only: let relay viewers install voices on this PC.
    pub allow_remote_install: bool,
    /// Uplink send rate for telemetry and scoring frames.
    pub uplink_fps: u32,
}

impl Config {
    /// The mode that the options ask for.
    pub open spec fn spec_mode(&self) -> Mode {
        if self.server {
            Mode::Server
        } else if self.relay_url is Some {
            Mode::Agent
        } else {
            Mode::Local
        }
    }

    /// The mode that the options ask for; `--server` outranks `--relay-url`.
    pub fn mode(&self) -> (mode: Mode)
        ensures
            mode == self.spec_mode(),
    {
        if self.server {
            Mode::Server
        } else if self.relay_url.is_some() {
            Mode::Agent
        } else {
            Mode::Local
        }
    }

    /// The agent key: the one of the command line, else the one of the
    /// environment; an empty key is none.
    pub open spec fn spec_agent_key(&self, from_env: Option<String>) -> Option<Seq<char>> {
        let key = match self.agent_key {
            Some(k) => Some(k@),
            None => match from_env {
                Some(k) => Some(k@),
                None => None,
            },
        };
        match key {
            Some(k) if k.len() > 0 => Some(k),
            _ => None,
        }
    }

    /// The agent key from the command line, else from the environment. The
    /// environment keeps the secret out of the process list.
    pub fn resolved_agent_key(&self, from_env: Option<String>) -> (key: Option<String>)
        ensures
            match key {
                Some(k) => self.spec_agent_key(from_env) == Some(k@),
                None => self.spec_agent_key(from_env) is None,
            },
    {
        let key = match &self.agent_key {
            Some(k) => Some(k.clone()),
            None => from_env,
        };
        match key {
            Some(k) => {
                let is_empty = text::same(&k, "");
                proof {
                    reveal_strlit("");
                    if k@.len() == 0 {
                        assert(k@ == ""@);
                    }
                }
                if is_empty {
                    None
                } else {
                    Some(k)
                }
            },
            None => None,
        }
    }
}

/// A key that was resolved is never empty, and an empty key on the command line
/// is not replaced by the one of the environment.
pub proof fn law_an_agent_key_is_never_empty(config: Config, from_env: Option<String>)
    ensures
        config.spec_agent_key(from_env) matches Some(k) ==> k.len() > 0,
        config.agent_key matches Some(k) ==> k@.len() == 0 ==> config.spec_agent_key(
            from_env,
        ) is None,
{
}

/// A relay is one by its own option, whatever else is said; an agent has the address of
/// a relay, and a local bridge neither.
pub proof fn law_the_options_decide_the_mode(config: Config)
    ensures
        config.server ==> config.spec_mode() == Mode::Server,
        !config.server && config.relay_url is Some ==> config.spec_mode() == Mode::Agent,
        !config.server && config.relay_url is None ==> config.spec_mode() == Mode::Local,
{
}

/// The key of the command line counts, and that of the environment only where there is
/// none on the command line.
pub proof fn law_the_command_line_outranks_the_environment(
    config: Config,
    from_env: Option<String>,
)
    ensures
        config.agent_key is Some && config.agent_key->Some_0@.len() > 0 ==> config.spec_agent_key(
            from_env,
        ) == Some(config.agent_key->Some_0@),
        config.agent_key is None && from_env is Some && from_env->Some_0@.len() > 0
            ==> config.spec_agent_key(from_env) == Some(from_env->Some_0@),
        config.agent_key is None && (from_env is None || from_env->Some_0@.len() == 0)
            ==> config.spec_agent_key(from_env) is None,
{
}

/// The mode and the key follow from the options, and the key from the environment where
/// the options have none.
pub proof fn law_the_options_are_resolved(
    config: Config,
    from_env: Option<String>,
    mode: Mode,
    key: Option<String>,
)
    requires
        call_ensures(Config::mode, (&config,), mode),
        call_ensures(Config::resolved_agent_key, (&config, from_env), key),
    ensures
        mode is Server <==> config.server,
        mode is Agent <==> !config.server && config.relay_url is Some,
        mode is Local <==> !config.server && config.relay_url is None,
        config.agent_key is Some && config.agent_key->Some_0@.len() > 0 ==> key is Some
            && key->Some_0@ == config.agent_key->Some_0@,
        config.agent_key is Some && config.agent_key->Some_0@.len() == 0 ==> key is None,
        config.agent_key is None && from_env is Some && from_env->Some_0@.len() > 0 ==> key is Some
            && key->Some_0@ == from_env->Some_0@,
        config.agent_key is None && (from_env is None || from_env->Some_0@.len() == 0)
            ==> key is None,
{
    law_the_options_decide_the_mode(config);
    law_the_command_line_outranks_the_environment(config, from_env);
    law_an_agent_key_is_never_empty(config, from_env);
}

} // verus!
