//! Polling the game: what is published when the game comes and goes, when a frame
//! is read, and when a slower source answers.

use vstd::prelude::*;

use crate::protocol::messages::{Double, ServerMessage, WeatherForecastNode};
use crate::telemetry;
use crate::telemetry::{
    ElectronicsSnapshot, ScoringFrame, TelemetryFrame, WearablesSnapshot,
};
use crate::text;

verus! {

/// What the poller knows, and the broadcaster reads.
#[derive(Debug)]
pub struct TelemetryState {
    pub telemetry: Option<TelemetryFrame>,
    pub scoring: Option<ScoringFrame>,
    pub is_connected: bool,
    pub electronics: ElectronicsSnapshot,
    /// The virtual energy of each lap; none if it could not be had.
    pub ve_history: Option<Vec<Double>>,
    /// Whether this car supports virtual energy; none if that is not known yet.
    pub ve_available: Option<bool>,
    pub wearables: WearablesSnapshot,
    pub weather_forecast: Vec<WeatherForecastNode>,
}

impl TelemetryState {
    /// Nothing is known.
    pub fn new(
        electronics: ElectronicsSnapshot,
        wearables: WearablesSnapshot,
    ) -> (s: TelemetryState)
        ensures
            s.telemetry is None,
            s.scoring is None,
            !s.is_connected,
            s.electronics == electronics,
            s.ve_history is None,
            s.ve_available is None,
            s.wearables == wearables,
            s.weather_forecast@.len() == 0,
    {
        TelemetryState {
            telemetry: None,
            scoring: None,
            is_connected: false,
            electronics,
            ve_history: None,
            ve_available: None,
            wearables,
            weather_forecast: Vec::new(),
        }
    }
}

/// What tells one session from another: its number and its track.
pub open spec fn session_key(sc: ScoringFrame) -> Seq<char> {
    text::signed_decimal(sc.info.session as int) + "/"@ + sc.info.track_name@
}

/// What tells one session from another.
pub fn session_key_of(sc: &ScoringFrame) -> (key: String)
    ensures
        key@ == session_key(*sc),
        key@.len() > 0,
{
    let mut key = text::signed_decimal_text(sc.info.session as i64);
    key.append("/");
    key.append(sc.info.track_name.as_str());
    proof {
        reveal_strlit("/");
        assert(key@[text::signed_decimal(sc.info.session as int).len() as int] == '/');
    }
    key
}

/// The name of the player, where the game says which car is the player's.
pub open spec fn player_name(sc: ScoringFrame) -> Option<Seq<char>> {
    match sc.player {
        Some(p) if p < sc.vehicles@.len() => Some(sc.vehicles@[p as int].driver_name@),
        _ => None,
    }
}

/// The id of the player's car, or -1.
pub open spec fn player_id(sc: ScoringFrame) -> int {
    match sc.player {
        Some(p) if p < sc.vehicles@.len() => sc.vehicles@[p as int].id as int,
        _ => -1,
    }
}

/// The id of the player's car, or -1.
pub fn player_id_of(sc: &ScoringFrame) -> (id: i32)
    ensures
        id == player_id(*sc),
{
    match sc.player {
        Some(p) => if p < sc.vehicles.len() {
            sc.vehicles[p].id
        } else {
            -1
        },
        None => -1,
    }
}

/// Whether a message says how the connection to the game is. The readings can be
/// relied on unless there is a warning.
pub open spec fn is_status(
    msg: ServerMessage,
    connected: bool,
    version: Seq<char>,
    warning: Option<Seq<char>>,
) -> bool {
    msg matches ServerMessage::ConnectionStatus {
        game_connected,
        plugin_version,
        telemetry_valid,
        telemetry_warning,
    } && game_connected == connected && plugin_version@ == version && telemetry_valid == (warning
        is None) && text::text_of(telemetry_warning) == warning
}

/// What the poller remembers from one event to the next.
#[derive(Debug)]
pub struct Poller {
    was_connected: bool,
    game_version: String,
    telemetry_warning: Option<String>,
    last_session_key: String,
    last_player_name: String,
    strategy_in_flight: bool,
    wearables_in_flight: bool,
}

/// What the poller remembers.
pub struct PollerState {
    pub connected: bool,
    pub version: Seq<char>,
    pub warning: Option<Seq<char>>,
    pub session: Seq<char>,
    pub player: Seq<char>,
    pub strategy_in_flight: bool,
    pub wearables_in_flight: bool,
}

impl View for Poller {
    type V = PollerState;

    closed spec fn view(&self) -> PollerState {
        PollerState {
            connected: self.was_connected,
            version: self.game_version@,
            warning: text::text_of(self.telemetry_warning),
            session: self.last_session_key@,
            player: self.last_player_name@,
            strategy_in_flight: self.strategy_in_flight,
            wearables_in_flight: self.wearables_in_flight,
        }
    }
}

/// What a frame gives rise to.
#[derive(Debug)]
pub struct PollOutput {
    /// A change of the connection status, for everyone.
    pub status: Option<ServerMessage>,
    /// A name of the player that was not known yet, to be recorded.
    pub new_name: Option<String>,
}

/// Whether two optional texts are the same.
fn same_text(a: &Option<String>, b: &Option<String>) -> (r: bool)
    ensures
        r == (text::text_of(*a) == text::text_of(*b)),
{
    match (a, b) {
        (Some(x), Some(y)) => text::same(x, y),
        (None, None) => true,
        _ => false,
    }
}

/// Whether a text is empty.
fn is_empty(s: &str) -> (r: bool)
    ensures
        r == (s@.len() == 0),
{
    proof {
        reveal_strlit("");
        if s@.len() == 0 {
            assert(s@ == ""@);
        }
    }
    text::same(s, "")
}

impl PollerState {
    /// Before the first event.
    pub open spec fn initial() -> PollerState {
        PollerState {
            connected: false,
            version: Seq::empty(),
            warning: None,
            session: Seq::empty(),
            player: Seq::empty(),
            strategy_in_flight: false,
            wearables_in_flight: false,
        }
    }

    /// Whether a warning is news: the game is connected, and the last frame did not
    /// come with this warning.
    pub open spec fn is_news(self, warning: Option<Seq<char>>) -> bool {
        self.connected && warning != self.warning
    }

    /// Whether a name of the player is new.
    pub open spec fn is_new_name(self, name: Option<Seq<char>>) -> bool {
        name matches Some(n) && n.len() > 0 && n != self.player
    }

    /// After a frame.
    pub open spec fn after_frame(
        self,
        sc: Option<ScoringFrame>,
        warning: Option<Seq<char>>,
    ) -> PollerState {
        PollerState {
            warning: if self.is_news(warning) {
                warning
            } else {
                self.warning
            },
            session: match sc {
                Some(s) => session_key(s),
                None => self.session,
            },
            player: match sc {
                Some(s) => match player_name(s) {
                    Some(n) if n.len() > 0 => n,
                    _ => self.player,
                },
                None => self.player,
            },
            ..self
        }
    }

    /// Whether a frame is of another session than the one before.
    pub open spec fn is_other_session(self, sc: ScoringFrame) -> bool {
        self.session.len() > 0 && session_key(sc) != self.session
    }

    /// After the game was found there or gone.
    pub open spec fn after_health(self, now: bool, version: Option<Seq<char>>) -> PollerState {
        if !self.connected && now {
            PollerState {
                connected: true,
                version: match version {
                    Some(v) => v,
                    None => "unknown"@,
                },
                warning: None,
                ..self
            }
        } else if self.connected && !now {
            PollerState {
                connected: false,
                version: Seq::empty(),
                warning: None,
                player: Seq::empty(),
                ..self
            }
        } else {
            self
        }
    }
}

/// What is read of one car beside its telemetry.
#[derive(Debug)]
pub struct CarReading {
    pub electronics: ElectronicsSnapshot,
    /// Why the car's wheel readings cannot be right, if they cannot.
    pub implausible: Option<String>,
}

/// The id of the player's car in a frame, or -1.
pub open spec fn frame_player_id(sc: Option<ScoringFrame>) -> int {
    match sc {
        Some(f) => player_id(f),
        None => -1,
    }
}

/// The driver aids of a frame: those of our car, else of the first, else `none`.
pub open spec fn frame_electronics(
    tel: Option<TelemetryFrame>,
    sc: Option<ScoringFrame>,
    cars: Seq<CarReading>,
    none: ElectronicsSnapshot,
) -> ElectronicsSnapshot {
    match tel {
        Some(t) => match telemetry::shown_row(t, frame_player_id(sc) as i32) {
            Some(i) => cars[i].electronics,
            None => none,
        },
        None => none,
    }
}

/// Why the wheel readings of our car in a frame cannot be right, if they cannot.
pub open spec fn frame_warning(
    tel: Option<TelemetryFrame>,
    sc: Option<ScoringFrame>,
    cars: Seq<CarReading>,
) -> Option<Seq<char>> {
    match tel {
        Some(t) => match telemetry::our_row(t, frame_player_id(sc) as i32) {
            Some(i) => text::text_of(cars[i].implausible),
            None => None,
        },
        None => None,
    }
}

/// What is known after a frame that was read, with the driver aids of our car.
pub open spec fn known_after_frame(
    s: TelemetryState,
    p: PollerState,
    tel: Option<TelemetryFrame>,
    sc: Option<ScoringFrame>,
    electronics: ElectronicsSnapshot,
) -> TelemetryState {
    let id = frame_player_id(sc);
    TelemetryState {
        telemetry: match tel {
            Some(t) => Some(t),
            None => s.telemetry,
        },
        scoring: match sc {
            Some(f) => Some(f),
            None => s.scoring,
        },
        electronics,
        ve_history: match sc {
            Some(f) if p.is_other_session(f) => None,
            _ => s.ve_history,
        },
        ve_available: match tel {
            Some(t) => match telemetry::energy_available(t, id as i32) {
                Some(v) => Some(v),
                None => s.ve_available,
            },
            None => s.ve_available,
        },
        ..s
    }
}

impl Poller {
    /// Before the first event.
    pub fn new() -> (p: Poller)
        ensures
            p@ == PollerState::initial(),
    {
        let p = Poller {
            was_connected: false,
            game_version: String::new(),
            telemetry_warning: None,
            last_session_key: String::new(),
            last_player_name: String::new(),
            strategy_in_flight: false,
            wearables_in_flight: false,
        };
        proof {
            assert(p@.version == Seq::<char>::empty());
            assert(p@.session == Seq::<char>::empty());
            assert(p@.player == Seq::<char>::empty());
        }
        p
    }

    /// A frame was read, and with each car of it what `cars` says of the car. A read
    /// that was torn has neither block: it is skipped, and everything stays as it is.
    pub fn on_frame(
        &mut self,
        state: &mut TelemetryState,
        tel: Option<TelemetryFrame>,
        sc: Option<ScoringFrame>,
        cars: &Vec<CarReading>,
        no_electronics: ElectronicsSnapshot,
    ) -> (out: PollOutput)
        requires
            tel matches Some(t) ==> cars@.len() == t.vehicles@.len(),
        ensures
            tel is None && sc is None ==> {
                &&& final(self)@ == old(self)@
                &&& *final(state) == *old(state)
                &&& out.status is None
                &&& out.new_name is None
            },
            tel is Some || sc is Some ==> {
                let warning = frame_warning(tel, sc, cars@);
                &&& final(self)@ == old(self)@.after_frame(sc, warning)
                &&& *final(state) == known_after_frame(
                    *old(state),
                    old(self)@,
                    tel,
                    sc,
                    frame_electronics(tel, sc, cars@, no_electronics),
                )
                &&& match out.status {
                    Some(msg) => old(self)@.is_news(warning) && is_status(
                        msg,
                        true,
                        old(self)@.version,
                        warning,
                    ),
                    None => !old(self)@.is_news(warning),
                }
                &&& match out.new_name {
                    Some(n) => sc matches Some(s) && old(self)@.is_new_name(player_name(s))
                        && player_name(s) == Some(n@),
                    None => sc matches Some(s) ==> !old(self)@.is_new_name(player_name(s)),
                }
            },
    {
        if tel.is_none() && sc.is_none() {
            return PollOutput { status: None, new_name: None };
        }
        let id: i32 = match &sc {
            Some(s) => player_id_of(s),
            None => -1,
        };
        let electronics = match &tel {
            Some(t) => match t.shown_vehicle(id) {
                Some(i) => cars[i].electronics,
                None => no_electronics,
            },
            None => no_electronics,
        };
        let warning = match &tel {
            Some(t) => match t.our_vehicle(id) {
                Some(i) => match &cars[i].implausible {
                    Some(w) => Some(w.clone()),
                    None => None,
                },
                None => None,
            },
            None => None,
        };
        let status = if self.was_connected && !same_text(&warning, &self.telemetry_warning) {
            let telemetry_valid = warning.is_none();
            let copy = match &warning {
                Some(w) => Some(w.clone()),
                None => None,
            };
            self.telemetry_warning = copy;
            Some(
                ServerMessage::ConnectionStatus {
                    game_connected: true,
                    plugin_version: self.game_version.clone(),
                    telemetry_valid,
                    telemetry_warning: warning,
                },
            )
        } else {
            None
        };
        let mut new_name: Option<String> = None;
        if let Some(s) = &sc {
            let key = session_key_of(s);
            if !is_empty(&self.last_session_key) && !text::same(&key, &self.last_session_key) {
                state.ve_history = None;
            }
            self.last_session_key = key;
            if let Some(p) = s.player {
                if p < s.vehicles.len() {
                    let name = s.vehicles[p].driver_name.clone();
                    if !is_empty(&name) && !text::same(&name, &self.last_player_name) {
                        self.last_player_name = name.clone();
                        new_name = Some(name);
                    }
                }
            }
        }
        if let Some(t) = tel {
            if let Some(v) = telemetry::ve_available(&t, id) {
                state.ve_available = Some(v);
            }
            state.telemetry = Some(t);
        }
        if let Some(s) = sc {
            state.scoring = Some(s);
        }
        state.electronics = electronics;
        PollOutput { status, new_name }
    }

    /// The game was looked for, and is there now or is not. `version` is its
    /// version, if it could be read, and `no_wearables` what is known of wear
    /// without the game.
    pub fn on_health(
        &mut self,
        state: &mut TelemetryState,
        now_connected: bool,
        version: Option<String>,
        no_wearables: WearablesSnapshot,
    ) -> (status: Option<ServerMessage>)
        ensures
            final(self)@ == old(self)@.after_health(now_connected, text::text_of(version)),
            match status {
                Some(msg) => old(self)@.connected != now_connected && is_status(
                    msg,
                    now_connected,
                    final(self)@.version,
                    None,
                ),
                None => old(self)@.connected == now_connected,
            },
            *final(state) == (if !old(self)@.connected && now_connected {
                TelemetryState { is_connected: true, ..*old(state) }
            } else if old(self)@.connected && !now_connected {
                TelemetryState {
                    is_connected: false,
                    telemetry: None,
                    scoring: None,
                    ve_history: None,
                    ve_available: None,
                    wearables: no_wearables,
                    ..*old(state)
                }
            } else {
                *old(state)
            }),
    {
        if !self.was_connected && now_connected {
            let v = match version {
                Some(v) => v,
                None => "unknown".to_owned(),
            };
            self.game_version = v.clone();
            self.telemetry_warning = None;
            self.was_connected = true;
            state.is_connected = true;
            Some(
                ServerMessage::ConnectionStatus {
                    game_connected: true,
                    plugin_version: v,
                    telemetry_valid: true,
                    telemetry_warning: None,
                },
            )
        } else if self.was_connected && !now_connected {
            self.game_version = String::new();
            self.telemetry_warning = None;
            self.was_connected = false;
            self.last_player_name = String::new();
            state.is_connected = false;
            state.telemetry = None;
            state.scoring = None;
            state.ve_history = None;
            state.ve_available = None;
            state.wearables = no_wearables;
            proof {
                assert(self@.version == Seq::<char>::empty());
                assert(self@.player == Seq::<char>::empty());
            }
            Some(
                ServerMessage::ConnectionStatus {
                    game_connected: false,
                    plugin_version: String::new(),
                    telemetry_valid: true,
                    telemetry_warning: None,
                },
            )
        } else {
            None
        }
    }

    /// It is time to ask for the virtual energy: the name to ask for, unless the
    /// game is not there, the name is not known, or an answer is still awaited.
    pub fn strategy_due(&mut self, connected: bool) -> (name: Option<String>)
        ensures
            match name {
                Some(n) => {
                    &&& connected
                    &&& !old(self)@.strategy_in_flight
                    &&& n@ == old(self)@.player
                    &&& n@.len() > 0
                    &&& final(self)@ == (PollerState { strategy_in_flight: true, ..old(self)@ })
                },
                None => {
                    &&& !connected || old(self)@.strategy_in_flight || old(self)@.player.len() == 0
                    &&& final(self)@ == old(self)@
                },
            },
    {
        if connected && !self.strategy_in_flight && !is_empty(&self.last_player_name) {
            self.strategy_in_flight = true;
            Some(self.last_player_name.clone())
        } else {
            None
        }
    }

    /// The question for the virtual energy is over, answered or not.
    pub fn strategy_over(&mut self)
        ensures
            final(self)@ == (PollerState { strategy_in_flight: false, ..old(self)@ }),
    {
        self.strategy_in_flight = false;
    }

    /// It is time to ask for the wear: whether to ask.
    pub fn wearables_due(&mut self, connected: bool) -> (ask: bool)
        ensures
            ask == (connected && !old(self)@.wearables_in_flight),
            final(self)@ == (PollerState {
                wearables_in_flight: old(self)@.wearables_in_flight || ask,
                ..old(self)@
            }),
    {
        if connected && !self.wearables_in_flight {
            self.wearables_in_flight = true;
            true
        } else {
            false
        }
    }

    /// The question for the wear is over, answered or not.
    pub fn wearables_over(&mut self)
        ensures
            final(self)@ == (PollerState { wearables_in_flight: false, ..old(self)@ }),
    {
        self.wearables_in_flight = false;
    }
}

/// It is time to ask for the forecast: the session to ask for, unless the game is
/// not there.
pub fn forecast_due(state: &TelemetryState, connected: bool) -> (session: Option<i32>)
    ensures
        session == (if connected {
            Some(
                match state.scoring {
                    Some(sc) => sc.info.session,
                    None => 0,
                },
            )
        } else {
            None
        }),
{
    if !connected {
        return None;
    }
    match &state.scoring {
        Some(sc) => Some(sc.info.session),
        None => Some(0),
    }
}

// ---------------------------------------------------------------------------
// Laws
// ---------------------------------------------------------------------------

/// A warning is told of exactly when the readings cannot be relied on.
pub proof fn law_a_warning_is_the_only_signal(
    msg: ServerMessage,
    connected: bool,
    version: Seq<char>,
    warning: Option<Seq<char>>,
)
    requires
        is_status(msg, connected, version, warning),
    ensures
        msg matches ServerMessage::ConnectionStatus { telemetry_valid, telemetry_warning, .. }
            ==> (telemetry_warning is Some <==> !telemetry_valid),
{
}

/// The same warning is told of once: after a frame that was news, the next frame
/// with the same warning is none.
pub proof fn law_a_warning_is_told_once(
    p: PollerState,
    sc: Option<ScoringFrame>,
    warning: Option<Seq<char>>,
)
    ensures
        !p.after_frame(sc, warning).is_news(warning),
{
}

/// When the game comes back, nothing of a warning or a name from before is left.
pub proof fn law_a_reconnect_starts_clean(p: PollerState, version: Option<Seq<char>>)
    requires
        p.connected,
    ensures
        ({
            let back = p.after_health(false, None).after_health(true, version);
            back.connected && back.warning is None && back.player.len() == 0
        }),
{
}

/// A session is told from another by its number and its track together: two frames
/// have the same key exactly where both are the same.
pub proof fn law_a_session_is_its_number_and_its_track(a: ScoringFrame, b: ScoringFrame)
    ensures
        session_key(a) == session_key(b) <==> a.info.session == b.info.session
            && a.info.track_name@ == b.info.track_name@,
{
    reveal_strlit("/");
    let x = text::signed_decimal(a.info.session as int);
    let y = text::signed_decimal(b.info.session as int);
    if session_key(a) == session_key(b) {
        lemma_no_slash(a.info.session as int);
        lemma_no_slash(b.info.session as int);
        let k = session_key(a);
        assert(k[x.len() as int] == '/');
        assert(session_key(b)[y.len() as int] == '/');
        if x.len() < y.len() {
            assert(k[x.len() as int] == y[x.len() as int]);
        } else if y.len() < x.len() {
            assert(k[y.len() as int] == x[y.len() as int]);
        }
        assert(k.take(x.len() as int) =~= x);
        assert(session_key(b).take(y.len() as int) =~= y);
        assert(k.skip(x.len() as int + 1) =~= a.info.track_name@);
        assert(session_key(b).skip(y.len() as int + 1) =~= b.info.track_name@);
        text::law_different_numbers_are_written_differently(
            a.info.session as int,
            b.info.session as int,
        );
    }
}

proof fn lemma_no_slash(n: int)
    ensures
        forall|i: int|
            0 <= i < text::signed_decimal(n).len() ==> #[trigger] text::signed_decimal(n)[i] != '/',
{
    let m = if n < 0 {
        -n
    } else {
        n
    };
    text::law_numbers_are_written_in_decimal(m);
    assert forall|i: int| 0 <= i < text::signed_decimal(n).len() implies #[trigger] text::signed_decimal(
        n,
    )[i] != '/' by {
        if n < 0 {
            if i > 0 {
                assert(text::signed_decimal(n)[i] == text::decimal(m)[i - 1]);
            }
        } else {
            assert(text::signed_decimal(n)[i] == text::decimal(m)[i]);
        }
    }
}

/// The player is the row that the game names: its name and its id are the player's, and
/// there is no player where the game names no row that there is.
pub proof fn law_the_player_is_the_row_that_the_game_names(sc: ScoringFrame)
    ensures
        sc.player is Some && sc.player->Some_0 < sc.vehicles@.len() ==> player_name(sc) == Some(
            sc.vehicles@[sc.player->Some_0 as int].driver_name@,
        ) && player_id(sc) == sc.vehicles@[sc.player->Some_0 as int].id,
        sc.player is None || sc.player->Some_0 >= sc.vehicles@.len() ==> player_name(sc) is None
            && player_id(sc) == -1,
        frame_player_id(Some(sc)) == player_id(sc),
        frame_player_id(None) == -1,
{
}

/// A status says whether the game is there, its version and the warning, and that the
/// readings can be relied on exactly where there is no warning.
pub proof fn law_a_status_says_how_the_connection_is(
    msg: ServerMessage,
    connected: bool,
    version: Seq<char>,
    warning: Option<Seq<char>>,
)
    requires
        is_status(msg, connected, version, warning),
    ensures
        msg is ConnectionStatus,
        msg->ConnectionStatus_game_connected == connected,
        msg->ConnectionStatus_plugin_version@ == version,
        msg->ConnectionStatus_telemetry_valid <==> warning is None,
        msg->ConnectionStatus_telemetry_warning is Some <==> warning is Some,
        warning is Some ==> msg->ConnectionStatus_telemetry_warning->Some_0@ == warning->Some_0,
{
}

/// A warning is news to a game that is connected, where it is another one than before,
/// and so is its end.
pub proof fn law_a_changed_warning_is_news(p: PollerState, warning: Option<Seq<char>>)
    ensures
        p.is_news(warning) <==> p.connected && warning != p.warning,
        p.connected ==> (p.is_news(None) <==> p.warning is Some),
{
}

/// A name is new where it is one at all and not the one that was known.
pub proof fn law_a_new_name_is_another_one(p: PollerState, n: Seq<char>)
    ensures
        p.is_new_name(Some(n)) <==> n.len() > 0 && n != p.player,
        !p.is_new_name(None),
{
}

/// A frame leaves behind its warning, its session and its player, and touches nothing
/// else of what is remembered.
pub proof fn law_a_frame_is_remembered(
    p: PollerState,
    sc: Option<ScoringFrame>,
    warning: Option<Seq<char>>,
)
    ensures
        ({
            let a = p.after_frame(sc, warning);
            &&& p.connected ==> a.warning == warning
            &&& !p.connected ==> a.warning == p.warning
            &&& sc is None ==> a.session == p.session && a.player == p.player
            &&& sc is Some ==> a.session == session_key(sc->Some_0)
            &&& sc is Some && player_name(sc->Some_0) is Some && player_name(
                sc->Some_0,
            )->Some_0.len() > 0 ==> a.player == player_name(sc->Some_0)->Some_0
            &&& sc is Some && (player_name(sc->Some_0) is None || player_name(
                sc->Some_0,
            )->Some_0.len() == 0) ==> a.player == p.player
            &&& a.connected == p.connected
            &&& a.version == p.version
            &&& a.strategy_in_flight == p.strategy_in_flight
            &&& a.wearables_in_flight == p.wearables_in_flight
        }),
{
}

/// What a frame brings replaces what was known of the same block, and what it does not
/// bring stays. The history of virtual energy goes with its session.
pub proof fn law_a_frame_replaces_what_it_brings(
    s: TelemetryState,
    p: PollerState,
    tel: Option<TelemetryFrame>,
    sc: Option<ScoringFrame>,
    electronics: ElectronicsSnapshot,
)
    ensures
        ({
            let a = known_after_frame(s, p, tel, sc, electronics);
            &&& tel is Some ==> a.telemetry == tel
            &&& tel is None ==> a.telemetry == s.telemetry
            &&& sc is Some ==> a.scoring == sc
            &&& sc is None ==> a.scoring == s.scoring
            &&& a.electronics == electronics
            &&& sc is Some && p.session.len() > 0 && p.session != session_key(sc->Some_0)
                ==> a.ve_history is None
            &&& sc is None || p.session.len() == 0 || p.session == session_key(sc->Some_0)
                ==> a.ve_history == s.ve_history
            &&& tel is None ==> a.ve_available == s.ve_available
            &&& tel is Some && telemetry::our_row(tel->Some_0, frame_player_id(sc) as i32) is None
                ==> a.ve_available == s.ve_available
            &&& tel is Some && telemetry::our_row(tel->Some_0, frame_player_id(sc) as i32) is Some
                ==> a.ve_available == telemetry::energy_available(
                tel->Some_0,
                frame_player_id(sc) as i32,
            ) && a.ve_available is Some
            &&& a.is_connected == s.is_connected
            &&& a.wearables == s.wearables
            &&& a.weather_forecast == s.weather_forecast
        }),
{
}

/// The driver aids of a frame are those of the car that is shown, and its warning is
/// that of our own car and of no other.
pub proof fn law_aids_and_warning_are_of_our_car(
    tel: TelemetryFrame,
    sc: Option<ScoringFrame>,
    cars: Seq<CarReading>,
    none: ElectronicsSnapshot,
)
    ensures
        ({
            let id = frame_player_id(sc) as i32;
            &&& match telemetry::shown_row(tel, id) {
                Some(i) => frame_electronics(Some(tel), sc, cars, none) == cars[i].electronics,
                None => frame_electronics(Some(tel), sc, cars, none) == none,
            }
            &&& match telemetry::our_row(tel, id) {
                Some(i) => {
                    &&& cars[i].implausible is None ==> frame_warning(Some(tel), sc, cars) is None
                    &&& cars[i].implausible is Some ==> frame_warning(Some(tel), sc, cars) == Some(
                        cars[i].implausible->Some_0@,
                    )
                },
                None => frame_warning(Some(tel), sc, cars) is None,
            }
        }),
        frame_electronics(None, sc, cars, none) == none,
        frame_warning(None, sc, cars) is None,
{
}

/// When the game comes, its version is taken down, or that it is unknown; when it goes,
/// version, warning and name go with it; as long as neither happens, nothing changes.
pub proof fn law_the_game_comes_and_goes(p: PollerState, version: Option<Seq<char>>)
    ensures
        ({
            let came = p.after_health(true, version);
            let gone = p.after_health(false, version);
            &&& came.connected && !gone.connected
            &&& p.connected ==> came == p
            &&& !p.connected ==> gone == p
            &&& !p.connected && version is Some ==> came.version == version->Some_0
            &&& !p.connected && version is None ==> came.version == "unknown"@
            &&& !p.connected ==> came.warning is None && came.player == p.player && came.session
                == p.session
            &&& p.connected ==> gone.warning is None && gone.player.len() == 0 && gone.version.len()
                == 0 && gone.session == p.session
            &&& came.strategy_in_flight == p.strategy_in_flight
            &&& came.wearables_in_flight == p.wearables_in_flight
            &&& gone.strategy_in_flight == p.strategy_in_flight
            &&& gone.wearables_in_flight == p.wearables_in_flight
        }),
{
}

/// A frame is of another session where the one before had a key, and this one's differs.
pub proof fn law_another_session_has_another_key(p: PollerState, sc: ScoringFrame)
    ensures
        p.is_other_session(sc) <==> p.session.len() > 0 && p.session != session_key(sc),
{
}

/// The forecast is asked for of the session that is known, or of the first one, and
/// only of a game that is there.
pub proof fn law_the_forecast_is_asked_for_of_the_session(
    state: &TelemetryState,
    connected: bool,
    session: Option<i32>,
)
    requires
        call_ensures(forecast_due, (state, connected), session),
    ensures
        session is Some <==> connected,
        connected && state.scoring is Some ==> session == Some(
            state.scoring->Some_0.info.session,
        ),
        connected && state.scoring is None ==> session == Some(0i32),
{
}

// ---------------------------------------------------------------------------
// Laws of the operations
// ---------------------------------------------------------------------------

/// At the start nothing is known and the game is not there.
pub proof fn law_nothing_is_known_at_the_start(
    electronics: ElectronicsSnapshot,
    wearables: WearablesSnapshot,
    s: TelemetryState,
    p: Poller,
)
    requires
        call_ensures(TelemetryState::new, (electronics, wearables), s),
        call_ensures(Poller::new, (), p),
    ensures
        s.telemetry is None,
        s.scoring is None,
        !s.is_connected,
        s.electronics == electronics,
        s.wearables == wearables,
        s.ve_history is None,
        s.ve_available is None,
        s.weather_forecast@.len() == 0,
        !p@.connected,
        p@.warning is None,
        p@.player.len() == 0,
        p@.session.len() == 0,
        p@.version.len() == 0,
        !p@.strategy_in_flight,
        !p@.wearables_in_flight,
{
}

/// Two sessions have the same key where they have the same number and the same track.
pub proof fn law_a_key_is_of_one_session(
    a: ScoringFrame,
    b: ScoringFrame,
    ka: String,
    kb: String,
)
    requires
        call_ensures(session_key_of, (&a,), ka),
        call_ensures(session_key_of, (&b,), kb),
    ensures
        ka@ == kb@ <==> a.info.session == b.info.session && a.info.track_name@
            == b.info.track_name@,
        ka@.len() > 0,
{
    law_a_session_is_its_number_and_its_track(a, b);
}

/// The player's id is that of the row that the game names, and minus one without one.
pub proof fn law_the_players_id_is_of_the_named_row(sc: ScoringFrame, id: i32)
    requires
        call_ensures(player_id_of, (&sc,), id),
    ensures
        sc.player is Some && sc.player->Some_0 < sc.vehicles@.len() ==> id
            == sc.vehicles@[sc.player->Some_0 as int].id,
        sc.player is None || sc.player->Some_0 >= sc.vehicles@.len() ==> id == -1,
{
    law_the_player_is_the_row_that_the_game_names(sc);
}

/// A frame without anything changes nothing and tells nothing.
pub proof fn law_an_empty_frame_changes_nothing(
    p: &mut Poller,
    state: &mut TelemetryState,
    cars: Vec<CarReading>,
    none: ElectronicsSnapshot,
    out: PollOutput,
)
    requires
        call_ensures(Poller::on_frame, (p, state, None, None, &cars, none), out),
    ensures
        final(p)@ == old(p)@,
        *final(state) == *old(state),
        out.status is None,
        out.new_name is None,
{
}

/// What a frame brings replaces what was known, and what it does not bring stays. The
/// history of the energy is dropped with another session.
pub proof fn law_a_frame_is_taken_in(
    p: &mut Poller,
    state: &mut TelemetryState,
    tel: Option<TelemetryFrame>,
    sc: Option<ScoringFrame>,
    cars: Vec<CarReading>,
    none: ElectronicsSnapshot,
    out: PollOutput,
)
    requires
        call_ensures(Poller::on_frame, (p, state, tel, sc, &cars, none), out),
        tel is Some || sc is Some,
    ensures
        tel is Some ==> final(state).telemetry == tel,
        tel is None ==> final(state).telemetry == old(state).telemetry,
        sc is Some ==> final(state).scoring == sc,
        sc is None ==> final(state).scoring == old(state).scoring,
        tel is None ==> final(state).electronics == none,
        tel is None ==> final(state).ve_available == old(state).ve_available,
        sc is Some && old(p)@.session.len() > 0 && old(p)@.session != session_key(sc->Some_0)
            ==> final(state).ve_history is None,
        sc is None || old(p)@.session.len() == 0 || old(p)@.session == session_key(sc->Some_0)
            ==> final(state).ve_history == old(state).ve_history,
        final(state).is_connected == old(state).is_connected,
        final(state).wearables == old(state).wearables,
        final(state).weather_forecast == old(state).weather_forecast,
        sc is Some ==> final(p)@.session == session_key(sc->Some_0),
        sc is None ==> final(p)@.session == old(p)@.session && final(p)@.player == old(p)@.player,
        final(p)@.connected == old(p)@.connected,
        final(p)@.version == old(p)@.version,
        final(p)@.strategy_in_flight == old(p)@.strategy_in_flight,
        final(p)@.wearables_in_flight == old(p)@.wearables_in_flight,
{
    let e = frame_electronics(tel, sc, cars@, none);
    law_a_frame_replaces_what_it_brings(*old(state), old(p)@, tel, sc, e);
    law_a_frame_is_remembered(old(p)@, sc, frame_warning(tel, sc, cars@));
}

/// A frame of the telemetry brings the driver aids of the car that is shown, and whether
/// our car has energy.
pub proof fn law_a_frame_brings_the_aids_of_our_car(
    p: &mut Poller,
    state: &mut TelemetryState,
    tel: TelemetryFrame,
    sc: Option<ScoringFrame>,
    cars: Vec<CarReading>,
    none: ElectronicsSnapshot,
    out: PollOutput,
    i: int,
)
    requires
        call_ensures(Poller::on_frame, (p, state, Some(tel), sc, &cars, none), out),
        0 <= i < tel.vehicles@.len(),
        tel.player is Some,
        tel.player->Some_0 == i,
    ensures
        final(state).electronics == cars@[i].electronics,
        final(state).ve_available is Some,
        final(state).ve_available->Some_0 <==> 0 < tel.vehicles@[i].virtual_energy.bits
            <= 0x7F80_0000 || 0 < tel.vehicles@[i].battery_charge.bits <= 0x7FF0_0000_0000_0000,
{
    let id = frame_player_id(sc) as i32;
    let e = frame_electronics(Some(tel), sc, cars@, none);
    law_a_frame_replaces_what_it_brings(*old(state), old(p)@, Some(tel), sc, e);
    law_aids_and_warning_are_of_our_car(tel, sc, cars@, none);
    telemetry::law_our_row_is_the_one_the_game_names(tel, id);
    telemetry::law_the_shown_row_is_ours_or_the_first(tel, id);
    telemetry::law_energy_is_available_where_there_is_some(tel, id, i);
}

/// A warning about our car is told when it changes while the game is there, and so is
/// its end.
pub proof fn law_a_warning_is_told_when_it_changes(
    p: &mut Poller,
    state: &mut TelemetryState,
    tel: TelemetryFrame,
    sc: Option<ScoringFrame>,
    cars: Vec<CarReading>,
    none: ElectronicsSnapshot,
    out: PollOutput,
    i: int,
)
    requires
        call_ensures(Poller::on_frame, (p, state, Some(tel), sc, &cars, none), out),
        0 <= i < tel.vehicles@.len(),
        tel.player is Some,
        tel.player->Some_0 == i,
    ensures
        ({
            let warning = match cars@[i].implausible {
                Some(w) => Some(w@),
                None => None,
            };
            &&& out.status is Some <==> old(p)@.connected && warning != old(p)@.warning
            &&& out.status is Some ==> out.status->Some_0 is ConnectionStatus
                && out.status->Some_0->ConnectionStatus_game_connected && (
            out.status->Some_0->ConnectionStatus_telemetry_valid <==> warning is None)
                && out.status->Some_0->ConnectionStatus_plugin_version@ == old(p)@.version
            &&& out.status is Some && warning is Some
                ==> out.status->Some_0->ConnectionStatus_telemetry_warning is Some
                && out.status->Some_0->ConnectionStatus_telemetry_warning->Some_0@
                == warning->Some_0
            &&& old(p)@.connected ==> final(p)@.warning == warning
            &&& !old(p)@.connected ==> final(p)@.warning == old(p)@.warning
        }),
{
    let id = frame_player_id(sc) as i32;
    law_aids_and_warning_are_of_our_car(tel, sc, cars@, none);
    telemetry::law_our_row_is_the_one_the_game_names(tel, id);
    let warning = frame_warning(Some(tel), sc, cars@);
    law_a_frame_is_remembered(old(p)@, sc, warning);
    law_a_changed_warning_is_news(old(p)@, warning);
    if out.status is Some {
        law_a_status_says_how_the_connection_is(
            out.status->Some_0,
            true,
            old(p)@.version,
            warning,
        );
    }
}

/// A frame names a new player where the game names a driver that has a name and is
/// another one than before.
pub proof fn law_a_new_player_is_named(
    p: &mut Poller,
    state: &mut TelemetryState,
    tel: Option<TelemetryFrame>,
    sc: ScoringFrame,
    cars: Vec<CarReading>,
    none: ElectronicsSnapshot,
    out: PollOutput,
    i: int,
)
    requires
        call_ensures(Poller::on_frame, (p, state, tel, Some(sc), &cars, none), out),
        0 <= i < sc.vehicles@.len(),
        sc.player is Some,
        sc.player->Some_0 == i,
    ensures
        ({
            let name = sc.vehicles@[i].driver_name@;
            &&& out.new_name is Some <==> name.len() > 0 && name != old(p)@.player
            &&& out.new_name is Some ==> out.new_name->Some_0@ == name
            &&& name.len() > 0 ==> final(p)@.player == name
            &&& name.len() == 0 ==> final(p)@.player == old(p)@.player
        }),
{
    law_the_player_is_the_row_that_the_game_names(sc);
    law_a_new_name_is_another_one(old(p)@, sc.vehicles@[i].driver_name@);
    law_a_frame_is_remembered(old(p)@, Some(sc), frame_warning(tel, Some(sc), cars@));
}

/// When the game comes or goes everyone is told, and only then. When it goes, what was
/// known of it is forgotten.
pub proof fn law_coming_and_going_is_told(
    p: &mut Poller,
    state: &mut TelemetryState,
    now_connected: bool,
    version: Option<String>,
    no_wearables: WearablesSnapshot,
    status: Option<ServerMessage>,
)
    requires
        call_ensures(
            Poller::on_health,
            (p, state, now_connected, version, no_wearables),
            status,
        ),
    ensures
        status is Some <==> old(p)@.connected != now_connected,
        status is Some ==> status->Some_0 is ConnectionStatus
            && status->Some_0->ConnectionStatus_game_connected == now_connected
            && status->Some_0->ConnectionStatus_telemetry_valid
            && status->Some_0->ConnectionStatus_telemetry_warning is None,
        status is Some && !now_connected
            ==> status->Some_0->ConnectionStatus_plugin_version@.len() == 0,
        status is Some && now_connected && version is Some
            ==> status->Some_0->ConnectionStatus_plugin_version@ == version->Some_0@,
        status is Some && now_connected && version is None
            ==> status->Some_0->ConnectionStatus_plugin_version@ == "unknown"@,
        final(p)@.connected == now_connected,
        old(p)@.connected == now_connected ==> final(p)@ == old(p)@ && *final(state) == *old(state),
        status is Some && now_connected ==> final(state).is_connected && final(state).telemetry
            == old(state).telemetry && final(state).scoring == old(state).scoring
            && final(state).ve_history == old(state).ve_history && final(state).ve_available
            == old(state).ve_available && final(state).wearables == old(state).wearables,
        status is Some && !now_connected ==> !final(state).is_connected && final(
            state).telemetry is None && final(state).scoring is None && final(
            state).ve_history is None && final(state).ve_available is None && final(state).wearables
            == no_wearables,
        final(state).electronics == old(state).electronics,
        final(state).weather_forecast == old(state).weather_forecast,
        status is Some ==> final(p)@.warning is None,
        status is Some && !now_connected ==> final(p)@.player.len() == 0,
        final(p)@.session == old(p)@.session,
{
    law_the_game_comes_and_goes(old(p)@, text::text_of(version));
    if status is Some {
        law_a_status_says_how_the_connection_is(
            status->Some_0,
            now_connected,
            final(p)@.version,
            None,
        );
    }
}

/// The strategy is asked for of the player by name, one request at a time.
pub proof fn law_the_strategy_is_asked_for_once(
    p: &mut Poller,
    connected: bool,
    name: Option<String>,
)
    requires
        call_ensures(Poller::strategy_due, (p, connected), name),
    ensures
        name is Some <==> connected && !old(p)@.strategy_in_flight && old(p)@.player.len() > 0,
        name is Some ==> name->Some_0@ == old(p)@.player && final(p)@.strategy_in_flight,
        name is None ==> final(p)@ == old(p)@,
        final(p)@.wearables_in_flight == old(p)@.wearables_in_flight,
        final(p)@.player == old(p)@.player,
        final(p)@.connected == old(p)@.connected,
        final(p)@.session == old(p)@.session,
        final(p)@.warning == old(p)@.warning,
        final(p)@.version == old(p)@.version,
{
}

/// The wear is asked for while the game is there, one request at a time.
pub proof fn law_the_wear_is_asked_for_once(p: &mut Poller, connected: bool, ask: bool)
    requires
        call_ensures(Poller::wearables_due, (p, connected), ask),
    ensures
        ask <==> connected && !old(p)@.wearables_in_flight,
        final(p)@.wearables_in_flight <==> old(p)@.wearables_in_flight || ask,
        final(p)@.strategy_in_flight == old(p)@.strategy_in_flight,
        final(p)@.player == old(p)@.player,
        final(p)@.connected == old(p)@.connected,
        final(p)@.session == old(p)@.session,
        final(p)@.warning == old(p)@.warning,
        final(p)@.version == old(p)@.version,
{
}

/// After an answer the next request can be made.
pub proof fn law_an_answer_makes_way_for_the_next_request(
    p: &mut Poller,
    q: &mut Poller,
    done: (),
    over: (),
)
    requires
        call_ensures(Poller::strategy_over, (p,), done),
        call_ensures(Poller::wearables_over, (q,), over),
    ensures
        !final(p)@.strategy_in_flight,
        final(p)@.wearables_in_flight == old(p)@.wearables_in_flight,
        final(p)@.player == old(p)@.player,
        !final(q)@.wearables_in_flight,
        final(q)@.strategy_in_flight == old(q)@.strategy_in_flight,
        final(q)@.player == old(q)@.player,
{
}

} // verus!
