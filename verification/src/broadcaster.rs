//! What is broadcast when: each kind of message at a rate of its own.
//!
//! Times are nanoseconds of a steady clock.

use vstd::prelude::*;

use crate::polling;
use crate::polling::TelemetryState;
use crate::protocol::messages::{Double, ServerMessage, WeatherForecastNode};
use crate::race_engineer::api::Speech;
use crate::telemetry;
use crate::telemetry::{FuelInput, FuelSnapshot, WeatherDerived};
use crate::text;

verus! {

/// Nanoseconds in a millisecond.
pub const NANOS_PER_MS: u64 = 1_000_000;

/// How often the session is described.
pub const SESSION_INTERVAL: u64 = 1_000_000_000;

/// How often the driver aids are sent.
pub const ELECTRONICS_INTERVAL: u64 = 200_000_000;

/// How often the race engineer looks at the state.
pub const ENGINEER_INTERVAL: u64 = 100_000_000;

/// A rate in frames per second; zero counts as one.
pub open spec fn at_least_one(fps: u32) -> int {
    if fps == 0 {
        1
    } else {
        fps as int
    }
}

/// How many milliseconds lie between two frames.
pub open spec fn interval_ms(fps: u32) -> int {
    1000int / at_least_one(fps)
}

/// How many milliseconds lie between two looks at the clock.
pub open spec fn spec_tick_ms(fps: u32) -> int {
    if 500int / at_least_one(fps) < 1 {
        1
    } else {
        500int / at_least_one(fps)
    }
}

/// How many milliseconds lie between two looks at the clock: half the interval of
/// the telemetry, so that no frame is missed.
pub fn tick_ms(telemetry_fps: u32) -> (ms: u64)
    ensures
        ms == spec_tick_ms(telemetry_fps),
{
    let fps: u32 = if telemetry_fps == 0 {
        1
    } else {
        telemetry_fps
    };
    let half: u32 = 500 / fps;
    if half < 1 {
        1
    } else {
        half as u64
    }
}

/// The clock is looked at twice for each frame of telemetry.
pub proof fn law_no_frame_is_missed(fps: u32)
    requires
        fps <= 500,
    ensures
        2 * spec_tick_ms(fps) <= interval_ms(fps),
{
    let f = at_least_one(fps);
    assert(500int / f >= 1 && 2 * (500int / f) <= 1000int / f) by (nonlinear_arith)
        requires
            1 <= f <= 500,
    ;
}

/// Whether a message is due that was last sent at `last`. One that was never sent
/// is.
pub open spec fn is_due(last: Option<u64>, now: u64, interval: u64) -> bool {
    match last {
        Some(t) => now >= t && now - t >= interval || interval == 0,
        None => true,
    }
}

/// Two messages of a kind lie at least an interval apart.
pub proof fn law_messages_keep_their_distance(sent: u64, now: u64, interval: u64)
    requires
        is_due(Some(sent), now, interval),
    ensures
        now - sent >= interval || interval == 0,
{
}

/// Whether a message is due.
fn due(last: Option<u64>, now: u64, interval: u64) -> (r: bool)
    ensures
        r == is_due(last, now, interval),
{
    match last {
        Some(t) => {
            let elapsed: u64 = if now > t {
                now - t
            } else {
                0
            };
            elapsed >= interval
        },
        None => true,
    }
}

/// Which messages are due.
#[derive(Debug, Clone, Copy, PartialEq, Eq, Structural)]
pub struct Due {
    pub telemetry: bool,
    /// The standings, and with them the status of our car.
    pub scoring: bool,
    pub session: bool,
    pub electronics: bool,
}

/// Whether a tick looks at everybody's laps: it does with the standings.
pub open spec fn looks_at_laps(state: TelemetryState, due: Due) -> bool {
    state.is_connected && due.scoring && state.scoring is Some
}

/// Whether a tick looks at everybody's laps.
pub fn laps_due(state: &TelemetryState, due: Due) -> (r: bool)
    ensures
        r == looks_at_laps(*state, due),
{
    state.is_connected && due.scoring && state.scoring.is_some()
}

/// What the broadcaster remembers from one tick to the next.
#[derive(Debug)]
pub struct Broadcaster {
    telemetry_interval: u64,
    scoring_interval: u64,
    last_telemetry: Option<u64>,
    last_scoring: Option<u64>,
    last_session: Option<u64>,
    last_electronics: Option<u64>,
    last_engineer: Option<u64>,
    player_id: i32,
    fuel_session_key: String,
    had_drivers_snapshot: bool,
}

/// What the broadcaster remembers.
pub struct BroadcasterState {
    pub telemetry_interval: u64,
    pub scoring_interval: u64,
    pub last_telemetry: Option<u64>,
    pub last_scoring: Option<u64>,
    pub last_session: Option<u64>,
    pub last_electronics: Option<u64>,
    pub last_engineer: Option<u64>,
    /// The id of our car in the last standings that were sent.
    pub player_id: i32,
    /// The session that the fuel strategy is of.
    pub fuel_session: Seq<char>,
    /// Whether the drivers have been sent at all.
    pub had_drivers: bool,
}

impl View for Broadcaster {
    type V = BroadcasterState;

    closed spec fn view(&self) -> BroadcasterState {
        BroadcasterState {
            telemetry_interval: self.telemetry_interval,
            scoring_interval: self.scoring_interval,
            last_telemetry: self.last_telemetry,
            last_scoring: self.last_scoring,
            last_session: self.last_session,
            last_electronics: self.last_electronics,
            last_engineer: self.last_engineer,
            player_id: self.player_id,
            fuel_session: self.fuel_session_key@,
            had_drivers: self.had_drivers_snapshot,
        }
    }
}

impl BroadcasterState {
    /// Which messages are due.
    pub open spec fn due(self, now: u64) -> Due {
        Due {
            telemetry: is_due(self.last_telemetry, now, self.telemetry_interval),
            scoring: is_due(self.last_scoring, now, self.scoring_interval),
            session: is_due(self.last_session, now, SESSION_INTERVAL),
            electronics: is_due(self.last_electronics, now, ELECTRONICS_INTERVAL),
        }
    }

    /// After a tick on a connected state. A message that was due but could not be
    /// made stays due.
    pub open spec fn after_tick(self, s: TelemetryState, due: Due, now: u64) -> BroadcasterState {
        BroadcasterState {
            last_telemetry: if due.telemetry && has_telemetry(s, self.player_id) {
                Some(now)
            } else {
                self.last_telemetry
            },
            last_scoring: if due.scoring && s.scoring is Some {
                Some(now)
            } else {
                self.last_scoring
            },
            last_session: if due.session && s.scoring is Some {
                Some(now)
            } else {
                self.last_session
            },
            last_electronics: if due.electronics {
                Some(now)
            } else {
                self.last_electronics
            },
            player_id: match s.scoring {
                Some(sc) if due.scoring => telemetry::player_id_of(sc.vehicles@) as i32,
                _ => self.player_id,
            },
            ..self
        }
    }
}

/// Whether there is a car to send telemetry of.
pub open spec fn has_telemetry(s: TelemetryState, id: i32) -> bool {
    match s.telemetry {
        Some(t) => telemetry::shown_row(t, id) is Some,
        None => false,
    }
}

/// Whether two histories of virtual energy are the same.
pub open spec fn same_history(a: Option<Vec<Double>>, b: Option<Vec<Double>>) -> bool {
    match (a, b) {
        (Some(x), Some(y)) => x@ == y@,
        (None, None) => true,
        _ => false,
    }
}

/// Whether a message is the telemetry of our car.
pub open spec fn is_telemetry_of(
    msg: ServerMessage,
    s: TelemetryState,
    id: i32,
    fuel: FuelSnapshot,
) -> bool {
    match s.telemetry {
        Some(t) => match telemetry::shown_row(t, id) {
            Some(i) => msg matches ServerMessage::TelemetryUpdate { ve_history, .. } && same_history(
                ve_history,
                s.ve_history,
            ) && msg == telemetry::update_of(
                t.vehicles@[i],
                fuel,
                ve_history,
                s.ve_available,
            ),
            None => false,
        },
        None => false,
    }
}

/// A copy of a history.
fn copy_history(h: &Option<Vec<Double>>) -> (r: Option<Vec<Double>>)
    ensures
        same_history(r, *h),
{
    match h {
        Some(v) => {
            let mut c: Vec<Double> = Vec::new();
            let mut i: usize = 0;
            while i < v.len()
                invariant
                    i <= v@.len(),
                    c@ == v@.take(i as int),
                decreases v@.len() - i,
            {
                proof {
                    assert(v@.take(i as int).push(v@[i as int]) == v@.take(i + 1));
                }
                c.push(v[i]);
                i += 1;
            }
            proof {
                assert(v@.take(i as int) == v@);
            }
            Some(c)
        },
        None => None,
    }
}

/// A copy of a forecast.
fn copy_forecast(v: &Vec<WeatherForecastNode>) -> (c: Vec<WeatherForecastNode>)
    ensures
        c@ == v@,
{
    let mut c: Vec<WeatherForecastNode> = Vec::new();
    let mut i: usize = 0;
    while i < v.len()
        invariant
            i <= v@.len(),
            c@ == v@.take(i as int),
        decreases v@.len() - i,
    {
        proof {
            assert(v@.take(i as int).push(v@[i as int]) == v@.take(i + 1));
        }
        c.push(v[i]);
        i += 1;
    }
    proof {
        assert(v@.take(i as int) == v@);
    }
    c
}

/// The messages of one tick, in the order in which they are broadcast.
#[derive(Debug)]
pub struct TickMessages {
    pub scoring: Option<ServerMessage>,
    pub status: Option<ServerMessage>,
    pub telemetry: Option<ServerMessage>,
    pub session: Option<ServerMessage>,
    pub electronics: Option<ServerMessage>,
}

/// A message, or none.
pub open spec fn one(m: Option<ServerMessage>) -> Seq<ServerMessage> {
    match m {
        Some(x) => seq![x],
        None => Seq::empty(),
    }
}

/// Adds a message, if there is one.
fn add_to(v: &mut Vec<ServerMessage>, m: Option<ServerMessage>)
    ensures
        final(v)@ == old(v)@ + one(m),
{
    match m {
        Some(x) => {
            v.push(x);
            proof {
                assert(v@ == old(v)@ + seq![x]);
            }
        },
        None => {
            proof {
                assert(v@ == old(v)@ + Seq::<ServerMessage>::empty());
            }
        },
    }
}

impl TickMessages {
    /// Whether there is no message.
    pub open spec fn is_empty(self) -> bool {
        &&& self.scoring is None
        &&& self.status is None
        &&& self.telemetry is None
        &&& self.session is None
        &&& self.electronics is None
    }

    /// Whether these are the messages that are due and can be made of what is known,
    /// each saying what it should, where our car is the one with this id.
    pub open spec fn says(
        self,
        state: TelemetryState,
        due: Due,
        player_id: i32,
        fuel: FuelSnapshot,
        distances: Seq<Double>,
        weather: WeatherDerived,
    ) -> bool {
        let tel = match state.telemetry {
            Some(t) => Some(&t),
            None => None,
        };
        let sc = match state.scoring {
            Some(s) => Some(&s),
            None => None,
        };
        &&& match self.scoring {
            Some(msg) => due.scoring && (state.scoring matches Some(f)
                && telemetry::is_scoring_update(msg, f, state.telemetry, distances)),
            None => !due.scoring || state.scoring is None,
        }
        &&& match self.status {
            Some(msg) => {
                &&& due.scoring
                &&& telemetry::tells_damage(msg, telemetry::damaged_row(tel, player_id))
                &&& telemetry::tells_flags(msg, sc, player_id)
                &&& telemetry::tells_wear(msg, state.wearables)
            },
            None => !due.scoring,
        }
        &&& match self.telemetry {
            Some(msg) => due.telemetry && is_telemetry_of(msg, state, player_id, fuel),
            None => !due.telemetry || !has_telemetry(state, player_id),
        }
        &&& match self.session {
            Some(msg) => due.session && (state.scoring matches Some(f)
                && telemetry::is_session_info(msg, f, state.weather_forecast@, weather)),
            None => !due.session || state.scoring is None,
        }
        &&& match self.electronics {
            Some(msg) => due.electronics && is_electronics_of(msg, state),
            None => !due.electronics,
        }
    }

    /// The messages in the order in which they are broadcast.
    pub fn in_order(self) -> (v: Vec<ServerMessage>)
        ensures
            v@ == one(self.scoring) + one(self.status) + one(self.telemetry) + one(self.session)
                + one(self.electronics),
    {
        let mut v: Vec<ServerMessage> = Vec::new();
        add_to(&mut v, self.scoring);
        add_to(&mut v, self.status);
        add_to(&mut v, self.telemetry);
        add_to(&mut v, self.session);
        add_to(&mut v, self.electronics);
        proof {
            assert(v@ == one(self.scoring) + one(self.status) + one(self.telemetry) + one(
                self.session,
            ) + one(self.electronics));
        }
        v
    }
}

/// What to do with a new picture of all drivers.
#[derive(Debug)]
pub enum DriversStep {
    /// Nothing.
    Nothing,
    /// Keep it for those who connect later.
    Keep(ServerMessage),
    /// Keep it, and broadcast it.
    Broadcast(ServerMessage),
}

impl Broadcaster {
    /// A broadcaster with these rates, before its first tick.
    pub fn new(telemetry_fps: u32, scoring_fps: u32) -> (b: Broadcaster)
        ensures
            b@ == (BroadcasterState {
                telemetry_interval: (interval_ms(telemetry_fps) * NANOS_PER_MS) as u64,
                scoring_interval: (interval_ms(scoring_fps) * NANOS_PER_MS) as u64,
                last_telemetry: None,
                last_scoring: None,
                last_session: None,
                last_electronics: None,
                last_engineer: None,
                player_id: (-1int) as i32,
                fuel_session: Seq::empty(),
                had_drivers: false,
            }),
    {
        let t: u64 = if telemetry_fps == 0 {
            1
        } else {
            telemetry_fps as u64
        };
        let s: u64 = if scoring_fps == 0 {
            1
        } else {
            scoring_fps as u64
        };
        proof {
            assert(1000u64 / t <= 1000) by (nonlinear_arith)
                requires
                    t >= 1,
            ;
            assert(1000u64 / s <= 1000) by (nonlinear_arith)
                requires
                    s >= 1,
            ;
        }
        let b = Broadcaster {
            telemetry_interval: (1000 / t) * NANOS_PER_MS,
            scoring_interval: (1000 / s) * NANOS_PER_MS,
            last_telemetry: None,
            last_scoring: None,
            last_session: None,
            last_electronics: None,
            last_engineer: None,
            player_id: -1,
            fuel_session_key: String::new(),
            had_drivers_snapshot: false,
        };
        proof {
            assert(b@.fuel_session == Seq::<char>::empty());
        }
        b
    }

    /// Which messages are due.
    pub fn due(&self, now: u64) -> (d: Due)
        ensures
            d == self@.due(now),
    {
        Due {
            telemetry: due(self.last_telemetry, now, self.telemetry_interval),
            scoring: due(self.last_scoring, now, self.scoring_interval),
            session: due(self.last_session, now, SESSION_INTERVAL),
            electronics: due(self.last_electronics, now, ELECTRONICS_INTERVAL),
        }
    }

    /// Looks whether the session is another one than that of the fuel strategy,
    /// which then starts anew. Without the game, or without standings, nothing is
    /// looked at.
    pub fn fuel_session(&mut self, state: &TelemetryState) -> (reset: bool)
        ensures
            match state.scoring {
                Some(sc) if state.is_connected => {
                    &&& reset == (old(self)@.fuel_session.len() > 0 && polling::session_key(sc)
                        != old(self)@.fuel_session)
                    &&& final(self)@ == (BroadcasterState {
                        fuel_session: polling::session_key(sc),
                        ..old(self)@
                    })
                },
                _ => !reset && final(self)@ == old(self)@,
            },
    {
        if !state.is_connected {
            return false;
        }
        let key = match &state.scoring {
            Some(sc) => polling::session_key_of(sc),
            None => return false,
        };
        proof {
            reveal_strlit("");
            if self.fuel_session_key@.len() == 0 {
                assert(self.fuel_session_key@ == ""@);
            }
        }
        let reset = !text::same(&self.fuel_session_key, "") && !text::same(
            &key,
            &self.fuel_session_key,
        );
        self.fuel_session_key = key;
        reset
    }

    /// What the fuel strategy is to be updated with, where the game is connected,
    /// telemetry is due and both blocks are there.
    pub fn fuel_update(&self, state: &TelemetryState, due: Due) -> (input: Option<FuelInput>)
        ensures
            input is Some <==> state.is_connected && due.telemetry && state.telemetry is Some
                && state.scoring is Some,
            input matches Some(f) ==> {
                &&& f.fuel == (match telemetry::our_row(
                    state.telemetry->Some_0,
                    self@.player_id,
                ) {
                    Some(i) => state.telemetry->Some_0.vehicles@[i].fuel,
                    None => Double { bits: 0 },
                })
                &&& f.laps_remaining == telemetry::laps_left(
                    state.scoring->Some_0.info.max_laps,
                    f.lap as int,
                )
                &&& ({
                    let rows = state.scoring->Some_0.vehicles@;
                    let k = telemetry::flagged_row(rows, self@.player_id);
                    if k < rows.len() {
                        &&& f.lap == rows[k].total_laps
                        &&& f.in_pits == (rows[k].in_pits != 0)
                        &&& f.last_lap_time == rows[k].last_lap_time
                    } else {
                        &&& f.lap == 0
                        &&& !f.in_pits
                        &&& f.last_lap_time == (Double { bits: telemetry::MINUS_ONE })
                    }
                })
            },
    {
        if !state.is_connected || !due.telemetry {
            return None;
        }
        match (&state.telemetry, &state.scoring) {
            (Some(tel), Some(sc)) => Some(telemetry::fuel_input(tel, sc, self.player_id)),
            _ => None,
        }
    }

    /// The messages of one tick at time `now`, where `due` says which are due. The
    /// standings are made from both blocks and say which car is ours from then on.
    /// While the game is not connected nothing is published.
    pub fn tick(
        &mut self,
        state: &TelemetryState,
        due: Due,
        now: u64,
        fuel: &FuelSnapshot,
        distances: &Vec<Double>,
        weather: &WeatherDerived,
    ) -> (m: TickMessages)
        requires
            state.scoring matches Some(sc) ==> distances@.len() == sc.vehicles@.len(),
        ensures
            !state.is_connected ==> m.is_empty() && final(self)@ == old(self)@,
            state.is_connected ==> final(self)@ == old(self)@.after_tick(*state, due, now)
                && m.says(*state, due, old(self)@.player_id, *fuel, distances@, *weather),
    {
        if !state.is_connected {
            return TickMessages {
                scoring: None,
                status: None,
                telemetry: None,
                session: None,
                electronics: None,
            };
        }
        let id = self.player_id;
        let tel = match &state.telemetry {
            Some(t) => Some(t),
            None => None,
        };
        let sc = match &state.scoring {
            Some(s) => Some(s),
            None => None,
        };
        let telemetry_msg = if due.telemetry {
            match tel {
                Some(t) => telemetry::build_telemetry_update(
                    t,
                    id,
                    fuel,
                    copy_history(&state.ve_history),
                    state.ve_available,
                ),
                None => None,
            }
        } else {
            None
        };
        let scoring_result = if due.scoring {
            match sc {
                Some(s) => Some(telemetry::build_scoring_update(s, tel, distances)),
                None => None,
            }
        } else {
            None
        };
        let session_msg = if due.session {
            match sc {
                Some(s) => Some(
                    telemetry::build_session_info(
                        s,
                        copy_forecast(&state.weather_forecast),
                        weather,
                    ),
                ),
                None => None,
            }
        } else {
            None
        };
        let status_msg = if due.scoring {
            Some(telemetry::build_vehicle_status(tel, sc, id, &state.wearables))
        } else {
            None
        };
        let electronics_msg = if due.electronics {
            Some(telemetry::build_electronics_update(&state.electronics))
        } else {
            None
        };
        let scoring_msg = match scoring_result {
            Some((msg, pid)) => {
                self.player_id = pid;
                self.last_scoring = Some(now);
                Some(msg)
            },
            None => None,
        };
        if telemetry_msg.is_some() {
            self.last_telemetry = Some(now);
        }
        if session_msg.is_some() {
            self.last_session = Some(now);
        }
        if electronics_msg.is_some() {
            self.last_electronics = Some(now);
        }
        TickMessages {
            scoring: scoring_msg,
            status: status_msg,
            telemetry: telemetry_msg,
            session: session_msg,
            electronics: electronics_msg,
        }
    }

    /// What to do with a new picture of all drivers, which there is once somebody
    /// has crossed the line. It is broadcast when somebody just did, and the first
    /// time. In a tick that does not look at the laps nothing is done with it.
    pub fn drivers(
        &mut self,
        state: &TelemetryState,
        due: Due,
        any_new: bool,
        has_snapshots: bool,
        picture: Option<ServerMessage>,
    ) -> (step: DriversStep)
        ensures
            final(self)@ == (BroadcasterState {
                had_drivers: old(self)@.had_drivers || (looks_at_laps(*state, due)
                    && has_snapshots && picture is Some),
                ..old(self)@
            }),
            step == (match picture {
                Some(msg) if looks_at_laps(*state, due) && has_snapshots => if any_new || !old(
                    self,
                )@.had_drivers {
                    DriversStep::Broadcast(msg)
                } else {
                    DriversStep::Keep(msg)
                },
                _ => DriversStep::Nothing,
            }),
    {
        let first = !self.had_drivers_snapshot && has_snapshots;
        if !laps_due(state, due) || !has_snapshots {
            return DriversStep::Nothing;
        }
        match picture {
            Some(msg) => {
                self.had_drivers_snapshot = true;
                if any_new || first {
                    DriversStep::Broadcast(msg)
                } else {
                    DriversStep::Keep(msg)
                }
            },
            None => DriversStep::Nothing,
        }
    }

    /// Whether it is time for the race engineer to look at the state. It never is
    /// while the game is not connected.
    pub fn engineer_due(&mut self, state: &TelemetryState, now: u64) -> (r: bool)
        ensures
            r == (state.is_connected && is_due(old(self)@.last_engineer, now, ENGINEER_INTERVAL)),
            final(self)@ == (BroadcasterState {
                last_engineer: if r {
                    Some(now)
                } else {
                    old(self)@.last_engineer
                },
                ..old(self)@
            }),
    {
        if state.is_connected && due(self.last_engineer, now, ENGINEER_INTERVAL) {
            self.last_engineer = Some(now);
            true
        } else {
            false
        }
    }
}

/// Whether a message says what the driver aids are.
pub open spec fn is_electronics_of(msg: ServerMessage, s: TelemetryState) -> bool {
    let e = s.electronics;
    msg == (ServerMessage::ElectronicsUpdate {
        tc: e.tc,
        tc_max: e.tc_max,
        tc_cut: e.tc_cut,
        tc_cut_max: e.tc_cut_max,
        tc_slip: e.tc_slip,
        tc_slip_max: e.tc_slip_max,
        abs: e.abs,
        abs_max: e.abs_max,
        engine_map: e.engine_map,
        engine_map_max: e.engine_map_max,
        front_arb: e.front_arb,
        front_arb_max: e.front_arb_max,
        rear_arb: e.rear_arb,
        rear_arb_max: e.rear_arb_max,
        brake_bias: e.brake_bias,
        regen: e.regen,
        brake_migration: e.brake_migration,
        brake_migration_max: e.brake_migration_max,
        battery_pct: e.battery_pct,
        soc: e.soc,
        virtual_energy: e.virtual_energy,
        tc_active: e.tc_active,
        abs_active: e.abs_active,
    })
}

// ---------------------------------------------------------------------------
// What the race engineer says
// ---------------------------------------------------------------------------

/// The name that the engineer may call the driver by.
pub fn spoken_name(mute_name: bool, pilot_name: Option<String>) -> (name: Option<String>)
    ensures
        name == (if mute_name {
            None
        } else {
            pilot_name
        }),
{
    if mute_name {
        None
    } else {
        pilot_name
    }
}

/// What becomes of an event of the race engineer.
#[derive(Debug)]
pub enum EngineerCall {
    /// Say this, in this voice.
    Speak { text: String, voice_id: String },
    /// Nothing: there is no such template.
    UnknownTemplate,
    /// Nothing: no voice was chosen.
    NoVoice,
}

/// What becomes of an event of the race engineer, where `text` is what its
/// template renders to.
pub fn engineer_call(text: Option<String>, active_voice: Option<String>) -> (call: EngineerCall)
    ensures
        call == (match (text, active_voice) {
            (None, _) => EngineerCall::UnknownTemplate,
            (Some(_), None) => EngineerCall::NoVoice,
            (Some(text), Some(voice_id)) => EngineerCall::Speak { text, voice_id },
        }),
{
    match (text, active_voice) {
        (None, _) => EngineerCall::UnknownTemplate,
        (Some(_), None) => EngineerCall::NoVoice,
        (Some(text), Some(voice_id)) => EngineerCall::Speak { text, voice_id },
    }
}

/// What the audio clients get when a rule has fired.
pub fn rule_audio(rule_id: &str, priority: String, spoken: String, speech: Speech) -> (msg:
    ServerMessage)
    ensures
        msg matches ServerMessage::EngineerAudio {
            request_id,
            priority: p,
            wav_base64,
            sample_rate,
            duration_ms,
            text: t,
        } && request_id@ == "rule_"@ + rule_id@ && p == priority && wav_base64 == speech.wav_base64
            && sample_rate == speech.sample_rate && duration_ms == speech.duration_ms && t
            == spoken,
{
    let mut request_id: String = "rule_".to_owned();
    request_id.append(rule_id);
    ServerMessage::EngineerAudio {
        request_id,
        priority,
        wav_base64: speech.wav_base64,
        sample_rate: speech.sample_rate,
        duration_ms: speech.duration_ms,
        text: spoken,
    }
}

// ---------------------------------------------------------------------------
// Laws
// ---------------------------------------------------------------------------

/// The interval of a rate is the whole number of milliseconds that fits so often into
/// a second, and a look at the clock takes half of it, but at least one. Zero counts
/// as one frame per second.
pub proof fn law_an_interval_fits_into_a_second(fps: u32)
    ensures
        fps > 0 ==> interval_ms(fps) * fps <= 1000 < (interval_ms(fps) + 1) * fps,
        fps == 0 ==> interval_ms(fps) == 1000,
        0 < fps <= 500 ==> spec_tick_ms(fps) * fps <= 500 < (spec_tick_ms(fps) + 1) * fps,
        fps > 500 ==> spec_tick_ms(fps) == 1,
        fps == 0 ==> spec_tick_ms(fps) == 500,
{
    if fps > 0 {
        let f = fps as int;
        vstd::arithmetic::div_mod::lemma_fundamental_div_mod(1000, f);
        vstd::arithmetic::div_mod::lemma_fundamental_div_mod(500, f);
        let q = 1000int / f;
        let h = 500int / f;
        assert(q * f == f * q && (q + 1) * f == f * q + f) by (nonlinear_arith);
        assert(h * f == f * h && (h + 1) * f == f * h + f) by (nonlinear_arith);
        if f > 500 {
            assert(h < 1) by (nonlinear_arith)
                requires
                    500 == f * h + 500int % f,
                    f > 500,
                    0 <= 500int % f,
            ;
        } else {
            assert(h >= 1) by (nonlinear_arith)
                requires
                    500 == f * h + 500int % f,
                    500int % f < f,
                    0 < f <= 500,
            ;
        }
    }
}

/// A broadcaster starts with the intervals of its rates, with nothing sent and with no
/// car taken for ours.
pub proof fn law_a_broadcaster_starts_empty(telemetry_fps: u32, scoring_fps: u32, b: Broadcaster)
    requires
        call_ensures(Broadcaster::new, (telemetry_fps, scoring_fps), b),
    ensures
        telemetry_fps > 0 ==> b@.telemetry_interval * telemetry_fps <= 1_000_000_000 < (
        b@.telemetry_interval + 1_000_000) * telemetry_fps,
        telemetry_fps == 0 ==> b@.telemetry_interval == 1_000_000_000,
        scoring_fps > 0 ==> b@.scoring_interval * scoring_fps <= 1_000_000_000 < (
        b@.scoring_interval + 1_000_000) * scoring_fps,
        scoring_fps == 0 ==> b@.scoring_interval == 1_000_000_000,
        b@.last_telemetry is None,
        b@.last_scoring is None,
        b@.last_session is None,
        b@.last_electronics is None,
        b@.last_engineer is None,
        b@.player_id == -1,
        b@.fuel_session.len() == 0,
        !b@.had_drivers,
{
    lemma_interval_nanos(telemetry_fps);
    lemma_interval_nanos(scoring_fps);
}

proof fn lemma_interval_nanos(fps: u32)
    ensures
        0 <= interval_ms(fps) * NANOS_PER_MS <= 1_000_000_000,
        fps > 0 ==> (interval_ms(fps) * NANOS_PER_MS) * fps <= 1_000_000_000 < (interval_ms(fps)
            * NANOS_PER_MS + 1_000_000) * fps,
        fps == 0 ==> interval_ms(fps) * NANOS_PER_MS == 1_000_000_000,
{
    law_an_interval_fits_into_a_second(fps);
    let q = interval_ms(fps);
    if fps > 0 {
        let f = fps as int;
        assert(0 <= q <= 1000) by (nonlinear_arith)
            requires
                q * f <= 1000 < (q + 1) * f,
                f > 0,
        ;
        assert((q * 1_000_000) * f == 1_000_000 * (q * f)) by (nonlinear_arith);
        assert((q * 1_000_000 + 1_000_000) * f == 1_000_000 * ((q + 1) * f)) by (nonlinear_arith);
    }
}

/// A message is due that was never sent, or whose interval has passed since.
pub proof fn law_due_is_when_the_interval_has_passed(last: u64, now: u64, interval: u64)
    ensures
        is_due(None, now, interval),
        now >= last ==> (is_due(Some(last), now, interval) <==> now >= last + interval),
        now < last ==> (is_due(Some(last), now, interval) <==> interval == 0),
{
}

/// Each kind of message has an interval of its own: telemetry and standings those of
/// their rates, the session a second and the driver aids a fifth of one.
pub proof fn law_each_kind_has_its_own_interval(b: BroadcasterState, now: u64)
    ensures
        b.due(now).telemetry <==> is_due(b.last_telemetry, now, b.telemetry_interval),
        b.due(now).scoring <==> is_due(b.last_scoring, now, b.scoring_interval),
        b.due(now).session <==> is_due(b.last_session, now, 1_000_000_000),
        b.due(now).electronics <==> is_due(b.last_electronics, now, 200_000_000),
        ENGINEER_INTERVAL == 100_000_000,
{
}

/// What was due and could be made counts as sent now; all else stays due as it was.
pub proof fn law_what_was_sent_is_remembered(
    b: BroadcasterState,
    s: TelemetryState,
    due: Due,
    now: u64,
)
    ensures
        ({
            let a = b.after_tick(s, due, now);
            let cars = s.telemetry is Some && s.telemetry->Some_0.vehicles@.len() > 0;
            &&& due.telemetry && cars ==> a.last_telemetry == Some(now)
            &&& !due.telemetry || !cars ==> a.last_telemetry == b.last_telemetry
            &&& due.scoring && s.scoring is Some ==> a.last_scoring == Some(now)
            &&& !due.scoring || s.scoring is None ==> a.last_scoring == b.last_scoring
            &&& due.session && s.scoring is Some ==> a.last_session == Some(now)
            &&& !due.session || s.scoring is None ==> a.last_session == b.last_session
            &&& due.electronics ==> a.last_electronics == Some(now)
            &&& !due.electronics ==> a.last_electronics == b.last_electronics
            &&& a.last_engineer == b.last_engineer
            &&& a.telemetry_interval == b.telemetry_interval
            &&& a.scoring_interval == b.scoring_interval
            &&& a.fuel_session == b.fuel_session
            &&& a.had_drivers == b.had_drivers
            &&& !due.scoring || s.scoring is None ==> a.player_id == b.player_id
        }),
{
    if s.telemetry is Some {
        telemetry::law_the_shown_row_is_ours_or_the_first(s.telemetry->Some_0, b.player_id);
    }
}

/// Standings that are sent say which car is ours from then on: the last one that is
/// marked as the player's.
pub proof fn law_standings_say_which_car_is_ours(
    b: BroadcasterState,
    s: TelemetryState,
    due: Due,
    now: u64,
    i: int,
)
    requires
        due.scoring,
        s.scoring is Some,
        -1 <= i < s.scoring->Some_0.vehicles@.len(),
        i >= 0 ==> s.scoring->Some_0.vehicles@[i].is_player != 0,
        forall|j: int|
            i < j < s.scoring->Some_0.vehicles@.len() ==> (
            #[trigger] s.scoring->Some_0.vehicles@[j]).is_player == 0,
    ensures
        i >= 0 ==> b.after_tick(s, due, now).player_id == s.scoring->Some_0.vehicles@[i].id,
        i == -1 ==> b.after_tick(s, due, now).player_id == -1,
{
    telemetry::law_the_player_id_is_of_a_marked_row(s.scoring->Some_0.vehicles@, i);
}

/// A tick makes exactly the messages that are due and can be made: standings and the
/// session's message of the scoring block, the status with the standings, telemetry of
/// any car at all, and the driver aids always.
pub proof fn law_a_tick_makes_what_is_due(
    m: TickMessages,
    state: TelemetryState,
    due: Due,
    id: i32,
    fuel: FuelSnapshot,
    distances: Seq<Double>,
    weather: WeatherDerived,
)
    requires
        m.says(state, due, id, fuel, distances, weather),
    ensures
        m.scoring is Some <==> due.scoring && state.scoring is Some,
        m.status is Some <==> due.scoring,
        m.telemetry is Some <==> due.telemetry && state.telemetry is Some
            && state.telemetry->Some_0.vehicles@.len() > 0,
        m.session is Some <==> due.session && state.scoring is Some,
        m.electronics is Some <==> due.electronics,
        m.scoring matches Some(x) ==> x is ScoringUpdate,
        m.status matches Some(x) ==> x is VehicleStatusUpdate,
        m.telemetry matches Some(x) ==> x is TelemetryUpdate,
        m.session matches Some(x) ==> x is SessionInfo,
        m.electronics matches Some(x) ==> x is ElectronicsUpdate,
{
    if state.telemetry is Some {
        telemetry::law_the_shown_row_is_ours_or_the_first(state.telemetry->Some_0, id);
    }
}

/// The telemetry of a tick carries the readings of our car, the fuel strategy and the
/// energy that are known, under their own names.
pub proof fn law_a_tick_sends_the_readings_of_our_car(
    m: TickMessages,
    state: TelemetryState,
    due: Due,
    id: i32,
    fuel: FuelSnapshot,
    distances: Seq<Double>,
    weather: WeatherDerived,
    i: int,
)
    requires
        m.says(state, due, id, fuel, distances, weather),
        m.telemetry is Some,
        state.telemetry is Some,
        telemetry::shown_row(state.telemetry->Some_0, id) == Some(i),
    ensures
        m.telemetry->Some_0 is TelemetryUpdate,
        ({
            let t = m.telemetry->Some_0;
            let v = state.telemetry->Some_0.vehicles@[i];
            &&& t->TelemetryUpdate_speed_ms == v.speed_ms
            &&& t->TelemetryUpdate_rpm == v.rpm
            &&& t->TelemetryUpdate_gear == v.gear
            &&& t->TelemetryUpdate_throttle == v.throttle
            &&& t->TelemetryUpdate_brake == v.brake
            &&& t->TelemetryUpdate_clutch == v.clutch
            &&& t->TelemetryUpdate_steering == v.steering
            &&& t->TelemetryUpdate_fuel == v.fuel
            &&& t->TelemetryUpdate_tires == v.tires
            &&& t->TelemetryUpdate_fuel_laps_remaining == fuel.laps_remaining
            &&& t->TelemetryUpdate_fuel_recommended == fuel.recommended
            &&& t->TelemetryUpdate_ve_available == state.ve_available
            &&& t->TelemetryUpdate_ve_history is Some <==> state.ve_history is Some
            &&& t->TelemetryUpdate_ve_history is Some
                ==> t->TelemetryUpdate_ve_history->Some_0@ == state.ve_history->Some_0@
        }),
{
}

/// The driver aids of a tick are those that are known, each under its own name.
pub proof fn law_a_tick_sends_the_driver_aids(msg: ServerMessage, s: TelemetryState)
    requires
        is_electronics_of(msg, s),
    ensures
        msg is ElectronicsUpdate,
        msg->ElectronicsUpdate_tc == s.electronics.tc,
        msg->ElectronicsUpdate_tc_max == s.electronics.tc_max,
        msg->ElectronicsUpdate_tc_cut == s.electronics.tc_cut,
        msg->ElectronicsUpdate_tc_cut_max == s.electronics.tc_cut_max,
        msg->ElectronicsUpdate_tc_slip == s.electronics.tc_slip,
        msg->ElectronicsUpdate_tc_slip_max == s.electronics.tc_slip_max,
        msg->ElectronicsUpdate_abs == s.electronics.abs,
        msg->ElectronicsUpdate_abs_max == s.electronics.abs_max,
        msg->ElectronicsUpdate_engine_map == s.electronics.engine_map,
        msg->ElectronicsUpdate_engine_map_max == s.electronics.engine_map_max,
        msg->ElectronicsUpdate_front_arb == s.electronics.front_arb,
        msg->ElectronicsUpdate_front_arb_max == s.electronics.front_arb_max,
        msg->ElectronicsUpdate_rear_arb == s.electronics.rear_arb,
        msg->ElectronicsUpdate_rear_arb_max == s.electronics.rear_arb_max,
        msg->ElectronicsUpdate_brake_bias == s.electronics.brake_bias,
        msg->ElectronicsUpdate_regen == s.electronics.regen,
        msg->ElectronicsUpdate_brake_migration == s.electronics.brake_migration,
        msg->ElectronicsUpdate_brake_migration_max == s.electronics.brake_migration_max,
        msg->ElectronicsUpdate_battery_pct == s.electronics.battery_pct,
        msg->ElectronicsUpdate_soc == s.electronics.soc,
        msg->ElectronicsUpdate_virtual_energy == s.electronics.virtual_energy,
        msg->ElectronicsUpdate_tc_active == s.electronics.tc_active,
        msg->ElectronicsUpdate_abs_active == s.electronics.abs_active,
{
}

/// The messages of a tick go out as standings, status, telemetry, session and driver
/// aids, without those that were not made.
pub proof fn law_messages_go_out_in_order(m: TickMessages, v: Vec<ServerMessage>)
    requires
        call_ensures(TickMessages::in_order, (m,), v),
    ensures
        v@ == (match m.scoring {
            Some(x) => seq![x],
            None => Seq::empty(),
        }) + (match m.status {
            Some(x) => seq![x],
            None => Seq::empty(),
        }) + (match m.telemetry {
            Some(x) => seq![x],
            None => Seq::empty(),
        }) + (match m.session {
            Some(x) => seq![x],
            None => Seq::empty(),
        }) + (match m.electronics {
            Some(x) => seq![x],
            None => Seq::empty(),
        }),
{
}

/// Everybody's laps are looked at with the standings of a game that is connected, and
/// never else.
pub proof fn law_laps_are_looked_at_with_the_standings(state: TelemetryState, due: Due)
    ensures
        looks_at_laps(state, due) <==> state.is_connected && due.scoring && state.scoring is Some,
{
}

/// An event is spoken exactly where it has a text and a voice was chosen, as that text
/// in that voice.
pub proof fn law_an_event_is_spoken_in_the_chosen_voice(
    text: Option<String>,
    voice: Option<String>,
    call: EngineerCall,
)
    requires
        call_ensures(engineer_call, (text, voice), call),
    ensures
        call is Speak <==> text is Some && voice is Some,
        call is UnknownTemplate <==> text is None,
        call is NoVoice <==> text is Some && voice is None,
        call matches EngineerCall::Speak { text: t, voice_id } ==> text == Some(t) && voice == Some(
            voice_id,
        ),
{
}

/// The engineer calls the driver by name unless that is muted.
pub proof fn law_a_muted_name_is_not_spoken(mute: bool, pilot: Option<String>, name: Option<String>)
    requires
        call_ensures(spoken_name, (mute, pilot), name),
    ensures
        mute ==> name is None,
        !mute ==> name == pilot,
{
}

// ---------------------------------------------------------------------------
// Laws of the operations
// ---------------------------------------------------------------------------

/// The loop ticks at least twice in every interval of the telemetry, and every
/// millisecond at the most.
pub proof fn law_the_loop_ticks_twice_an_interval(fps: u32, ms: u64)
    requires
        call_ensures(tick_ms, (fps,), ms),
    ensures
        fps == 0 ==> ms == 500,
        0 < fps <= 500 ==> ms * fps <= 500 < (ms + 1) * fps,
        fps > 500 ==> ms == 1,
{
    law_an_interval_fits_into_a_second(fps);
}

/// Laps are looked at when the standings are due and there are any.
pub proof fn law_laps_are_due_with_the_standings(state: TelemetryState, due: Due, r: bool)
    requires
        call_ensures(laps_due, (&state, due), r),
    ensures
        r <==> state.is_connected && due.scoring && state.scoring is Some,
{
}

/// Each kind is due when it was never sent, or when its own interval has passed since:
/// a second for the session, a fifth of one for the driver aids.
pub proof fn law_each_kind_is_due_by_itself(b: Broadcaster, now: u64, d: Due)
    requires
        call_ensures(Broadcaster::due, (&b, now), d),
        b@.last_telemetry is Some ==> b@.last_telemetry->Some_0 <= now,
        b@.last_scoring is Some ==> b@.last_scoring->Some_0 <= now,
        b@.last_session is Some ==> b@.last_session->Some_0 <= now,
        b@.last_electronics is Some ==> b@.last_electronics->Some_0 <= now,
    ensures
        d.telemetry <==> (b@.last_telemetry is Some ==> now - b@.last_telemetry->Some_0
            >= b@.telemetry_interval),
        d.scoring <==> (b@.last_scoring is Some ==> now - b@.last_scoring->Some_0
            >= b@.scoring_interval),
        d.session <==> (b@.last_session is Some ==> now - b@.last_session->Some_0
            >= 1_000_000_000),
        d.electronics <==> (b@.last_electronics is Some ==> now - b@.last_electronics->Some_0
            >= 200_000_000),
{
    law_each_kind_has_its_own_interval(b@, now);
}

/// The fuel strategy starts over where the session is another one than before, and
/// only there. What is remembered is the session that is driven.
pub proof fn law_another_session_starts_the_fuel_over(
    b: &mut Broadcaster,
    state: TelemetryState,
    reset: bool,
)
    requires
        call_ensures(Broadcaster::fuel_session, (b, &state), reset),
    ensures
        reset <==> state.is_connected && state.scoring is Some && old(b)@.fuel_session.len() > 0
            && old(b)@.fuel_session != polling::session_key(state.scoring->Some_0),
        state.is_connected && state.scoring is Some ==> final(b)@.fuel_session
            == polling::session_key(state.scoring->Some_0),
        !state.is_connected || state.scoring is None ==> final(b)@ == old(b)@,
        final(b)@.player_id == old(b)@.player_id,
        final(b)@.last_telemetry == old(b)@.last_telemetry,
        final(b)@.last_scoring == old(b)@.last_scoring,
        final(b)@.last_session == old(b)@.last_session,
        final(b)@.last_electronics == old(b)@.last_electronics,
        final(b)@.last_engineer == old(b)@.last_engineer,
        final(b)@.had_drivers == old(b)@.had_drivers,
{
}

/// The fuel strategy is given the fuel, the lap, the pit and the last lap time of our
/// car, with every update of the telemetry for which both blocks are there.
pub proof fn law_the_fuel_strategy_is_given_our_car(
    b: Broadcaster,
    state: TelemetryState,
    due: Due,
    input: Option<FuelInput>,
    i: int,
    k: int,
)
    requires
        call_ensures(Broadcaster::fuel_update, (&b, &state, due), input),
    ensures
        input is Some <==> state.is_connected && due.telemetry && state.telemetry is Some
            && state.scoring is Some,
        input is Some && telemetry::our_row(state.telemetry->Some_0, b@.player_id) == Some(i)
            ==> input->Some_0.fuel == state.telemetry->Some_0.vehicles@[i].fuel,
        ({
            let rows = state.scoring->Some_0.vehicles@;
            let id = b@.player_id;
            let max = state.scoring->Some_0.info.max_laps;
            let f = input->Some_0;
            &&& input is Some && 0 <= k < rows.len() && (rows[k].id == id || rows[k].is_player != 0)
                && (forall|j: int|
                0 <= j < k ==> (#[trigger] rows[j]).id != id && rows[j].is_player == 0) ==> f.lap
                == rows[k].total_laps && (f.in_pits <==> rows[k].in_pits != 0) && f.last_lap_time
                == rows[k].last_lap_time
            &&& input is Some && 0 < max < 999_000 && f.lap <= max ==> f.laps_remaining + f.lap
                == max
            &&& input is Some && 0 < max < 999_000 && f.lap > max ==> f.laps_remaining == 0
            &&& input is Some && (max <= 0 || max >= 999_000) ==> f.laps_remaining == -1
        }),
{
    if input is Some {
        let rows = state.scoring->Some_0.vehicles@;
        telemetry::law_flags_are_read_from_our_row(rows, b@.player_id);
        telemetry::law_laps_left_and_driven_make_up_the_limit(
            state.scoring->Some_0.info.max_laps,
            input->Some_0.lap as int,
        );
        let q = telemetry::flagged_row(rows, b@.player_id);
        if 0 <= k < rows.len() && (rows[k].id == b@.player_id || rows[k].is_player != 0) && (
        forall|j: int|
            0 <= j < k ==> (#[trigger] rows[j]).id != b@.player_id && rows[j].is_player == 0) {
            if q < k {
                assert(rows[q].id != b@.player_id);
            } else if k < q {
                assert(rows[k].id != b@.player_id);
            }
        }
    }
}

/// Without the game a tick sends nothing and remembers nothing.
pub proof fn law_without_the_game_nothing_is_sent(
    b: &mut Broadcaster,
    state: TelemetryState,
    due: Due,
    now: u64,
    fuel: FuelSnapshot,
    distances: Vec<Double>,
    weather: WeatherDerived,
    m: TickMessages,
)
    requires
        call_ensures(
            Broadcaster::tick,
            (b, &state, due, now, &fuel, &distances, &weather),
            m,
        ),
        !state.is_connected,
    ensures
        m.scoring is None,
        m.status is None,
        m.telemetry is None,
        m.session is None,
        m.electronics is None,
        final(b)@ == old(b)@,
{
}

/// With the game a tick sends each kind that is due and can be made, of what is known
/// and of the car that was ours when the standings were last sent.
pub proof fn law_a_tick_tells_what_is_known(
    b: &mut Broadcaster,
    state: TelemetryState,
    due: Due,
    now: u64,
    fuel: FuelSnapshot,
    distances: Vec<Double>,
    weather: WeatherDerived,
    m: TickMessages,
)
    requires
        call_ensures(
            Broadcaster::tick,
            (b, &state, due, now, &fuel, &distances, &weather),
            m,
        ),
        state.is_connected,
    ensures
        m.scoring is Some <==> due.scoring && state.scoring is Some,
        m.status is Some <==> due.scoring,
        m.telemetry is Some <==> due.telemetry && state.telemetry is Some
            && state.telemetry->Some_0.vehicles@.len() > 0,
        m.session is Some <==> due.session && state.scoring is Some,
        m.electronics is Some <==> due.electronics,
        m.scoring is Some ==> telemetry::is_scoring_update(
            m.scoring->Some_0,
            state.scoring->Some_0,
            state.telemetry,
            distances@,
        ),
        m.status is Some ==> telemetry::tells_wear(m.status->Some_0, state.wearables),
        m.status is Some && state.scoring is Some ==> telemetry::tells_flags(
            m.status->Some_0,
            Some(&state.scoring->Some_0),
            old(b)@.player_id,
        ),
        m.status is Some && state.scoring is None ==> telemetry::tells_flags(
            m.status->Some_0,
            None,
            old(b)@.player_id,
        ),
        m.status is Some && state.telemetry is Some ==> telemetry::tells_damage(
            m.status->Some_0,
            telemetry::damaged_row(Some(&state.telemetry->Some_0), old(b)@.player_id),
        ),
        m.status is Some && state.telemetry is None ==> telemetry::tells_damage(
            m.status->Some_0,
            None,
        ),
        m.session is Some ==> telemetry::is_session_info(
            m.session->Some_0,
            state.scoring->Some_0,
            state.weather_forecast@,
            weather,
        ),
        m.electronics is Some ==> is_electronics_of(m.electronics->Some_0, state),
{
    law_a_tick_makes_what_is_due(m, state, due, old(b)@.player_id, fuel, distances@, weather);
    if state.telemetry is None {
        assert(telemetry::damaged_row(None, old(b)@.player_id) is None);
    }
}

/// The standings that a tick sends have each row in its place, with its own times.
pub proof fn law_a_tick_sends_the_standings(
    b: &mut Broadcaster,
    state: TelemetryState,
    due: Due,
    now: u64,
    fuel: FuelSnapshot,
    distances: Vec<Double>,
    weather: WeatherDerived,
    m: TickMessages,
    i: int,
)
    requires
        call_ensures(
            Broadcaster::tick,
            (b, &state, due, now, &fuel, &distances, &weather),
            m,
        ),
        state.is_connected,
        due.scoring,
        state.scoring is Some,
        0 <= i < state.scoring->Some_0.vehicles@.len(),
    ensures
        m.scoring is Some,
        m.scoring->Some_0 is ScoringUpdate,
        m.scoring->Some_0->ScoringUpdate_vehicles@.len()
            == state.scoring->Some_0.vehicles@.len(),
        ({
            let e = m.scoring->Some_0->ScoringUpdate_vehicles@[i];
            let row = state.scoring->Some_0.vehicles@[i];
            &&& e.id == row.id
            &&& e.driver_name@ == row.driver_name@
            &&& e.vehicle_class@ == row.vehicle_class@
            &&& e.position == row.place
            &&& e.total_laps == row.total_laps
            &&& e.best_lap_time == row.best_lap_time
            &&& e.last_lap_time == row.last_lap_time
            &&& e.time_behind_leader == row.time_behind_leader
        }),
{
    telemetry::law_the_standings_carry_each_row(
        m.scoring->Some_0,
        state.scoring->Some_0,
        state.telemetry,
        distances@,
        i,
    );
}

/// The telemetry that a tick sends is that of our car, reading by reading.
pub proof fn law_a_tick_sends_our_telemetry(
    b: &mut Broadcaster,
    state: TelemetryState,
    due: Due,
    now: u64,
    fuel: FuelSnapshot,
    distances: Vec<Double>,
    weather: WeatherDerived,
    m: TickMessages,
    i: int,
)
    requires
        call_ensures(
            Broadcaster::tick,
            (b, &state, due, now, &fuel, &distances, &weather),
            m,
        ),
        state.is_connected,
        due.telemetry,
        state.telemetry is Some,
        telemetry::shown_row(state.telemetry->Some_0, old(b)@.player_id) == Some(i),
    ensures
        m.telemetry is Some,
        m.telemetry->Some_0 is TelemetryUpdate,
        ({
            let t = m.telemetry->Some_0;
            let v = state.telemetry->Some_0.vehicles@[i];
            &&& t->TelemetryUpdate_speed_ms == v.speed_ms
            &&& t->TelemetryUpdate_rpm == v.rpm
            &&& t->TelemetryUpdate_max_rpm == v.max_rpm
            &&& t->TelemetryUpdate_gear == v.gear
            &&& t->TelemetryUpdate_throttle == v.throttle
            &&& t->TelemetryUpdate_brake == v.brake
            &&& t->TelemetryUpdate_clutch == v.clutch
            &&& t->TelemetryUpdate_steering == v.steering
            &&& t->TelemetryUpdate_fuel == v.fuel
            &&& t->TelemetryUpdate_fuel_capacity == v.fuel_capacity
            &&& t->TelemetryUpdate_water_temp == v.water_temp
            &&& t->TelemetryUpdate_oil_temp == v.oil_temp
            &&& t->TelemetryUpdate_tires == v.tires
            &&& t->TelemetryUpdate_position == v.position
            &&& t->TelemetryUpdate_velocity == v.velocity
            &&& t->TelemetryUpdate_local_accel == v.local_accel
            &&& t->TelemetryUpdate_delta_best == v.delta_best
            &&& t->TelemetryUpdate_current_et == v.elapsed_time
            &&& t->TelemetryUpdate_lap_start_et == v.lap_start_et
            &&& t->TelemetryUpdate_heading_deg == v.heading_deg
            &&& t->TelemetryUpdate_fuel_avg_consumption == fuel.avg_consumption
            &&& t->TelemetryUpdate_fuel_avg_sample_count == fuel.sample_count
            &&& t->TelemetryUpdate_fuel_laps_remaining == fuel.laps_remaining
            &&& t->TelemetryUpdate_fuel_stint_number == fuel.stint_number
            &&& t->TelemetryUpdate_fuel_stint_laps == fuel.stint_laps
            &&& t->TelemetryUpdate_fuel_stint_consumption == fuel.stint_consumption
            &&& t->TelemetryUpdate_fuel_recommended == fuel.recommended
            &&& t->TelemetryUpdate_fuel_pit_detected == fuel.pit_detected
            &&& t->TelemetryUpdate_fuel_avg_lap_time == fuel.avg_lap_time
            &&& t->TelemetryUpdate_ve_available == state.ve_available
            &&& t->TelemetryUpdate_ve_history is Some <==> state.ve_history is Some
            &&& t->TelemetryUpdate_ve_history is Some
                ==> t->TelemetryUpdate_ve_history->Some_0@ == state.ve_history->Some_0@
        }),
{
    law_a_tick_sends_the_readings_of_our_car(
        m,
        state,
        due,
        old(b)@.player_id,
        fuel,
        distances@,
        weather,
        i,
    );
    telemetry::law_an_update_carries_the_readings(
        state.telemetry->Some_0.vehicles@[i],
        fuel,
        m.telemetry->Some_0->TelemetryUpdate_ve_history,
        state.ve_available,
        m.telemetry->Some_0,
    );
}

/// A tick remembers when it sent what, and which car the standings say is ours.
pub proof fn law_a_tick_remembers_what_it_sent(
    b: &mut Broadcaster,
    state: TelemetryState,
    due: Due,
    now: u64,
    fuel: FuelSnapshot,
    distances: Vec<Double>,
    weather: WeatherDerived,
    m: TickMessages,
    i: int,
)
    requires
        call_ensures(
            Broadcaster::tick,
            (b, &state, due, now, &fuel, &distances, &weather),
            m,
        ),
        state.is_connected,
    ensures
        m.telemetry is Some ==> final(b)@.last_telemetry == Some(now),
        m.telemetry is None ==> final(b)@.last_telemetry == old(b)@.last_telemetry,
        m.scoring is Some ==> final(b)@.last_scoring == Some(now),
        m.scoring is None ==> final(b)@.last_scoring == old(b)@.last_scoring,
        m.session is Some ==> final(b)@.last_session == Some(now),
        m.session is None ==> final(b)@.last_session == old(b)@.last_session,
        m.electronics is Some ==> final(b)@.last_electronics == Some(now),
        m.electronics is None ==> final(b)@.last_electronics == old(b)@.last_electronics,
        m.scoring is None ==> final(b)@.player_id == old(b)@.player_id,
        m.scoring is Some && 0 <= i < state.scoring->Some_0.vehicles@.len()
            && state.scoring->Some_0.vehicles@[i].is_player != 0 && (forall|j: int|
            i < j < state.scoring->Some_0.vehicles@.len() ==> (
            #[trigger] state.scoring->Some_0.vehicles@[j]).is_player == 0) ==> final(b)@.player_id
            == state.scoring->Some_0.vehicles@[i].id,
        final(b)@.telemetry_interval == old(b)@.telemetry_interval,
        final(b)@.scoring_interval == old(b)@.scoring_interval,
        final(b)@.last_engineer == old(b)@.last_engineer,
        final(b)@.fuel_session == old(b)@.fuel_session,
        final(b)@.had_drivers == old(b)@.had_drivers,
{
    law_what_was_sent_is_remembered(old(b)@, state, due, now);
    law_a_tick_makes_what_is_due(m, state, due, old(b)@.player_id, fuel, distances@, weather);
    if m.scoring is Some && 0 <= i < state.scoring->Some_0.vehicles@.len()
        && state.scoring->Some_0.vehicles@[i].is_player != 0 && (forall|j: int|
        i < j < state.scoring->Some_0.vehicles@.len() ==> (
        #[trigger] state.scoring->Some_0.vehicles@[j]).is_player == 0) {
        law_standings_say_which_car_is_ours(old(b)@, state, due, now, i);
    }
}

/// The picture of everybody's laps is sent when there is a new lap in it, and the first
/// time; otherwise it is kept for those who join later. Without a look at the laps,
/// without laps or without a picture there is nothing.
pub proof fn law_new_laps_are_sent(
    b: &mut Broadcaster,
    state: TelemetryState,
    due: Due,
    any_new: bool,
    has_snapshots: bool,
    picture: Option<ServerMessage>,
    step: DriversStep,
)
    requires
        call_ensures(
            Broadcaster::drivers,
            (b, &state, due, any_new, has_snapshots, picture),
            step,
        ),
    ensures
        ({
            let seen = state.is_connected && due.scoring && state.scoring is Some && has_snapshots
                && picture is Some;
            &&& step is Nothing <==> !seen
            &&& step is Broadcast <==> seen && (any_new || !old(b)@.had_drivers)
            &&& step is Keep <==> seen && !any_new && old(b)@.had_drivers
            &&& step is Broadcast ==> step->Broadcast_0 == picture->Some_0
            &&& step is Keep ==> step->Keep_0 == picture->Some_0
            &&& final(b)@.had_drivers <==> old(b)@.had_drivers || seen
        }),
        final(b)@.player_id == old(b)@.player_id,
        final(b)@.last_telemetry == old(b)@.last_telemetry,
        final(b)@.last_scoring == old(b)@.last_scoring,
        final(b)@.last_session == old(b)@.last_session,
        final(b)@.last_electronics == old(b)@.last_electronics,
        final(b)@.last_engineer == old(b)@.last_engineer,
        final(b)@.fuel_session == old(b)@.fuel_session,
{
}

/// The race engineer looks at the game every tenth of a second while it runs.
pub proof fn law_the_engineer_looks_ten_times_a_second(
    b: &mut Broadcaster,
    state: TelemetryState,
    now: u64,
    r: bool,
)
    requires
        call_ensures(Broadcaster::engineer_due, (b, &state, now), r),
        old(b)@.last_engineer is Some ==> old(b)@.last_engineer->Some_0 <= now,
    ensures
        r <==> state.is_connected && (old(b)@.last_engineer is Some ==> now - old(
            b)@.last_engineer->Some_0 >= 100_000_000),
        r ==> final(b)@.last_engineer == Some(now),
        !r ==> final(b)@ == old(b)@,
        final(b)@.player_id == old(b)@.player_id,
        final(b)@.last_telemetry == old(b)@.last_telemetry,
        final(b)@.last_scoring == old(b)@.last_scoring,
        final(b)@.last_session == old(b)@.last_session,
        final(b)@.last_electronics == old(b)@.last_electronics,
        final(b)@.fuel_session == old(b)@.fuel_session,
        final(b)@.had_drivers == old(b)@.had_drivers,
{
}

/// What a rule says is sent with its sound, its priority and the name of the rule.
pub proof fn law_a_rule_is_heard(
    rule_id: &str,
    priority: String,
    spoken: String,
    speech: Speech,
    msg: ServerMessage,
)
    requires
        call_ensures(rule_audio, (rule_id, priority, spoken, speech), msg),
    ensures
        msg is EngineerAudio,
        msg->EngineerAudio_request_id@ == "rule_"@ + rule_id@,
        msg->EngineerAudio_priority == priority,
        msg->EngineerAudio_wav_base64 == speech.wav_base64,
        msg->EngineerAudio_sample_rate == speech.sample_rate,
        msg->EngineerAudio_duration_ms == speech.duration_ms,
        msg->EngineerAudio_text == spoken,
{
}

} // verus!
