//! From the frames of the game to the messages of the dashboard.
//!
//! A frame holds, row by row, what the game publishes about each car. What takes
//! floating-point arithmetic (a speed out of a velocity, a heading, degrees
//! Celsius) is in the rows already; which row and which value are published is
//! decided here.

use vstd::prelude::*;

use crate::ieee;
use crate::protocol::messages::{
    Double, ServerMessage, Single, TireData, Vec3, VehicleScoring, WeatherData,
    WeatherForecastNode,
};

verus! {

/// The game phase of a full course yellow: the field is under caution.
pub const GAME_PHASE_FULL_COURSE_YELLOW: u8 = 6;

/// From this lap count on a session is not limited by laps: the game writes a
/// large number there for a session by time.
pub const NO_LAP_LIMIT: i32 = 999_000;

// ---------------------------------------------------------------------------
// Frames
// ---------------------------------------------------------------------------

/// What the telemetry block says about one car.
#[derive(Debug, Clone, Copy)]
pub struct VehicleTelemetry {
    pub id: i32,
    pub speed_ms: Double,
    pub rpm: Double,
    pub max_rpm: Double,
    pub gear: i32,
    pub throttle: Double,
    pub brake: Double,
    pub clutch: Double,
    pub steering: Double,
    pub fuel: Double,
    pub fuel_capacity: Double,
    pub water_temp: Double,
    pub oil_temp: Double,
    pub tires: [TireData; 4],
    pub position: Vec3,
    pub velocity: Vec3,
    pub local_accel: Vec3,
    pub delta_best: Double,
    pub elapsed_time: Double,
    pub lap_start_et: Double,
    pub heading_deg: Double,
    pub virtual_energy: Single,
    pub battery_charge: Double,
    pub overheating: u8,
    pub detached: u8,
    pub dent_severity: [u8; 8],
    pub last_impact_magnitude: Double,
    pub last_impact_et: Double,
    pub wheel_flat: [u8; 4],
    pub wheel_detached: [u8; 4],
}

/// The telemetry block.
#[derive(Debug)]
pub struct TelemetryFrame {
    pub vehicles: Vec<VehicleTelemetry>,
    /// The row of the player's car, where the game says which it is.
    pub player: Option<usize>,
}

/// What the scoring block says about one car.
#[derive(Debug)]
pub struct ScoringRow {
    pub id: i32,
    pub is_player: u8,
    pub driver_name: String,
    pub vehicle_class: String,
    pub vehicle_name: String,
    pub place: u8,
    pub lap_dist: Double,
    pub total_laps: i16,
    pub best_lap_time: Double,
    pub last_lap_time: Double,
    pub in_pits: u8,
    pub last_sector1: Double,
    pub last_sector2: Double,
    pub cur_sector1: Double,
    pub cur_sector2: Double,
    pub best_sector1: Double,
    pub best_sector2: Double,
    pub lap_start_et: Double,
    /// The last lap time less the last second sector.
    pub last_remainder: Double,
    /// The best lap time less the best second sector.
    pub best_remainder: Double,
    pub position: Vec3,
    pub time_behind_leader: Double,
    pub laps_behind_leader: i32,
    pub flag: u8,
    pub individual_phase: u8,
    pub under_yellow: u8,
    pub sector: i8,
}

/// What the scoring block says about the session.
#[derive(Debug)]
pub struct ScoringInfo {
    pub session: i32,
    pub track_name: String,
    pub track_length: Double,
    pub current_et: Double,
    pub end_et: Double,
    /// The end of the session in minutes.
    pub end_minutes: Double,
    pub max_laps: i32,
    pub num_vehicles: i32,
    pub ambient_temp: Double,
    pub track_temp: Double,
    pub raining: Double,
    pub dark_cloud: Double,
    pub avg_path_wetness: Double,
    pub min_path_wetness: Double,
    pub max_path_wetness: Double,
    pub yellow_flag_state: i8,
    pub sector_flag: [i8; 3],
    pub start_light: u8,
    pub game_phase: u8,
}

/// The scoring block.
#[derive(Debug)]
pub struct ScoringFrame {
    pub info: ScoringInfo,
    pub vehicles: Vec<ScoringRow>,
    /// The row of the player's car, where the game says which it is.
    pub player: Option<usize>,
}

// ---------------------------------------------------------------------------
// Which row
// ---------------------------------------------------------------------------

/// The first row with this id, or the number of rows.
pub open spec fn row_with(rows: Seq<VehicleTelemetry>, id: i32) -> int
    decreases rows.len(),
{
    if rows.len() == 0 || rows[0].id == id {
        0
    } else {
        1 + row_with(rows.skip(1), id)
    }
}

/// The row of our car: the one that the game names, else the one with this id.
pub open spec fn our_row(tel: TelemetryFrame, id: i32) -> Option<int> {
    match tel.player {
        Some(p) if p < tel.vehicles@.len() => Some(p as int),
        _ => if row_with(tel.vehicles@, id) < tel.vehicles@.len() {
            Some(row_with(tel.vehicles@, id))
        } else {
            None
        },
    }
}

/// The row that is shown: that of our car, else the first.
pub open spec fn shown_row(tel: TelemetryFrame, id: i32) -> Option<int> {
    match our_row(tel, id) {
        Some(i) => Some(i),
        None => if tel.vehicles@.len() > 0 {
            Some(0)
        } else {
            None
        },
    }
}

/// The last row with this id, or -1.
pub open spec fn last_row_with(rows: Seq<VehicleTelemetry>, id: i32) -> int
    decreases rows.len(),
{
    if rows.len() == 0 {
        -1
    } else if rows.last().id == id {
        rows.len() - 1
    } else {
        last_row_with(rows.drop_last(), id)
    }
}

impl TelemetryFrame {
    /// The row of our car.
    pub fn our_vehicle(&self, id: i32) -> (r: Option<usize>)
        ensures
            match r {
                Some(i) => our_row(*self, id) == Some(i as int) && i < self.vehicles@.len(),
                None => our_row(*self, id) is None,
            },
    {
        if let Some(p) = self.player {
            if p < self.vehicles.len() {
                return Some(p);
            }
        }
        let mut i: usize = 0;
        proof {
            assert(self.vehicles@.skip(0) == self.vehicles@);
        }
        while i < self.vehicles.len()
            invariant
                i <= self.vehicles@.len(),
                !(self.player matches Some(p) && p < self.vehicles@.len()),
                row_with(self.vehicles@, id) == i + row_with(self.vehicles@.skip(i as int), id),
            decreases self.vehicles@.len() - i,
        {
            proof {
                assert(self.vehicles@.skip(i as int)[0] == self.vehicles@[i as int]);
                assert(self.vehicles@.skip(i as int).skip(1) == self.vehicles@.skip(i + 1));
            }
            if self.vehicles[i].id == id {
                return Some(i);
            }
            i += 1;
        }
        None
    }

    /// The row that is shown.
    pub fn shown_vehicle(&self, id: i32) -> (r: Option<usize>)
        ensures
            match r {
                Some(i) => shown_row(*self, id) == Some(i as int) && i < self.vehicles@.len(),
                None => shown_row(*self, id) is None,
            },
    {
        match self.our_vehicle(id) {
            Some(i) => Some(i),
            None => if self.vehicles.len() > 0 {
                Some(0)
            } else {
                None
            },
        }
    }

    /// The last row with this id.
    pub fn vehicle_with(&self, id: i32) -> (r: Option<usize>)
        ensures
            match r {
                Some(i) => last_row_with(self.vehicles@, id) == i && i < self.vehicles@.len(),
                None => last_row_with(self.vehicles@, id) == -1,
            },
    {
        let mut i: usize = self.vehicles.len();
        proof {
            assert(self.vehicles@.take(i as int) == self.vehicles@);
        }
        while i > 0
            invariant
                i <= self.vehicles@.len(),
                last_row_with(self.vehicles@, id) == last_row_with(
                    self.vehicles@.take(i as int),
                    id,
                ),
            decreases i,
        {
            proof {
                let t = self.vehicles@.take(i as int);
                assert(t.last() == self.vehicles@[i - 1]);
                assert(t.drop_last() == self.vehicles@.take(i - 1));
            }
            if self.vehicles[i - 1].id == id {
                return Some(i - 1);
            }
            i -= 1;
        }
        None
    }
}

/// Whether this car supports virtual energy, where our row is known.
pub open spec fn energy_available(tel: TelemetryFrame, id: i32) -> Option<bool> {
    match our_row(tel, id) {
        Some(i) => Some(
            ieee::is_positive_single(tel.vehicles@[i].virtual_energy) || ieee::is_positive(
                tel.vehicles@[i].battery_charge,
            ),
        ),
        None => None,
    }
}

/// Whether this car supports virtual energy: it has some, or a battery that holds
/// charge.
pub fn ve_available(tel: &TelemetryFrame, id: i32) -> (r: Option<bool>)
    ensures
        r == energy_available(*tel, id),
{
    match tel.our_vehicle(id) {
        Some(i) => Some(
            ieee::is_above_zero_single(tel.vehicles[i].virtual_energy) || ieee::is_above_zero(
                tel.vehicles[i].battery_charge,
            ),
        ),
        None => None,
    }
}

// ---------------------------------------------------------------------------
// Telemetry
// ---------------------------------------------------------------------------

/// What is known of the fuel strategy.
#[derive(Debug, Clone, Copy)]
pub struct FuelSnapshot {
    pub avg_consumption: Double,
    pub sample_count: u32,
    pub laps_remaining: Double,
    pub stint_number: u32,
    pub stint_laps: u32,
    pub stint_consumption: Double,
    pub recommended: Double,
    pub pit_detected: bool,
    pub avg_lap_time: Double,
}

/// The update that a row makes.
pub open spec fn update_of(
    v: VehicleTelemetry,
    fuel: FuelSnapshot,
    ve_history: Option<Vec<Double>>,
    ve_available: Option<bool>,
) -> ServerMessage {
    ServerMessage::TelemetryUpdate {
        speed_ms: v.speed_ms,
        rpm: v.rpm,
        max_rpm: v.max_rpm,
        gear: v.gear,
        throttle: v.throttle,
        brake: v.brake,
        clutch: v.clutch,
        steering: v.steering,
        fuel: v.fuel,
        fuel_capacity: v.fuel_capacity,
        water_temp: v.water_temp,
        oil_temp: v.oil_temp,
        tires: v.tires,
        position: v.position,
        velocity: v.velocity,
        local_accel: v.local_accel,
        delta_best: v.delta_best,
        current_et: v.elapsed_time,
        lap_start_et: v.lap_start_et,
        fuel_avg_consumption: fuel.avg_consumption,
        fuel_avg_sample_count: fuel.sample_count,
        fuel_laps_remaining: fuel.laps_remaining,
        fuel_stint_number: fuel.stint_number,
        fuel_stint_laps: fuel.stint_laps,
        fuel_stint_consumption: fuel.stint_consumption,
        fuel_recommended: fuel.recommended,
        fuel_pit_detected: fuel.pit_detected,
        fuel_avg_lap_time: fuel.avg_lap_time,
        ve_history,
        ve_available,
        heading_deg: v.heading_deg,
    }
}

/// The update for our car, or for the first one.
pub fn build_telemetry_update(
    tel: &TelemetryFrame,
    player_id: i32,
    fuel: &FuelSnapshot,
    ve_history: Option<Vec<Double>>,
    ve_available: Option<bool>,
) -> (msg: Option<ServerMessage>)
    ensures
        match shown_row(*tel, player_id) {
            Some(i) => msg == Some(update_of(tel.vehicles@[i], *fuel, ve_history, ve_available)),
            None => msg is None,
        },
{
    let i = match tel.shown_vehicle(player_id) {
        Some(i) => i,
        None => return None,
    };
    let v = tel.vehicles[i];
    Some(
        ServerMessage::TelemetryUpdate {
            speed_ms: v.speed_ms,
            rpm: v.rpm,
            max_rpm: v.max_rpm,
            gear: v.gear,
            throttle: v.throttle,
            brake: v.brake,
            clutch: v.clutch,
            steering: v.steering,
            fuel: v.fuel,
            fuel_capacity: v.fuel_capacity,
            water_temp: v.water_temp,
            oil_temp: v.oil_temp,
            tires: v.tires,
            position: v.position,
            velocity: v.velocity,
            local_accel: v.local_accel,
            delta_best: v.delta_best,
            current_et: v.elapsed_time,
            lap_start_et: v.lap_start_et,
            fuel_avg_consumption: fuel.avg_consumption,
            fuel_avg_sample_count: fuel.sample_count,
            fuel_laps_remaining: fuel.laps_remaining,
            fuel_stint_number: fuel.stint_number,
            fuel_stint_laps: fuel.stint_laps,
            fuel_stint_consumption: fuel.stint_consumption,
            fuel_recommended: fuel.recommended,
            fuel_pit_detected: fuel.pit_detected,
            fuel_avg_lap_time: fuel.avg_lap_time,
            ve_history,
            ve_available,
            heading_deg: v.heading_deg,
        },
    )
}

// ---------------------------------------------------------------------------
// Scoring
// ---------------------------------------------------------------------------

/// The name of a kind of session.
pub open spec fn session_name(session: i32) -> Seq<char> {
    if session == 0 {
        "TestDay"@
    } else if 1 <= session <= 4 {
        "Practice"@
    } else if 5 <= session <= 8 {
        "Qualifying"@
    } else if session == 9 {
        "Warmup"@
    } else if 10 <= session <= 13 {
        "Race"@
    } else {
        "Unknown"@
    }
}

/// The name of a kind of session.
pub fn session_type_str(session: i32) -> (name: &'static str)
    ensures
        name@ == session_name(session),
{
    if session == 0 {
        "TestDay"
    } else if 1 <= session && session <= 4 {
        "Practice"
    } else if 5 <= session && session <= 8 {
        "Qualifying"
    } else if session == 9 {
        "Warmup"
    } else if 10 <= session && session <= 13 {
        "Race"
    } else {
        "Unknown"
    }
}

/// How far, in metres, the two positions of a car may lie apart: the bits of 150.
pub const MAX_DISAGREEMENT_M: u64 = 0x4062_C000_0000_0000;

/// The position that is published for a car: that of its telemetry row, which is
/// rewritten more often, unless it has none, or the row was never filled in, or it
/// lies farther from the scoring position than the same car can.
pub open spec fn published_position(
    scoring: Vec3,
    telemetry: Option<Vec3>,
    distance: Double,
) -> Vec3 {
    match telemetry {
        Some(t) => if (ieee::is_zero(t.x) && ieee::is_zero(t.y) && ieee::is_zero(t.z))
            || ieee::less(Double { bits: MAX_DISAGREEMENT_M }, distance) {
            scoring
        } else {
            t
        },
        None => scoring,
    }
}

/// The position that is published for a car, where `distance` is how far the two
/// lie apart on the ground.
pub fn position_of(scoring: Vec3, telemetry: Option<Vec3>, distance: Double) -> (p: Vec3)
    ensures
        p == published_position(scoring, telemetry, distance),
{
    match telemetry {
        Some(t) => if (ieee::equals_zero(t.x) && ieee::equals_zero(t.y) && ieee::equals_zero(t.z))
            || ieee::is_less(Double { bits: MAX_DISAGREEMENT_M }, distance) {
            scoring
        } else {
            t
        },
        None => scoring,
    }
}

/// A published position is one of the two, and without a telemetry row it is the
/// one of the scoring row.
pub proof fn law_a_position_is_never_made_up(
    scoring: Vec3,
    telemetry: Option<Vec3>,
    distance: Double,
)
    ensures
        published_position(scoring, telemetry, distance) == scoring || telemetry == Some(
            published_position(scoring, telemetry, distance),
        ),
        telemetry is None ==> published_position(scoring, telemetry, distance) == scoring,
{
}

/// The bits of -1, which stands for a time that is not there.
pub const MINUS_ONE: u64 = 0xBFF0_0000_0000_0000;

/// The time of the third sector: what is left of the lap, where both times are
/// there.
pub open spec fn third_sector(lap_time: Double, sector2: Double, remainder: Double) -> Double {
    if ieee::is_positive(lap_time) && ieee::is_positive(sector2) {
        remainder
    } else {
        Double { bits: MINUS_ONE }
    }
}

/// The time of the third sector.
fn sector3_of(lap_time: Double, sector2: Double, remainder: Double) -> (t: Double)
    ensures
        t == third_sector(lap_time, sector2, remainder),
{
    if ieee::is_above_zero(lap_time) && ieee::is_above_zero(sector2) {
        remainder
    } else {
        Double { bits: MINUS_ONE }
    }
}

/// The telemetry row of a car in the scoring block.
pub open spec fn telemetry_of(tel: Option<TelemetryFrame>, id: i32) -> Option<VehicleTelemetry> {
    match tel {
        Some(t) => if last_row_with(t.vehicles@, id) >= 0 {
            Some(t.vehicles@[last_row_with(t.vehicles@, id)])
        } else {
            None
        },
        None => None,
    }
}

/// Whether an entry says what the two rows of a car say.
pub open spec fn is_entry(
    e: VehicleScoring,
    row: ScoringRow,
    tel: Option<VehicleTelemetry>,
    distance: Double,
) -> bool {
    let at = published_position(
        row.position,
        match tel {
            Some(t) => Some(t.position),
            None => None,
        },
        distance,
    );
    &&& e.id == row.id
    &&& e.car_number == row.id
    &&& e.driver_name@ == row.driver_name@
    &&& e.team_name@.len() == 0
    &&& e.vehicle_class@ == row.vehicle_class@
    &&& e.car_name@ == row.vehicle_name@
    &&& e.position == row.place
    &&& e.lap_dist == row.lap_dist
    &&& e.total_laps == row.total_laps
    &&& e.best_lap_time == row.best_lap_time
    &&& e.last_lap_time == row.last_lap_time
    &&& e.in_pits == (row.in_pits != 0)
    &&& e.last_sector1 == row.last_sector1
    &&& e.last_sector2 == row.last_sector2
    &&& e.cur_sector1 == row.cur_sector1
    &&& e.cur_sector2 == row.cur_sector2
    &&& e.best_sector1 == row.best_sector1
    &&& e.best_sector2 == row.best_sector2
    &&& e.lap_start_et == row.lap_start_et
    &&& e.last_sector3 == third_sector(row.last_lap_time, row.last_sector2, row.last_remainder)
    &&& e.best_sector3 == third_sector(row.best_lap_time, row.best_sector2, row.best_remainder)
    &&& e.pos_x == at.x
    &&& e.pos_y == at.y
    &&& e.pos_z == at.z
    &&& e.time_behind_leader == row.time_behind_leader
    &&& e.laps_behind_leader == row.laps_behind_leader
    &&& e.virtual_energy == (match tel {
        Some(t) => t.virtual_energy,
        None => Single { bits: 0 },
    })
}

/// The id of the last row that is marked as the player's, or -1.
pub open spec fn player_id_of(rows: Seq<ScoringRow>) -> int
    decreases rows.len(),
{
    if rows.len() == 0 {
        -1
    } else if rows.last().is_player != 0 {
        rows.last().id as int
    } else {
        player_id_of(rows.drop_last())
    }
}

/// The entry of a car.
fn entry_of(row: &ScoringRow, tel: Option<VehicleTelemetry>, distance: Double) -> (e:
    VehicleScoring)
    ensures
        is_entry(e, *row, tel, distance),
{
    let (at, virtual_energy) = match tel {
        Some(t) => (
            position_of(row.position, Some(t.position), distance),
            t.virtual_energy,
        ),
        None => (position_of(row.position, None, distance), Single { bits: 0 }),
    };
    VehicleScoring {
        id: row.id,
        driver_name: row.driver_name.clone(),
        team_name: String::new(),
        vehicle_class: row.vehicle_class.clone(),
        position: row.place as i32,
        lap_dist: row.lap_dist,
        total_laps: row.total_laps as i32,
        best_lap_time: row.best_lap_time,
        last_lap_time: row.last_lap_time,
        in_pits: row.in_pits != 0,
        last_sector1: row.last_sector1,
        last_sector2: row.last_sector2,
        cur_sector1: row.cur_sector1,
        cur_sector2: row.cur_sector2,
        best_sector1: row.best_sector1,
        best_sector2: row.best_sector2,
        lap_start_et: row.lap_start_et,
        car_number: row.id,
        car_name: row.vehicle_name.clone(),
        last_sector3: sector3_of(row.last_lap_time, row.last_sector2, row.last_remainder),
        best_sector3: sector3_of(row.best_lap_time, row.best_sector2, row.best_remainder),
        pos_x: at.x,
        pos_y: at.y,
        pos_z: at.z,
        time_behind_leader: row.time_behind_leader,
        laps_behind_leader: row.laps_behind_leader,
        virtual_energy,
    }
}

/// Whether a message says what the two blocks say of the standings.
pub open spec fn is_scoring_update(
    msg: ServerMessage,
    sc: ScoringFrame,
    tel: Option<TelemetryFrame>,
    distances: Seq<Double>,
) -> bool {
    msg matches ServerMessage::ScoringUpdate {
        session_type,
        session_time,
        num_vehicles,
        vehicles,
        player_vehicle_id,
    } && session_type@ == session_name(sc.info.session) && session_time == sc.info.current_et
        && num_vehicles == sc.info.num_vehicles && player_vehicle_id == player_id_of(sc.vehicles@)
        && vehicles@.len() == sc.vehicles@.len() && forall|i: int|
        0 <= i < vehicles@.len() ==> is_entry(
            #[trigger] vehicles@[i],
            sc.vehicles@[i],
            telemetry_of(tel, sc.vehicles@[i].id),
            distances[i],
        )
}

/// The standings, and the id of our car in them. `distances` holds, row by row,
/// how far the two positions of a car lie apart on the ground.
pub fn build_scoring_update(
    sc: &ScoringFrame,
    tel: Option<&TelemetryFrame>,
    distances: &Vec<Double>,
) -> (r: (ServerMessage, i32))
    requires
        distances@.len() == sc.vehicles@.len(),
    ensures
        r.1 == player_id_of(sc.vehicles@),
        is_scoring_update(
            r.0,
            *sc,
            match tel {
                Some(t) => Some(*t),
                None => None,
            },
            distances@,
        ),
{
    let mut player_id: i32 = -1;
    let mut vehicles: Vec<VehicleScoring> = Vec::new();
    let mut i: usize = 0;
    let ghost frame = match tel {
        Some(t) => Some(*t),
        None => None,
    };
    while i < sc.vehicles.len()
        invariant
            i <= sc.vehicles@.len(),
            distances@.len() == sc.vehicles@.len(),
            frame == (match tel {
                Some(t) => Some(*t),
                None => None,
            }),
            vehicles@.len() == i,
            player_id == player_id_of(sc.vehicles@.take(i as int)),
            forall|j: int|
                0 <= j < i ==> is_entry(
                    #[trigger] vehicles@[j],
                    sc.vehicles@[j],
                    telemetry_of(frame, sc.vehicles@[j].id),
                    distances@[j],
                ),
        decreases sc.vehicles@.len() - i,
    {
        proof {
            let t = sc.vehicles@.take(i + 1);
            assert(t.last() == sc.vehicles@[i as int]);
            assert(t.drop_last() == sc.vehicles@.take(i as int));
        }
        let row = &sc.vehicles[i];
        if row.is_player != 0 {
            player_id = row.id;
        }
        let of_car = match tel {
            Some(t) => match t.vehicle_with(row.id) {
                Some(k) => Some(t.vehicles[k]),
                None => None,
            },
            None => None,
        };
        vehicles.push(entry_of(row, of_car, distances[i]));
        i += 1;
    }
    proof {
        assert(sc.vehicles@.take(i as int) == sc.vehicles@);
    }
    let msg = ServerMessage::ScoringUpdate {
        session_type: session_type_str(sc.info.session).to_owned(),
        session_time: sc.info.current_et,
        num_vehicles: sc.info.num_vehicles,
        vehicles,
        player_vehicle_id: player_id,
    };
    (msg, player_id)
}

// ---------------------------------------------------------------------------
// Electronics
// ---------------------------------------------------------------------------

/// The driver aids of our car.
#[derive(Debug, Clone, Copy)]
pub struct ElectronicsSnapshot {
    pub tc: u8,
    pub tc_max: u8,
    pub tc_cut: u8,
    pub tc_cut_max: u8,
    pub tc_slip: u8,
    pub tc_slip_max: u8,
    pub abs: u8,
    pub abs_max: u8,
    pub engine_map: u8,
    pub engine_map_max: u8,
    pub front_arb: u8,
    pub front_arb_max: u8,
    pub rear_arb: u8,
    pub rear_arb_max: u8,
    pub brake_bias: Double,
    pub regen: Single,
    pub brake_migration: u8,
    pub brake_migration_max: u8,
    pub battery_pct: Double,
    pub soc: Single,
    pub virtual_energy: Single,
    pub tc_active: bool,
    pub abs_active: bool,
}

/// The driver aids as a message.
pub fn build_electronics_update(snap: &ElectronicsSnapshot) -> (msg: ServerMessage)
    ensures
        msg == (ServerMessage::ElectronicsUpdate {
            tc: snap.tc,
            tc_max: snap.tc_max,
            tc_cut: snap.tc_cut,
            tc_cut_max: snap.tc_cut_max,
            tc_slip: snap.tc_slip,
            tc_slip_max: snap.tc_slip_max,
            abs: snap.abs,
            abs_max: snap.abs_max,
            engine_map: snap.engine_map,
            engine_map_max: snap.engine_map_max,
            front_arb: snap.front_arb,
            front_arb_max: snap.front_arb_max,
            rear_arb: snap.rear_arb,
            rear_arb_max: snap.rear_arb_max,
            brake_bias: snap.brake_bias,
            regen: snap.regen,
            brake_migration: snap.brake_migration,
            brake_migration_max: snap.brake_migration_max,
            battery_pct: snap.battery_pct,
            soc: snap.soc,
            virtual_energy: snap.virtual_energy,
            tc_active: snap.tc_active,
            abs_active: snap.abs_active,
        }),
{
    ServerMessage::ElectronicsUpdate {
        tc: snap.tc,
        tc_max: snap.tc_max,
        tc_cut: snap.tc_cut,
        tc_cut_max: snap.tc_cut_max,
        tc_slip: snap.tc_slip,
        tc_slip_max: snap.tc_slip_max,
        abs: snap.abs,
        abs_max: snap.abs_max,
        engine_map: snap.engine_map,
        engine_map_max: snap.engine_map_max,
        front_arb: snap.front_arb,
        front_arb_max: snap.front_arb_max,
        rear_arb: snap.rear_arb,
        rear_arb_max: snap.rear_arb_max,
        brake_bias: snap.brake_bias,
        regen: snap.regen,
        brake_migration: snap.brake_migration,
        brake_migration_max: snap.brake_migration_max,
        battery_pct: snap.battery_pct,
        soc: snap.soc,
        virtual_energy: snap.virtual_energy,
        tc_active: snap.tc_active,
        abs_active: snap.abs_active,
    }
}

// ---------------------------------------------------------------------------
// The session
// ---------------------------------------------------------------------------

/// Below this many metres per second it is calm: the bits of 0.1.
pub const CALM: u64 = 0x3FB9_9999_9999_999A;

/// What takes arithmetic to say of the weather.
#[derive(Debug, Clone, Copy)]
pub struct WeatherDerived {
    /// The cloud cover of the first forecast node, from none to full.
    pub forecast_cloudiness: Double,
    /// The horizontal speed of the live wind.
    pub wind_speed: Double,
    /// The direction of the live wind, seen from our car.
    pub wind_rel_deg: Double,
    /// The direction of the forecast wind, seen from our car.
    pub forecast_wind_rel_deg: Double,
}

/// Whether one of the cars is marked as the player's.
pub open spec fn has_player(rows: Seq<ScoringRow>) -> bool {
    exists|i: int| 0 <= i < rows.len() && (#[trigger] rows[i]).is_player != 0
}

impl ScoringFrame {
    /// The first row that is marked as the player's.
    pub fn player_row(&self) -> (r: Option<usize>)
        ensures
            match r {
                Some(i) => i < self.vehicles@.len() && self.vehicles@[i as int].is_player != 0
                    && forall|j: int|
                    0 <= j < i ==> (#[trigger] self.vehicles@[j]).is_player == 0,
                None => !has_player(self.vehicles@),
            },
    {
        let mut i: usize = 0;
        while i < self.vehicles.len()
            invariant
                i <= self.vehicles@.len(),
                forall|j: int| 0 <= j < i ==> (#[trigger] self.vehicles@[j]).is_player == 0,
            decreases self.vehicles@.len() - i,
        {
            if self.vehicles[i].is_player != 0 {
                return Some(i);
            }
            i += 1;
        }
        None
    }
}

/// The speed of the wind and its direction seen from our car. The live wind counts
/// unless it is calm, then that of the first forecast node unless that is calm
/// too. There is no direction where there is no car of ours.
pub open spec fn wind_of(
    d: WeatherDerived,
    first: Option<WeatherForecastNode>,
    player: bool,
) -> (Option<Double>, Option<Double>) {
    if !ieee::less(d.wind_speed, Double { bits: CALM }) {
        (
            Some(d.wind_speed),
            if player {
                Some(d.wind_rel_deg)
            } else {
                None
            },
        )
    } else {
        match first {
            Some(node) => match node.wind_speed {
                Some(s) if ieee::at_least(s, Double { bits: CALM }) => (
                    Some(s),
                    if node.wind_direction is Some && player {
                        Some(d.forecast_wind_rel_deg)
                    } else {
                        None
                    },
                ),
                _ => (None, None),
            },
            None => (None, None),
        }
    }
}

/// The laps of a session that is limited by laps, else zero.
pub open spec fn lap_limit(max_laps: i32) -> i32 {
    if 0 < max_laps < NO_LAP_LIMIT {
        max_laps
    } else {
        0
    }
}

/// The laps of a session that is limited by laps, else zero.
pub fn session_laps(max_laps: i32) -> (laps: i32)
    ensures
        laps == lap_limit(max_laps),
{
    if 0 < max_laps && max_laps < NO_LAP_LIMIT {
        max_laps
    } else {
        0
    }
}

/// Whether the weather is that of the session.
pub open spec fn is_weather(
    w: WeatherData,
    info: ScoringInfo,
    forecast: Seq<WeatherForecastNode>,
    d: WeatherDerived,
    player: bool,
) -> bool {
    let first = if forecast.len() > 0 {
        Some(forecast[0])
    } else {
        None
    };
    &&& w.air_temp == info.ambient_temp
    &&& w.track_temp == info.track_temp
    &&& w.rain_intensity == info.raining
    &&& w.dark_cloud == info.dark_cloud
    &&& w.cloudiness == (if forecast.len() > 0 {
        d.forecast_cloudiness
    } else {
        info.dark_cloud
    })
    &&& w.avg_path_wetness == info.avg_path_wetness
    &&& w.min_path_wetness == info.min_path_wetness
    &&& w.max_path_wetness == info.max_path_wetness
    &&& (w.wind_speed_live, w.wind_rel_deg) == wind_of(d, first, player)
    &&& w.forecast@ == forecast
}

/// The wind that is shown.
fn choose_wind(
    d: &WeatherDerived,
    forecast: &Vec<WeatherForecastNode>,
    player: bool,
) -> (r: (Option<Double>, Option<Double>))
    ensures
        r == wind_of(
            *d,
            if forecast@.len() > 0 {
                Some(forecast@[0])
            } else {
                None
            },
            player,
        ),
{
    let calm = Double { bits: CALM };
    if !ieee::is_less(d.wind_speed, calm) {
        let rel = if player {
            Some(d.wind_rel_deg)
        } else {
            None
        };
        return (Some(d.wind_speed), rel);
    }
    if forecast.len() == 0 {
        return (None, None);
    }
    let speed = forecast[0].wind_speed;
    let has_direction = forecast[0].wind_direction.is_some();
    match speed {
        Some(s) => if ieee::is_at_least(s, calm) {
            let rel = if has_direction && player {
                Some(d.forecast_wind_rel_deg)
            } else {
                None
            };
            (Some(s), rel)
        } else {
            (None, None)
        },
        None => (None, None),
    }
}

/// Whether a message says what the scoring block says of the session, with this
/// forecast.
pub open spec fn is_session_info(
    msg: ServerMessage,
    sc: ScoringFrame,
    forecast: Seq<WeatherForecastNode>,
    d: WeatherDerived,
) -> bool {
    msg matches ServerMessage::SessionInfo {
        track_name,
        track_length,
        weather,
        session_laps: laps,
        session_minutes,
    } && track_name@ == sc.info.track_name@ && track_length == sc.info.track_length && is_weather(
        weather,
        sc.info,
        forecast,
        d,
        has_player(sc.vehicles@),
    ) && laps == lap_limit(sc.info.max_laps) && session_minutes == (if ieee::is_positive(
        sc.info.end_et,
    ) {
        sc.info.end_minutes
    } else {
        Double { bits: 0 }
    })
}

/// The track, the weather and the length of the session.
pub fn build_session_info(
    sc: &ScoringFrame,
    forecast: Vec<WeatherForecastNode>,
    derived: &WeatherDerived,
) -> (msg: ServerMessage)
    ensures
        is_session_info(msg, *sc, forecast@, *derived),
{
    let info = &sc.info;
    let player = sc.player_row().is_some();
    let cloudiness = if forecast.len() > 0 {
        derived.forecast_cloudiness
    } else {
        info.dark_cloud
    };
    let (wind_speed_live, wind_rel_deg) = choose_wind(derived, &forecast, player);
    ServerMessage::SessionInfo {
        track_name: info.track_name.clone(),
        track_length: info.track_length,
        weather: WeatherData {
            air_temp: info.ambient_temp,
            track_temp: info.track_temp,
            rain_intensity: info.raining,
            dark_cloud: info.dark_cloud,
            cloudiness,
            avg_path_wetness: info.avg_path_wetness,
            min_path_wetness: info.min_path_wetness,
            max_path_wetness: info.max_path_wetness,
            wind_speed_live,
            wind_rel_deg,
            forecast,
        },
        session_laps: session_laps(info.max_laps),
        session_minutes: if ieee::is_above_zero(info.end_et) {
            info.end_minutes
        } else {
            Double { bits: 0 }
        },
    }
}

// ---------------------------------------------------------------------------
// Damage and flags
// ---------------------------------------------------------------------------

/// What the garage says of wear and damage.
#[derive(Debug, Clone, Copy)]
pub struct WearablesSnapshot {
    pub aero_damage: Double,
    pub brake_wear: [Double; 4],
    pub suspension_damage: [Double; 4],
}

/// The damage of our car.
#[derive(Debug, Clone, Copy)]
struct Damage {
    overheating: bool,
    any_detached: bool,
    dent_severity: [u8; 8],
    last_impact_magnitude: Double,
    last_impact_et: Double,
    tire_flat: [bool; 4],
    tire_detached: [bool; 4],
}

/// The row that the damage is read from.
pub open spec fn damaged_row(tel: Option<&TelemetryFrame>, id: i32) -> Option<VehicleTelemetry> {
    match tel {
        Some(t) => match shown_row(*t, id) {
            Some(i) => Some(t.vehicles@[i]),
            None => None,
        },
        None => None,
    }
}

/// Whether flags stand for the bytes of the game.
pub open spec fn stands_for(flags: [bool; 4], bytes: [u8; 4]) -> bool {
    forall|i: int| 0 <= i < 4 ==> #[trigger] flags[i] == (bytes[i] != 0)
}

/// The flags that stand for the bytes of the game.
fn flags_of(bytes: [u8; 4]) -> (flags: [bool; 4])
    ensures
        stands_for(flags, bytes),
{
    [bytes[0] != 0, bytes[1] != 0, bytes[2] != 0, bytes[3] != 0]
}

/// Whether a message says what the row says of the damage; nothing is damaged
/// where there is no row.
pub open spec fn tells_damage(msg: ServerMessage, row: Option<VehicleTelemetry>) -> bool {
    msg matches ServerMessage::VehicleStatusUpdate {
        overheating,
        any_detached,
        dent_severity,
        last_impact_magnitude,
        last_impact_et,
        tire_flat,
        tire_detached,
        ..
    } && match row {
        Some(v) => {
            &&& overheating == (v.overheating != 0)
            &&& any_detached == (v.detached != 0)
            &&& dent_severity == v.dent_severity
            &&& last_impact_magnitude == v.last_impact_magnitude
            &&& last_impact_et == v.last_impact_et
            &&& stands_for(tire_flat, v.wheel_flat)
            &&& stands_for(tire_detached, v.wheel_detached)
        },
        None => {
            &&& !overheating
            &&& !any_detached
            &&& dent_severity@ == seq![0u8, 0u8, 0u8, 0u8, 0u8, 0u8, 0u8, 0u8]
            &&& last_impact_magnitude == (Double { bits: 0 })
            &&& last_impact_et == (Double { bits: 0 })
            &&& tire_flat@ == seq![false, false, false, false]
            &&& tire_detached@ == seq![false, false, false, false]
        },
    }
}

/// The first row with this id, or marked as the player's; or the number of rows.
pub open spec fn flagged_row(rows: Seq<ScoringRow>, id: i32) -> int
    decreases rows.len(),
{
    if rows.len() == 0 || rows[0].id == id || rows[0].is_player != 0 {
        0
    } else {
        1 + flagged_row(rows.skip(1), id)
    }
}

impl ScoringFrame {
    /// The first row with this id, or marked as the player's.
    pub fn row_of(&self, id: i32) -> (r: Option<usize>)
        ensures
            match r {
                Some(i) => i == flagged_row(self.vehicles@, id) && i < self.vehicles@.len(),
                None => flagged_row(self.vehicles@, id) == self.vehicles@.len(),
            },
    {
        let mut i: usize = 0;
        proof {
            assert(self.vehicles@.skip(0) == self.vehicles@);
        }
        while i < self.vehicles.len()
            invariant
                i <= self.vehicles@.len(),
                flagged_row(self.vehicles@, id) == i + flagged_row(
                    self.vehicles@.skip(i as int),
                    id,
                ),
            decreases self.vehicles@.len() - i,
        {
            proof {
                assert(self.vehicles@.skip(i as int)[0] == self.vehicles@[i as int]);
                assert(self.vehicles@.skip(i as int).skip(1) == self.vehicles@.skip(i + 1));
            }
            if self.vehicles[i].id == id || self.vehicles[i].is_player != 0 {
                return Some(i);
            }
            i += 1;
        }
        None
    }
}

/// Whether a message says what the scoring block says of the flags.
pub open spec fn tells_flags(msg: ServerMessage, sc: Option<&ScoringFrame>, id: i32) -> bool {
    msg matches ServerMessage::VehicleStatusUpdate {
        yellow_flag_state,
        sector_flags,
        start_light,
        game_phase,
        player_flag,
        individual_phase,
        player_under_yellow,
        player_sector,
        safety_car_active,
        ..
    } && safety_car_active == (game_phase == GAME_PHASE_FULL_COURSE_YELLOW) && match sc {
        Some(s) => {
            let k = flagged_row(s.vehicles@, id);
            &&& yellow_flag_state == s.info.yellow_flag_state
            &&& sector_flags[0] == s.info.sector_flag[0]
            &&& sector_flags[1] == s.info.sector_flag[1]
            &&& sector_flags[2] == s.info.sector_flag[2]
            &&& start_light == s.info.start_light
            &&& game_phase == s.info.game_phase
            &&& if k < s.vehicles@.len() {
                &&& player_flag == s.vehicles@[k].flag
                &&& individual_phase == s.vehicles@[k].individual_phase
                &&& player_under_yellow == (s.vehicles@[k].under_yellow != 0)
                &&& player_sector == s.vehicles@[k].sector
            } else {
                &&& player_flag == 0
                &&& individual_phase == 0
                &&& !player_under_yellow
                &&& player_sector == -1
            }
        },
        None => {
            &&& yellow_flag_state == -1
            &&& sector_flags@ == seq![0i32, 0i32, 0i32]
            &&& start_light == 0
            &&& game_phase == 0
            &&& player_flag == 0
            &&& individual_phase == 0
            &&& !player_under_yellow
            &&& player_sector == -1
        },
    }
}

/// Whether a message says what the garage says.
pub open spec fn tells_wear(msg: ServerMessage, w: WearablesSnapshot) -> bool {
    msg matches ServerMessage::VehicleStatusUpdate {
        aero_damage,
        brake_wear,
        suspension_damage,
        ..
    } && aero_damage == w.aero_damage && brake_wear == w.brake_wear && suspension_damage
        == w.suspension_damage
}

/// The damage of our car.
fn damage_of(tel: Option<&TelemetryFrame>, id: i32) -> (d: Damage)
    ensures
        match damaged_row(tel, id) {
            Some(v) => {
                &&& d.overheating == (v.overheating != 0)
                &&& d.any_detached == (v.detached != 0)
                &&& d.dent_severity == v.dent_severity
                &&& d.last_impact_magnitude == v.last_impact_magnitude
                &&& d.last_impact_et == v.last_impact_et
                &&& stands_for(d.tire_flat, v.wheel_flat)
                &&& stands_for(d.tire_detached, v.wheel_detached)
            },
            None => {
                &&& !d.overheating
                &&& !d.any_detached
                &&& d.dent_severity@ == seq![0u8, 0u8, 0u8, 0u8, 0u8, 0u8, 0u8, 0u8]
                &&& d.last_impact_magnitude == (Double { bits: 0 })
                &&& d.last_impact_et == (Double { bits: 0 })
                &&& d.tire_flat@ == seq![false, false, false, false]
                &&& d.tire_detached@ == seq![false, false, false, false]
            },
        },
{
    if let Some(t) = tel {
        if let Some(i) = t.shown_vehicle(id) {
            let v = t.vehicles[i];
            return Damage {
                overheating: v.overheating != 0,
                any_detached: v.detached != 0,
                dent_severity: v.dent_severity,
                last_impact_magnitude: v.last_impact_magnitude,
                last_impact_et: v.last_impact_et,
                tire_flat: flags_of(v.wheel_flat),
                tire_detached: flags_of(v.wheel_detached),
            };
        }
    }
    Damage {
        overheating: false,
        any_detached: false,
        dent_severity: [0, 0, 0, 0, 0, 0, 0, 0],
        last_impact_magnitude: Double { bits: 0 },
        last_impact_et: Double { bits: 0 },
        tire_flat: [false, false, false, false],
        tire_detached: [false, false, false, false],
    }
}

/// The damage of our car and the flags that it is shown.
pub fn build_vehicle_status(
    tel: Option<&TelemetryFrame>,
    sc: Option<&ScoringFrame>,
    player_id: i32,
    wearables: &WearablesSnapshot,
) -> (msg: ServerMessage)
    ensures
        tells_damage(msg, damaged_row(tel, player_id)),
        tells_flags(msg, sc, player_id),
        tells_wear(msg, *wearables),
{
    let d = damage_of(tel, player_id);
    let mut yellow_flag_state: i32 = -1;
    let mut sector_flags: [i32; 3] = [0, 0, 0];
    let mut start_light: u8 = 0;
    let mut game_phase: u8 = 0;
    let mut player_flag: u8 = 0;
    let mut individual_phase: u8 = 0;
    let mut player_under_yellow = false;
    let mut player_sector: i32 = -1;
    if let Some(s) = sc {
        yellow_flag_state = s.info.yellow_flag_state as i32;
        sector_flags = [
            s.info.sector_flag[0] as i32,
            s.info.sector_flag[1] as i32,
            s.info.sector_flag[2] as i32,
        ];
        start_light = s.info.start_light;
        game_phase = s.info.game_phase;
        if let Some(k) = s.row_of(player_id) {
            player_flag = s.vehicles[k].flag;
            individual_phase = s.vehicles[k].individual_phase;
            player_under_yellow = s.vehicles[k].under_yellow != 0;
            player_sector = s.vehicles[k].sector as i32;
        }
    }
    ServerMessage::VehicleStatusUpdate {
        overheating: d.overheating,
        any_detached: d.any_detached,
        dent_severity: d.dent_severity,
        last_impact_magnitude: d.last_impact_magnitude,
        last_impact_et: d.last_impact_et,
        tire_flat: d.tire_flat,
        tire_detached: d.tire_detached,
        aero_damage: wearables.aero_damage,
        brake_wear: wearables.brake_wear,
        suspension_damage: wearables.suspension_damage,
        yellow_flag_state,
        sector_flags,
        start_light,
        game_phase,
        player_flag,
        individual_phase,
        player_under_yellow,
        player_sector,
        safety_car_active: game_phase == GAME_PHASE_FULL_COURSE_YELLOW,
    }
}

/// Whether the field is under caution; it is not where there is no scoring block.
pub fn is_under_caution(sc: Option<&ScoringFrame>) -> (r: bool)
    ensures
        r == (match sc {
            Some(s) => s.info.game_phase == GAME_PHASE_FULL_COURSE_YELLOW,
            None => false,
        }),
{
    match sc {
        Some(s) => s.info.game_phase == GAME_PHASE_FULL_COURSE_YELLOW,
        None => false,
    }
}

// ---------------------------------------------------------------------------
// Fuel
// ---------------------------------------------------------------------------

/// What the fuel strategy is made from.
#[derive(Debug, Clone, Copy)]
pub struct FuelInput {
    pub fuel: Double,
    pub lap: i32,
    pub in_pits: bool,
    /// The laps that are left, or -1 where the session is not limited by laps.
    pub laps_remaining: i32,
    pub last_lap_time: Double,
}

/// The laps that are left, or -1 where the session is not limited by laps.
pub open spec fn laps_left(max_laps: i32, lap: int) -> int {
    if 0 < max_laps < NO_LAP_LIMIT {
        if max_laps > lap {
            max_laps - lap
        } else {
            0
        }
    } else {
        -1
    }
}

/// What the fuel strategy is made from.
pub fn fuel_input(tel: &TelemetryFrame, sc: &ScoringFrame, player_id: i32) -> (f: FuelInput)
    ensures
        f.fuel == (match our_row(*tel, player_id) {
            Some(i) => tel.vehicles@[i].fuel,
            None => Double { bits: 0 },
        }),
        ({
            let k = flagged_row(sc.vehicles@, player_id);
            if k < sc.vehicles@.len() {
                &&& f.lap == sc.vehicles@[k].total_laps
                &&& f.in_pits == (sc.vehicles@[k].in_pits != 0)
                &&& f.last_lap_time == sc.vehicles@[k].last_lap_time
            } else {
                &&& f.lap == 0
                &&& !f.in_pits
                &&& f.last_lap_time == (Double { bits: MINUS_ONE })
            }
        }),
        f.laps_remaining == laps_left(sc.info.max_laps, f.lap as int),
{
    let fuel = match tel.our_vehicle(player_id) {
        Some(i) => tel.vehicles[i].fuel,
        None => Double { bits: 0 },
    };
    let (laps, in_pits, last_lap_time): (i16, bool, Double) = match sc.row_of(player_id) {
        Some(k) => (
            sc.vehicles[k].total_laps,
            sc.vehicles[k].in_pits != 0,
            sc.vehicles[k].last_lap_time,
        ),
        None => (0, false, Double { bits: MINUS_ONE }),
    };
    let lap = laps as i32;
    let max_laps = sc.info.max_laps;
    let laps_remaining: i32 = if 0 < max_laps && max_laps < NO_LAP_LIMIT {
        if max_laps > lap {
            max_laps - lap
        } else {
            0
        }
    } else {
        -1
    };
    FuelInput { fuel, lap, in_pits, laps_remaining, last_lap_time }
}

// ---------------------------------------------------------------------------
// Laws: which row is meant
// ---------------------------------------------------------------------------

/// The first row with an id is the one that is found.
proof fn lemma_row_with(rows: Seq<VehicleTelemetry>, id: i32, i: int)
    requires
        0 <= i <= rows.len(),
        forall|j: int| 0 <= j < i ==> (#[trigger] rows[j]).id != id,
        i < rows.len() ==> rows[i].id == id,
    ensures
        row_with(rows, id) == i,
    decreases rows.len(),
{
    if i > 0 {
        let rest = rows.skip(1);
        assert(rows[0].id != id);
        assert forall|j: int| 0 <= j < i - 1 implies (#[trigger] rest[j]).id != id by {
            assert(rest[j] == rows[j + 1]);
        }
        if i < rows.len() {
            assert(rest[i - 1] == rows[i]);
        }
        lemma_row_with(rest, id, i - 1);
    }
}

/// The last row with an id is the one that is found.
proof fn lemma_last_row_with(rows: Seq<VehicleTelemetry>, id: i32, i: int)
    requires
        -1 <= i < rows.len(),
        forall|j: int| i < j < rows.len() ==> (#[trigger] rows[j]).id != id,
        i >= 0 ==> rows[i].id == id,
    ensures
        last_row_with(rows, id) == i,
    decreases rows.len(),
{
    if rows.len() > 0 && i < rows.len() - 1 {
        let front = rows.drop_last();
        assert(rows[rows.len() - 1].id != id);
        assert forall|j: int| i < j < front.len() implies (#[trigger] front[j]).id != id by {
            assert(front[j] == rows[j]);
        }
        lemma_last_row_with(front, id, i);
    }
}

/// The first row that is of our car or marked as the player's is the one that is found.
proof fn lemma_flagged_row(rows: Seq<ScoringRow>, id: i32, i: int)
    requires
        0 <= i <= rows.len(),
        forall|j: int|
            0 <= j < i ==> (#[trigger] rows[j]).id != id && rows[j].is_player == 0,
        i < rows.len() ==> rows[i].id == id || rows[i].is_player != 0,
    ensures
        flagged_row(rows, id) == i,
    decreases rows.len(),
{
    if i > 0 {
        let rest = rows.skip(1);
        assert(rows[0].id != id && rows[0].is_player == 0);
        assert forall|j: int| 0 <= j < i - 1 implies (#[trigger] rest[j]).id != id
            && rest[j].is_player == 0 by {
            assert(rest[j] == rows[j + 1]);
        }
        if i < rows.len() {
            assert(rest[i - 1] == rows[i]);
        }
        lemma_flagged_row(rest, id, i - 1);
    }
}

/// The index of the first row with an id, or the number of rows.
proof fn lemma_some_row(rows: Seq<VehicleTelemetry>, id: i32) -> (i: int)
    ensures
        0 <= i <= rows.len(),
        forall|j: int| 0 <= j < i ==> (#[trigger] rows[j]).id != id,
        i < rows.len() ==> rows[i].id == id,
        row_with(rows, id) == i,
    decreases rows.len(),
{
    if rows.len() == 0 || rows[0].id == id {
        0
    } else {
        let rest = rows.skip(1);
        let k = lemma_some_row(rest, id);
        assert forall|j: int| 0 <= j < k + 1 implies (#[trigger] rows[j]).id != id by {
            if j > 0 {
                assert(rest[j - 1] == rows[j]);
            }
        }
        if k < rest.len() {
            assert(rest[k] == rows[k + 1]);
        }
        k + 1
    }
}

/// Our row is the one that the game names; where it names none that there is, it is
/// the first one with our id, and where there is none either, there is none.
pub proof fn law_our_row_is_the_one_the_game_names(tel: TelemetryFrame, id: i32)
    ensures
        tel.player is Some && tel.player->Some_0 < tel.vehicles@.len() ==> our_row(tel, id) == Some(
            tel.player->Some_0 as int,
        ),
        tel.player is None || tel.player->Some_0 >= tel.vehicles@.len() ==> match our_row(tel, id) {
            Some(i) => 0 <= i < tel.vehicles@.len() && tel.vehicles@[i].id == id && forall|j: int|
                0 <= j < i ==> (#[trigger] tel.vehicles@[j]).id != id,
            None => forall|j: int|
                0 <= j < tel.vehicles@.len() ==> (#[trigger] tel.vehicles@[j]).id != id,
        },
{
    let i = lemma_some_row(tel.vehicles@, id);
}

/// What is shown is our row, and the first one where ours is not there.
pub proof fn law_the_shown_row_is_ours_or_the_first(tel: TelemetryFrame, id: i32)
    ensures
        tel.player is Some && tel.player->Some_0 < tel.vehicles@.len() ==> shown_row(tel, id) == Some(
            tel.player->Some_0 as int,
        ),
        tel.player is None || tel.player->Some_0 >= tel.vehicles@.len() ==> match shown_row(
            tel,
            id,
        ) {
            Some(i) => {
                &&& 0 <= i < tel.vehicles@.len()
                &&& ({
                    ||| tel.vehicles@[i].id == id && forall|j: int|
                        0 <= j < i ==> (#[trigger] tel.vehicles@[j]).id != id
                    ||| i == 0 && forall|j: int|
                        0 <= j < tel.vehicles@.len() ==> (#[trigger] tel.vehicles@[j]).id != id
                })
            },
            None => tel.vehicles@.len() == 0,
        },
{
    let i = lemma_some_row(tel.vehicles@, id);
}

/// The row that is found for a car of the scoring block is the last one with its id.
pub proof fn law_the_last_row_of_a_car_counts(rows: Seq<VehicleTelemetry>, id: i32)
    ensures
        -1 <= last_row_with(rows, id) < rows.len(),
        last_row_with(rows, id) >= 0 ==> rows[last_row_with(rows, id)].id == id,
        forall|j: int|
            last_row_with(rows, id) < j < rows.len() ==> (#[trigger] rows[j]).id != id,
    decreases rows.len(),
{
    if rows.len() > 0 && rows.last().id != id {
        let front = rows.drop_last();
        law_the_last_row_of_a_car_counts(front, id);
        assert forall|j: int| last_row_with(rows, id) < j < rows.len() implies (
        #[trigger] rows[j]).id != id by {
            if j < front.len() {
                assert(front[j] == rows[j]);
            }
        }
    }
}

/// The row that flags are read from is the first one that has our id or is marked as
/// the player's.
pub proof fn law_flags_are_read_from_our_row(rows: Seq<ScoringRow>, id: i32)
    ensures
        0 <= flagged_row(rows, id) <= rows.len(),
        forall|j: int|
            0 <= j < flagged_row(rows, id) ==> (#[trigger] rows[j]).id != id && rows[j].is_player
                == 0,
        flagged_row(rows, id) < rows.len() ==> rows[flagged_row(rows, id)].id == id
            || rows[flagged_row(rows, id)].is_player != 0,
    decreases rows.len(),
{
    if rows.len() > 0 && rows[0].id != id && rows[0].is_player == 0 {
        let rest = rows.skip(1);
        law_flags_are_read_from_our_row(rest, id);
        let k = flagged_row(rest, id);
        assert forall|j: int| 0 <= j < k + 1 implies (#[trigger] rows[j]).id != id
            && rows[j].is_player == 0 by {
            if j > 0 {
                assert(rest[j - 1] == rows[j]);
            }
        }
        if k < rest.len() {
            assert(rest[k] == rows[k + 1]);
        }
    }
}

/// The id that the standings give as ours is that of the last row that is marked as
/// the player's, and -1 where none is.
pub proof fn law_the_player_id_is_of_a_marked_row(rows: Seq<ScoringRow>, i: int)
    requires
        -1 <= i < rows.len(),
        i >= 0 ==> rows[i].is_player != 0,
        forall|j: int| i < j < rows.len() ==> (#[trigger] rows[j]).is_player == 0,
    ensures
        i >= 0 ==> player_id_of(rows) == rows[i].id,
        i == -1 ==> player_id_of(rows) == -1,
    decreases rows.len(),
{
    if rows.len() > 0 && i < rows.len() - 1 {
        let front = rows.drop_last();
        assert(rows[rows.len() - 1].is_player == 0);
        assert forall|j: int| i < j < front.len() implies (#[trigger] front[j]).is_player == 0 by {
            assert(front[j] == rows[j]);
        }
        law_the_player_id_is_of_a_marked_row(front, i);
    }
}

// ---------------------------------------------------------------------------
// Laws: what the messages say
// ---------------------------------------------------------------------------

/// The update carries the readings of the row under their own names, beside the fuel
/// strategy and the energy that it was given.
pub proof fn law_an_update_carries_the_readings(
    v: VehicleTelemetry,
    fuel: FuelSnapshot,
    ve_history: Option<Vec<Double>>,
    ve_available: Option<bool>,
    msg: ServerMessage,
)
    requires
        msg == update_of(v, fuel, ve_history, ve_available),
    ensures
        msg is TelemetryUpdate,
        msg->TelemetryUpdate_speed_ms == v.speed_ms,
        msg->TelemetryUpdate_rpm == v.rpm,
        msg->TelemetryUpdate_max_rpm == v.max_rpm,
        msg->TelemetryUpdate_gear == v.gear,
        msg->TelemetryUpdate_throttle == v.throttle,
        msg->TelemetryUpdate_brake == v.brake,
        msg->TelemetryUpdate_clutch == v.clutch,
        msg->TelemetryUpdate_steering == v.steering,
        msg->TelemetryUpdate_fuel == v.fuel,
        msg->TelemetryUpdate_fuel_capacity == v.fuel_capacity,
        msg->TelemetryUpdate_water_temp == v.water_temp,
        msg->TelemetryUpdate_oil_temp == v.oil_temp,
        msg->TelemetryUpdate_tires == v.tires,
        msg->TelemetryUpdate_position == v.position,
        msg->TelemetryUpdate_velocity == v.velocity,
        msg->TelemetryUpdate_local_accel == v.local_accel,
        msg->TelemetryUpdate_delta_best == v.delta_best,
        msg->TelemetryUpdate_current_et == v.elapsed_time,
        msg->TelemetryUpdate_lap_start_et == v.lap_start_et,
        msg->TelemetryUpdate_heading_deg == v.heading_deg,
        msg->TelemetryUpdate_fuel_avg_consumption == fuel.avg_consumption,
        msg->TelemetryUpdate_fuel_avg_sample_count == fuel.sample_count,
        msg->TelemetryUpdate_fuel_laps_remaining == fuel.laps_remaining,
        msg->TelemetryUpdate_fuel_stint_number == fuel.stint_number,
        msg->TelemetryUpdate_fuel_stint_laps == fuel.stint_laps,
        msg->TelemetryUpdate_fuel_stint_consumption == fuel.stint_consumption,
        msg->TelemetryUpdate_fuel_recommended == fuel.recommended,
        msg->TelemetryUpdate_fuel_pit_detected == fuel.pit_detected,
        msg->TelemetryUpdate_fuel_avg_lap_time == fuel.avg_lap_time,
        msg->TelemetryUpdate_ve_history == ve_history,
        msg->TelemetryUpdate_ve_available == ve_available,
{
}

/// The standings say of each car what its row of the scoring block says, under the
/// same names, and in the order of the rows.
pub proof fn law_the_standings_carry_each_row(
    msg: ServerMessage,
    sc: ScoringFrame,
    tel: Option<TelemetryFrame>,
    distances: Seq<Double>,
    i: int,
)
    requires
        is_scoring_update(msg, sc, tel, distances),
        0 <= i < sc.vehicles@.len(),
    ensures
        msg is ScoringUpdate,
        msg->ScoringUpdate_session_time == sc.info.current_et,
        msg->ScoringUpdate_num_vehicles == sc.info.num_vehicles,
        msg->ScoringUpdate_vehicles@.len() == sc.vehicles@.len(),
        ({
            let e = msg->ScoringUpdate_vehicles@[i];
            let row = sc.vehicles@[i];
            &&& e.id == row.id
            &&& e.car_number == row.id
            &&& e.driver_name@ == row.driver_name@
            &&& e.team_name@.len() == 0
            &&& e.vehicle_class@ == row.vehicle_class@
            &&& e.car_name@ == row.vehicle_name@
            &&& e.position == row.place
            &&& e.lap_dist == row.lap_dist
            &&& e.total_laps == row.total_laps
            &&& e.best_lap_time == row.best_lap_time
            &&& e.last_lap_time == row.last_lap_time
            &&& e.in_pits <==> row.in_pits != 0
            &&& e.last_sector1 == row.last_sector1
            &&& e.last_sector2 == row.last_sector2
            &&& e.cur_sector1 == row.cur_sector1
            &&& e.cur_sector2 == row.cur_sector2
            &&& e.best_sector1 == row.best_sector1
            &&& e.best_sector2 == row.best_sector2
            &&& e.lap_start_et == row.lap_start_et
            &&& e.time_behind_leader == row.time_behind_leader
            &&& e.laps_behind_leader == row.laps_behind_leader
        }),
{
    let e = msg->ScoringUpdate_vehicles@[i];
    assert(is_entry(e, sc.vehicles@[i], telemetry_of(tel, sc.vehicles@[i].id), distances[i]));
}

/// The third sector is what is left of the lap after the second, where the lap and the
/// second sector have a time above zero, and -1 otherwise.
pub proof fn law_a_third_sector_needs_two_times(
    msg: ServerMessage,
    sc: ScoringFrame,
    tel: Option<TelemetryFrame>,
    distances: Seq<Double>,
    i: int,
)
    requires
        is_scoring_update(msg, sc, tel, distances),
        0 <= i < sc.vehicles@.len(),
    ensures
        msg is ScoringUpdate,
        msg->ScoringUpdate_vehicles@.len() == sc.vehicles@.len(),
        ({
            let e = msg->ScoringUpdate_vehicles@[i];
            let row = sc.vehicles@[i];
            &&& 0 < row.last_lap_time.bits <= 0x7FF0_0000_0000_0000 && 0 < row.last_sector2.bits
                <= 0x7FF0_0000_0000_0000 ==> e.last_sector3 == row.last_remainder
            &&& !(0 < row.last_lap_time.bits <= 0x7FF0_0000_0000_0000) || !(0
                < row.last_sector2.bits <= 0x7FF0_0000_0000_0000) ==> e.last_sector3.bits
                == 0xBFF0_0000_0000_0000
            &&& 0 < row.best_lap_time.bits <= 0x7FF0_0000_0000_0000 && 0 < row.best_sector2.bits
                <= 0x7FF0_0000_0000_0000 ==> e.best_sector3 == row.best_remainder
            &&& !(0 < row.best_lap_time.bits <= 0x7FF0_0000_0000_0000) || !(0
                < row.best_sector2.bits <= 0x7FF0_0000_0000_0000) ==> e.best_sector3.bits
                == 0xBFF0_0000_0000_0000
        }),
{
    let e = msg->ScoringUpdate_vehicles@[i];
    assert(is_entry(e, sc.vehicles@[i], telemetry_of(tel, sc.vehicles@[i].id), distances[i]));
}

/// A car that has a telemetry row is shown where that row has it, unless the row holds
/// nothing but zeros or lies more than 150 m from where the scoring block has the car,
/// and with the energy of that row. The last row of the car's id counts.
pub proof fn law_a_car_is_shown_where_its_telemetry_has_it(
    msg: ServerMessage,
    sc: ScoringFrame,
    tel: TelemetryFrame,
    distances: Seq<Double>,
    i: int,
    k: int,
)
    requires
        is_scoring_update(msg, sc, Some(tel), distances),
        0 <= i < sc.vehicles@.len(),
        0 <= k < tel.vehicles@.len(),
        tel.vehicles@[k].id == sc.vehicles@[i].id,
        forall|j: int|
            k < j < tel.vehicles@.len() ==> (#[trigger] tel.vehicles@[j]).id != sc.vehicles@[i].id,
    ensures
        msg is ScoringUpdate,
        msg->ScoringUpdate_vehicles@.len() == sc.vehicles@.len(),
        ({
            let e = msg->ScoringUpdate_vehicles@[i];
            let row = sc.vehicles@[i];
            let t = tel.vehicles@[k].position;
            let far = ieee::less(Double { bits: 0x4062_C000_0000_0000 }, distances[i]);
            let empty = ieee::is_zero(t.x) && ieee::is_zero(t.y) && ieee::is_zero(t.z);
            &&& e.virtual_energy == tel.vehicles@[k].virtual_energy
            &&& !far && !empty ==> e.pos_x == t.x && e.pos_y == t.y && e.pos_z == t.z
            &&& far || empty ==> e.pos_x == row.position.x && e.pos_y == row.position.y && e.pos_z
                == row.position.z
        }),
{
    let e = msg->ScoringUpdate_vehicles@[i];
    lemma_last_row_with(tel.vehicles@, sc.vehicles@[i].id, k);
    assert(is_entry(
        e,
        sc.vehicles@[i],
        telemetry_of(Some(tel), sc.vehicles@[i].id),
        distances[i],
    ));
}

/// A car without a telemetry row is shown where the scoring block has it, and without
/// energy.
pub proof fn law_a_car_without_telemetry_is_shown_where_it_scores(
    msg: ServerMessage,
    sc: ScoringFrame,
    tel: Option<TelemetryFrame>,
    distances: Seq<Double>,
    i: int,
)
    requires
        is_scoring_update(msg, sc, tel, distances),
        0 <= i < sc.vehicles@.len(),
        tel matches Some(t) ==> forall|j: int|
            0 <= j < t.vehicles@.len() ==> (#[trigger] t.vehicles@[j]).id != sc.vehicles@[i].id,
    ensures
        msg is ScoringUpdate,
        msg->ScoringUpdate_vehicles@.len() == sc.vehicles@.len(),
        ({
            let e = msg->ScoringUpdate_vehicles@[i];
            let row = sc.vehicles@[i];
            &&& e.virtual_energy.bits == 0
            &&& e.pos_x == row.position.x
            &&& e.pos_y == row.position.y
            &&& e.pos_z == row.position.z
        }),
{
    let e = msg->ScoringUpdate_vehicles@[i];
    if tel is Some {
        lemma_last_row_with(tel->Some_0.vehicles@, sc.vehicles@[i].id, -1);
    }
    assert(is_entry(e, sc.vehicles@[i], telemetry_of(tel, sc.vehicles@[i].id), distances[i]));
}

/// The standings name the kind of the session by its number: a test day, four
/// practices, four qualifyings, a warmup and four races, and nothing else.
pub proof fn law_the_standings_name_the_session(
    msg: ServerMessage,
    sc: ScoringFrame,
    tel: Option<TelemetryFrame>,
    distances: Seq<Double>,
)
    requires
        is_scoring_update(msg, sc, tel, distances),
    ensures
        msg is ScoringUpdate,
        sc.info.session == 0 ==> msg->ScoringUpdate_session_type@ == "TestDay"@,
        sc.info.session >= 1 && sc.info.session < 5 ==> msg->ScoringUpdate_session_type@
            == "Practice"@,
        sc.info.session >= 5 && sc.info.session < 9 ==> msg->ScoringUpdate_session_type@
            == "Qualifying"@,
        sc.info.session == 9 ==> msg->ScoringUpdate_session_type@ == "Warmup"@,
        sc.info.session >= 10 && sc.info.session < 14 ==> msg->ScoringUpdate_session_type@
            == "Race"@,
        sc.info.session < 0 || sc.info.session > 13 ==> msg->ScoringUpdate_session_type@
            == "Unknown"@,
{
}

/// The kind of a session has the same name wherever it is asked for.
pub proof fn law_sessions_are_named_by_their_number(session: i32)
    ensures
        session == 0 ==> session_name(session) == "TestDay"@,
        session >= 1 && session < 5 ==> session_name(session) == "Practice"@,
        session >= 5 && session < 9 ==> session_name(session) == "Qualifying"@,
        session == 9 ==> session_name(session) == "Warmup"@,
        session >= 10 && session < 14 ==> session_name(session) == "Race"@,
        session < 0 || session > 13 ==> session_name(session) == "Unknown"@,
{
}

/// The standings say which car is ours: the last one that is marked as the player's.
pub proof fn law_the_standings_name_our_car(
    msg: ServerMessage,
    sc: ScoringFrame,
    tel: Option<TelemetryFrame>,
    distances: Seq<Double>,
    i: int,
)
    requires
        is_scoring_update(msg, sc, tel, distances),
        -1 <= i < sc.vehicles@.len(),
        i >= 0 ==> sc.vehicles@[i].is_player != 0,
        forall|j: int|
            i < j < sc.vehicles@.len() ==> (#[trigger] sc.vehicles@[j]).is_player == 0,
    ensures
        msg is ScoringUpdate,
        i >= 0 ==> msg->ScoringUpdate_player_vehicle_id == sc.vehicles@[i].id,
        i == -1 ==> msg->ScoringUpdate_player_vehicle_id == -1,
{
    law_the_player_id_is_of_a_marked_row(sc.vehicles@, i);
}

/// The session's message carries the readings of the track and the weather under their
/// own names, with the forecast that it was given.
pub proof fn law_the_session_carries_its_readings(
    msg: ServerMessage,
    sc: ScoringFrame,
    forecast: Seq<WeatherForecastNode>,
    d: WeatherDerived,
)
    requires
        is_session_info(msg, sc, forecast, d),
    ensures
        msg is SessionInfo,
        msg->SessionInfo_track_name@ == sc.info.track_name@,
        msg->SessionInfo_track_length == sc.info.track_length,
        msg->SessionInfo_weather.air_temp == sc.info.ambient_temp,
        msg->SessionInfo_weather.track_temp == sc.info.track_temp,
        msg->SessionInfo_weather.rain_intensity == sc.info.raining,
        msg->SessionInfo_weather.dark_cloud == sc.info.dark_cloud,
        msg->SessionInfo_weather.avg_path_wetness == sc.info.avg_path_wetness,
        msg->SessionInfo_weather.min_path_wetness == sc.info.min_path_wetness,
        msg->SessionInfo_weather.max_path_wetness == sc.info.max_path_wetness,
        msg->SessionInfo_weather.forecast@ == forecast,
        forecast.len() > 0 ==> msg->SessionInfo_weather.cloudiness == d.forecast_cloudiness,
        forecast.len() == 0 ==> msg->SessionInfo_weather.cloudiness == sc.info.dark_cloud,
        0 < sc.info.max_laps < 999_000 ==> msg->SessionInfo_session_laps == sc.info.max_laps,
        sc.info.max_laps <= 0 || sc.info.max_laps >= 999_000 ==> msg->SessionInfo_session_laps == 0,
        0 < sc.info.end_et.bits <= 0x7FF0_0000_0000_0000 ==> msg->SessionInfo_session_minutes
            == sc.info.end_minutes,
        sc.info.end_et.bits == 0 || sc.info.end_et.bits > 0x7FF0_0000_0000_0000
            ==> msg->SessionInfo_session_minutes.bits == 0,
{
}

/// The wind that is shown is the live one while it blows with at least 0.1 m/s, then
/// that of the first forecast node if that does, and else none. It is seen from our
/// car, so that it has a direction only where there is one.
pub proof fn law_the_wind_that_blows_is_shown(
    msg: ServerMessage,
    sc: ScoringFrame,
    forecast: Seq<WeatherForecastNode>,
    d: WeatherDerived,
)
    requires
        is_session_info(msg, sc, forecast, d),
    ensures
        msg is SessionInfo,
        ({
            let w = msg->SessionInfo_weather;
            let calm = Double { bits: 0x3FB9_9999_9999_999A };
            let ours = exists|i: int|
                0 <= i < sc.vehicles@.len() && (#[trigger] sc.vehicles@[i]).is_player != 0;
            let live = !ieee::less(d.wind_speed, calm);
            let foretold = forecast.len() > 0 && forecast[0].wind_speed is Some && ieee::at_least(
                forecast[0].wind_speed->Some_0,
                calm,
            );
            &&& live ==> w.wind_speed_live == Some(d.wind_speed)
            &&& live && ours ==> w.wind_rel_deg == Some(d.wind_rel_deg)
            &&& live && !ours ==> w.wind_rel_deg is None
            &&& !live && foretold ==> w.wind_speed_live == forecast[0].wind_speed
            &&& !live && foretold && ours && forecast[0].wind_direction is Some ==> w.wind_rel_deg
                == Some(d.forecast_wind_rel_deg)
            &&& !live && foretold && (!ours || forecast[0].wind_direction is None)
                ==> w.wind_rel_deg is None
            &&& !live && !foretold ==> w.wind_speed_live is None && w.wind_rel_deg is None
        }),
{
}

/// The status carries the damage of the row under its own names; a byte of the game
/// stands for yes where it is not zero.
pub proof fn law_the_status_carries_the_damage(msg: ServerMessage, v: VehicleTelemetry)
    requires
        tells_damage(msg, Some(v)),
    ensures
        msg is VehicleStatusUpdate,
        msg->VehicleStatusUpdate_overheating <==> v.overheating != 0,
        msg->VehicleStatusUpdate_any_detached <==> v.detached != 0,
        msg->VehicleStatusUpdate_dent_severity == v.dent_severity,
        msg->VehicleStatusUpdate_last_impact_magnitude == v.last_impact_magnitude,
        msg->VehicleStatusUpdate_last_impact_et == v.last_impact_et,
        forall|i: int|
            0 <= i < 4 ==> (#[trigger] msg->VehicleStatusUpdate_tire_flat[i] <==> v.wheel_flat[i]
                != 0),
        forall|i: int|
            0 <= i < 4 ==> (#[trigger] msg->VehicleStatusUpdate_tire_detached[i]
                <==> v.wheel_detached[i] != 0),
{
}

/// Without a row nothing is damaged.
pub proof fn law_no_damage_without_a_row(msg: ServerMessage)
    requires
        tells_damage(msg, None),
    ensures
        msg is VehicleStatusUpdate,
        !msg->VehicleStatusUpdate_overheating,
        !msg->VehicleStatusUpdate_any_detached,
        forall|i: int| 0 <= i < 8 ==> #[trigger] msg->VehicleStatusUpdate_dent_severity[i] == 0,
        msg->VehicleStatusUpdate_last_impact_magnitude.bits == 0,
        msg->VehicleStatusUpdate_last_impact_et.bits == 0,
        forall|i: int| 0 <= i < 4 ==> !(#[trigger] msg->VehicleStatusUpdate_tire_flat[i]),
        forall|i: int| 0 <= i < 4 ==> !(#[trigger] msg->VehicleStatusUpdate_tire_detached[i]),
{
    let dents = msg->VehicleStatusUpdate_dent_severity;
    let flat = msg->VehicleStatusUpdate_tire_flat;
    let off = msg->VehicleStatusUpdate_tire_detached;
    assert forall|i: int| 0 <= i < 8 implies #[trigger] dents[i] == 0 by {
        assert(dents@[i] == 0);
    }
    assert forall|i: int| 0 <= i < 4 implies !(#[trigger] flat[i]) by {
        assert(flat@[i] == false);
    }
    assert forall|i: int| 0 <= i < 4 implies !(#[trigger] off[i]) by {
        assert(off@[i] == false);
    }
}

/// The damage is that of our row, or of the first one, and there is none to tell where
/// there are no rows.
pub proof fn law_the_damage_is_of_the_shown_row(tel: &TelemetryFrame, id: i32)
    ensures
        damaged_row(None, id) is None,
        tel.player is Some && tel.player->Some_0 < tel.vehicles@.len() ==> damaged_row(Some(tel), id) == Some(
            tel.vehicles@[tel.player->Some_0 as int],
        ),
        tel.vehicles@.len() == 0 ==> damaged_row(Some(tel), id) is None,
        forall|i: int|
            (tel.player is None || tel.player->Some_0 >= tel.vehicles@.len()) && 0 <= i
                < tel.vehicles@.len() && (#[trigger] tel.vehicles@[i]).id == id && (forall|j: int|
                0 <= j < i ==> (#[trigger] tel.vehicles@[j]).id != id) ==> damaged_row(
                Some(tel),
                id,
            ) == Some(tel.vehicles@[i]),
        tel.vehicles@.len() > 0 && (tel.player is None || tel.player->Some_0
            >= tel.vehicles@.len()) && (forall|j: int|
            0 <= j < tel.vehicles@.len() ==> (#[trigger] tel.vehicles@[j]).id != id) ==> damaged_row(
            Some(tel),
            id,
        ) == Some(tel.vehicles@[0]),
{
    law_the_shown_row_is_ours_or_the_first(*tel, id);
    assert forall|i: int|
        (tel.player is None || tel.player->Some_0 >= tel.vehicles@.len()) && 0 <= i
            < tel.vehicles@.len() && (#[trigger] tel.vehicles@[i]).id == id && (forall|j: int|
            0 <= j < i ==> (#[trigger] tel.vehicles@[j]).id != id) implies damaged_row(
        Some(tel),
        id,
    ) == Some(tel.vehicles@[i]) by {
        lemma_row_with(tel.vehicles@, id, i);
    }
}

/// The status carries the flags of the session and those of our row under their own
/// names; the field is under caution in game phase 6.
pub proof fn law_the_status_carries_the_flags(
    msg: ServerMessage,
    sc: &ScoringFrame,
    id: i32,
    k: int,
)
    requires
        tells_flags(msg, Some(sc), id),
        0 <= k <= sc.vehicles@.len(),
        forall|j: int|
            0 <= j < k ==> (#[trigger] sc.vehicles@[j]).id != id && sc.vehicles@[j].is_player == 0,
        k < sc.vehicles@.len() ==> sc.vehicles@[k].id == id || sc.vehicles@[k].is_player != 0,
    ensures
        msg is VehicleStatusUpdate,
        msg->VehicleStatusUpdate_yellow_flag_state == sc.info.yellow_flag_state,
        forall|i: int|
            0 <= i < 3 ==> #[trigger] msg->VehicleStatusUpdate_sector_flags[i]
                == sc.info.sector_flag[i],
        msg->VehicleStatusUpdate_start_light == sc.info.start_light,
        msg->VehicleStatusUpdate_game_phase == sc.info.game_phase,
        msg->VehicleStatusUpdate_safety_car_active <==> sc.info.game_phase == 6,
        k < sc.vehicles@.len() ==> msg->VehicleStatusUpdate_player_flag == sc.vehicles@[k].flag,
        k < sc.vehicles@.len() ==> msg->VehicleStatusUpdate_individual_phase
            == sc.vehicles@[k].individual_phase,
        k < sc.vehicles@.len() ==> (msg->VehicleStatusUpdate_player_under_yellow
            <==> sc.vehicles@[k].under_yellow != 0),
        k < sc.vehicles@.len() ==> msg->VehicleStatusUpdate_player_sector == sc.vehicles@[k].sector,
        k == sc.vehicles@.len() ==> msg->VehicleStatusUpdate_player_flag == 0
            && msg->VehicleStatusUpdate_individual_phase == 0
            && !msg->VehicleStatusUpdate_player_under_yellow
            && msg->VehicleStatusUpdate_player_sector == -1,
{
    lemma_flagged_row(sc.vehicles@, id, k);
    let flags = msg->VehicleStatusUpdate_sector_flags;
    assert forall|i: int| 0 <= i < 3 implies #[trigger] flags[i] == sc.info.sector_flag[i] by {
        assert(i == 0 || i == 1 || i == 2);
    }
}

/// Without a scoring block no flag is shown, and the field is not under caution.
pub proof fn law_no_flags_without_a_scoring_block(msg: ServerMessage, id: i32)
    requires
        tells_flags(msg, None, id),
    ensures
        msg is VehicleStatusUpdate,
        msg->VehicleStatusUpdate_yellow_flag_state == -1,
        forall|i: int| 0 <= i < 3 ==> #[trigger] msg->VehicleStatusUpdate_sector_flags[i] == 0,
        msg->VehicleStatusUpdate_start_light == 0,
        msg->VehicleStatusUpdate_game_phase == 0,
        !msg->VehicleStatusUpdate_safety_car_active,
        msg->VehicleStatusUpdate_player_flag == 0,
        msg->VehicleStatusUpdate_individual_phase == 0,
        !msg->VehicleStatusUpdate_player_under_yellow,
        msg->VehicleStatusUpdate_player_sector == -1,
{
    let flags = msg->VehicleStatusUpdate_sector_flags;
    assert forall|i: int| 0 <= i < 3 implies #[trigger] flags[i] == 0 by {
        assert(flags@[i] == 0);
    }
}

/// The status carries the wear of the garage under its own names.
pub proof fn law_the_status_carries_the_wear(msg: ServerMessage, w: WearablesSnapshot)
    requires
        tells_wear(msg, w),
    ensures
        msg is VehicleStatusUpdate,
        msg->VehicleStatusUpdate_aero_damage == w.aero_damage,
        msg->VehicleStatusUpdate_brake_wear == w.brake_wear,
        msg->VehicleStatusUpdate_suspension_damage == w.suspension_damage,
{
}

/// The car supports virtual energy where its row has some, or a battery with charge.
pub proof fn law_energy_is_available_where_there_is_some(tel: TelemetryFrame, id: i32, i: int)
    requires
        our_row(tel, id) == Some(i),
    ensures
        0 < tel.vehicles@[i].virtual_energy.bits <= 0x7F80_0000 ==> energy_available(tel, id)
            == Some(true),
        0 < tel.vehicles@[i].battery_charge.bits <= 0x7FF0_0000_0000_0000 ==> energy_available(
            tel,
            id,
        ) == Some(true),
        !(0 < tel.vehicles@[i].virtual_energy.bits <= 0x7F80_0000) && !(0
            < tel.vehicles@[i].battery_charge.bits <= 0x7FF0_0000_0000_0000) ==> energy_available(
            tel,
            id,
        ) == Some(false),
{
}

/// Of a car that is not there nothing is known of its energy.
pub proof fn law_no_energy_is_claimed_without_a_row(tel: TelemetryFrame, id: i32)
    requires
        our_row(tel, id) is None,
    ensures
        energy_available(tel, id) is None,
{
}

/// In a session that is limited by laps, the laps that are left and the laps that were
/// driven make up the limit, until it is reached; no other session has laps left.
pub proof fn law_laps_left_and_driven_make_up_the_limit(max_laps: i32, lap: int)
    ensures
        0 < max_laps < 999_000 && lap <= max_laps ==> laps_left(max_laps, lap) + lap == max_laps,
        0 < max_laps < 999_000 && lap > max_laps ==> laps_left(max_laps, lap) == 0,
        max_laps <= 0 || max_laps >= 999_000 ==> laps_left(max_laps, lap) == -1,
        0 < max_laps < 999_000 ==> lap_limit(max_laps) == max_laps,
        max_laps <= 0 || max_laps >= 999_000 ==> lap_limit(max_laps) == 0,
{
}

/// Where a car is shown: at its telemetry position unless that is all zeros or more
/// than 150 m off.
pub proof fn law_a_far_or_empty_position_is_not_shown(scoring: Vec3, t: Vec3, distance: Double)
    ensures
        ieee::is_zero(t.x) && ieee::is_zero(t.y) && ieee::is_zero(t.z) ==> published_position(
            scoring,
            Some(t),
            distance,
        ) == scoring,
        ieee::less(Double { bits: 0x4062_C000_0000_0000 }, distance) ==> published_position(
            scoring,
            Some(t),
            distance,
        ) == scoring,
        !(ieee::is_zero(t.x) && ieee::is_zero(t.y) && ieee::is_zero(t.z)) && !ieee::less(
            Double { bits: 0x4062_C000_0000_0000 },
            distance,
        ) ==> published_position(scoring, Some(t), distance) == t,
{
}

/// The driver aids are sent as they are, each under its own name.
pub proof fn law_the_driver_aids_are_sent_as_they_are(
    snap: &ElectronicsSnapshot,
    msg: ServerMessage,
)
    requires
        call_ensures(build_electronics_update, (snap,), msg),
    ensures
        msg is ElectronicsUpdate,
        msg->ElectronicsUpdate_tc == snap.tc,
        msg->ElectronicsUpdate_tc_max == snap.tc_max,
        msg->ElectronicsUpdate_tc_cut == snap.tc_cut,
        msg->ElectronicsUpdate_tc_cut_max == snap.tc_cut_max,
        msg->ElectronicsUpdate_tc_slip == snap.tc_slip,
        msg->ElectronicsUpdate_tc_slip_max == snap.tc_slip_max,
        msg->ElectronicsUpdate_abs == snap.abs,
        msg->ElectronicsUpdate_abs_max == snap.abs_max,
        msg->ElectronicsUpdate_engine_map == snap.engine_map,
        msg->ElectronicsUpdate_engine_map_max == snap.engine_map_max,
        msg->ElectronicsUpdate_front_arb == snap.front_arb,
        msg->ElectronicsUpdate_front_arb_max == snap.front_arb_max,
        msg->ElectronicsUpdate_rear_arb == snap.rear_arb,
        msg->ElectronicsUpdate_rear_arb_max == snap.rear_arb_max,
        msg->ElectronicsUpdate_brake_bias == snap.brake_bias,
        msg->ElectronicsUpdate_regen == snap.regen,
        msg->ElectronicsUpdate_brake_migration == snap.brake_migration,
        msg->ElectronicsUpdate_brake_migration_max == snap.brake_migration_max,
        msg->ElectronicsUpdate_battery_pct == snap.battery_pct,
        msg->ElectronicsUpdate_soc == snap.soc,
        msg->ElectronicsUpdate_virtual_energy == snap.virtual_energy,
        msg->ElectronicsUpdate_tc_active == snap.tc_active,
        msg->ElectronicsUpdate_abs_active == snap.abs_active,
{
}

/// The update is made of one row, whose readings it carries under their own names: of
/// the row that the game names as ours, else of the first one with our id, else of the
/// first one.
pub proof fn law_the_update_is_of_our_car(
    tel: &TelemetryFrame,
    id: i32,
    fuel: &FuelSnapshot,
    ve_history: Option<Vec<Double>>,
    ve_available: Option<bool>,
    msg: Option<ServerMessage>,
    i: int,
)
    requires
        call_ensures(
            build_telemetry_update,
            (tel, id, fuel, ve_history, ve_available),
            msg,
        ),
        0 <= i < tel.vehicles@.len(),
        (tel.player is Some && tel.player->Some_0 == i) || ((tel.player is None
            || tel.player->Some_0 >= tel.vehicles@.len()) && ((tel.vehicles@[i].id == id && forall|j: int|
            0 <= j < i ==> (#[trigger] tel.vehicles@[j]).id != id) || (i == 0 && forall|j: int|
            0 <= j < tel.vehicles@.len() ==> (#[trigger] tel.vehicles@[j]).id != id))),
    ensures
        msg is Some,
        msg->Some_0 is TelemetryUpdate,
        ({
            let v = tel.vehicles@[i];
            let m = msg->Some_0;
            &&& m->TelemetryUpdate_speed_ms == v.speed_ms
            &&& m->TelemetryUpdate_rpm == v.rpm
            &&& m->TelemetryUpdate_max_rpm == v.max_rpm
            &&& m->TelemetryUpdate_gear == v.gear
            &&& m->TelemetryUpdate_throttle == v.throttle
            &&& m->TelemetryUpdate_brake == v.brake
            &&& m->TelemetryUpdate_clutch == v.clutch
            &&& m->TelemetryUpdate_steering == v.steering
            &&& m->TelemetryUpdate_fuel == v.fuel
            &&& m->TelemetryUpdate_fuel_capacity == v.fuel_capacity
            &&& m->TelemetryUpdate_water_temp == v.water_temp
            &&& m->TelemetryUpdate_oil_temp == v.oil_temp
            &&& m->TelemetryUpdate_tires == v.tires
            &&& m->TelemetryUpdate_position == v.position
            &&& m->TelemetryUpdate_velocity == v.velocity
            &&& m->TelemetryUpdate_local_accel == v.local_accel
            &&& m->TelemetryUpdate_delta_best == v.delta_best
            &&& m->TelemetryUpdate_current_et == v.elapsed_time
            &&& m->TelemetryUpdate_lap_start_et == v.lap_start_et
            &&& m->TelemetryUpdate_heading_deg == v.heading_deg
            &&& m->TelemetryUpdate_ve_history == ve_history
            &&& m->TelemetryUpdate_ve_available == ve_available
        }),
{
    if tel.player is None || tel.player->Some_0 >= tel.vehicles@.len() {
        if tel.vehicles@[i].id == id {
            lemma_row_with(tel.vehicles@, id, i);
        } else {
            lemma_row_with(tel.vehicles@, id, tel.vehicles@.len() as int);
        }
    }
}

/// There is no update exactly where there are no rows.
pub proof fn law_no_update_without_rows(
    tel: &TelemetryFrame,
    id: i32,
    fuel: &FuelSnapshot,
    ve_history: Option<Vec<Double>>,
    ve_available: Option<bool>,
    msg: Option<ServerMessage>,
)
    requires
        call_ensures(
            build_telemetry_update,
            (tel, id, fuel, ve_history, ve_available),
            msg,
        ),
    ensures
        msg is None <==> tel.vehicles@.len() == 0,
{
    law_the_shown_row_is_ours_or_the_first(*tel, id);
}

/// What the fuel strategy is made of is what the two blocks say of our car.
pub proof fn law_the_fuel_strategy_is_made_of_our_car(
    tel: &TelemetryFrame,
    sc: &ScoringFrame,
    id: i32,
    f: FuelInput,
    i: int,
    k: int,
)
    requires
        call_ensures(fuel_input, (tel, sc, id), f),
        our_row(*tel, id) == Some(i),
        0 <= k < sc.vehicles@.len(),
        forall|j: int|
            0 <= j < k ==> (#[trigger] sc.vehicles@[j]).id != id && sc.vehicles@[j].is_player == 0,
        sc.vehicles@[k].id == id || sc.vehicles@[k].is_player != 0,
    ensures
        f.fuel == tel.vehicles@[i].fuel,
        f.lap == sc.vehicles@[k].total_laps,
        f.in_pits <==> sc.vehicles@[k].in_pits != 0,
        f.last_lap_time == sc.vehicles@[k].last_lap_time,
        0 < sc.info.max_laps < 999_000 && f.lap <= sc.info.max_laps ==> f.laps_remaining + f.lap
            == sc.info.max_laps,
        0 < sc.info.max_laps < 999_000 && f.lap > sc.info.max_laps ==> f.laps_remaining == 0,
        sc.info.max_laps <= 0 || sc.info.max_laps >= 999_000 ==> f.laps_remaining == -1,
{
    lemma_flagged_row(sc.vehicles@, id, k);
}

/// A car that is not in the blocks has no fuel, no lap and no lap time.
pub proof fn law_the_fuel_strategy_of_nobody_is_empty(
    tel: &TelemetryFrame,
    sc: &ScoringFrame,
    id: i32,
    f: FuelInput,
)
    requires
        call_ensures(fuel_input, (tel, sc, id), f),
    ensures
        our_row(*tel, id) is None ==> f.fuel.bits == 0,
        (forall|j: int|
            0 <= j < sc.vehicles@.len() ==> (#[trigger] sc.vehicles@[j]).id != id
                && sc.vehicles@[j].is_player == 0) ==> f.lap == 0 && !f.in_pits
            && f.last_lap_time.bits == 0xBFF0_0000_0000_0000,
{
    if forall|j: int|
        0 <= j < sc.vehicles@.len() ==> (#[trigger] sc.vehicles@[j]).id != id
            && sc.vehicles@[j].is_player == 0 {
        lemma_flagged_row(sc.vehicles@, id, sc.vehicles@.len() as int);
    }
}

/// The field is under caution in game phase 6 and in no other.
pub proof fn law_caution_is_one_game_phase(sc: Option<&ScoringFrame>, r: bool)
    requires
        call_ensures(is_under_caution, (sc,), r),
    ensures
        sc is None ==> !r,
        sc is Some ==> (r <==> sc->Some_0.info.game_phase == 6),
{
}

// ---------------------------------------------------------------------------
// Laws of what is built
// ---------------------------------------------------------------------------

/// The standings that are built have one entry for each row, in order, with every
/// reading of the row under its own name.
pub proof fn law_built_standings_carry_every_reading(
    sc: &ScoringFrame,
    tel: Option<&TelemetryFrame>,
    distances: &Vec<Double>,
    r: (ServerMessage, i32),
    i: int,
)
    requires
        call_ensures(build_scoring_update, (sc, tel, distances), r),
        0 <= i < sc.vehicles@.len(),
    ensures
        r.0 is ScoringUpdate,
        r.0->ScoringUpdate_session_time == sc.info.current_et,
        r.0->ScoringUpdate_num_vehicles == sc.info.num_vehicles,
        r.0->ScoringUpdate_vehicles@.len() == sc.vehicles@.len(),
        ({
            let e = r.0->ScoringUpdate_vehicles@[i];
            let row = sc.vehicles@[i];
            &&& e.id == row.id
            &&& e.car_number == row.id
            &&& e.driver_name@ == row.driver_name@
            &&& e.team_name@.len() == 0
            &&& e.vehicle_class@ == row.vehicle_class@
            &&& e.car_name@ == row.vehicle_name@
            &&& e.position == row.place
            &&& e.lap_dist == row.lap_dist
            &&& e.total_laps == row.total_laps
            &&& e.best_lap_time == row.best_lap_time
            &&& e.last_lap_time == row.last_lap_time
            &&& e.in_pits <==> row.in_pits != 0
            &&& e.last_sector1 == row.last_sector1
            &&& e.last_sector2 == row.last_sector2
            &&& e.cur_sector1 == row.cur_sector1
            &&& e.cur_sector2 == row.cur_sector2
            &&& e.best_sector1 == row.best_sector1
            &&& e.best_sector2 == row.best_sector2
            &&& e.lap_start_et == row.lap_start_et
            &&& e.time_behind_leader == row.time_behind_leader
            &&& e.laps_behind_leader == row.laps_behind_leader
        }),
{
    let frame = match tel {
        Some(t) => Some(*t),
        None => None,
    };
    law_the_standings_carry_each_row(r.0, *sc, frame, distances@, i);
}

/// The standings that are built have the time of a third sector where the lap and its
/// second sector have a time, and minus one elsewhere.
pub proof fn law_built_standings_work_out_the_third_sector(
    sc: &ScoringFrame,
    tel: Option<&TelemetryFrame>,
    distances: &Vec<Double>,
    r: (ServerMessage, i32),
    i: int,
)
    requires
        call_ensures(build_scoring_update, (sc, tel, distances), r),
        0 <= i < sc.vehicles@.len(),
    ensures
        r.0 is ScoringUpdate,
        r.0->ScoringUpdate_vehicles@.len() == sc.vehicles@.len(),
        ({
            let e = r.0->ScoringUpdate_vehicles@[i];
            let row = sc.vehicles@[i];
            &&& 0 < row.last_lap_time.bits <= 0x7FF0_0000_0000_0000 && 0 < row.last_sector2.bits
                <= 0x7FF0_0000_0000_0000 ==> e.last_sector3 == row.last_remainder
            &&& !(0 < row.last_lap_time.bits <= 0x7FF0_0000_0000_0000) || !(0
                < row.last_sector2.bits <= 0x7FF0_0000_0000_0000) ==> e.last_sector3.bits
                == 0xBFF0_0000_0000_0000
            &&& 0 < row.best_lap_time.bits <= 0x7FF0_0000_0000_0000 && 0 < row.best_sector2.bits
                <= 0x7FF0_0000_0000_0000 ==> e.best_sector3 == row.best_remainder
            &&& !(0 < row.best_lap_time.bits <= 0x7FF0_0000_0000_0000) || !(0
                < row.best_sector2.bits <= 0x7FF0_0000_0000_0000) ==> e.best_sector3.bits
                == 0xBFF0_0000_0000_0000
        }),
{
    let frame = match tel {
        Some(t) => Some(*t),
        None => None,
    };
    law_a_third_sector_needs_two_times(r.0, *sc, frame, distances@, i);
}

/// The standings that are built show a car without telemetry where the scoring has it,
/// and without virtual energy.
pub proof fn law_built_standings_fall_back_on_the_scoring(
    sc: &ScoringFrame,
    tel: Option<&TelemetryFrame>,
    distances: &Vec<Double>,
    r: (ServerMessage, i32),
    i: int,
)
    requires
        call_ensures(build_scoring_update, (sc, tel, distances), r),
        0 <= i < sc.vehicles@.len(),
        tel matches Some(t) ==> forall|j: int|
            0 <= j < t.vehicles@.len() ==> (#[trigger] t.vehicles@[j]).id != sc.vehicles@[i].id,
    ensures
        r.0 is ScoringUpdate,
        r.0->ScoringUpdate_vehicles@.len() == sc.vehicles@.len(),
        ({
            let e = r.0->ScoringUpdate_vehicles@[i];
            let row = sc.vehicles@[i];
            &&& e.virtual_energy.bits == 0
            &&& e.pos_x == row.position.x
            &&& e.pos_y == row.position.y
            &&& e.pos_z == row.position.z
        }),
{
    let frame = match tel {
        Some(t) => Some(*t),
        None => None,
    };
    law_a_car_without_telemetry_is_shown_where_it_scores(r.0, *sc, frame, distances@, i);
}

/// The standings that are built show a car where its telemetry has it, unless that is
/// far from where the scoring has it or nowhere.
pub proof fn law_built_standings_show_the_telemetry(
    sc: &ScoringFrame,
    tel: &TelemetryFrame,
    distances: &Vec<Double>,
    r: (ServerMessage, i32),
    i: int,
    k: int,
)
    requires
        call_ensures(build_scoring_update, (sc, Some(tel), distances), r),
        0 <= i < sc.vehicles@.len(),
        0 <= k < tel.vehicles@.len(),
        tel.vehicles@[k].id == sc.vehicles@[i].id,
        forall|j: int|
            k < j < tel.vehicles@.len() ==> (#[trigger] tel.vehicles@[j]).id != sc.vehicles@[i].id,
    ensures
        r.0 is ScoringUpdate,
        r.0->ScoringUpdate_vehicles@.len() == sc.vehicles@.len(),
        ({
            let e = r.0->ScoringUpdate_vehicles@[i];
            let row = sc.vehicles@[i];
            let t = tel.vehicles@[k].position;
            let far = ieee::less(Double { bits: 0x4062_C000_0000_0000 }, distances@[i]);
            let empty = ieee::is_zero(t.x) && ieee::is_zero(t.y) && ieee::is_zero(t.z);
            &&& e.virtual_energy == tel.vehicles@[k].virtual_energy
            &&& !far && !empty ==> e.pos_x == t.x && e.pos_y == t.y && e.pos_z == t.z
            &&& far || empty ==> e.pos_x == row.position.x && e.pos_y == row.position.y && e.pos_z
                == row.position.z
        }),
{
    law_a_car_is_shown_where_its_telemetry_has_it(r.0, *sc, *tel, distances@, i, k);
}

/// The standings that are built name the last car that is marked as ours, or none, and
/// so does the id beside them.
pub proof fn law_built_standings_name_our_car(
    sc: &ScoringFrame,
    tel: Option<&TelemetryFrame>,
    distances: &Vec<Double>,
    r: (ServerMessage, i32),
    i: int,
)
    requires
        call_ensures(build_scoring_update, (sc, tel, distances), r),
        -1 <= i < sc.vehicles@.len(),
        i >= 0 ==> sc.vehicles@[i].is_player != 0,
        forall|j: int|
            i < j < sc.vehicles@.len() ==> (#[trigger] sc.vehicles@[j]).is_player == 0,
    ensures
        r.0 is ScoringUpdate,
        i >= 0 ==> r.0->ScoringUpdate_player_vehicle_id == sc.vehicles@[i].id,
        i == -1 ==> r.0->ScoringUpdate_player_vehicle_id == -1,
        r.1 == r.0->ScoringUpdate_player_vehicle_id,
{
    let frame = match tel {
        Some(t) => Some(*t),
        None => None,
    };
    law_the_standings_name_our_car(r.0, *sc, frame, distances@, i);
    law_the_player_id_is_of_a_marked_row(sc.vehicles@, i);
}

/// The standings that are built name the kind of session by its number.
pub proof fn law_built_standings_name_the_session(
    sc: &ScoringFrame,
    tel: Option<&TelemetryFrame>,
    distances: &Vec<Double>,
    r: (ServerMessage, i32),
)
    requires
        call_ensures(build_scoring_update, (sc, tel, distances), r),
    ensures
        r.0 is ScoringUpdate,
        sc.info.session == 0 ==> r.0->ScoringUpdate_session_type@ == "TestDay"@,
        sc.info.session >= 1 && sc.info.session < 5 ==> r.0->ScoringUpdate_session_type@
            == "Practice"@,
        sc.info.session >= 5 && sc.info.session < 9 ==> r.0->ScoringUpdate_session_type@
            == "Qualifying"@,
        sc.info.session == 9 ==> r.0->ScoringUpdate_session_type@ == "Warmup"@,
        sc.info.session >= 10 && sc.info.session < 14 ==> r.0->ScoringUpdate_session_type@
            == "Race"@,
        sc.info.session < 0 || sc.info.session > 13 ==> r.0->ScoringUpdate_session_type@
            == "Unknown"@,
{
    let frame = match tel {
        Some(t) => Some(*t),
        None => None,
    };
    law_the_standings_name_the_session(r.0, *sc, frame, distances@);
}

/// The session that is told carries every reading of the track and the weather under
/// its own name, and its limits where it has some.
pub proof fn law_a_built_session_carries_its_readings(
    sc: &ScoringFrame,
    forecast: Vec<WeatherForecastNode>,
    d: &WeatherDerived,
    msg: ServerMessage,
)
    requires
        call_ensures(build_session_info, (sc, forecast, d), msg),
    ensures
        msg is SessionInfo,
        msg->SessionInfo_track_name@ == sc.info.track_name@,
        msg->SessionInfo_track_length == sc.info.track_length,
        msg->SessionInfo_weather.air_temp == sc.info.ambient_temp,
        msg->SessionInfo_weather.track_temp == sc.info.track_temp,
        msg->SessionInfo_weather.rain_intensity == sc.info.raining,
        msg->SessionInfo_weather.dark_cloud == sc.info.dark_cloud,
        msg->SessionInfo_weather.avg_path_wetness == sc.info.avg_path_wetness,
        msg->SessionInfo_weather.min_path_wetness == sc.info.min_path_wetness,
        msg->SessionInfo_weather.max_path_wetness == sc.info.max_path_wetness,
        msg->SessionInfo_weather.forecast@ == forecast@,
        forecast@.len() > 0 ==> msg->SessionInfo_weather.cloudiness == d.forecast_cloudiness,
        forecast@.len() == 0 ==> msg->SessionInfo_weather.cloudiness == sc.info.dark_cloud,
        0 < sc.info.max_laps < 999_000 ==> msg->SessionInfo_session_laps == sc.info.max_laps,
        sc.info.max_laps <= 0 || sc.info.max_laps >= 999_000 ==> msg->SessionInfo_session_laps == 0,
        0 < sc.info.end_et.bits <= 0x7FF0_0000_0000_0000 ==> msg->SessionInfo_session_minutes
            == sc.info.end_minutes,
        sc.info.end_et.bits == 0 || sc.info.end_et.bits > 0x7FF0_0000_0000_0000
            ==> msg->SessionInfo_session_minutes.bits == 0,
{
    law_the_session_carries_its_readings(msg, *sc, forecast@, *d);
}

/// The session that is told shows the wind that blows, else the one that is foretold,
/// and its direction where there is a car of ours to relate it to.
pub proof fn law_a_built_session_shows_the_wind(
    sc: &ScoringFrame,
    forecast: Vec<WeatherForecastNode>,
    d: &WeatherDerived,
    msg: ServerMessage,
)
    requires
        call_ensures(build_session_info, (sc, forecast, d), msg),
    ensures
        msg is SessionInfo,
        ({
            let w = msg->SessionInfo_weather;
            let calm = Double { bits: 0x3FB9_9999_9999_999A };
            let ours = exists|i: int|
                0 <= i < sc.vehicles@.len() && (#[trigger] sc.vehicles@[i]).is_player != 0;
            let live = !ieee::less(d.wind_speed, calm);
            let foretold = forecast@.len() > 0 && forecast@[0].wind_speed is Some && ieee::at_least(
                forecast@[0].wind_speed->Some_0,
                calm,
            );
            &&& live ==> w.wind_speed_live == Some(d.wind_speed)
            &&& live && ours ==> w.wind_rel_deg == Some(d.wind_rel_deg)
            &&& live && !ours ==> w.wind_rel_deg is None
            &&& !live && foretold ==> w.wind_speed_live == forecast@[0].wind_speed
            &&& !live && foretold && ours && forecast@[0].wind_direction is Some ==> w.wind_rel_deg
                == Some(d.forecast_wind_rel_deg)
            &&& !live && foretold && (!ours || forecast@[0].wind_direction is None)
                ==> w.wind_rel_deg is None
            &&& !live && !foretold ==> w.wind_speed_live is None && w.wind_rel_deg is None
        }),
{
    law_the_wind_that_blows_is_shown(msg, *sc, forecast@, *d);
}

/// The status that is told carries the wear that was measured.
pub proof fn law_a_built_status_carries_the_wear(
    tel: Option<&TelemetryFrame>,
    sc: Option<&ScoringFrame>,
    player_id: i32,
    wearables: &WearablesSnapshot,
    msg: ServerMessage,
)
    requires
        call_ensures(build_vehicle_status, (tel, sc, player_id, wearables), msg),
    ensures
        msg is VehicleStatusUpdate,
        msg->VehicleStatusUpdate_aero_damage == wearables.aero_damage,
        msg->VehicleStatusUpdate_brake_wear == wearables.brake_wear,
        msg->VehicleStatusUpdate_suspension_damage == wearables.suspension_damage,
{
    law_the_status_carries_the_wear(msg, *wearables);
}

/// The status that is told has no damage where there is no row of telemetry.
pub proof fn law_a_built_status_without_telemetry_has_no_damage(
    tel: Option<&TelemetryFrame>,
    sc: Option<&ScoringFrame>,
    player_id: i32,
    wearables: &WearablesSnapshot,
    msg: ServerMessage,
)
    requires
        call_ensures(build_vehicle_status, (tel, sc, player_id, wearables), msg),
        tel is None || tel->Some_0.vehicles@.len() == 0,
    ensures
        msg is VehicleStatusUpdate,
        !msg->VehicleStatusUpdate_overheating,
        !msg->VehicleStatusUpdate_any_detached,
        forall|i: int| 0 <= i < 8 ==> #[trigger] msg->VehicleStatusUpdate_dent_severity[i] == 0,
        msg->VehicleStatusUpdate_last_impact_magnitude.bits == 0,
        msg->VehicleStatusUpdate_last_impact_et.bits == 0,
        forall|i: int| 0 <= i < 4 ==> !(#[trigger] msg->VehicleStatusUpdate_tire_flat[i]),
        forall|i: int| 0 <= i < 4 ==> !(#[trigger] msg->VehicleStatusUpdate_tire_detached[i]),
{
    if tel is Some {
        law_the_damage_is_of_the_shown_row(tel->Some_0, player_id);
    }
    law_no_damage_without_a_row(msg);
}

/// The status that is told carries the damage of the car that is ours by the game's
/// word or by its id, or else of the first one, part by part.
pub proof fn law_a_built_status_carries_the_damage_of_our_car(
    tel: &TelemetryFrame,
    sc: Option<&ScoringFrame>,
    player_id: i32,
    wearables: &WearablesSnapshot,
    msg: ServerMessage,
    i: int,
)
    requires
        call_ensures(build_vehicle_status, (Some(tel), sc, player_id, wearables), msg),
        0 <= i < tel.vehicles@.len(),
        (tel.player is Some && tel.player->Some_0 == i) || ((tel.player is None
            || tel.player->Some_0 >= tel.vehicles@.len()) && ((tel.vehicles@[i].id == player_id
            && forall|j: int| 0 <= j < i ==> (#[trigger] tel.vehicles@[j]).id != player_id) || (i
            == 0 && forall|j: int|
            0 <= j < tel.vehicles@.len() ==> (#[trigger] tel.vehicles@[j]).id != player_id))),
    ensures
        msg is VehicleStatusUpdate,
        msg->VehicleStatusUpdate_overheating <==> tel.vehicles@[i].overheating != 0,
        msg->VehicleStatusUpdate_any_detached <==> tel.vehicles@[i].detached != 0,
        msg->VehicleStatusUpdate_dent_severity == tel.vehicles@[i].dent_severity,
        msg->VehicleStatusUpdate_last_impact_magnitude == tel.vehicles@[i].last_impact_magnitude,
        msg->VehicleStatusUpdate_last_impact_et == tel.vehicles@[i].last_impact_et,
        forall|w: int|
            0 <= w < 4 ==> (#[trigger] msg->VehicleStatusUpdate_tire_flat[w]
                <==> tel.vehicles@[i].wheel_flat[w] != 0),
        forall|w: int|
            0 <= w < 4 ==> (#[trigger] msg->VehicleStatusUpdate_tire_detached[w]
                <==> tel.vehicles@[i].wheel_detached[w] != 0),
{
    law_the_damage_is_of_the_shown_row(tel, player_id);
    law_the_status_carries_the_damage(msg, tel.vehicles@[i]);
}

/// The status that is told carries the flags of the session and those of the first car
/// that has our id or is marked as ours.
pub proof fn law_a_built_status_carries_the_flags(
    tel: Option<&TelemetryFrame>,
    sc: &ScoringFrame,
    player_id: i32,
    wearables: &WearablesSnapshot,
    msg: ServerMessage,
    k: int,
)
    requires
        call_ensures(build_vehicle_status, (tel, Some(sc), player_id, wearables), msg),
        0 <= k <= sc.vehicles@.len(),
        forall|j: int|
            0 <= j < k ==> (#[trigger] sc.vehicles@[j]).id != player_id && sc.vehicles@[j].is_player == 0,
        k < sc.vehicles@.len() ==> sc.vehicles@[k].id == player_id || sc.vehicles@[k].is_player != 0,
    ensures
        msg is VehicleStatusUpdate,
        msg->VehicleStatusUpdate_yellow_flag_state == sc.info.yellow_flag_state,
        forall|i: int|
            0 <= i < 3 ==> #[trigger] msg->VehicleStatusUpdate_sector_flags[i]
                == sc.info.sector_flag[i],
        msg->VehicleStatusUpdate_start_light == sc.info.start_light,
        msg->VehicleStatusUpdate_game_phase == sc.info.game_phase,
        msg->VehicleStatusUpdate_safety_car_active <==> sc.info.game_phase == 6,
        k < sc.vehicles@.len() ==> msg->VehicleStatusUpdate_player_flag == sc.vehicles@[k].flag,
        k < sc.vehicles@.len() ==> msg->VehicleStatusUpdate_individual_phase
            == sc.vehicles@[k].individual_phase,
        k < sc.vehicles@.len() ==> (msg->VehicleStatusUpdate_player_under_yellow
            <==> sc.vehicles@[k].under_yellow != 0),
        k < sc.vehicles@.len() ==> msg->VehicleStatusUpdate_player_sector == sc.vehicles@[k].sector,
        k == sc.vehicles@.len() ==> msg->VehicleStatusUpdate_player_flag == 0
            && msg->VehicleStatusUpdate_individual_phase == 0
            && !msg->VehicleStatusUpdate_player_under_yellow
            && msg->VehicleStatusUpdate_player_sector == -1,
{
    law_the_status_carries_the_flags(msg, sc, player_id, k);
}

/// The status that is told has no flags where there is no session.
pub proof fn law_a_built_status_without_a_session_has_no_flags(
    tel: Option<&TelemetryFrame>,
    sc: Option<&ScoringFrame>,
    player_id: i32,
    wearables: &WearablesSnapshot,
    msg: ServerMessage,
)
    requires
        call_ensures(build_vehicle_status, (tel, sc, player_id, wearables), msg),
        sc is None,
    ensures
        msg is VehicleStatusUpdate,
        msg->VehicleStatusUpdate_yellow_flag_state == -1,
        forall|i: int| 0 <= i < 3 ==> #[trigger] msg->VehicleStatusUpdate_sector_flags[i] == 0,
        msg->VehicleStatusUpdate_start_light == 0,
        msg->VehicleStatusUpdate_game_phase == 0,
        !msg->VehicleStatusUpdate_safety_car_active,
        msg->VehicleStatusUpdate_player_flag == 0,
        msg->VehicleStatusUpdate_individual_phase == 0,
        !msg->VehicleStatusUpdate_player_under_yellow,
        msg->VehicleStatusUpdate_player_sector == -1,
{
    law_no_flags_without_a_scoring_block(msg, player_id);
}

/// Our row is the one that the game names, else the first with our id.
pub proof fn law_our_vehicle_is_found(tel: TelemetryFrame, id: i32, r: Option<usize>)
    requires
        call_ensures(TelemetryFrame::our_vehicle, (&tel, id), r),
    ensures
        tel.player is Some && tel.player->Some_0 < tel.vehicles@.len() ==> r == tel.player,
        tel.player is None || tel.player->Some_0 >= tel.vehicles@.len() ==> match r {
            Some(i) => i < tel.vehicles@.len() && tel.vehicles@[i as int].id == id && forall|
                j: int,
            |
                0 <= j < i ==> (#[trigger] tel.vehicles@[j]).id != id,
            None => forall|j: int|
                0 <= j < tel.vehicles@.len() ==> (#[trigger] tel.vehicles@[j]).id != id,
        },
{
    law_our_row_is_the_one_the_game_names(tel, id);
}

/// The row that is shown is ours, else the first; there is none where there are no rows.
pub proof fn law_a_vehicle_is_shown(
    tel: TelemetryFrame,
    id: i32,
    ours: Option<usize>,
    r: Option<usize>,
)
    requires
        call_ensures(TelemetryFrame::our_vehicle, (&tel, id), ours),
        call_ensures(TelemetryFrame::shown_vehicle, (&tel, id), r),
    ensures
        ours is Some ==> r == ours,
        ours is None && tel.vehicles@.len() > 0 ==> r == Some(0usize),
        tel.vehicles@.len() == 0 ==> r is None,
{
    law_our_row_is_the_one_the_game_names(tel, id);
    law_the_shown_row_is_ours_or_the_first(tel, id);
}

/// The row of a car is the last one with its id.
pub proof fn law_the_last_row_of_a_car_is_found(tel: TelemetryFrame, id: i32, r: Option<usize>)
    requires
        call_ensures(TelemetryFrame::vehicle_with, (&tel, id), r),
    ensures
        match r {
            Some(i) => i < tel.vehicles@.len() && tel.vehicles@[i as int].id == id && forall|
                j: int,
            |
                i < j < tel.vehicles@.len() ==> (#[trigger] tel.vehicles@[j]).id != id,
            None => forall|j: int|
                0 <= j < tel.vehicles@.len() ==> (#[trigger] tel.vehicles@[j]).id != id,
        },
{
    law_the_last_row_of_a_car_counts(tel.vehicles@, id);
}

/// The row that flags are read from is the first that has our id or is marked as ours.
pub proof fn law_the_flagged_row_is_found(sc: ScoringFrame, id: i32, r: Option<usize>)
    requires
        call_ensures(ScoringFrame::row_of, (&sc, id), r),
    ensures
        match r {
            Some(i) => i < sc.vehicles@.len() && (sc.vehicles@[i as int].id == id
                || sc.vehicles@[i as int].is_player != 0) && forall|j: int|
                0 <= j < i ==> (#[trigger] sc.vehicles@[j]).id != id && sc.vehicles@[j].is_player
                    == 0,
            None => forall|j: int|
                0 <= j < sc.vehicles@.len() ==> (#[trigger] sc.vehicles@[j]).id != id
                    && sc.vehicles@[j].is_player == 0,
        },
{
    law_flags_are_read_from_our_row(sc.vehicles@, id);
}

/// The player's row is the first that is marked.
pub proof fn law_the_players_row_is_the_first_marked(sc: ScoringFrame, r: Option<usize>)
    requires
        call_ensures(ScoringFrame::player_row, (&sc,), r),
    ensures
        match r {
            Some(i) => i < sc.vehicles@.len() && sc.vehicles@[i as int].is_player != 0 && forall|
                j: int,
            |
                0 <= j < i ==> (#[trigger] sc.vehicles@[j]).is_player == 0,
            None => forall|j: int|
                0 <= j < sc.vehicles@.len() ==> (#[trigger] sc.vehicles@[j]).is_player == 0,
        },
{
}

/// Energy is available where our car has virtual energy or a charged battery, is not
/// where it has neither, and is unknown where we have no row.
pub proof fn law_energy_is_read_from_our_car(
    tel: TelemetryFrame,
    id: i32,
    ours: Option<usize>,
    r: Option<bool>,
)
    requires
        call_ensures(TelemetryFrame::our_vehicle, (&tel, id), ours),
        call_ensures(ve_available, (&tel, id), r),
    ensures
        r is None <==> ours is None,
        r is Some ==> (r->Some_0 <==> 0
            < tel.vehicles@[ours->Some_0 as int].virtual_energy.bits <= 0x7F80_0000 || 0
            < tel.vehicles@[ours->Some_0 as int].battery_charge.bits <= 0x7FF0_0000_0000_0000),
{
    if ours is Some {
        law_energy_is_available_where_there_is_some(tel, id, ours->Some_0 as int);
    } else {
        law_no_energy_is_claimed_without_a_row(tel, id);
    }
}

/// A session is named by its number.
pub proof fn law_a_session_is_named(session: i32, name: &'static str)
    requires
        call_ensures(session_type_str, (session,), name),
    ensures
        session == 0 ==> name@ == "TestDay"@,
        session >= 1 && session < 5 ==> name@ == "Practice"@,
        session >= 5 && session < 9 ==> name@ == "Qualifying"@,
        session == 9 ==> name@ == "Warmup"@,
        session >= 10 && session < 14 ==> name@ == "Race"@,
        session < 0 || session > 13 ==> name@ == "Unknown"@,
{
    law_sessions_are_named_by_their_number(session);
}

/// A number of laps that no race has is no limit.
pub proof fn law_a_limit_of_laps_is_a_small_number(max_laps: i32, laps: i32)
    requires
        call_ensures(session_laps, (max_laps,), laps),
    ensures
        0 < max_laps < 999_000 ==> laps == max_laps,
        max_laps <= 0 || max_laps >= 999_000 ==> laps == 0,
{
    law_laps_left_and_driven_make_up_the_limit(max_laps, 0);
}

/// A car is shown where the telemetry has it, unless that is nowhere or far away.
pub proof fn law_a_position_is_chosen(
    scoring: Vec3,
    telemetry: Option<Vec3>,
    distance: Double,
    p: Vec3,
)
    requires
        call_ensures(position_of, (scoring, telemetry, distance), p),
    ensures
        telemetry is None ==> p == scoring,
        telemetry is Some ==> ({
            let t = telemetry->Some_0;
            let far = ieee::less(Double { bits: 0x4062_C000_0000_0000 }, distance);
            let empty = ieee::is_zero(t.x) && ieee::is_zero(t.y) && ieee::is_zero(t.z);
            &&& far || empty ==> p == scoring
            &&& !far && !empty ==> p == t
        }),
{
    if telemetry is Some {
        law_a_far_or_empty_position_is_not_shown(scoring, telemetry->Some_0, distance);
    } else {
        law_a_position_is_never_made_up(scoring, telemetry, distance);
    }
}

/// The update of our car carries the fuel strategy, reading by reading.
pub proof fn law_the_update_carries_the_fuel_strategy(
    tel: &TelemetryFrame,
    id: i32,
    fuel: &FuelSnapshot,
    ve_history: Option<Vec<Double>>,
    ve_available: Option<bool>,
    msg: Option<ServerMessage>,
)
    requires
        call_ensures(
            build_telemetry_update,
            (tel, id, fuel, ve_history, ve_available),
            msg,
        ),
        msg is Some,
    ensures
        msg->Some_0 is TelemetryUpdate,
        ({
            let m = msg->Some_0;
            &&& m->TelemetryUpdate_fuel_avg_consumption == fuel.avg_consumption
            &&& m->TelemetryUpdate_fuel_avg_sample_count == fuel.sample_count
            &&& m->TelemetryUpdate_fuel_laps_remaining == fuel.laps_remaining
            &&& m->TelemetryUpdate_fuel_stint_number == fuel.stint_number
            &&& m->TelemetryUpdate_fuel_stint_laps == fuel.stint_laps
            &&& m->TelemetryUpdate_fuel_stint_consumption == fuel.stint_consumption
            &&& m->TelemetryUpdate_fuel_recommended == fuel.recommended
            &&& m->TelemetryUpdate_fuel_pit_detected == fuel.pit_detected
            &&& m->TelemetryUpdate_fuel_avg_lap_time == fuel.avg_lap_time
        }),
{
    let i = shown_row(*tel, id)->Some_0;
    law_an_update_carries_the_readings(
        tel.vehicles@[i],
        *fuel,
        ve_history,
        ve_available,
        msg->Some_0,
    );
}

} // verus!
