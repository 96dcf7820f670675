//! Frames of the game, the poller and the broadcaster.

use lmu_pitwall::broadcaster::{
    engineer_call, laps_due, rule_audio, spoken_name, tick_ms, Broadcaster, DriversStep, Due,
    EngineerCall,
};
use lmu_pitwall::ieee::{
    equals_zero, is_above_zero, is_above_zero_single, is_at_least, is_less,
};
use lmu_pitwall::polling::{forecast_due, session_key_of, CarReading, Poller, TelemetryState};
use lmu_pitwall::protocol::messages::{
    Double, ServerMessage, Single, TireData, Vec3, WeatherForecastNode,
};
use lmu_pitwall::race_engineer::api::Speech;
use lmu_pitwall::telemetry::{
    build_scoring_update, build_session_info, build_telemetry_update, build_vehicle_status,
    fuel_input, is_under_caution, position_of, session_laps, session_type_str, ve_available,
    ElectronicsSnapshot, FuelSnapshot, ScoringFrame, ScoringInfo, ScoringRow, TelemetryFrame,
    VehicleTelemetry, WearablesSnapshot, WeatherDerived,
};

fn d(x: f64) -> Double {
    Double { bits: x.to_bits() }
}

fn f(x: Double) -> f64 {
    f64::from_bits(x.bits)
}

fn vec3(x: f64, y: f64, z: f64) -> Vec3 {
    Vec3 { x: d(x), y: d(y), z: d(z) }
}

/// The position that is published, with the distance on the ground worked out.
fn published(scoring: Vec3, telemetry: Option<Vec3>) -> (f64, f64, f64) {
    let distance = match telemetry {
        Some(t) => (f(t.x) - f(scoring.x)).hypot(f(t.z) - f(scoring.z)),
        None => 0.0,
    };
    let p = position_of(scoring, telemetry, d(distance));
    (f(p.x), f(p.y), f(p.z))
}

/// The whole point of the telemetry source: it is 20× fresher than scoring.
#[test]
fn telemetry_position_wins_when_it_agrees() {
    let sc = vec3(100.0, 5.0, 200.0);
    let tel = vec3(104.0, 5.1, 203.0);
    assert_eq!(published(sc, Some(tel)), (104.0, 5.1, 203.0));
}

/// A slot the game never filled in reads as the world origin.
#[test]
fn all_zero_telemetry_position_falls_back_to_scoring() {
    let sc = vec3(100.0, 5.0, 200.0);
    assert_eq!(published(sc, Some(vec3(0.0, 0.0, 0.0))), (100.0, 5.0, 200.0));
    assert_eq!(published(sc, Some(vec3(-0.0, 0.0, -0.0))), (100.0, 5.0, 200.0));
}

/// A telemetry row that is not tracking this car at all.
#[test]
fn distant_telemetry_position_falls_back_to_scoring() {
    let sc = vec3(0.0, 5.0, 0.0);
    assert_eq!(published(sc, Some(vec3(400.0, 5.0, 0.0))), (0.0, 5.0, 0.0));
    // Just inside the threshold is still trusted.
    assert_eq!(published(sc, Some(vec3(149.0, 5.0, 0.0))), (149.0, 5.0, 0.0));
    assert_eq!(published(sc, Some(vec3(150.0, 5.0, 0.0))), (150.0, 5.0, 0.0));
    assert_eq!(published(sc, Some(vec3(150.1, 5.0, 0.0))), (0.0, 5.0, 0.0));
}

/// Cars in scoring but not in the telemetry buffer keep working.
#[test]
fn missing_telemetry_row_falls_back_to_scoring() {
    let sc = vec3(100.0, 5.0, 200.0);
    assert_eq!(published(sc, None), (100.0, 5.0, 200.0));
}

#[test]
fn bits_are_ordered_like_the_numbers() {
    let numbers = [
        f64::NEG_INFINITY, -1.0e300, -150.0, -1.0, -0.1, -f64::MIN_POSITIVE, -5e-324, -0.0, 0.0,
        5e-324, f64::MIN_POSITIVE, 0.1, 1.0, 149.9, 150.0, 150.1, 1.0e300, f64::INFINITY, f64::NAN,
        -f64::NAN,
    ];
    for a in numbers {
        for b in numbers {
            assert_eq!(is_less(d(a), d(b)), a < b, "{} < {}", a, b);
            assert_eq!(is_at_least(d(a), d(b)), a >= b, "{} >= {}", a, b);
        }
        assert_eq!(equals_zero(d(a)), a == 0.0, "{} == 0", a);
        assert_eq!(is_above_zero(d(a)), a > 0.0, "{} > 0", a);
        let s = a as f32;
        assert_eq!(is_above_zero_single(Single { bits: s.to_bits() }), s > 0.0, "{} > 0", s);
    }
}

// ---------------------------------------------------------------------------
// Frames
// ---------------------------------------------------------------------------

fn car(id: i32) -> VehicleTelemetry {
    let tire = TireData {
        temp_inner: d(80.0),
        temp_mid: d(81.0),
        temp_outer: d(82.0),
        carcass_temp: d(83.0),
        pressure: d(170.0),
        wear: d(0.9),
        brake_temp: d(300.0),
    };
    VehicleTelemetry {
        id,
        speed_ms: d(id as f64),
        rpm: d(7000.0),
        max_rpm: d(9000.0),
        gear: 4,
        throttle: d(1.0),
        brake: d(0.0),
        clutch: d(0.0),
        steering: d(0.1),
        fuel: d(40.0 + id as f64),
        fuel_capacity: d(100.0),
        water_temp: d(90.0),
        oil_temp: d(95.0),
        tires: [tire, tire, tire, tire],
        position: vec3(1.0, 2.0, 3.0),
        velocity: vec3(0.0, 0.0, -50.0),
        local_accel: vec3(0.0, 0.0, 1.0),
        delta_best: d(-0.2),
        elapsed_time: d(600.0),
        lap_start_et: d(550.0),
        heading_deg: d(90.0),
        virtual_energy: Single { bits: 0.5f32.to_bits() },
        battery_charge: d(0.0),
        overheating: 1,
        detached: 0,
        dent_severity: [0, 1, 2, 0, 0, 0, 0, 1],
        last_impact_magnitude: d(12.0),
        last_impact_et: d(300.0),
        wheel_flat: [0, 1, 0, 0],
        wheel_detached: [0, 0, 0, 2],
    }
}

fn row(id: i32, is_player: u8) -> ScoringRow {
    ScoringRow {
        id,
        is_player,
        driver_name: format!("driver {}", id),
        vehicle_class: "GT3".to_string(),
        vehicle_name: "car".to_string(),
        place: id as u8,
        lap_dist: d(100.0),
        total_laps: 7,
        best_lap_time: d(90.0),
        last_lap_time: d(91.0),
        in_pits: 0,
        last_sector1: d(30.0),
        last_sector2: d(60.0),
        cur_sector1: d(-1.0),
        cur_sector2: d(-1.0),
        best_sector1: d(29.0),
        best_sector2: d(0.0),
        lap_start_et: d(550.0),
        last_remainder: d(31.0),
        best_remainder: d(90.0),
        position: vec3(10.0, 2.0, 3.0),
        time_behind_leader: d(1.5),
        laps_behind_leader: 0,
        flag: 6,
        individual_phase: 10,
        under_yellow: 1,
        sector: 2,
    }
}

fn scoring(rows: Vec<ScoringRow>) -> ScoringFrame {
    ScoringFrame {
        info: ScoringInfo {
            session: 10,
            track_name: "Monza".to_string(),
            track_length: d(5793.0),
            current_et: d(600.0),
            end_et: d(3600.0),
            end_minutes: d(60.0),
            max_laps: 20,
            num_vehicles: rows.len() as i32,
            ambient_temp: d(20.0),
            track_temp: d(25.0),
            raining: d(0.0),
            dark_cloud: d(0.3),
            avg_path_wetness: d(0.0),
            min_path_wetness: d(0.0),
            max_path_wetness: d(0.1),
            yellow_flag_state: 0,
            sector_flag: [11, 0, 1],
            start_light: 6,
            game_phase: 5,
        },
        player: rows.iter().position(|r| r.is_player != 0),
        vehicles: rows,
    }
}

fn frame(cars: Vec<VehicleTelemetry>, player: Option<usize>) -> TelemetryFrame {
    TelemetryFrame { vehicles: cars, player }
}

fn no_fuel() -> FuelSnapshot {
    FuelSnapshot {
        avg_consumption: d(2.5),
        sample_count: 3,
        laps_remaining: d(12.0),
        stint_number: 1,
        stint_laps: 4,
        stint_consumption: d(10.0),
        recommended: d(0.0),
        pit_detected: false,
        avg_lap_time: d(91.0),
    }
}

fn electronics(tc: u8) -> ElectronicsSnapshot {
    ElectronicsSnapshot {
        tc,
        tc_max: 12,
        tc_cut: 1,
        tc_cut_max: 2,
        tc_slip: 3,
        tc_slip_max: 4,
        abs: 5,
        abs_max: 6,
        engine_map: 7,
        engine_map_max: 8,
        front_arb: 9,
        front_arb_max: 10,
        rear_arb: 11,
        rear_arb_max: 12,
        brake_bias: d(52.0),
        regen: Single { bits: 0 },
        brake_migration: 1,
        brake_migration_max: 2,
        battery_pct: d(0.5),
        soc: Single { bits: 0 },
        virtual_energy: Single { bits: 0 },
        tc_active: true,
        abs_active: false,
    }
}

fn wearables(aero: f64) -> WearablesSnapshot {
    let none = d(-1.0);
    WearablesSnapshot {
        aero_damage: d(aero),
        brake_wear: [none, none, none, none],
        suspension_damage: [none, none, none, none],
    }
}

fn calm() -> WeatherDerived {
    WeatherDerived {
        forecast_cloudiness: d(0.7),
        wind_speed: d(0.0),
        wind_rel_deg: d(10.0),
        forecast_wind_rel_deg: d(20.0),
    }
}

#[test]
fn our_row_is_the_one_the_game_names() {
    let shown = |tel: &TelemetryFrame, id| tel.shown_vehicle(id);
    let tel = frame(vec![car(5), car(6), car(7)], Some(1));
    assert_eq!(shown(&tel, 7), Some(1));
    let tel = frame(vec![car(5), car(6), car(7)], None);
    assert_eq!(shown(&tel, 7), Some(2));
    assert_eq!(shown(&tel, 9), Some(0));
    assert_eq!(tel.our_vehicle(9), None);
    let tel = frame(vec![], Some(3));
    assert_eq!(shown(&tel, 7), None);
    // The last row of an id counts for the standings.
    let tel = frame(vec![car(5), car(6), car(5)], None);
    assert_eq!(tel.vehicle_with(5), Some(2));
    assert_eq!(tel.vehicle_with(8), None);
}

#[test]
fn telemetry_is_that_of_our_car() {
    let tel = frame(vec![car(5), car(6)], None);
    let msg = build_telemetry_update(&tel, 6, &no_fuel(), Some(vec![d(0.9)]), Some(true)).unwrap();
    match msg {
        ServerMessage::TelemetryUpdate {
            speed_ms, gear, tires, fuel_avg_sample_count, ve_history, ve_available, current_et, ..
        } => {
            assert_eq!(f(speed_ms), 6.0);
            assert_eq!(gear, 4);
            assert_eq!(f(tires[3].temp_outer), 82.0);
            assert_eq!(fuel_avg_sample_count, 3);
            assert_eq!(ve_history.unwrap(), vec![d(0.9)]);
            assert_eq!(ve_available, Some(true));
            assert_eq!(f(current_et), 600.0);
        }
        other => panic!("unexpected: {:?}", other),
    }
    assert!(build_telemetry_update(&frame(vec![], None), 6, &no_fuel(), None, None).is_none());
}

#[test]
fn energy_comes_from_the_tank_or_the_battery() {
    let mut none = car(1);
    none.virtual_energy = Single { bits: 0 };
    let mut battery = none;
    battery.battery_charge = d(0.2);
    assert_eq!(ve_available(&frame(vec![car(1)], None), 1), Some(true));
    assert_eq!(ve_available(&frame(vec![none], None), 1), Some(false));
    assert_eq!(ve_available(&frame(vec![battery], None), 1), Some(true));
    assert_eq!(ve_available(&frame(vec![car(1)], None), 2), None);
}

#[test]
fn standings_join_both_blocks() {
    let sc = scoring(vec![row(5, 0), row(6, 1), row(7, 0)]);
    let tel = frame(vec![car(5), car(6)], None);
    let near = vec![d(9.0), d(200.0), d(0.0)];
    let (msg, id) = build_scoring_update(&sc, Some(&tel), &near);
    assert_eq!(id, 6);
    let ServerMessage::ScoringUpdate { session_type, vehicles, player_vehicle_id, .. } = msg else {
        panic!("not the standings")
    };
    assert_eq!((session_type.as_str(), player_vehicle_id), ("Race", 6));
    // A near telemetry row, one too far away, and none at all.
    assert_eq!(f(vehicles[0].pos_x), 1.0);
    assert_eq!(f(vehicles[1].pos_x), 10.0);
    assert_eq!(f(vehicles[2].pos_x), 10.0);
    assert_eq!(f32::from_bits(vehicles[1].virtual_energy.bits), 0.5);
    assert_eq!(f32::from_bits(vehicles[2].virtual_energy.bits), 0.0);
    // The third sector, where both times are there.
    assert_eq!(f(vehicles[0].last_sector3), 31.0);
    assert_eq!(f(vehicles[0].best_sector3), -1.0);
    assert_eq!(vehicles[0].driver_name, "driver 5");
    assert_eq!(vehicles[0].team_name, "");
    assert_eq!((vehicles[0].total_laps, vehicles[0].position), (7, 5));

    let (_, id) = build_scoring_update(&scoring(vec![row(5, 0)]), None, &vec![d(0.0)]);
    assert_eq!(id, -1);
    let (_, id) = build_scoring_update(
        &scoring(vec![row(5, 1), row(6, 1)]),
        None,
        &vec![d(0.0), d(0.0)],
    );
    assert_eq!(id, 6, "the last one that is marked");
}

#[test]
fn sessions_have_names_and_lap_limits() {
    let names: Vec<&str> = [-1, 0, 1, 4, 5, 8, 9, 10, 13, 14].map(session_type_str).to_vec();
    assert_eq!(
        names,
        vec![
            "Unknown", "TestDay", "Practice", "Practice", "Qualifying", "Qualifying", "Warmup",
            "Race", "Race", "Unknown"
        ]
    );
    assert_eq!(session_laps(20), 20);
    assert_eq!(session_laps(0), 0);
    assert_eq!(session_laps(-5), 0);
    assert_eq!(session_laps(998_999), 998_999);
    assert_eq!(session_laps(999_000), 0);
    assert_eq!(session_laps(i32::MAX), 0);
}

fn node(speed: Option<f64>, direction: Option<i32>) -> WeatherForecastNode {
    WeatherForecastNode {
        sky_type: 7,
        temperature: d(18.0),
        rain_chance: d(0.1),
        humidity: None,
        wind_direction: direction,
        wind_speed: speed.map(d),
    }
}

fn weather(
    sc: &ScoringFrame,
    forecast: Vec<WeatherForecastNode>,
    derived: WeatherDerived,
) -> (f64, Option<f64>, Option<f64>) {
    match build_session_info(sc, forecast, &derived) {
        ServerMessage::SessionInfo { weather, .. } => (
            f(weather.cloudiness),
            weather.wind_speed_live.map(f),
            weather.wind_rel_deg.map(f),
        ),
        other => panic!("unexpected: {:?}", other),
    }
}

#[test]
fn the_wind_is_live_or_forecast() {
    let sc = scoring(vec![row(6, 1)]);
    assert_eq!(weather(&sc, vec![], calm()), (0.3, None, None));
    let mut live = calm();
    live.wind_speed = d(0.1);
    assert_eq!(weather(&sc, vec![], live), (0.3, Some(0.1), Some(10.0)));
    live.wind_speed = d(0.0999);
    assert_eq!(weather(&sc, vec![], live), (0.3, None, None));
    let ours = vec![node(Some(3.0), Some(2))];
    assert_eq!(weather(&sc, ours.clone(), calm()), (0.7, Some(3.0), Some(20.0)));
    assert_eq!(weather(&sc, vec![node(Some(3.0), None)], calm()), (0.7, Some(3.0), None));
    assert_eq!(weather(&sc, vec![node(Some(0.05), Some(2))], calm()), (0.7, None, None));
    assert_eq!(weather(&sc, vec![node(None, Some(2))], calm()), (0.7, None, None));
    // Without a car of ours there is no direction.
    let others = scoring(vec![row(5, 0)]);
    assert_eq!(weather(&others, ours, calm()), (0.7, Some(3.0), None));
}

#[test]
fn a_session_without_an_end_has_no_minutes() {
    let mut sc = scoring(vec![]);
    let minutes = |sc: &ScoringFrame| match build_session_info(sc, vec![], &calm()) {
        ServerMessage::SessionInfo { session_minutes, session_laps, track_name, .. } => {
            (f(session_minutes), session_laps, track_name)
        }
        other => panic!("unexpected: {:?}", other),
    };
    assert_eq!(minutes(&sc), (60.0, 20, "Monza".to_string()));
    sc.info.end_et = d(-1.0);
    sc.info.max_laps = i32::MAX;
    assert_eq!(minutes(&sc), (0.0, 0, "Monza".to_string()));
}

#[test]
fn the_status_tells_damage_and_flags() {
    let mut sc = scoring(vec![row(5, 0), row(6, 1)]);
    sc.info.game_phase = 6;
    let tel = frame(vec![car(6)], None);
    match build_vehicle_status(Some(&tel), Some(&sc), 6, &wearables(0.25)) {
        ServerMessage::VehicleStatusUpdate {
            overheating, any_detached, dent_severity, tire_flat, tire_detached, aero_damage,
            yellow_flag_state, sector_flags, player_flag, individual_phase, player_under_yellow,
            player_sector, safety_car_active, ..
        } => {
            assert!(overheating && !any_detached);
            assert_eq!(dent_severity, [0, 1, 2, 0, 0, 0, 0, 1]);
            assert_eq!(tire_flat, [false, true, false, false]);
            assert_eq!(tire_detached, [false, false, false, true]);
            assert_eq!(f(aero_damage), 0.25);
            assert_eq!((yellow_flag_state, sector_flags), (0, [11, 0, 1]));
            assert_eq!((player_flag, individual_phase), (6, 10));
            assert!(player_under_yellow && safety_car_active);
            assert_eq!(player_sector, 2);
        }
        other => panic!("unexpected: {:?}", other),
    }
    assert!(is_under_caution(Some(&sc)));
    assert!(!is_under_caution(None));
}

#[test]
fn without_frames_the_status_is_blank() {
    match build_vehicle_status(None, None, 6, &wearables(-1.0)) {
        ServerMessage::VehicleStatusUpdate {
            overheating, any_detached, dent_severity, tire_flat, yellow_flag_state, sector_flags,
            game_phase, player_sector, safety_car_active, ..
        } => {
            assert!(!overheating && !any_detached && !safety_car_active);
            assert_eq!(dent_severity, [0; 8]);
            assert_eq!(tire_flat, [false; 4]);
            assert_eq!((yellow_flag_state, sector_flags, game_phase), (-1, [0; 3], 0));
            assert_eq!(player_sector, -1);
        }
        other => panic!("unexpected: {:?}", other),
    }
    let empty = scoring(vec![]);
    match build_vehicle_status(None, Some(&empty), 6, &wearables(-1.0)) {
        ServerMessage::VehicleStatusUpdate { player_flag, player_sector, start_light, .. } => {
            assert_eq!((player_flag, player_sector, start_light), (0, -1, 6));
        }
        other => panic!("unexpected: {:?}", other),
    }
}

#[test]
fn fuel_is_planned_from_our_rows() {
    let sc = scoring(vec![row(5, 0), row(6, 1)]);
    let tel = frame(vec![car(6)], None);
    let input = fuel_input(&tel, &sc, 6);
    assert_eq!((f(input.fuel), input.lap, input.in_pits), (46.0, 7, false));
    assert_eq!((input.laps_remaining, f(input.last_lap_time)), (13, 91.0));
    let mut timed = scoring(vec![]);
    timed.info.max_laps = 999_999;
    let input = fuel_input(&frame(vec![car(6)], None), &timed, 9);
    assert_eq!((f(input.fuel), input.lap, input.laps_remaining), (0.0, 0, -1));
    assert_eq!(f(input.last_lap_time), -1.0);
    let mut over = scoring(vec![row(6, 1)]);
    over.info.max_laps = 5;
    assert_eq!(fuel_input(&tel, &over, 6).laps_remaining, 0);
}

// ---------------------------------------------------------------------------
// The poller
// ---------------------------------------------------------------------------

fn status_of(msg: Option<ServerMessage>) -> (bool, String, bool, Option<String>) {
    match msg {
        Some(ServerMessage::ConnectionStatus {
            game_connected,
            plugin_version,
            telemetry_valid,
            telemetry_warning,
        }) => (game_connected, plugin_version, telemetry_valid, telemetry_warning),
        other => panic!("unexpected: {:?}", other),
    }
}

#[test]
fn the_game_comes_and_goes() {
    let mut state = TelemetryState::new(electronics(0), wearables(-1.0));
    let mut poller = Poller::new();
    let msg = poller.on_health(&mut state, true, None, wearables(-1.0));
    assert_eq!(status_of(msg), (true, "unknown".to_string(), true, None));
    assert!(state.is_connected);
    assert!(poller.on_health(&mut state, true, None, wearables(-1.0)).is_none());

    state.wearables = wearables(0.5);
    state.ve_history = Some(vec![d(1.0)]);
    let msg = poller.on_health(&mut state, false, None, wearables(-1.0));
    assert_eq!(status_of(msg), (false, String::new(), true, None));
    assert!(!state.is_connected && state.ve_history.is_none() && state.scoring.is_none());
    assert_eq!(f(state.wearables.aero_damage), -1.0);

    let msg = poller.on_health(&mut state, true, Some("1.4.0.0".to_string()), wearables(-1.0));
    assert_eq!(status_of(msg), (true, "1.4.0.0".to_string(), true, None));
}

fn reading(tc: u8, implausible: Option<&str>) -> CarReading {
    CarReading {
        electronics: electronics(tc),
        implausible: implausible.map(|w| w.to_string()),
    }
}

#[test]
fn a_warning_is_news_once() {
    let mut state = TelemetryState::new(electronics(0), wearables(-1.0));
    let mut poller = Poller::new();
    let why = "wear out of range";
    let mut read = |poller: &mut Poller, warning: Option<&str>| {
        let tel = frame(vec![car(5), car(6)], None);
        let sc = scoring(vec![row(5, 0), row(6, 1)]);
        // What is wrong with another car is nothing to us.
        let cars = vec![reading(1, Some("other car")), reading(2, warning)];
        poller.on_frame(&mut state, Some(tel), Some(sc), &cars, electronics(0)).status
    };
    // Not before the connection is known.
    assert!(read(&mut poller, Some(why)).is_none());
    let mut other = TelemetryState::new(electronics(0), wearables(-1.0));
    poller.on_health(&mut other, true, Some("1".to_string()), wearables(-1.0));
    let bad = (true, "1".to_string(), false, Some(why.to_string()));
    assert_eq!(status_of(read(&mut poller, Some(why))), bad);
    assert!(read(&mut poller, Some(why)).is_none());
    assert_eq!(status_of(read(&mut poller, None)), (true, "1".to_string(), true, None));
}

#[test]
fn a_torn_read_is_skipped() {
    let mut state = TelemetryState::new(electronics(0), wearables(-1.0));
    let mut poller = Poller::new();
    poller.on_health(&mut state, true, Some("1".to_string()), wearables(-1.0));
    let tel = frame(vec![car(6)], None);
    let sc = scoring(vec![row(6, 1)]);
    let cars = vec![reading(3, Some("bad"))];
    let out = poller.on_frame(&mut state, Some(tel), Some(sc), &cars, electronics(0));
    assert!(out.status.is_some());

    // Everything holds its last value, and the warning stands.
    let before = format!("{:?} {:?}", state, poller);
    let out = poller.on_frame(&mut state, None, None, &Vec::new(), electronics(0));
    assert!(out.status.is_none() && out.new_name.is_none());
    assert_eq!(format!("{:?} {:?}", state, poller), before);
    assert_eq!(state.electronics.tc, 3);
}

#[test]
fn a_frame_renews_what_is_known() {
    let mut state = TelemetryState::new(electronics(0), wearables(-1.0));
    let mut poller = Poller::new();
    poller.on_health(&mut state, true, None, wearables(-1.0));
    let sc = || scoring(vec![row(5, 0), row(6, 1)]);
    let tel = || frame(vec![car(5), car(6)], None);
    let cars = vec![reading(2, None), reading(3, None)];

    let out = poller.on_frame(&mut state, Some(tel()), Some(sc()), &cars, electronics(0));
    assert_eq!(out.new_name.as_deref(), Some("driver 6"));
    assert_eq!(state.ve_available, Some(true));
    assert_eq!(state.electronics.tc, 3, "the driver aids are those of our car");
    assert!(state.telemetry.is_some() && state.scoring.is_some());

    // The same session and name are no news.
    state.ve_history = Some(vec![d(0.5)]);
    let out = poller.on_frame(&mut state, Some(tel()), Some(sc()), &cars, electronics(0));
    assert!(out.new_name.is_none() && state.ve_history.is_some());

    // Where our car is not known, the first one is shown, else nothing.
    let strangers = scoring(vec![row(5, 0)]);
    poller.on_frame(&mut state, Some(tel()), Some(strangers), &cars, electronics(0));
    assert_eq!(state.electronics.tc, 2);
    let empty = frame(vec![], None);
    poller.on_frame(&mut state, Some(empty), Some(sc()), &Vec::new(), electronics(9));
    assert_eq!(state.electronics.tc, 9);

    // Another session clears the history.
    let mut other = sc();
    other.info.session = 5;
    poller.on_frame(&mut state, Some(tel()), Some(other), &cars, electronics(0));
    assert!(state.ve_history.is_none());
}

#[test]
fn slow_sources_are_asked_one_at_a_time() {
    let mut state = TelemetryState::new(electronics(0), wearables(-1.0));
    let mut poller = Poller::new();
    poller.on_health(&mut state, true, None, wearables(-1.0));
    assert_eq!(poller.strategy_due(true), None, "the name is not known yet");
    let sc = scoring(vec![row(6, 1)]);
    poller.on_frame(&mut state, None, Some(sc), &Vec::new(), electronics(0));
    assert_eq!(poller.strategy_due(false), None);
    assert_eq!(poller.strategy_due(true).as_deref(), Some("driver 6"));
    assert_eq!(poller.strategy_due(true), None, "an answer is still awaited");
    poller.strategy_over();
    assert!(poller.strategy_due(true).is_some());

    assert!(!poller.wearables_due(false));
    assert!(poller.wearables_due(true));
    assert!(!poller.wearables_due(true));
    poller.wearables_over();
    assert!(poller.wearables_due(true));

    assert_eq!(forecast_due(&state, true), Some(10));
    assert_eq!(forecast_due(&state, false), None);
    let fresh = TelemetryState::new(electronics(0), wearables(-1.0));
    assert_eq!(forecast_due(&fresh, true), Some(0));
    assert_eq!(session_key_of(&scoring(vec![])), "10/Monza");
}

// ---------------------------------------------------------------------------
// The broadcaster
// ---------------------------------------------------------------------------

const MS: u64 = 1_000_000;

fn both(state: &mut TelemetryState) {
    state.is_connected = true;
    state.telemetry = Some(frame(vec![car(6)], None));
    state.scoring = Some(scoring(vec![row(6, 1)]));
}

#[test]
fn each_message_has_a_rate_of_its_own() {
    let mut state = TelemetryState::new(electronics(0), wearables(-1.0));
    both(&mut state);
    let mut b = Broadcaster::new(20, 5);
    let all = Due { telemetry: true, scoring: true, session: true, electronics: true };
    assert_eq!(b.due(0), all);
    let m = b.tick(&state, all, 0, &no_fuel(), &vec![d(0.0)], &calm());
    let sent: Vec<&str> = m.in_order().iter().map(kind).collect();
    assert_eq!(sent, vec!["scoring", "status", "telemetry", "session", "electronics"]);

    let due_at = |b: &Broadcaster, ms: u64| {
        let due = b.due(ms * MS);
        (due.telemetry, due.scoring, due.session, due.electronics)
    };
    assert_eq!(due_at(&b, 49), (false, false, false, false));
    assert_eq!(due_at(&b, 50), (true, false, false, false));
    assert_eq!(due_at(&b, 200), (true, true, false, true));
    assert_eq!(due_at(&b, 1000), (true, true, true, true));
}

fn kind(msg: &ServerMessage) -> &'static str {
    match msg {
        ServerMessage::ScoringUpdate { .. } => "scoring",
        ServerMessage::VehicleStatusUpdate { .. } => "status",
        ServerMessage::TelemetryUpdate { .. } => "telemetry",
        ServerMessage::SessionInfo { .. } => "session",
        ServerMessage::ElectronicsUpdate { .. } => "electronics",
        _ => "other",
    }
}

#[test]
fn what_could_not_be_made_stays_due() {
    let mut state = TelemetryState::new(electronics(0), wearables(-1.0));
    state.is_connected = true;
    let mut b = Broadcaster::new(20, 5);
    let due = b.due(0);
    let m = b.tick(&state, due, 0, &no_fuel(), &Vec::new(), &calm());
    let sent: Vec<&str> = m.in_order().iter().map(kind).collect();
    assert_eq!(sent, vec!["status", "electronics"]);
    let due = b.due(1);
    assert!(due.telemetry && due.scoring && due.session && !due.electronics);
}

/// Nothing is published while the game is not connected, whatever is due.
#[test]
fn nothing_is_published_without_the_game() {
    let mut state = TelemetryState::new(electronics(0), wearables(-1.0));
    both(&mut state);
    state.is_connected = false;
    let mut b = Broadcaster::new(20, 20);
    let due = b.due(0);
    assert!(due.telemetry && due.scoring && due.session && due.electronics);
    assert!(!b.fuel_session(&state));
    assert!(b.fuel_update(&state, due).is_none());
    let m = b.tick(&state, due, 0, &no_fuel(), &vec![d(0.0)], &calm());
    assert!(m.in_order().is_empty());
    let picture = ServerMessage::AllDriversUpdate {
        session_type: "Race".to_string(),
        session_time: d(0.0),
        drivers: Vec::new(),
    };
    assert!(matches!(b.drivers(&state, due, true, true, Some(picture)), DriversStep::Nothing));
    assert!(!b.engineer_due(&state, 0));
    // Once it is connected, everything is still due.
    state.is_connected = true;
    assert_eq!(b.due(0), due);
    assert!(b.engineer_due(&state, 0));
}

#[test]
fn the_fuel_plan_starts_anew_with_each_session() {
    let mut state = TelemetryState::new(electronics(0), wearables(-1.0));
    both(&mut state);
    let mut b = Broadcaster::new(20, 5);
    assert!(!b.fuel_session(&state));
    assert!(!b.fuel_session(&state));
    if let Some(sc) = &mut state.scoring {
        sc.info.track_name = "Spa".to_string();
    }
    assert!(b.fuel_session(&state));

    let due = b.due(0);
    let input = b.fuel_update(&state, due).unwrap();
    assert_eq!(input.laps_remaining, 13);
    let nothing = Due { telemetry: false, scoring: true, session: true, electronics: true };
    assert!(b.fuel_update(&state, nothing).is_none());
    state.scoring = None;
    assert!(b.fuel_update(&state, due).is_none());
}

#[test]
fn drivers_are_broadcast_when_somebody_crosses_the_line() {
    let picture = || {
        Some(ServerMessage::AllDriversUpdate {
            session_type: "Race".to_string(),
            session_time: d(0.0),
            drivers: Vec::new(),
        })
    };
    let mut state = TelemetryState::new(electronics(0), wearables(-1.0));
    both(&mut state);
    let mut b = Broadcaster::new(20, 5);
    let now = b.due(0);
    assert!(matches!(b.drivers(&state, now, false, false, None), DriversStep::Nothing));
    assert!(matches!(b.drivers(&state, now, false, true, None), DriversStep::Nothing));
    assert!(matches!(b.drivers(&state, now, false, true, picture()), DriversStep::Broadcast(_)));
    assert!(matches!(b.drivers(&state, now, false, true, picture()), DriversStep::Keep(_)));
    assert!(matches!(b.drivers(&state, now, true, true, picture()), DriversStep::Broadcast(_)));
}

#[test]
fn the_laps_are_looked_at_with_the_standings() {
    let mut state = TelemetryState::new(electronics(0), wearables(-1.0));
    both(&mut state);
    let all = Broadcaster::new(20, 5).due(0);
    assert!(laps_due(&state, all));
    assert!(!laps_due(&state, Due { scoring: false, ..all }));
    let picture = || {
        Some(ServerMessage::AllDriversUpdate {
            session_type: "Race".to_string(),
            session_time: d(0.0),
            drivers: Vec::new(),
        })
    };
    let mut b = Broadcaster::new(20, 5);
    let without = Due { scoring: false, ..all };
    assert!(matches!(b.drivers(&state, without, true, true, picture()), DriversStep::Nothing));
    state.scoring = None;
    assert!(!laps_due(&state, all));
    assert!(matches!(b.drivers(&state, all, true, true, picture()), DriversStep::Nothing));
    // Nothing was sent so far, so the first picture is.
    both(&mut state);
    assert!(matches!(b.drivers(&state, all, false, true, picture()), DriversStep::Broadcast(_)));
    state.is_connected = false;
    assert!(!laps_due(&state, all));
}

#[test]
fn the_engineer_looks_ten_times_a_second() {
    let mut state = TelemetryState::new(electronics(0), wearables(-1.0));
    state.is_connected = true;
    let mut b = Broadcaster::new(20, 5);
    assert!(b.engineer_due(&state, 0));
    assert!(!b.engineer_due(&state, 99 * MS));
    assert!(b.engineer_due(&state, 100 * MS));
    assert!(!b.engineer_due(&state, 150 * MS));
    assert!(b.engineer_due(&state, 200 * MS));
}

#[test]
fn the_clock_is_looked_at_twice_per_frame() {
    assert_eq!(tick_ms(20), 25);
    assert_eq!(tick_ms(0), 500);
    assert_eq!(tick_ms(30), 16);
    assert_eq!(tick_ms(1000), 1);
}

#[test]
fn an_event_needs_a_template_and_a_voice() {
    let t = || Some("Box now".to_string());
    let v = || Some("amy".to_string());
    assert!(matches!(engineer_call(None, v()), EngineerCall::UnknownTemplate));
    assert!(matches!(engineer_call(t(), None), EngineerCall::NoVoice));
    assert!(matches!(
        engineer_call(t(), v()),
        EngineerCall::Speak { text, voice_id } if text == "Box now" && voice_id == "amy"
    ));
    assert_eq!(spoken_name(true, v()), None);
    assert_eq!(spoken_name(false, v()), v());
    let speech = Speech { wav_base64: "UklG".to_string(), sample_rate: 22_050, duration_ms: 800 };
    match rule_audio("fuel_low", "high".to_string(), "Box now".to_string(), speech) {
        ServerMessage::EngineerAudio { request_id, priority, sample_rate, text, .. } => {
            assert_eq!(request_id, "rule_fuel_low");
            assert_eq!((priority.as_str(), sample_rate, text.as_str()), ("high", 22_050, "Box now"));
        }
        other => panic!("unexpected: {:?}", other),
    }
}
