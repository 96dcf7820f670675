//! The relay: frames, requests, the room and the uplink.

use lmu_pitwall::protocol::messages::{ClientCommand, ServerMessage};
use lmu_pitwall::relay::envelope::{DownlinkFrame, UplinkFrame};
use lmu_pitwall::relay::room::{
    bearer_header, bearer_token, inject, keys_match, route_of, AgentEvent, AgentStep, Downlink,
    RelayRoom, Replay, RequestError, Route, WaitOutcome,
};
use lmu_pitwall::relay::uplink::{
    hello, AgentSlots, AgentTask, Backoff, Meter, Throttle, UplinkEvent, UplinkStep,
};

fn status() -> ServerMessage {
    ServerMessage::ConnectionStatus {
        game_connected: true,
        plugin_version: String::new(),
        telemetry_valid: true,
        telemetry_warning: None,
    }
}

fn scoring() -> ServerMessage {
    ServerMessage::ScoringUpdate {
        session_type: "Race".to_string(),
        session_time: lmu_pitwall::protocol::messages::Double { bits: 0 },
        num_vehicles: 0,
        vehicles: Vec::new(),
        player_vehicle_id: -1,
    }
}

fn audio() -> ServerMessage {
    ServerMessage::EngineerAudio {
        request_id: String::new(),
        priority: "normal".to_string(),
        wav_base64: String::new(),
        sample_rate: 22_050,
        duration_ms: 0,
        text: String::new(),
    }
}

fn error_stub(message: &str) -> ServerMessage {
    ServerMessage::PostRaceError { message: message.to_string() }
}

fn message_of(msg: ServerMessage) -> String {
    match msg {
        ServerMessage::PostRaceError { message } => message,
        other => panic!("unexpected answer: {:?}", other),
    }
}

fn behavior_stub(enabled: bool) -> ClientCommand {
    ClientCommand::EngineerUpdateBehavior {
        enabled,
        frequency: "normal".to_string(),
        mute_in_qualifying: false,
        debug_all_rules_in_practice: false,
        active_voice_id: None,
        pilot_name: None,
        mute_name: false,
    }
}

#[test]
fn key_comparison_accepts_only_the_exact_key() {
    assert!(keys_match("s3cret", "s3cret"));
    assert!(!keys_match("s3cret", "s3crev"));
    assert!(!keys_match("s3cre", "s3cret"));
    assert!(!keys_match("", "s3cret"));
    assert!(!keys_match("s3cret", ""));
}

/// An empty configured key must not turn the uplink into an open endpoint.
#[test]
fn empty_expected_key_still_rejects_a_presented_key() {
    assert!(!keys_match("anything", ""));
}

/// Audio must not leak onto the main channel.
#[test]
fn engineer_audio_stays_on_the_audio_channel() {
    assert_eq!(route_of(&audio()), Route::Audio);
}

#[test]
fn agent_version_info_is_not_relayed_to_viewers() {
    let version = ServerMessage::VersionInfo {
        current_version: "1.0.0".to_string(),
        latest_version: "1.0.0".to_string(),
        download_url: String::new(),
        update_available: false,
    };
    assert_eq!(route_of(&version), Route::Drop);
}

#[test]
fn ordinary_telemetry_goes_to_every_viewer() {
    assert_eq!(route_of(&status()), Route::Viewers);
}

/// With no agent streaming there is nothing to wait for.
#[test]
fn request_without_an_agent_fails_immediately() {
    let mut downlink: Downlink<(), ()> = Downlink::new();
    let err = downlink.request(ClientCommand::PostRaceFunFacts, ()).unwrap_err();
    assert_eq!(err, RequestError::NoAgent);
    assert!(downlink.is_idle());
}

/// Two requests answered out of order must still reach the right waiter.
#[test]
fn interleaved_requests_do_not_cross() {
    let mut downlink: Downlink<(), &str> = Downlink::new();
    downlink.attach(());

    let (first, frame) = downlink.request(ClientCommand::PostRaceFunFacts, "a").unwrap();
    assert!(matches!(frame, DownlinkFrame::Command { req, .. } if req == first));
    let (second, frame) = downlink.request(ClientCommand::PostRaceFunFacts, "b").unwrap();
    assert!(matches!(frame, DownlinkFrame::Command { req, .. } if req == second));
    assert_ne!(first, second);

    // Answer the second request first.
    assert_eq!(downlink.resolve(second), Some("b"));
    assert_eq!(downlink.resolve(first), Some("a"));

    let b = downlink.after_wait(second, WaitOutcome::Answered(error_stub("second"))).unwrap();
    let a = downlink.after_wait(first, WaitOutcome::Answered(error_stub("first"))).unwrap();
    assert_eq!(message_of(a), "first");
    assert_eq!(message_of(b), "second");
    assert_eq!(downlink.resolve(first), None);
}

/// A timed-out request must not leave its entry behind.
#[test]
fn a_timeout_removes_its_pending_entry() {
    let mut downlink: Downlink<(), ()> = Downlink::new();
    downlink.attach(());
    let (req, _) = downlink.request(ClientCommand::PostRaceFunFacts, ()).unwrap();
    assert!(!downlink.is_idle());
    let err = downlink.after_wait(req, WaitOutcome::TimedOut).unwrap_err();
    assert_eq!(err, RequestError::Timeout);
    assert!(downlink.is_idle());
}

/// When the agent provably goes away, nobody waits any longer.
#[test]
fn detaching_wakes_every_waiter() {
    let mut downlink: Downlink<(), ()> = Downlink::new();
    downlink.attach(());
    let (req, _) = downlink.request(ClientCommand::PostRaceFunFacts, ()).unwrap();
    downlink.detach();
    assert!(downlink.is_idle());
    assert_eq!(
        downlink.after_wait(req, WaitOutcome::Dropped).unwrap_err(),
        RequestError::NoAgent
    );
}

/// When another agent takes over, nobody waits for the one before it.
#[test]
fn a_takeover_wakes_every_waiter() {
    let mut room: RelayRoom<&str, &str> = RelayRoom::new("k".to_string());
    room.accept_agent("first");
    let (req, _) = room.request(ClientCommand::PostRaceFunFacts, "viewer").unwrap();
    let second = room.accept_agent("second");
    // The waiter was dropped, so a late answer finds nobody.
    let late = UplinkFrame::Response { req, msg: error_stub("late") };
    assert!(matches!(room.handle_agent(second, AgentEvent::Frame(late)), AgentStep::Ignore));
    assert_eq!(
        room.after_wait(req, WaitOutcome::Dropped).unwrap_err(),
        RequestError::NoAgent
    );
}

/// An agent restart must not revert the settings.
#[test]
fn a_reconnecting_agent_is_sent_the_stored_behavior() {
    let mut downlink: Downlink<(), ()> = Downlink::new();
    downlink.attach(());
    downlink.broadcast(behavior_stub(true)).unwrap();

    // The agent goes away and a new one connects.
    downlink.detach();
    assert!(downlink.replay_behavior().is_none());
    downlink.attach(());
    match downlink.replay_behavior() {
        Some(DownlinkFrame::Broadcast {
            cmd: ClientCommand::EngineerUpdateBehavior { enabled, .. },
        }) => assert!(enabled),
        other => panic!("unexpected frame: {:?}", other),
    }
}

#[test]
fn broadcast_without_an_agent_fails() {
    let mut downlink: Downlink<(), ()> = Downlink::new();
    let err = downlink.broadcast(ClientCommand::EngineerGetStatus).unwrap_err();
    assert_eq!(err, RequestError::NoAgent);
}

#[test]
fn a_frame_that_could_not_be_sent_counts_as_no_agent() {
    let mut downlink: Downlink<(), ()> = Downlink::new();
    downlink.attach(());
    let (req, _) = downlink.request(ClientCommand::PostRaceFunFacts, ()).unwrap();
    assert_eq!(downlink.after_send(req, true), Ok(()));
    assert!(!downlink.is_idle());
    assert_eq!(downlink.after_send(req, false), Err(RequestError::NoAgent));
    assert!(downlink.is_idle());
}

#[test]
fn late_viewers_are_shown_drivers_and_status() {
    let drivers = ServerMessage::AllDriversUpdate {
        session_type: String::new(),
        session_time: lmu_pitwall::protocol::messages::Double { bits: 0 },
        drivers: Vec::new(),
    };
    assert_eq!(inject(&drivers).replay, Replay::AllDrivers);
    assert_eq!(inject(&drivers).route, Route::Viewers);
    assert_eq!(inject(&status()).replay, Replay::ConnectionStatus);
    assert_eq!(inject(&audio()).replay, Replay::Nothing);
}

#[test]
fn an_agent_is_admitted_by_its_key_alone() {
    let room: RelayRoom<(), ()> = RelayRoom::new("s3cret".to_string());
    assert!(room.admits(Some(&bearer_header("s3cret"))));
    assert!(!room.admits(Some(&bearer_header("other"))));
    assert!(!room.admits(Some("s3cret")));
    assert!(!room.admits(Some("bearer s3cret")));
    assert!(!room.admits(None));
    // A room without a key is open to nobody.
    let open: RelayRoom<(), ()> = RelayRoom::new(String::new());
    assert!(!open.admits(None));
    assert!(!open.admits(Some("Bearer ")));
    assert!(!open.admits(Some(&bearer_header("anything"))));
    assert_eq!(bearer_token(Some("Bearer a b")), "a b");
    assert_eq!(bearer_token(None), "");
}

#[test]
fn a_second_agent_takes_over() {
    let mut room: RelayRoom<&str, ()> = RelayRoom::new("k".to_string());
    let first = room.accept_agent("first");
    let second = room.accept_agent("second");
    assert_ne!(first, second);
    assert_eq!(room.sender(), Some(&"second"));

    // The first one is told to stop, and its leaving changes nothing.
    let changed = AgentEvent::Generation { closed: false, current: second };
    assert!(matches!(room.handle_agent(first, changed), AgentStep::Stop));
    assert!(room.agent_left(first).is_none());
    assert_eq!(room.sender(), Some(&"second"));

    // When the second one leaves, the room goes dark.
    match room.agent_left(second) {
        Some(ServerMessage::ConnectionStatus {
            game_connected,
            telemetry_valid,
            telemetry_warning,
            ..
        }) => {
            assert!(!game_connected);
            assert!(!telemetry_valid);
            assert_eq!(telemetry_warning.as_deref(), Some("Agent disconnected"));
        }
        other => panic!("unexpected: {:?}", other),
    }
    assert_eq!(room.sender(), None);
}

#[test]
fn the_frames_of_an_agent_are_sorted() {
    let mut room: RelayRoom<(), &str> = RelayRoom::new("k".to_string());
    let me = room.accept_agent(());
    let (req, _) = room.request(ClientCommand::PostRaceFunFacts, "viewer").unwrap();

    let hello_frame = AgentEvent::Frame(hello("1.2.3".to_string()));
    assert!(matches!(room.handle_agent(me, hello_frame), AgentStep::Replay(None)));

    let message = AgentEvent::Frame(UplinkFrame::Message(audio()));
    match room.handle_agent(me, message) {
        AgentStep::Inject(how, ServerMessage::EngineerAudio { .. }) => {
            assert_eq!(how.route, Route::Audio)
        }
        other => panic!("unexpected: {:?}", other),
    }

    let answer = UplinkFrame::Response { req, msg: error_stub("done") };
    match room.handle_agent(me, AgentEvent::Frame(answer)) {
        AgentStep::Deliver(viewer, msg) => {
            assert_eq!(viewer, "viewer");
            assert_eq!(message_of(msg), "done");
        }
        other => panic!("unexpected: {:?}", other),
    }
    // A second answer finds nobody.
    let again = UplinkFrame::Response { req, msg: error_stub("again") };
    assert!(matches!(room.handle_agent(me, AgentEvent::Frame(again)), AgentStep::Ignore));

    assert!(matches!(room.handle_agent(me, AgentEvent::Undecodable), AgentStep::Ignore));
    assert!(matches!(room.handle_agent(me, AgentEvent::Other), AgentStep::Ignore));
    assert!(matches!(room.handle_agent(me, AgentEvent::Closed), AgentStep::Stop));
    assert!(matches!(room.handle_agent(me, AgentEvent::Failed), AgentStep::Stop));
}

// ---------------------------------------------------------------------------
// The uplink
// ---------------------------------------------------------------------------

/// Event-driven messages must never be rate-limited.
#[test]
fn non_telemetry_messages_are_never_throttled() {
    let mut throttle = Throttle::new(1);
    assert!(!throttle.should_drop(&status(), 0));
    assert!(!throttle.should_drop(&status(), 0));
    assert!(!throttle.should_drop(&status(), 0));
}

#[test]
fn frames_are_throttled_to_the_uplink_rate() {
    assert_eq!(Throttle::new(10).interval, 100_000_000);
    assert_eq!(Throttle::new(0).interval, 1_000_000_000);
    assert_eq!(Throttle::new(3).interval, 333_333_333);
    assert_eq!(Throttle::new(60).interval, 16_666_667);

    let mut throttle = Throttle::new(10);
    assert!(!throttle.should_drop(&scoring(), 1_000));
    assert!(throttle.should_drop(&scoring(), 100_000_999));
    assert!(!throttle.should_drop(&scoring(), 100_001_000));
    assert!(throttle.should_drop(&scoring(), 100_001_001));
}

#[test]
fn the_interval_is_that_of_the_clock() {
    // The last ten are those whose interval lies half way between two nanoseconds.
    let rates = [
        1u32, 2, 3, 5, 7, 10, 20, 24, 30, 50, 60, 90, 120, 144, 240, 1000, u32::MAX, 1024, 5120,
        25_600, 128_000, 640_000, 3_200_000, 16_000_000, 80_000_000, 400_000_000, 2_000_000_000,
    ];
    for fps in rates {
        let expected = std::time::Duration::from_secs_f64(1.0 / fps as f64);
        assert_eq!(Throttle::new(fps).interval as u128, expected.as_nanos(), "{} fps", fps);
    }
}

#[test]
fn the_uplink_forwards_skips_and_ends() {
    let mut throttle = Throttle::new(10);
    let step = throttle.forward(UplinkEvent::Message(scoring()), 0);
    assert!(matches!(
        step,
        UplinkStep::Send(UplinkFrame::Message(ServerMessage::ScoringUpdate { .. }))
    ));
    assert!(matches!(throttle.forward(UplinkEvent::Message(scoring()), 1), UplinkStep::Skip));
    assert!(matches!(throttle.forward(UplinkEvent::Message(audio()), 1), UplinkStep::Send(_)));
    assert!(matches!(throttle.forward(UplinkEvent::Lagged, 1), UplinkStep::Skip));
    assert!(matches!(throttle.forward(UplinkEvent::Closed, 1), UplinkStep::Done));
}

#[test]
fn the_backoff_doubles_up_to_its_limit_and_resets() {
    let second = 1_000_000_000u64;
    let mut backoff = Backoff::new();
    assert_eq!(backoff.after_connection(0), 2_000);
    assert_eq!(backoff.after_connection(second), 4_000);
    assert_eq!(backoff.after_connection(0), 8_000);
    assert_eq!(backoff.after_connection(0), 16_000);
    assert_eq!(backoff.after_connection(0), 30_000);
    assert_eq!(backoff.after_connection(59 * second), 30_000);
    assert_eq!(backoff.after_connection(60 * second), 1_000);
    assert_eq!(backoff.attempt, 0);
}

#[test]
fn the_meter_reports_every_half_minute() {
    let second = 1_000_000_000u64;
    let mut meter = Meter::new(0);
    assert_eq!(meter.record(100, second), None);
    let report = meter.record(50, 30 * second).unwrap();
    assert_eq!((report.bytes, report.frames, report.elapsed), (150, 2, 30 * second));
    assert_eq!(meter.record(1, 31 * second), None);
}

#[test]
fn the_agent_runs_a_few_commands_at_once() {
    let mut slots = AgentSlots::new(false);
    for req in 0..4u64 {
        let frame = DownlinkFrame::Command { req, cmd: ClientCommand::FuelCalcInit };
        assert!(matches!(slots.on_frame(frame), AgentTask::Execute(r, _) if r == req));
    }
    let frame = DownlinkFrame::Command { req: 9, cmd: ClientCommand::FuelCalcInit };
    assert!(matches!(
        slots.on_frame(frame),
        AgentTask::Answer(UplinkFrame::Response { req: 9, msg: ServerMessage::FuelCalcError { .. } })
    ));
    let answer = slots.finished(2, error_stub("x"));
    assert!(matches!(answer, UplinkFrame::Response { req: 2, .. }));
    let frame = DownlinkFrame::Command { req: 10, cmd: ClientCommand::PostRaceFunFacts };
    assert!(matches!(slots.on_frame(frame), AgentTask::Execute(10, _)));
}

#[test]
fn viewers_install_nothing_unless_it_is_allowed() {
    let install = || DownlinkFrame::Broadcast { cmd: ClientCommand::EngineerInstallPiper };
    let ask = || DownlinkFrame::Broadcast { cmd: ClientCommand::EngineerGetStatus };
    let data = || DownlinkFrame::Broadcast { cmd: ClientCommand::PostRaceFunFacts };
    let mut slots = AgentSlots::new(false);
    assert!(matches!(slots.on_frame(install()), AgentTask::Ignore));
    assert!(matches!(slots.on_frame(ask()), AgentTask::Engineer(_)));
    assert!(matches!(slots.on_frame(data()), AgentTask::Ignore));
    let mut slots = AgentSlots::new(true);
    assert!(matches!(slots.on_frame(install()), AgentTask::Engineer(_)));
}
