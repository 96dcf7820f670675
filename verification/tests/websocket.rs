//! The viewers' side: commands, limits, formats and the client session.

use lmu_pitwall::protocol::messages::{ClientCommand, ServerMessage};
use lmu_pitwall::relay::room::RequestError;
use lmu_pitwall::websocket::client::{
    greeting, ClientEvent, ClientSession, ClientStep, Feed,
};
use lmu_pitwall::websocket::server::{
    command_error, command_timeout, dispatch_command, is_relayable, local_reply, relay_reply,
    requested_format, CommandRate, Format, Handler, WebSocketServer,
};

fn role(role: &str) -> ClientCommand {
    ClientCommand::EngineerRegisterClientRole { role: role.to_string() }
}

/// Engineer commands stay local; only data queries cross the relay.
#[test]
fn engineer_commands_are_not_relayable() {
    assert!(!is_relayable(&ClientCommand::EngineerGetStatus));
    assert!(!is_relayable(&ClientCommand::EngineerInstallPiper));
    assert!(!is_relayable(&role("audio")));
}

#[test]
fn post_race_and_fuel_commands_are_relayable() {
    assert!(is_relayable(&ClientCommand::PostRaceFunFacts));
    assert!(is_relayable(&ClientCommand::PostRaceInit { results_path: None }));
    assert!(is_relayable(&ClientCommand::FuelCalcInit));
}

/// A cold import gets far longer than a query that only reads the database.
#[test]
fn a_cold_import_gets_the_long_timeout() {
    assert_eq!(command_timeout(&ClientCommand::PostRaceInit { results_path: None }), 30);
    assert_eq!(command_timeout(&ClientCommand::PostRaceFunFacts), 10);
}

/// Two error variants exist and each panel renders only its own.
#[test]
fn errors_go_back_in_the_shape_the_panel_expects() {
    assert!(matches!(
        command_error(&ClientCommand::FuelCalcInit, "x".to_string()),
        ServerMessage::FuelCalcError { .. }
    ));
    assert!(matches!(
        command_error(&ClientCommand::PostRaceFunFacts, "x".to_string()),
        ServerMessage::PostRaceError { .. }
    ));
}

/// The bucket has to refill, or a viewer who clicks quickly once is capped for
/// the rest of the session.
#[test]
fn the_rate_limiter_allows_a_burst_then_refills() {
    let now = 5_000_000_000u64;
    let mut rate = CommandRate::new(now);
    for _ in 0..5 {
        assert!(rate.allow(now));
    }
    assert!(!rate.allow(now));

    rate.last = now - 1_000_000_000;
    assert!(rate.allow(now));
}

#[test]
fn one_token_takes_a_fifth_of_a_second() {
    let mut rate = CommandRate::new(0);
    for _ in 0..5 {
        assert!(rate.allow(0));
    }
    assert!(!rate.allow(199_999_999));
    assert!(rate.allow(200_000_000));
    assert!(!rate.allow(200_000_000));
}

/// The bucket is kept in doubles: ten waits of 20 ms are worth a little less than a
/// token, where one wait of 200 ms is worth a whole one.
#[test]
fn many_short_waits_round_down() {
    let ms = 1_000_000u64;
    let mut rate = CommandRate::new(0);
    for _ in 0..5 {
        assert!(rate.allow(0));
    }
    for k in 1..=10 {
        assert!(!rate.allow(k * 20 * ms));
    }
    assert!(rate.allow(220 * ms));
}

/// The bucket holds exactly the double that the same steps on doubles give.
#[test]
fn the_bucket_holds_a_double() {
    let part = 2f64.powi(82);
    let mut rate = CommandRate::new(7);
    let mut tokens = 5.0f64;
    let mut now = 7u64;
    let mut seed = 88_172_645_463_325_252u64;
    for round in 0..20_000u64 {
        seed ^= seed << 13;
        seed ^= seed >> 7;
        seed ^= seed << 17;
        let wait = match round % 5 {
            0 => seed % 10,
            1 => seed % 1_000,
            2 => seed % 100_000_000,
            3 => seed % 400_000_000,
            _ => seed % 1_500_000_000,
        };
        now += wait;
        let seconds = std::time::Duration::from_nanos(wait).as_secs_f64();
        tokens = (tokens + seconds * 5.0).min(5.0);
        let served = tokens >= 1.0;
        if served {
            tokens -= 1.0;
        }
        assert_eq!(rate.allow(now), served);
        assert_eq!(rate.tokens, (tokens * part) as u128);
        assert_eq!(rate.tokens as f64, tokens * part);
    }
}

/// A clock that stands still or goes back refills nothing.
#[test]
fn time_that_does_not_pass_is_worth_nothing() {
    let mut rate = CommandRate::new(500);
    for _ in 0..5 {
        assert!(rate.allow(500));
    }
    assert!(!rate.allow(400));
    assert_eq!(rate.last, 400);
    assert_eq!(rate.tokens, 0);
}

#[test]
fn json_is_sent_to_those_who_ask_for_it() {
    assert_eq!(requested_format(Some("format=json")), Format::Json);
    assert_eq!(requested_format(Some("a=b&format=json&c=d")), Format::Json);
    assert_eq!(requested_format(Some("format=jsonx")), Format::MsgPack);
    assert_eq!(requested_format(Some("xformat=json")), Format::MsgPack);
    assert_eq!(requested_format(Some("")), Format::MsgPack);
    assert_eq!(requested_format(None), Format::MsgPack);
}

#[test]
fn a_relayed_command_is_answered_whatever_happens() {
    let cmd = ClientCommand::FuelCalcInit;
    let answer = ServerMessage::PostRaceError { message: "x".to_string() };
    assert!(matches!(
        relay_reply(&cmd, Ok(answer)),
        ServerMessage::PostRaceError { message } if message == "x"
    ));
    assert!(matches!(
        relay_reply(&cmd, Err(RequestError::NoAgent)),
        ServerMessage::FuelCalcError { message } if message == "No agent connected to this relay"
    ));
    assert!(matches!(
        relay_reply(&cmd, Err(RequestError::Timeout)),
        ServerMessage::FuelCalcError { message } if message == "The agent did not answer in time"
    ));
    assert!(matches!(
        local_reply(Err("boom".to_string())),
        ServerMessage::PostRaceError { message } if message == "command task panicked: boom"
    ));
}

#[test]
fn commands_find_their_handler() {
    assert_eq!(dispatch_command(&ClientCommand::FuelCalcInit), Handler::FuelCalculator);
    assert_eq!(dispatch_command(&ClientCommand::PostRaceFunFacts), Handler::PostRace);
}

#[test]
fn clients_are_counted() {
    let mut server = WebSocketServer::new(9000);
    assert_eq!(server.port(), 9000);
    assert_eq!(server.accept_client(), 1);
    assert_eq!(server.accept_client(), 2);
    assert_eq!(server.client_left(), 1);
    assert_eq!(server.client_count(), 1);
    assert_eq!(server.broadcast(Some(3)), 3);
    assert_eq!(server.broadcast(None), 0);
}

#[test]
fn a_client_is_greeted_with_what_is_known() {
    assert_eq!(greeting(Some(1), Some(2), Some(3)), vec![1, 2, 3]);
    assert_eq!(greeting(None, None, Some(3)), vec![3]);
    assert_eq!(greeting::<u8>(None, None, None), Vec::<u8>::new());
}

#[test]
fn a_display_only_client_hears_nothing() {
    let mut session = ClientSession::new(None, false, 0);
    assert!(matches!(session.on_other(&ClientEvent::Audio(Feed::Message)), ClientStep::Forward));
    assert!(matches!(session.on_command(role("display_only"), 0), ClientStep::Ignore));
    assert!(matches!(session.on_other(&ClientEvent::Audio(Feed::Message)), ClientStep::Ignore));
    assert!(matches!(
        session.on_other(&ClientEvent::Broadcast(Feed::Message)),
        ClientStep::Forward
    ));
    assert!(matches!(session.on_command(role("audio"), 0), ClientStep::Ignore));
    assert!(matches!(session.on_other(&ClientEvent::Audio(Feed::Message)), ClientStep::Forward));
}

#[test]
fn a_slow_client_skips_and_a_gone_one_leaves() {
    let session = ClientSession::new(Some("format=json"), true, 0);
    assert_eq!(session.format, Format::Json);
    assert!(matches!(session.on_other(&ClientEvent::Broadcast(Feed::Lagged)), ClientStep::Ignore));
    assert!(matches!(session.on_other(&ClientEvent::Broadcast(Feed::Closed)), ClientStep::Stop));
    assert!(matches!(session.on_other(&ClientEvent::Audio(Feed::Closed)), ClientStep::Stop));
    assert!(matches!(session.on_other(&ClientEvent::Closed), ClientStep::Stop));
    assert!(matches!(session.on_other(&ClientEvent::Failed), ClientStep::Stop));
    assert!(matches!(session.on_other(&ClientEvent::Unparseable), ClientStep::Ignore));
    assert!(matches!(session.on_other(&ClientEvent::Other), ClientStep::Ignore));
}

#[test]
fn a_viewer_of_a_relay_is_capped() {
    let mut session = ClientSession::new(None, true, 0);
    for _ in 0..5 {
        assert!(matches!(
            session.on_command(ClientCommand::FuelCalcInit, 0),
            ClientStep::Relay(ClientCommand::FuelCalcInit, 10)
        ));
    }
    match session.on_command(ClientCommand::FuelCalcInit, 0) {
        ClientStep::Reply(ServerMessage::FuelCalcError { message }) => {
            assert_eq!(message, "Too many requests — slow down")
        }
        other => panic!("unexpected: {:?}", other),
    }
    // The engineer's commands stay here and are not counted.
    assert!(matches!(
        session.on_command(ClientCommand::EngineerGetStatus, 0),
        ClientStep::Engineer(ClientCommand::EngineerGetStatus)
    ));
}

#[test]
fn without_a_relay_everything_runs_here() {
    let mut session = ClientSession::new(None, false, 0);
    for _ in 0..20 {
        assert!(matches!(
            session.on_command(ClientCommand::PostRaceFunFacts, 0),
            ClientStep::Local(ClientCommand::PostRaceFunFacts)
        ));
    }
}
