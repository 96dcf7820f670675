//! The command line, starting, versions, logs and stopping.

use lmu_pitwall::config::{Config, Mode};
use lmu_pitwall::lifecycle::{choose_port, is_old_log, startup, Watch};
use lmu_pitwall::protocol::messages::ServerMessage;
use lmu_pitwall::version::{
    instance_guard, latest_release, release_info, running_version, take_over, version_info,
    version_older, Guard, ReleaseError, TakeOver,
};

fn config() -> Config {
    Config {
        ws_port: None,
        telemetry_fps: 20,
        scoring_fps: 20,
        enable_rest_api: false,
        log_level: "info".to_string(),
        no_browser: false,
        relay_url: None,
        agent_key: None,
        server: false,
        headless: false,
        allow_remote_install: false,
        uplink_fps: 10,
    }
}

fn agent() -> Config {
    Config { relay_url: Some("wss://host/uplink".to_string()), ..config() }
}

fn server() -> Config {
    Config { server: true, ..agent() }
}

#[test]
fn the_mode_follows_the_options() {
    assert_eq!(config().mode(), Mode::Local);
    assert_eq!(agent().mode(), Mode::Agent);
    assert_eq!(server().mode(), Mode::Server);
}

#[test]
fn a_key_comes_from_the_flag_or_the_environment() {
    let flag = |k: &str| Config { agent_key: Some(k.to_string()), ..config() };
    let env = |k: &str| Some(k.to_string());
    assert_eq!(flag("a").resolved_agent_key(env("b")), env("a"));
    assert_eq!(config().resolved_agent_key(env("b")), env("b"));
    assert_eq!(config().resolved_agent_key(env("")), None);
    assert_eq!(config().resolved_agent_key(None), None);
    // An empty flag hides the environment, and is no key.
    assert_eq!(flag("").resolved_agent_key(env("b")), None);
}

#[test]
fn the_port_is_chosen_in_order() {
    let with = |p| Config { ws_port: p, ..config() };
    assert_eq!(choose_port(&with(Some(1)), Some(2)), 1);
    assert_eq!(choose_port(&with(None), Some(2)), 2);
    assert_eq!(choose_port(&with(None), None), 9000);
}

#[test]
fn each_mode_starts_its_parts() {
    let key = || Some("k".to_string());
    let plan = startup(&config(), None).unwrap();
    assert!(plan.poll && plan.serve && plan.open_browser && plan.stop_with_dashboard);
    assert!(plan.uplink.is_none() && plan.room.is_none());

    let plan = startup(&agent(), key()).unwrap();
    assert!(plan.poll && plan.serve && !plan.open_browser && !plan.stop_with_dashboard);
    assert_eq!(plan.uplink, Some(("wss://host/uplink".to_string(), "k".to_string())));

    let plan = startup(&Config { headless: true, ..agent() }, key()).unwrap();
    assert!(plan.poll && !plan.serve);

    let plan = startup(&Config { headless: true, ..server() }, key()).unwrap();
    assert!(!plan.poll && plan.serve && !plan.open_browser && !plan.stop_with_dashboard);
    assert_eq!(plan.room, key());
    assert!(plan.uplink.is_none());

    let plan = startup(&Config { no_browser: true, ..config() }, None).unwrap();
    assert!(!plan.open_browser);
}

#[test]
fn a_relay_does_not_start_without_a_key() {
    assert_eq!(
        startup(&agent(), None).unwrap_err(),
        "an agent key is required in Agent mode — pass --agent-key or set $PITWALL_AGENT_KEY"
    );
    assert_eq!(
        startup(&server(), None).unwrap_err(),
        "an agent key is required in Server mode — pass --agent-key or set $PITWALL_AGENT_KEY"
    );
}

#[test]
fn versions_are_compared_by_number() {
    assert!(version_older("1.2.3", "1.2.4"));
    assert!(version_older("1.9.0", "1.10.0"));
    assert!(version_older("1.2", "1.2.1"));
    assert!(!version_older("1.2.3", "1.2.3"));
    assert!(!version_older("2.0.0", "1.9.9"));
    // What is no number counts as zero, and a fourth part not at all.
    assert!(!version_older("1.2.3-beta", "1.2.0"));
    assert!(!version_older("1.2.3.4", "1.2.3.5"));
    assert!(version_older("", "0.0.1"));
    assert!(!version_older("4294967296.0.0", "0.0.0"));
    assert!(version_older("4294967294", "4294967295"));
}

#[test]
fn only_an_older_local_bridge_gives_way() {
    assert_eq!(instance_guard(Mode::Local, false, None, "1.0.0"), Guard::Start);
    assert_eq!(instance_guard(Mode::Local, true, Some("0.9.0"), "1.0.0"), Guard::TakeOver);
    assert_eq!(instance_guard(Mode::Local, true, Some("1.0.0"), "1.0.0"), Guard::Leave);
    assert_eq!(instance_guard(Mode::Local, true, Some("1.1.0"), "1.0.0"), Guard::Leave);
    assert_eq!(instance_guard(Mode::Local, true, None, "1.0.0"), Guard::Leave);
    assert_eq!(instance_guard(Mode::Server, true, Some("0.9.0"), "1.0.0"), Guard::Start);
    assert_eq!(instance_guard(Mode::Agent, true, Some("0.9.0"), "1.0.0"), Guard::Start);

    assert_eq!(take_over(false, 0), TakeOver::Wait);
    assert_eq!(take_over(true, 9_000_000_000), TakeOver::Start);
    assert_eq!(take_over(false, 5_000_000_000), TakeOver::GiveUp);
}

#[test]
fn a_release_has_a_tag() {
    let some = |s: &str| Some(s.to_string());
    let r = release_info(some("v1.2.3"), some("https://x/y")).unwrap();
    assert_eq!((r.version.as_str(), r.page.as_str()), ("1.2.3", "https://x/y"));
    assert_eq!(
        release_info(some("1.2.3"), None).unwrap().page,
        "https://github.com/Swizzjack/lmu-pitwall/releases/latest"
    );
    assert_eq!(release_info(some("vv2"), None).unwrap().version, "2");
    assert_eq!(release_info(None, some("https://x/y")), Err(ReleaseError::MissingTag));
    assert_eq!(ReleaseError::MissingTag.message(), "missing tag_name in GitHub response");

    let r = latest_release(r#"{"tag_name": "v2.0.1", "html_url": "https://a/b", "id": 7}"#).unwrap();
    assert_eq!((r.version.as_str(), r.page.as_str()), ("2.0.1", "https://a/b"));
    let r = latest_release(r#"{"tag_name": "2.0.1", "html_url": null}"#).unwrap();
    assert_eq!(r.page, "https://github.com/Swizzjack/lmu-pitwall/releases/latest");
    assert_eq!(latest_release(r#"{"tag_name": 3}"#), Err(ReleaseError::MissingTag));
    assert_eq!(latest_release("[]"), Err(ReleaseError::MissingTag));
    assert_eq!(latest_release("<html>"), Err(ReleaseError::NotJson));
    assert_eq!(ReleaseError::NotJson.message(), "the GitHub response is not JSON");

    assert_eq!(running_version(r#"{"version":"1.2.3"}"#), some("1.2.3"));
    assert_eq!(running_version(r#"{"other":"1.2.3"}"#), None);
    assert_eq!(running_version("not json"), None);

    match version_info("1.0.0", "1.0.1".to_string(), "u".to_string()) {
        ServerMessage::VersionInfo { current_version, update_available, .. } => {
            assert_eq!(current_version, "1.0.0");
            assert!(update_available);
        }
        other => panic!("unexpected: {:?}", other),
    }
}

#[test]
fn old_logs_are_thrown_away() {
    let day = 86_400_000_000_000u64;
    let now = 100 * day;
    assert!(is_old_log("a.log", "/logs/a.log", 92 * day, now, 7));
    assert!(!is_old_log("a.log", "/logs/a.log", 93 * day, now, 7));
    let daily = "/logs/lmu-pitwall.log.2026-01-01";
    assert!(is_old_log("lmu-pitwall.log.2026-01-01", daily, 0, now, 7));
    assert!(!is_old_log("a.txt", "/logs/a.txt", 0, now, 7));
    assert!(!is_old_log("a.log", "/logs/a.log", 0, day, 7));
    assert!(!is_old_log("a.log", "/logs/a.log", 0, now, u64::MAX));
}

#[test]
fn the_bridge_stops_with_its_dashboard() {
    let s = 1_000_000_000u64;
    let mut w = Watch::new(0);
    assert!(!w.should_stop(1000 * s), "nobody has looked yet");
    w.on_count(1, s);
    w.on_count(0, 10 * s);
    assert_eq!(w.deadline(), Some(55 * s));
    assert!(!w.should_stop(54 * s));
    // The page is loaded again.
    w.on_count(1, 12 * s);
    assert_eq!(w.deadline(), None);
    assert!(!w.should_stop(60 * s));
    w.on_count(0, 100 * s);
    w.on_count(0, 120 * s);
    assert!(!w.should_stop(144 * s));
    assert!(w.should_stop(145 * s));
    assert_eq!(Watch::new(2), Watch::Watched);
}
