//! The race engineer: voices, commands and messages.

use lmu_pitwall::protocol::messages::{ClientCommand, ServerMessage};
use lmu_pitwall::race_engineer::api::{
    build_status, channel_of, handle_command, install_progress, piper_outcome, synthesis_reply,
    validating, voice_outcome, Channel, DownloadProgress, EngineerAction, Speech, TtsError,
};
use lmu_pitwall::race_engineer::voice_manager::{
    check_download, install_voice, is_installed, is_known, list_voices, uninstall_voice, FileStep,
    InstallFailure, VoiceDef, VoiceFiles, VoiceRemoval,
};

fn catalog() -> Vec<VoiceDef> {
    ["en_GB-alan", "en_US-amy"]
        .iter()
        .map(|id| VoiceDef {
            id: id.to_string(),
            model_url: format!("https://voices/{}.onnx", id),
            config_url: format!("https://voices/{}.onnx.json", id),
        })
        .collect()
}

/// An unchecked id turns "uninstall a voice" into "delete this file".
#[test]
fn only_catalog_voices_can_be_uninstalled() {
    assert!(uninstall_voice(&catalog(), "/etc/passwd", true, true).is_err());
    assert!(uninstall_voice(&catalog(), "../../../../secret", true, true).is_err());
    assert!(uninstall_voice(&catalog(), "", true, true).is_err());
    assert_eq!(
        uninstall_voice(&catalog(), "x", true, true).unwrap_err(),
        "Unknown voice: x"
    );
    assert_eq!(
        uninstall_voice(&catalog(), "en_US-amy", true, false),
        Ok(VoiceRemoval { model: true, config: false })
    );
}

#[test]
fn an_unknown_voice_is_never_reported_installed() {
    assert!(!is_installed(&catalog(), "/etc/passwd", true, true));
    assert!(!is_known(&catalog(), "../nope"));
}

#[test]
fn a_voice_takes_both_of_its_files() {
    assert!(is_installed(&catalog(), "en_US-amy", true, true));
    assert!(!is_installed(&catalog(), "en_US-amy", true, false));
    assert!(!is_installed(&catalog(), "en_US-amy", false, true));

    let files = vec![
        VoiceFiles {
            model: "m1".to_string(),
            model_exists: true,
            config: "c1".to_string(),
            config_exists: true,
        },
        VoiceFiles {
            model: "m2".to_string(),
            model_exists: true,
            config: "c2".to_string(),
            config_exists: false,
        },
    ];
    let list = list_voices(&catalog(), &files);
    assert_eq!(list[0].voice_id, "en_GB-alan");
    assert!(list[0].installed);
    assert_eq!(list[0].model_path.as_deref(), Some("m1"));
    assert_eq!(list[0].config_path.as_deref(), Some("c1"));
    assert!(!list[1].installed);
    assert_eq!((&list[1].model_path, &list[1].config_path), (&None, &None));

    match build_status(true, "1.2.0", &list) {
        ServerMessage::EngineerStatus { piper_installed, piper_version, voices } => {
            assert!(piper_installed);
            assert_eq!(piper_version, "1.2.0");
            let seen: Vec<(&str, bool)> =
                voices.iter().map(|v| (v.voice_id.as_str(), v.installed)).collect();
            assert_eq!(seen, vec![("en_GB-alan", true), ("en_US-amy", false)]);
        }
        other => panic!("unexpected: {:?}", other),
    }
}

#[test]
fn a_voice_is_downloaded_under_temporary_names() {
    let d = install_voice(&catalog(), "en_US-amy").unwrap();
    assert_eq!(d.model_url, "https://voices/en_US-amy.onnx");
    assert_eq!(d.config_url, "https://voices/en_US-amy.onnx.json");
    assert_eq!(d.model_tmp, "en_US-amy.onnx.tmp");
    assert_eq!(d.config_tmp, "en_US-amy.onnx.json.tmp");
    assert_eq!(install_voice(&catalog(), "../x").unwrap_err(), "Unknown voice: ../x");
}

#[test]
fn a_download_is_checked_by_size() {
    let mb = 1024 * 1024;
    assert_eq!(check_download(10 * mb, mb), Ok(()));
    assert_eq!(
        check_download(10 * mb - 1, 2 * mb).unwrap_err(),
        "Voice model too small (10485759 bytes) — likely a 404 page"
    );
    assert_eq!(
        check_download(10 * mb, mb + 1).unwrap_err(),
        "Voice config too large (1048577 bytes) — unexpected content"
    );
}

#[test]
fn commands_become_actions() {
    assert!(matches!(
        handle_command(ClientCommand::EngineerGetStatus),
        EngineerAction::SendStatus
    ));
    assert!(matches!(
        handle_command(ClientCommand::EngineerInstallPiper),
        EngineerAction::InstallPiper
    ));
    let id = || "amy".to_string();
    assert!(matches!(
        handle_command(ClientCommand::EngineerInstallVoice { voice_id: id() }),
        EngineerAction::InstallVoice { voice_id } if voice_id == "amy"
    ));
    assert!(matches!(
        handle_command(ClientCommand::EngineerUninstallVoice { voice_id: id() }),
        EngineerAction::UninstallVoice { voice_id } if voice_id == "amy"
    ));
    let speak = ClientCommand::EngineerSynthesize {
        voice_id: id(),
        text: "hi".to_string(),
        request_id: "r1".to_string(),
    };
    assert!(matches!(
        handle_command(speak),
        EngineerAction::Synthesize { text, request_id, .. } if text == "hi" && request_id == "r1"
    ));
    assert!(matches!(handle_command(ClientCommand::PostRaceFunFacts), EngineerAction::Ignore));
}

#[test]
fn an_empty_pilot_name_is_none() {
    let update = |name: Option<&str>| ClientCommand::EngineerUpdateBehavior {
        enabled: true,
        frequency: "low".to_string(),
        mute_in_qualifying: true,
        debug_all_rules_in_practice: false,
        active_voice_id: Some("amy".to_string()),
        pilot_name: name.map(|n| n.to_string()),
        mute_name: false,
    };
    for (given, kept) in [(Some("Mirco"), Some("Mirco")), (Some(""), None), (None, None)] {
        match handle_command(update(given)) {
            EngineerAction::Behave(b) => {
                assert_eq!(b.pilot_name.as_deref(), kept);
                assert!(b.enabled && b.mute_in_qualifying && !b.mute_name);
                assert_eq!(b.frequency, "low");
                assert_eq!(b.active_voice.as_deref(), Some("amy"));
            }
            other => panic!("unexpected: {:?}", other),
        }
    }
}

#[test]
fn installations_are_reported() {
    let p = DownloadProgress {
        bytes_downloaded: 5,
        bytes_total: Some(10),
        stage: "downloading".to_string(),
        target: "piper".to_string(),
        target_id: None,
    };
    assert!(matches!(
        install_progress(p),
        ServerMessage::EngineerInstallProgress { bytes_downloaded: 5, bytes_total: Some(10), .. }
    ));
    let p = validating("amy");
    assert_eq!((p.stage.as_str(), p.target.as_str()), ("validating", "voice"));
    assert_eq!(p.target_id.as_deref(), Some("amy"));

    match piper_outcome(Ok(())) {
        ServerMessage::EngineerInstallComplete { target, target_id, success, error } => {
            assert_eq!(target, "piper");
            assert!(success && target_id.is_none() && error.is_none());
        }
        other => panic!("unexpected: {:?}", other),
    }
    match voice_outcome("amy".to_string(), Err("no disk".to_string())) {
        ServerMessage::EngineerInstallComplete { target, target_id, success, error } => {
            assert_eq!((target.as_str(), target_id.as_deref()), ("voice", Some("amy")));
            assert!(!success);
            assert_eq!(error.as_deref(), Some("no disk"));
        }
        other => panic!("unexpected: {:?}", other),
    }
}

#[test]
fn a_spoken_text_goes_out_or_says_why_not() {
    let reply = |outcome| synthesis_reply("r1".to_string(), "hi".to_string(), outcome);
    let speech = Speech { wav_base64: "UklG".to_string(), sample_rate: 16_000, duration_ms: 300 };
    match reply(Ok(speech)) {
        (
            Channel::Audio,
            ServerMessage::EngineerAudio { request_id, priority, text, sample_rate, .. },
        ) => {
            assert_eq!((request_id.as_str(), priority.as_str()), ("r1", "info"));
            assert_eq!((text.as_str(), sample_rate), ("hi", 16_000));
        }
        other => panic!("unexpected: {:?}", other),
    }
    // A failure is for everyone, not only for those who play audio.
    let error = |e| match reply(Err(e)) {
        (Channel::Main, ServerMessage::EngineerError { message }) => message,
        other => panic!("unexpected: {:?}", other),
    };
    assert_eq!(error(TtsError::VoiceNotInstalled("amy".to_string())), "Voice not installed: amy");
    assert_eq!(error(TtsError::PiperNotInstalled), "Piper not installed");
    assert_eq!(error(TtsError::Other("broken pipe".to_string())), "broken pipe");
}

#[test]
fn only_speech_goes_on_the_audio_channel() {
    assert_eq!(channel_of(&piper_outcome(Ok(()))), Channel::Main);
    assert_eq!(channel_of(&install_progress(validating("amy"))), Channel::Main);
    assert_eq!(channel_of(&build_status(true, "1", &Vec::new())), Channel::Main);
    let error = ServerMessage::EngineerError { message: String::new() };
    assert_eq!(channel_of(&error), Channel::Main);
}

#[test]
fn an_installation_ends_by_its_sizes() {
    let plan = install_voice(&catalog(), "en_US-amy").unwrap();
    let mb = 1024 * 1024;
    let names = |steps: &Vec<FileStep>| -> Vec<String> {
        steps
            .iter()
            .map(|s| match s {
                FileStep::Discard { tmp } => format!("- {}", tmp),
                FileStep::Install { tmp, part } => format!("{} = {:?}", tmp, part),
            })
            .collect()
    };
    let discarded = vec!["- en_US-amy.onnx.tmp", "- en_US-amy.onnx.json.tmp"];
    let end = plan.finish(10 * mb, mb);
    assert!(end.outcome.is_ok());
    let installed = vec!["en_US-amy.onnx.tmp = Model", "en_US-amy.onnx.json.tmp = Config"];
    assert_eq!(names(&end.steps), installed);
    let end = plan.finish(10 * mb - 1, mb);
    assert!(end.outcome.unwrap_err().starts_with("Voice model too small"));
    assert_eq!(names(&end.steps), discarded);
    let end = plan.finish(10 * mb, mb + 1);
    assert!(end.outcome.unwrap_err().starts_with("Voice config too large"));
    assert_eq!(names(&end.steps), discarded);
    assert_eq!(names(&plan.abandon(InstallFailure::Download)), discarded);
    assert_eq!(names(&plan.abandon(InstallFailure::Model)), discarded);
    assert!(plan.abandon(InstallFailure::Config).is_empty());
}
