//! What clients ask of the race engineer, and what they are told.

use vstd::prelude::*;

use crate::protocol::messages::{ClientCommand, EngineerVoiceStatus, ServerMessage};
use crate::race_engineer::voice_manager::VoiceInstallStatus;
use crate::text;

verus! {

/// The two channels on which clients are told something.
#[derive(Debug, Clone, Copy, PartialEq, Eq, Structural)]
pub enum Channel {
    /// Every client.
    Main,
    /// The clients that play audio.
    Audio,
}

/// The channel of a message of the engineer: speech, and nothing else, goes to the
/// clients that play audio.
pub open spec fn spec_channel_of(msg: ServerMessage) -> Channel {
    if msg is EngineerAudio {
        Channel::Audio
    } else {
        Channel::Main
    }
}

/// The channel of a message of the engineer.
pub fn channel_of(msg: &ServerMessage) -> (channel: Channel)
    ensures
        channel == spec_channel_of(*msg),
        channel is Audio <==> msg is EngineerAudio,
{
    match msg {
        ServerMessage::EngineerAudio { .. } => Channel::Audio,
        _ => Channel::Main,
    }
}

/// How the engineer is to behave.
#[derive(Debug)]
pub struct EngineerBehavior {
    pub enabled: bool,
    pub frequency: String,
    pub mute_in_qualifying: bool,
    pub debug_all_rules_in_practice: bool,
    pub active_voice: Option<String>,
    pub pilot_name: Option<String>,
    pub mute_name: bool,
}

/// What the engineer does about a command.
#[derive(Debug)]
pub enum EngineerAction {
    /// Tell everyone the status.
    SendStatus,
    /// Install the speech program in the background.
    InstallPiper,
    /// Install a voice in the background.
    InstallVoice { voice_id: String },
    /// Uninstall a voice.
    UninstallVoice { voice_id: String },
    /// Speak a text in the background.
    Synthesize { voice_id: String, text: String, request_id: String },
    /// Behave like this from now on.
    Behave(EngineerBehavior),
    /// Nothing; the command is not the engineer's.
    Ignore,
}

/// Whether a behavior is the one that a command asks for. An empty name of the
/// pilot is none.
pub open spec fn is_behavior_of(b: EngineerBehavior, cmd: ClientCommand) -> bool {
    cmd matches ClientCommand::EngineerUpdateBehavior {
        enabled,
        frequency,
        mute_in_qualifying,
        debug_all_rules_in_practice,
        active_voice_id,
        pilot_name,
        mute_name,
    } && {
        &&& b.enabled == enabled
        &&& b.frequency == frequency
        &&& b.mute_in_qualifying == mute_in_qualifying
        &&& b.debug_all_rules_in_practice == debug_all_rules_in_practice
        &&& b.active_voice == active_voice_id
        &&& b.pilot_name == (match pilot_name {
            Some(n) if n@.len() > 0 => Some(n),
            _ => None,
        })
        &&& b.mute_name == mute_name
    }
}

/// What the engineer does about a command.
pub fn handle_command(cmd: ClientCommand) -> (action: EngineerAction)
    ensures
        match cmd {
            ClientCommand::EngineerGetStatus => action == EngineerAction::SendStatus,
            ClientCommand::EngineerInstallPiper => action == EngineerAction::InstallPiper,
            ClientCommand::EngineerInstallVoice { voice_id } => action == (
            EngineerAction::InstallVoice { voice_id }),
            ClientCommand::EngineerUninstallVoice { voice_id } => action == (
            EngineerAction::UninstallVoice { voice_id }),
            ClientCommand::EngineerSynthesize { voice_id, text, request_id } => action == (
            EngineerAction::Synthesize { voice_id, text, request_id }),
            ClientCommand::EngineerUpdateBehavior { .. } => action matches EngineerAction::Behave(b)
                && is_behavior_of(b, cmd),
            _ => action == EngineerAction::Ignore,
        },
{
    match cmd {
        ClientCommand::EngineerGetStatus => EngineerAction::SendStatus,
        ClientCommand::EngineerInstallPiper => EngineerAction::InstallPiper,
        ClientCommand::EngineerInstallVoice { voice_id } => EngineerAction::InstallVoice {
            voice_id,
        },
        ClientCommand::EngineerUninstallVoice { voice_id } => EngineerAction::UninstallVoice {
            voice_id,
        },
        ClientCommand::EngineerSynthesize { voice_id, text, request_id } => {
            EngineerAction::Synthesize { voice_id, text, request_id }
        },
        ClientCommand::EngineerUpdateBehavior {
            enabled,
            frequency,
            mute_in_qualifying,
            debug_all_rules_in_practice,
            active_voice_id,
            pilot_name,
            mute_name,
        } => {
            let pilot_name = match pilot_name {
                Some(n) => {
                    let nameless = text::same(&n, "");
                    proof {
                        reveal_strlit("");
                        if n@.len() == 0 {
                            assert(n@ == ""@);
                        }
                    }
                    if nameless {
                        None
                    } else {
                        Some(n)
                    }
                },
                None => None,
            };
            EngineerAction::Behave(
                EngineerBehavior {
                    enabled,
                    frequency,
                    mute_in_qualifying,
                    debug_all_rules_in_practice,
                    active_voice: active_voice_id,
                    pilot_name,
                    mute_name,
                },
            )
        },
        _ => EngineerAction::Ignore,
    }
}

/// The status that everyone is told: whether the speech program is there, and
/// which voices are.
pub fn build_status(
    piper_installed: bool,
    piper_version: &str,
    voices: &Vec<VoiceInstallStatus>,
) -> (msg: ServerMessage)
    ensures
        msg matches ServerMessage::EngineerStatus {
            piper_installed: p,
            piper_version: v,
            voices: list,
        } && p == piper_installed && v@ == piper_version@ && list@.len() == voices@.len()
            && forall|i: int|
            0 <= i < list@.len() ==> (#[trigger] list@[i]).voice_id@ == voices@[i].voice_id@
                && list@[i].installed == voices@[i].installed,
{
    let mut list: Vec<EngineerVoiceStatus> = Vec::new();
    let mut i: usize = 0;
    while i < voices.len()
        invariant
            i <= voices@.len(),
            list@.len() == i,
            forall|j: int|
                0 <= j < list@.len() ==> (#[trigger] list@[j]).voice_id@ == voices@[j].voice_id@
                    && list@[j].installed == voices@[j].installed,
        decreases voices@.len() - i,
    {
        list.push(
            EngineerVoiceStatus {
                voice_id: voices[i].voice_id.clone(),
                installed: voices[i].installed,
            },
        );
        i += 1;
    }
    ServerMessage::EngineerStatus {
        piper_installed,
        piper_version: piper_version.to_owned(),
        voices: list,
    }
}

/// How far a download has come.
#[derive(Debug)]
pub struct DownloadProgress {
    pub bytes_downloaded: u64,
    pub bytes_total: Option<u64>,
    pub stage: String,
    pub target: String,
    pub target_id: Option<String>,
}

/// What everyone is told while a download runs.
pub fn install_progress(p: DownloadProgress) -> (msg: ServerMessage)
    ensures
        msg == (ServerMessage::EngineerInstallProgress {
            target: p.target,
            target_id: p.target_id,
            bytes_downloaded: p.bytes_downloaded,
            bytes_total: p.bytes_total,
            stage: p.stage,
        }),
{
    ServerMessage::EngineerInstallProgress {
        target: p.target,
        target_id: p.target_id,
        bytes_downloaded: p.bytes_downloaded,
        bytes_total: p.bytes_total,
        stage: p.stage,
    }
}

/// The progress of a voice that has been downloaded and is being checked.
pub fn validating(voice_id: &str) -> (p: DownloadProgress)
    ensures
        p.bytes_downloaded == 0,
        p.bytes_total is None,
        p.stage@ == "validating"@,
        p.target@ == "voice"@,
        p.target_id matches Some(id) && id@ == voice_id@,
{
    DownloadProgress {
        bytes_downloaded: 0,
        bytes_total: None,
        stage: "validating".to_owned(),
        target: "voice".to_owned(),
        target_id: Some(voice_id.to_owned()),
    }
}

/// Whether a message says how an installation, or its undoing, has ended.
pub open spec fn tells_outcome(
    msg: ServerMessage,
    target: Seq<char>,
    target_id: Option<String>,
    outcome: Result<(), String>,
) -> bool {
    msg matches ServerMessage::EngineerInstallComplete {
        target: t,
        target_id: id,
        success,
        error,
    } && t@ == target && id == target_id && success == (outcome is Ok) && error == (match outcome {
        Ok(_) => None,
        Err(e) => Some(e),
    })
}

/// What everyone is told once the speech program is installed, or is not.
pub fn piper_outcome(outcome: Result<(), String>) -> (msg: ServerMessage)
    ensures
        tells_outcome(msg, "piper"@, None, outcome),
{
    let (success, error) = match outcome {
        Ok(_) => (true, None),
        Err(e) => (false, Some(e)),
    };
    ServerMessage::EngineerInstallComplete {
        target: "piper".to_owned(),
        target_id: None,
        success,
        error,
    }
}

/// What everyone is told once a voice is installed or uninstalled, or is not.
pub fn voice_outcome(voice_id: String, outcome: Result<(), String>) -> (msg: ServerMessage)
    ensures
        tells_outcome(msg, "voice"@, Some(voice_id), outcome),
{
    let (success, error) = match outcome {
        Ok(_) => (true, None),
        Err(e) => (false, Some(e)),
    };
    ServerMessage::EngineerInstallComplete {
        target: "voice".to_owned(),
        target_id: Some(voice_id),
        success,
        error,
    }
}

/// A text that was spoken.
#[derive(Debug)]
pub struct Speech {
    pub wav_base64: String,
    pub sample_rate: u32,
    pub duration_ms: u32,
}

/// Why a text could not be spoken.
#[derive(Debug)]
pub enum TtsError {
    VoiceNotInstalled(String),
    PiperNotInstalled,
    Other(String),
}

/// Whether a message is the answer to a request to speak.
pub open spec fn answers_synthesis(
    msg: ServerMessage,
    request_id: String,
    spoken: String,
    outcome: Result<Speech, TtsError>,
) -> bool {
    match outcome {
        Ok(s) => msg matches ServerMessage::EngineerAudio {
            request_id: id,
            priority,
            wav_base64,
            sample_rate,
            duration_ms,
            text: t,
        } && id == request_id && priority@ == "info"@ && wav_base64 == s.wav_base64 && sample_rate
            == s.sample_rate && duration_ms == s.duration_ms && t == spoken,
        Err(e) => msg matches ServerMessage::EngineerError { message } && message@ == (match e {
            TtsError::VoiceNotInstalled(id) => "Voice not installed: "@ + id@,
            TtsError::PiperNotInstalled => "Piper not installed"@,
            TtsError::Other(t) => t@,
        }),
    }
}

/// What is told about a text that was to be spoken, and to whom: the clients that
/// play audio get the speech, and everyone is told of a failure.
pub fn synthesis_reply(
    request_id: String,
    spoken: String,
    outcome: Result<Speech, TtsError>,
) -> (r: (Channel, ServerMessage))
    ensures
        answers_synthesis(r.1, request_id, spoken, outcome),
        r.0 == (if outcome is Ok {
            Channel::Audio
        } else {
            Channel::Main
        }),
        r.0 is Audio <==> r.1 is EngineerAudio,
{
    let msg = match outcome {
        Ok(s) => ServerMessage::EngineerAudio {
            request_id,
            priority: "info".to_owned(),
            wav_base64: s.wav_base64,
            sample_rate: s.sample_rate,
            duration_ms: s.duration_ms,
            text: spoken,
        },
        Err(TtsError::VoiceNotInstalled(id)) => {
            let mut message: String = "Voice not installed: ".to_owned();
            message.append(id.as_str());
            ServerMessage::EngineerError { message }
        },
        Err(TtsError::PiperNotInstalled) => ServerMessage::EngineerError {
            message: "Piper not installed".to_owned(),
        },
        Err(TtsError::Other(message)) => ServerMessage::EngineerError { message },
    };
    (channel_of(&msg), msg)
}

/// The channel of those who play audio carries speech alone: no status, progress,
/// outcome or error of the engineer goes there, so a client that only displays
/// misses none of them.
pub proof fn law_the_audio_channel_carries_speech_alone(
    msg: ServerMessage,
    request_id: String,
    spoken: String,
    outcome: Result<Speech, TtsError>,
    target: Seq<char>,
    target_id: Option<String>,
    end: Result<(), String>,
)
    ensures
        spec_channel_of(msg) == Channel::Audio <==> msg is EngineerAudio,
        answers_synthesis(msg, request_id, spoken, outcome) ==> (spec_channel_of(msg)
            == Channel::Audio <==> outcome is Ok),
        tells_outcome(msg, target, target_id, end) ==> spec_channel_of(msg) == Channel::Main,
        msg is EngineerStatus || msg is EngineerInstallProgress || msg is EngineerError
            ==> spec_channel_of(msg) == Channel::Main,
{
}

// ---------------------------------------------------------------------------
// Laws of the operations
// ---------------------------------------------------------------------------

/// Speech goes to the clients that play audio and everything else to every client.
pub proof fn law_speech_goes_to_those_who_play_it(msg: ServerMessage, channel: Channel)
    requires
        call_ensures(channel_of, (&msg,), channel),
    ensures
        channel is Audio <==> msg is EngineerAudio,
        channel is Main <==> !(msg is EngineerAudio),
{
}

/// Each command of a client is one action with the ids and texts of the command, and
/// what is not the engineer's is ignored.
pub proof fn law_each_command_is_one_action(cmd: ClientCommand, action: EngineerAction)
    requires
        call_ensures(handle_command, (cmd,), action),
    ensures
        action is SendStatus <==> cmd is EngineerGetStatus,
        action is InstallPiper <==> cmd is EngineerInstallPiper,
        action is InstallVoice <==> cmd is EngineerInstallVoice,
        action is UninstallVoice <==> cmd is EngineerUninstallVoice,
        action is Synthesize <==> cmd is EngineerSynthesize,
        action is Behave <==> cmd is EngineerUpdateBehavior,
        cmd is EngineerInstallVoice ==> action->InstallVoice_voice_id
            == cmd->EngineerInstallVoice_voice_id,
        cmd is EngineerUninstallVoice ==> action->UninstallVoice_voice_id
            == cmd->EngineerUninstallVoice_voice_id,
        cmd is EngineerSynthesize ==> action->Synthesize_voice_id
            == cmd->EngineerSynthesize_voice_id && action->Synthesize_text
            == cmd->EngineerSynthesize_text && action->Synthesize_request_id
            == cmd->EngineerSynthesize_request_id,
{
}

/// The engineer behaves as it is told, setting by setting. A name of the pilot that is
/// empty is none.
pub proof fn law_the_engineer_behaves_as_told(cmd: ClientCommand, action: EngineerAction)
    requires
        cmd is EngineerUpdateBehavior,
        call_ensures(handle_command, (cmd,), action),
    ensures
        action is Behave,
        action->Behave_0.enabled == cmd->EngineerUpdateBehavior_enabled,
        action->Behave_0.frequency == cmd->EngineerUpdateBehavior_frequency,
        action->Behave_0.mute_in_qualifying == cmd->EngineerUpdateBehavior_mute_in_qualifying,
        action->Behave_0.debug_all_rules_in_practice
            == cmd->EngineerUpdateBehavior_debug_all_rules_in_practice,
        action->Behave_0.active_voice == cmd->EngineerUpdateBehavior_active_voice_id,
        action->Behave_0.mute_name == cmd->EngineerUpdateBehavior_mute_name,
        cmd->EngineerUpdateBehavior_pilot_name is None ==> action->Behave_0.pilot_name is None,
        cmd->EngineerUpdateBehavior_pilot_name is Some
            && cmd->EngineerUpdateBehavior_pilot_name->Some_0@.len() == 0
            ==> action->Behave_0.pilot_name is None,
        cmd->EngineerUpdateBehavior_pilot_name is Some
            && cmd->EngineerUpdateBehavior_pilot_name->Some_0@.len() > 0
            ==> action->Behave_0.pilot_name == cmd->EngineerUpdateBehavior_pilot_name,
{
}

/// The status names the speech program and every voice, in order, each with whether it
/// is installed.
pub proof fn law_the_status_names_every_voice(
    piper_installed: bool,
    piper_version: &str,
    voices: Vec<VoiceInstallStatus>,
    msg: ServerMessage,
    i: int,
)
    requires
        call_ensures(build_status, (piper_installed, piper_version, &voices), msg),
        0 <= i < voices@.len(),
    ensures
        msg is EngineerStatus,
        msg->EngineerStatus_piper_installed == piper_installed,
        msg->EngineerStatus_piper_version@ == piper_version@,
        msg->EngineerStatus_voices@.len() == voices@.len(),
        msg->EngineerStatus_voices@[i].voice_id@ == voices@[i].voice_id@,
        msg->EngineerStatus_voices@[i].installed == voices@[i].installed,
{
}

/// The progress that is told is the progress that was made.
pub proof fn law_progress_is_told_as_it_is(p: DownloadProgress, msg: ServerMessage)
    requires
        call_ensures(install_progress, (p,), msg),
    ensures
        msg is EngineerInstallProgress,
        msg->EngineerInstallProgress_target == p.target,
        msg->EngineerInstallProgress_target_id == p.target_id,
        msg->EngineerInstallProgress_bytes_downloaded == p.bytes_downloaded,
        msg->EngineerInstallProgress_bytes_total == p.bytes_total,
        msg->EngineerInstallProgress_stage == p.stage,
{
}

/// A voice that is being checked is told as such, under its id.
pub proof fn law_a_voice_is_told_to_be_checked(voice_id: &str, p: DownloadProgress)
    requires
        call_ensures(validating, (voice_id,), p),
    ensures
        p.bytes_downloaded == 0,
        p.bytes_total is None,
        p.stage@ == "validating"@,
        p.target@ == "voice"@,
        p.target_id is Some,
        p.target_id->Some_0@ == voice_id@,
{
}

/// What is told about the speech program is whether it was installed, and why not.
pub proof fn law_the_end_of_the_program_is_told(outcome: Result<(), String>, msg: ServerMessage)
    requires
        call_ensures(piper_outcome, (outcome,), msg),
    ensures
        msg is EngineerInstallComplete,
        msg->EngineerInstallComplete_target@ == "piper"@,
        msg->EngineerInstallComplete_target_id is None,
        msg->EngineerInstallComplete_success <==> outcome is Ok,
        outcome is Ok ==> msg->EngineerInstallComplete_error is None,
        outcome is Err ==> msg->EngineerInstallComplete_error == Some(outcome->Err_0),
{
}

/// What is told about a voice is its id, whether it went well, and why not.
pub proof fn law_the_end_of_a_voice_is_told(
    voice_id: String,
    outcome: Result<(), String>,
    msg: ServerMessage,
)
    requires
        call_ensures(voice_outcome, (voice_id, outcome), msg),
    ensures
        msg is EngineerInstallComplete,
        msg->EngineerInstallComplete_target@ == "voice"@,
        msg->EngineerInstallComplete_target_id == Some(voice_id),
        msg->EngineerInstallComplete_success <==> outcome is Ok,
        outcome is Ok ==> msg->EngineerInstallComplete_error is None,
        outcome is Err ==> msg->EngineerInstallComplete_error == Some(outcome->Err_0),
{
}

/// A text that was spoken is sent with its sound and under the number of the request
/// to those who play audio.
pub proof fn law_speech_answers_its_request(
    request_id: String,
    spoken: String,
    outcome: Result<Speech, TtsError>,
    r: (Channel, ServerMessage),
)
    requires
        call_ensures(synthesis_reply, (request_id, spoken, outcome), r),
        outcome is Ok,
    ensures
        r.0 is Audio,
        r.1 is EngineerAudio,
        r.1->EngineerAudio_request_id == request_id,
        r.1->EngineerAudio_priority@ == "info"@,
        r.1->EngineerAudio_wav_base64 == outcome->Ok_0.wav_base64,
        r.1->EngineerAudio_sample_rate == outcome->Ok_0.sample_rate,
        r.1->EngineerAudio_duration_ms == outcome->Ok_0.duration_ms,
        r.1->EngineerAudio_text == spoken,
{
}

/// A text that could not be spoken is told to everyone, with the reason.
pub proof fn law_silence_is_explained(
    request_id: String,
    spoken: String,
    outcome: Result<Speech, TtsError>,
    r: (Channel, ServerMessage),
)
    requires
        call_ensures(synthesis_reply, (request_id, spoken, outcome), r),
        outcome is Err,
    ensures
        r.0 is Main,
        r.1 is EngineerError,
        outcome->Err_0 is VoiceNotInstalled ==> r.1->EngineerError_message@
            == "Voice not installed: "@ + outcome->Err_0->VoiceNotInstalled_0@,
        outcome->Err_0 is PiperNotInstalled ==> r.1->EngineerError_message@
            == "Piper not installed"@,
        outcome->Err_0 is Other ==> r.1->EngineerError_message@ == outcome->Err_0->Other_0@,
{
}

} // verus!
