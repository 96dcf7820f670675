//! One viewer's connection: what it is greeted with, what is forwarded to it
//! and what becomes of its commands.

use vstd::prelude::*;

use crate::protocol::messages::{ClientCommand, ServerMessage};
use crate::text;
use crate::websocket::server;
use crate::websocket::server::{CommandRate, Format};

verus! {

/// The one thing in `o`, or nothing.
pub open spec fn as_seq<T>(o: Option<T>) -> Seq<T> {
    match o {
        Some(x) => seq![x],
        None => Seq::empty(),
    }
}

/// What a client is sent as soon as it connects: the latest lap snapshots, the
/// version and the connection status, as far as they are known, in that order.
pub fn greeting<T>(all_drivers: Option<T>, version_info: Option<T>, connection_status: Option<T>)
    -> (r: Vec<T>)
    ensures
        r@ == as_seq(all_drivers) + as_seq(version_info) + as_seq(connection_status),
{
    let mut r: Vec<T> = Vec::new();
    if let Some(m) = all_drivers {
        r.push(m);
    }
    if let Some(m) = version_info {
        r.push(m);
    }
    if let Some(m) = connection_status {
        r.push(m);
    }
    r
}

/// What a subscription delivers.
#[derive(Debug, Clone, Copy, PartialEq, Eq, Structural)]
pub enum Feed {
    /// A message.
    Message,
    /// Some messages were dropped because the client is too slow.
    Lagged,
    /// There will be no more messages.
    Closed,
}

/// What happens on one client's connection.
#[derive(Debug)]
pub enum ClientEvent {
    /// From the main channel.
    Broadcast(Feed),
    /// From the audio channel.
    Audio(Feed),
    /// The client sent a command.
    Command(ClientCommand),
    /// The client sent text that is no command.
    Unparseable,
    /// The client closed the connection.
    Closed,
    /// The connection failed, or a message could not be sent.
    Failed,
    /// Binary and other frames.
    Other,
}

/// What is to be done about an event.
#[derive(Debug)]
pub enum ClientStep {
    /// Send the message on to the client.
    Forward,
    /// Nothing.
    Ignore,
    /// Leave the connection.
    Stop,
    /// Let the race engineer run this.
    Engineer(ClientCommand),
    /// Ask the agent to run this and wait at most this many seconds.
    Relay(ClientCommand, u64),
    /// Run this here.
    Local(ClientCommand),
    /// Answer the client with this.
    Reply(ServerMessage),
}

/// One client's connection.
#[derive(Debug)]
pub struct ClientSession {
    /// Whether this client plays engineer callouts.
    pub is_audio: bool,
    /// How fast it may ask the agent to do work.
    pub rate: CommandRate,
    /// The wire format it asked for.
    pub format: Format,
    /// Whether this server relays commands to an agent.
    pub relayed: bool,
}

/// What is done with a message of the audio channel.
pub open spec fn audio_step(is_audio: bool, feed: Feed) -> ClientStep {
    match feed {
        Feed::Message => if is_audio {
            ClientStep::Forward
        } else {
            ClientStep::Ignore
        },
        Feed::Lagged => ClientStep::Ignore,
        Feed::Closed => ClientStep::Stop,
    }
}

/// Whether a command of this session goes to the agent.
pub open spec fn goes_to_agent(relayed: bool, cmd: ClientCommand) -> bool {
    relayed && (server::is_post_race_command(cmd) || server::is_fuel_command(cmd))
}

impl ClientSession {
    /// The session's limits are in order.
    pub open spec fn wf(&self) -> bool {
        self.rate.wf()
    }

    /// A client that just connected plays audio until it says otherwise.
    pub fn new(query: Option<&str>, relayed: bool, now: u64) -> (s: ClientSession)
        ensures
            s.wf(),
            s.is_audio,
            s.relayed == relayed,
            s.rate.tokens == server::BURST,
            s.rate.last == now,
            s.format == (match query {
                Some(q) => if server::asks_for_json(q@) {
                    Format::Json
                } else {
                    Format::MsgPack
                },
                None => Format::MsgPack,
            }),
    {
        ClientSession {
            is_audio: true,
            rate: CommandRate::new(now),
            format: server::requested_format(query),
            relayed,
        }
    }

    /// What the connection does about a command that arrives at time `now`.
    pub fn on_command(&mut self, cmd: ClientCommand, now: u64) -> (step: ClientStep)
        requires
            old(self).wf(),
        ensures
            final(self).wf(),
            final(self).format == old(self).format,
            final(self).relayed == old(self).relayed,
            cmd matches ClientCommand::EngineerRegisterClientRole { role } ==> step
                == ClientStep::Ignore && final(self).is_audio == (role@ != "display_only"@)
                && final(self).rate == old(self).rate,
            !(cmd is EngineerRegisterClientRole) ==> final(self).is_audio == old(self).is_audio,
            server::is_engineer_command(cmd) ==> step == ClientStep::Engineer(cmd)
                && final(self).rate == old(self).rate,
            !(cmd is EngineerRegisterClientRole) && !server::is_engineer_command(cmd)
                && !goes_to_agent(old(self).relayed, cmd) ==> step == ClientStep::Local(cmd)
                && final(self).rate == old(self).rate,
            goes_to_agent(old(self).relayed, cmd) ==> {
                let have = server::refilled(
                    old(self).rate.tokens as int,
                    server::since(old(self).rate.last as int, now as int),
                );
                &&& final(self).rate.last == now
                &&& have >= server::TOKEN ==> step == ClientStep::Relay(
                    cmd,
                    server::spec_command_timeout(cmd),
                ) && final(self).rate.tokens == have - server::TOKEN
                &&& have < server::TOKEN ==> (step matches ClientStep::Reply(m)
                    && server::is_error_for(cmd, "Too many requests — slow down"@, m))
                    && final(self).rate.tokens == have
            },
    {
        if let ClientCommand::EngineerRegisterClientRole { role } = &cmd {
            self.is_audio = !text::same(role.as_str(), "display_only");
            return ClientStep::Ignore;
        }
        if server::is_engineer(&cmd) {
            return ClientStep::Engineer(cmd);
        }
        if self.relayed && server::is_relayable(&cmd) {
            if !self.rate.allow(now) {
                return ClientStep::Reply(
                    server::command_error(&cmd, "Too many requests — slow down".to_owned()),
                );
            }
            let timeout = server::command_timeout(&cmd);
            return ClientStep::Relay(cmd, timeout);
        }
        ClientStep::Local(cmd)
    }

    /// What the connection does about anything but a command.
    pub fn on_other(&self, event: &ClientEvent) -> (step: ClientStep)
        requires
            !(event is Command),
        ensures
            step == (match *event {
                ClientEvent::Broadcast(feed) => audio_step(true, feed),
                ClientEvent::Audio(feed) => audio_step(self.is_audio, feed),
                ClientEvent::Closed => ClientStep::Stop,
                ClientEvent::Failed => ClientStep::Stop,
                _ => ClientStep::Ignore,
            }),
    {
        match event {
            ClientEvent::Broadcast(feed) => match feed {
                Feed::Message => ClientStep::Forward,
                Feed::Lagged => ClientStep::Ignore,
                Feed::Closed => ClientStep::Stop,
            },
            ClientEvent::Audio(feed) => match feed {
                Feed::Message => {
                    if self.is_audio {
                        ClientStep::Forward
                    } else {
                        ClientStep::Ignore
                    }
                },
                Feed::Lagged => ClientStep::Ignore,
                Feed::Closed => ClientStep::Stop,
            },
            ClientEvent::Closed => ClientStep::Stop,
            ClientEvent::Failed => ClientStep::Stop,
            _ => ClientStep::Ignore,
        }
    }
}

/// A client that only displays is never sent audio.
pub proof fn law_display_only_clients_get_no_audio(feed: Feed)
    ensures
        audio_step(false, feed) != ClientStep::Forward,
{
}

/// The agent is asked for data only: none of the commands of the race engineer,
/// and nothing at all where this server relays nothing.
pub proof fn law_only_data_queries_reach_the_agent(relayed: bool, cmd: ClientCommand)
    ensures
        goes_to_agent(relayed, cmd) ==> relayed && !server::is_engineer_command(cmd) && !(
        cmd is EngineerRegisterClientRole),
        !relayed ==> !goes_to_agent(relayed, cmd),
{
}

/// A client is greeted with the standings, the version and the connection status, in
/// that order, as far as each is known.
pub proof fn law_a_client_is_greeted_in_order<T>(
    all_drivers: Option<T>,
    version_info: Option<T>,
    connection_status: Option<T>,
    r: Vec<T>,
)
    requires
        call_ensures(greeting::<T>, (all_drivers, version_info, connection_status), r),
    ensures
        ({
            let a: int = if all_drivers is Some {
                1
            } else {
                0
            };
            let b: int = if version_info is Some {
                1
            } else {
                0
            };
            let c: int = if connection_status is Some {
                1
            } else {
                0
            };
            &&& r@.len() == a + b + c
            &&& all_drivers is Some ==> r@[0] == all_drivers->Some_0
            &&& version_info is Some ==> r@[a] == version_info->Some_0
            &&& connection_status is Some ==> r@[a + b] == connection_status->Some_0
        }),
{
}

/// A client that just connected plays audio and has five commands to spend.
pub proof fn law_a_client_starts_with_audio(
    query: Option<&str>,
    relayed: bool,
    now: u64,
    s: ClientSession,
)
    requires
        call_ensures(ClientSession::new, (query, relayed, now), s),
    ensures
        s.is_audio,
        s.relayed == relayed,
        s.rate.tokens == 5 * 4_835_703_278_458_516_698_824_704,
        s.rate.last == now,
        query is None ==> s.format is MsgPack,
        query is Some ==> (s.format is Json <==> text::split(query->Some_0@, '&').contains(
            "format=json"@,
        )),
{
}

/// A client says whether it plays audio by its role: `display_only` does not, every
/// other does. Nothing else changes that, and saying so is no work for anybody.
pub proof fn law_the_role_decides_about_audio(
    s: &mut ClientSession,
    cmd: ClientCommand,
    now: u64,
    step: ClientStep,
)
    requires
        old(s).wf(),
        call_ensures(ClientSession::on_command, (s, cmd, now), step),
    ensures
        cmd is EngineerRegisterClientRole ==> step is Ignore && (final(s).is_audio
            <==> cmd->EngineerRegisterClientRole_role@ != "display_only"@) && final(s).rate == old(
            s).rate,
        !(cmd is EngineerRegisterClientRole) ==> final(s).is_audio == old(s).is_audio
            && !(step is Ignore),
        final(s).format == old(s).format,
        final(s).relayed == old(s).relayed,
{
}

/// A command of the race engineer goes to the engineer, whether or not this server
/// relays, and costs nothing.
pub proof fn law_engineer_commands_go_to_the_engineer(
    s: &mut ClientSession,
    cmd: ClientCommand,
    now: u64,
    step: ClientStep,
)
    requires
        old(s).wf(),
        call_ensures(ClientSession::on_command, (s, cmd, now), step),
    ensures
        step is Engineer <==> cmd is EngineerGetStatus || cmd is EngineerInstallPiper
            || cmd is EngineerInstallVoice || cmd is EngineerUninstallVoice
            || cmd is EngineerSynthesize || cmd is EngineerUpdateBehavior,
        step is Engineer ==> step->Engineer_0 == cmd && final(s).rate == old(s).rate,
{
}

/// Where this server does not relay, data is looked up here, for free.
pub proof fn law_data_is_looked_up_here_without_a_relay(
    s: &mut ClientSession,
    cmd: ClientCommand,
    now: u64,
    step: ClientStep,
)
    requires
        old(s).wf(),
        !old(s).relayed,
        call_ensures(ClientSession::on_command, (s, cmd, now), step),
        cmd is PostRaceInit || cmd is PostRaceSessionDetail || cmd is PostRaceDriverLaps
            || cmd is PostRaceCompare || cmd is PostRaceStintSummary || cmd is PostRaceEvents
            || cmd is PostRaceFunFacts || cmd is FuelCalcInit || cmd is FuelCalcCompute,
    ensures
        step is Local,
        step->Local_0 == cmd,
        final(s).rate == old(s).rate,
{
}

/// Where this server relays, data is asked of the agent for one token, and the client
/// waits half a minute for the first look at the results and ten seconds for anything
/// else. Without a token the panel that asked is told to slow down.
pub proof fn law_data_is_asked_of_the_agent_for_a_token(
    s: &mut ClientSession,
    cmd: ClientCommand,
    now: u64,
    step: ClientStep,
)
    requires
        old(s).wf(),
        old(s).relayed,
        old(s).rate.last <= now,
        call_ensures(ClientSession::on_command, (s, cmd, now), step),
        cmd is PostRaceInit || cmd is PostRaceSessionDetail || cmd is PostRaceDriverLaps
            || cmd is PostRaceCompare || cmd is PostRaceStintSummary || cmd is PostRaceEvents
            || cmd is PostRaceFunFacts || cmd is FuelCalcInit || cmd is FuelCalcCompute,
    ensures
        ({
            let have = server::refilled(old(s).rate.tokens as int, now - old(s).rate.last);
            let token: int = 4_835_703_278_458_516_698_824_704;
            let fuel = cmd is FuelCalcInit || cmd is FuelCalcCompute;
            &&& step is Relay <==> have >= token
            &&& step is Reply <==> have < token
            &&& step is Relay ==> step->Relay_0 == cmd && final(s).rate.tokens == have - token
            &&& step is Relay && cmd is PostRaceInit ==> step->Relay_1 == 30
            &&& step is Relay && !(cmd is PostRaceInit) ==> step->Relay_1 == 10
            &&& step is Reply ==> final(s).rate.tokens == have
            &&& step is Reply && fuel ==> step->Reply_0 is FuelCalcError
                && step->Reply_0->FuelCalcError_message@ == "Too many requests — slow down"@
            &&& step is Reply && !fuel ==> step->Reply_0 is PostRaceError
                && step->Reply_0->PostRaceError_message@ == "Too many requests — slow down"@
        }),
        final(s).rate.last == now,
        now - old(s).rate.last >= 1_000_000_000 ==> step is Relay,
{
}

/// Messages of the main channel go to every client, those of the audio channel to the
/// clients that play audio. A client that is too slow misses some and stays. The end
/// of a channel or of the connection ends it.
pub proof fn law_channels_are_forwarded(s: ClientSession, event: ClientEvent, step: ClientStep)
    requires
        !(event is Command),
        call_ensures(ClientSession::on_other, (&s, &event), step),
    ensures
        step is Forward <==> (event is Broadcast && event->Broadcast_0 is Message) || (
        event is Audio && event->Audio_0 is Message && s.is_audio),
        step is Stop <==> (event is Broadcast && event->Broadcast_0 is Closed) || (event is Audio
            && event->Audio_0 is Closed) || event is Closed || event is Failed,
        step is Forward || step is Stop || step is Ignore,
{
}

} // verus!
