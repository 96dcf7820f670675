//! The server side of the relay: one room, one active agent.
//!
//! A second agent takes over and the previous one is dropped. The room also
//! carries viewer commands to the agent: each request is parked under a fresh
//! number until the response with that number arrives, which is what keeps the
//! answers of many viewers apart.

use std::collections::HashMap;
use vstd::prelude::*;

use crate::protocol::messages::{ClientCommand, ServerMessage};
use crate::relay::envelope::{DownlinkFrame, UplinkFrame};
use crate::text;

verus! {

broadcast use vstd::std_specs::hash::group_hash_axioms;

/// Why a relayed command produced no answer.
#[derive(Debug, Clone, Copy, PartialEq, Eq, Structural)]
pub enum RequestError {
    /// No agent is streaming, or the one that was went away mid-request.
    NoAgent,
    /// The agent is connected but did not answer in time.
    Timeout,
}

/// How the wait for an answer ended.
#[derive(Debug)]
pub enum WaitOutcome {
    /// The answer arrived.
    Answered(ServerMessage),
    /// The waiter was dropped: the agent disconnected.
    Dropped,
    /// The time was up.
    TimedOut,
}

// ---------------------------------------------------------------------------
// The command channel
// ---------------------------------------------------------------------------

/// The command channel to the current agent, and who is waiting for answers.
///
/// `S` is the handle by which frames reach the agent, `W` the handle by which
/// an answer reaches the viewer that asked.
pub struct Downlink<S, W> {
    next_req: u64,
    pending: HashMap<u64, W>,
    sender: Option<S>,
    behavior: Option<ClientCommand>,
}

/// A command channel as a mathematical value.
pub struct DownlinkState<S, W> {
    /// The number of the next request.
    pub next_req: u64,
    /// Who waits for the answer to which request.
    pub pending: Map<u64, W>,
    /// The way to the current agent, if there is one.
    pub sender: Option<S>,
    /// The last behaviour that a viewer set.
    pub behavior: Option<ClientCommand>,
}

/// The number after `req`; the last number is followed by zero.
pub open spec fn next_number(req: u64) -> u64 {
    if req == u64::MAX {
        0
    } else {
        (req + 1) as u64
    }
}

/// The number of the request that comes `n` requests after number `req`.
pub open spec fn number_after(req: u64, n: nat) -> u64
    decreases n,
{
    if n == 0 {
        req
    } else {
        next_number(number_after(req, (n - 1) as nat))
    }
}

impl<S, W> DownlinkState<S, W> {
    /// The channel before any agent or viewer.
    pub open spec fn initial() -> Self {
        DownlinkState { next_req: 0, pending: Map::empty(), sender: None, behavior: None }
    }

    /// With one more request parked for `waiter`.
    pub open spec fn parked(self, waiter: W) -> Self {
        DownlinkState {
            next_req: next_number(self.next_req),
            pending: self.pending.insert(self.next_req, waiter),
            ..self
        }
    }

    /// Without the request `req`.
    pub open spec fn without(self, req: u64) -> Self {
        DownlinkState { pending: self.pending.remove(req), ..self }
    }

    /// With frames going to `tx`, and nobody waiting for an agent before it.
    pub open spec fn attached(self, tx: S) -> Self {
        DownlinkState { sender: Some(tx), pending: Map::empty(), ..self }
    }

    /// Without an agent and without anyone waiting.
    pub open spec fn detached(self) -> Self {
        DownlinkState { sender: None, pending: Map::empty(), ..self }
    }

    /// After a command was broadcast: a behaviour is remembered.
    pub open spec fn after_broadcast(self, cmd: ClientCommand) -> Self {
        if cmd is EngineerUpdateBehavior {
            DownlinkState { behavior: Some(cmd), ..self }
        } else {
            self
        }
    }

    /// The frame that an agent is sent when it says hello: the stored behaviour.
    pub open spec fn replayed(self) -> Option<DownlinkFrame> {
        match (self.behavior, self.sender) {
            (Some(cmd), Some(_)) => Some(DownlinkFrame::Broadcast { cmd }),
            _ => None,
        }
    }
}

impl<S, W> View for Downlink<S, W> {
    type V = DownlinkState<S, W>;

    closed spec fn view(&self) -> DownlinkState<S, W> {
        DownlinkState {
            next_req: self.next_req,
            pending: self.pending@,
            sender: self.sender,
            behavior: self.behavior,
        }
    }
}

/// A copy of an `EngineerUpdateBehavior` command.
fn copy_of_behavior(cmd: &ClientCommand) -> (r: ClientCommand)
    requires
        cmd is EngineerUpdateBehavior,
    ensures
        r == *cmd,
{
    match cmd {
        ClientCommand::EngineerUpdateBehavior {
            enabled,
            frequency,
            mute_in_qualifying,
            debug_all_rules_in_practice,
            active_voice_id,
            pilot_name,
            mute_name,
        } => ClientCommand::EngineerUpdateBehavior {
            enabled: *enabled,
            frequency: frequency.clone(),
            mute_in_qualifying: *mute_in_qualifying,
            debug_all_rules_in_practice: *debug_all_rules_in_practice,
            active_voice_id: match active_voice_id {
                Some(v) => Some(v.clone()),
                None => None,
            },
            pilot_name: match pilot_name {
                Some(n) => Some(n.clone()),
                None => None,
            },
            mute_name: *mute_name,
        },
        _ => ClientCommand::EngineerGetStatus,
    }
}

impl<S, W> Downlink<S, W> {
    /// A stored behaviour is always the command that sets one.
    #[verifier::type_invariant]
    spec fn stores_behavior_only(self) -> bool {
        self.behavior matches Some(cmd) ==> cmd is EngineerUpdateBehavior
    }

    /// A channel without an agent.
    pub fn new() -> (d: Self)
        ensures
            d@ == DownlinkState::<S, W>::initial(),
    {
        Downlink { next_req: 0, pending: HashMap::new(), sender: None, behavior: None }
    }

    /// The way to the current agent.
    pub fn sender(&self) -> (r: Option<&S>)
        ensures
            r == (match self@.sender {
                Some(s) => Some(&s),
                None => None,
            }),
    {
        self.sender.as_ref()
    }

    /// Whether nobody waits for an answer.
    pub fn is_idle(&self) -> (r: bool)
        ensures
            r == (self@.pending.dom().len() == 0),
    {
        self.pending.len() == 0
    }

    /// Starts a request: parks `waiter` under a fresh number and returns that
    /// number with the frame to send. Without an agent there is nothing to wait
    /// for and the request fails at once.
    pub fn request(&mut self, cmd: ClientCommand, waiter: W) -> (r: Result<
        (u64, DownlinkFrame),
        RequestError,
    >)
        ensures
            old(self)@.sender is None ==> r == Err::<(u64, DownlinkFrame), _>(RequestError::NoAgent)
                && final(self)@ == old(self)@,
            old(self)@.sender is Some ==> r == Ok::<_, RequestError>(
                (
                    old(self)@.next_req,
                    DownlinkFrame::Command { req: old(self)@.next_req, cmd: cmd },
                ),
            ) && final(self)@ == old(self)@.parked(waiter),
    {
        proof {
            use_type_invariant(&*self);
        }
        if self.sender.is_none() {
            return Err(RequestError::NoAgent);
        }
        let req: u64 = self.next_req;
        self.next_req = if req == u64::MAX {
            0
        } else {
            req + 1
        };
        let mut pending: HashMap<u64, W> = HashMap::new();
        std::mem::swap(&mut pending, &mut self.pending);
        pending.insert(req, waiter);
        self.pending = pending;
        Ok((req, DownlinkFrame::Command { req, cmd }))
    }

    /// After the frame of request `req` was handed over, or could not be: then
    /// the request is forgotten and fails.
    pub fn after_send(&mut self, req: u64, sent: bool) -> (r: Result<(), RequestError>)
        ensures
            sent ==> r == Ok::<(), RequestError>(()) && final(self)@ == old(self)@,
            !sent ==> r == Err::<(), _>(RequestError::NoAgent) && final(self)@ == old(
                self,
            )@.without(req),
    {
        if sent {
            Ok(())
        } else {
            self.forget(req);
            Err(RequestError::NoAgent)
        }
    }

    /// After the wait for the answer to `req`. A request that timed out is
    /// forgotten, or a slow agent would leave one entry behind each time.
    pub fn after_wait(&mut self, req: u64, outcome: WaitOutcome) -> (r: Result<
        ServerMessage,
        RequestError,
    >)
        ensures
            match outcome {
                WaitOutcome::Answered(msg) => r == Ok::<_, RequestError>(msg) && final(self)@
                    == old(self)@,
                WaitOutcome::Dropped => r == Err::<ServerMessage, _>(RequestError::NoAgent)
                    && final(self)@ == old(self)@,
                WaitOutcome::TimedOut => r == Err::<ServerMessage, _>(RequestError::Timeout)
                    && final(self)@ == old(self)@.without(req),
            },
    {
        match outcome {
            WaitOutcome::Answered(msg) => Ok(msg),
            WaitOutcome::Dropped => Err(RequestError::NoAgent),
            WaitOutcome::TimedOut => {
                self.forget(req);
                Err(RequestError::Timeout)
            },
        }
    }

    /// Starts a broadcast: its result reaches viewers as an ordinary message,
    /// so nobody waits. A behaviour is remembered whether or not there is an
    /// agent to send it to.
    pub fn broadcast(&mut self, cmd: ClientCommand) -> (r: Result<DownlinkFrame, RequestError>)
        ensures
            final(self)@ == old(self)@.after_broadcast(cmd),
            old(self)@.sender is None ==> r == Err::<DownlinkFrame, _>(RequestError::NoAgent),
            old(self)@.sender is Some ==> r == Ok::<_, RequestError>(
                DownlinkFrame::Broadcast { cmd: cmd },
            ),
    {
        proof {
            use_type_invariant(&*self);
        }
        let is_behavior = match &cmd {
            ClientCommand::EngineerUpdateBehavior { .. } => true,
            _ => false,
        };
        if is_behavior {
            self.behavior = Some(copy_of_behavior(&cmd));
        }
        if self.sender.is_none() {
            return Err(RequestError::NoAgent);
        }
        Ok(DownlinkFrame::Broadcast { cmd })
    }

    /// The frame that gives the stored behaviour to an agent that just said
    /// hello.
    pub fn replay_behavior(&self) -> (r: Option<DownlinkFrame>)
        ensures
            r == self@.replayed(),
    {
        proof {
            use_type_invariant(&*self);
        }
        match &self.behavior {
            Some(cmd) => {
                if self.sender.is_some() {
                    Some(DownlinkFrame::Broadcast { cmd: copy_of_behavior(cmd) })
                } else {
                    None
                }
            },
            None => None,
        }
    }

    /// Takes out the viewer that waits for the answer to `req`. A response to a
    /// request that is unknown or was given up has nobody to go to.
    pub fn resolve(&mut self, req: u64) -> (r: Option<W>)
        ensures
            final(self)@ == old(self)@.without(req),
            r == (if old(self)@.pending.contains_key(req) {
                Some(old(self)@.pending[req])
            } else {
                None
            }),
    {
        proof {
            use_type_invariant(&*self);
        }
        let mut pending: HashMap<u64, W> = HashMap::new();
        std::mem::swap(&mut pending, &mut self.pending);
        let r = pending.remove(&req);
        self.pending = pending;
        r
    }

    /// Gives up the request `req`.
    pub fn forget(&mut self, req: u64)
        ensures
            final(self)@ == old(self)@.without(req),
    {
        let _ = self.resolve(req);
    }

    /// Installs the way to a newly connected agent. Whoever still waited for the
    /// agent before it is dropped, and learns by it that no answer will come.
    pub fn attach(&mut self, tx: S)
        ensures
            final(self)@ == old(self)@.attached(tx),
    {
        proof {
            use_type_invariant(&*self);
        }
        self.sender = Some(tx);
        self.pending = HashMap::new();
    }

    /// Drops the way to the agent and every waiter, who learn by it that no
    /// answer will come. The stored behaviour stays: the next agent gets it.
    pub fn detach(&mut self)
        ensures
            final(self)@ == old(self)@.detached(),
    {
        proof {
            use_type_invariant(&*self);
        }
        self.sender = None;
        self.pending = HashMap::new();
    }
}

// ---------------------------------------------------------------------------
// Where a relayed message goes
// ---------------------------------------------------------------------------

/// Which channel a relayed message belongs on.
#[derive(Debug, Clone, Copy, PartialEq, Eq, Structural)]
pub enum Route {
    Viewers,
    Audio,
    Drop,
}

/// The channel of a message: audio stays off the channel of viewers that only
/// display, and the agent's version is not what a viewer of the relay needs.
pub open spec fn spec_route_of(msg: &ServerMessage) -> Route {
    match *msg {
        ServerMessage::EngineerAudio { .. } => Route::Audio,
        ServerMessage::VersionInfo { .. } => Route::Drop,
        _ => Route::Viewers,
    }
}

/// The channel that a relayed message belongs on.
pub fn route_of(msg: &ServerMessage) -> (r: Route)
    ensures
        r == spec_route_of(msg),
{
    match msg {
        ServerMessage::EngineerAudio { .. } => Route::Audio,
        ServerMessage::VersionInfo { .. } => Route::Drop,
        _ => Route::Viewers,
    }
}

/// What a viewer that joins later is shown first, and which message renews it.
#[derive(Debug, Clone, Copy, PartialEq, Eq, Structural)]
pub enum Replay {
    AllDrivers,
    ConnectionStatus,
    Nothing,
}

/// What a message renews of the state that late viewers are shown.
pub open spec fn spec_replay_of(msg: &ServerMessage) -> Replay {
    match *msg {
        ServerMessage::AllDriversUpdate { .. } => Replay::AllDrivers,
        ServerMessage::ConnectionStatus { .. } => Replay::ConnectionStatus,
        _ => Replay::Nothing,
    }
}

/// How one relayed message enters the local fabric.
#[derive(Debug, Clone, Copy, PartialEq, Eq, Structural)]
pub struct Injection {
    /// What it renews for viewers that join later.
    pub replay: Replay,
    /// The channel it is sent on.
    pub route: Route,
}

/// How a relayed message enters the local fabric.
pub open spec fn spec_inject(msg: &ServerMessage) -> Injection {
    Injection { replay: spec_replay_of(msg), route: spec_route_of(msg) }
}

/// How a relayed message enters the local fabric.
pub fn inject(msg: &ServerMessage) -> (r: Injection)
    ensures
        r == spec_inject(msg),
{
    let replay = match msg {
        ServerMessage::AllDriversUpdate { .. } => Replay::AllDrivers,
        ServerMessage::ConnectionStatus { .. } => Replay::ConnectionStatus,
        _ => Replay::Nothing,
    };
    Injection { replay, route: route_of(msg) }
}

// ---------------------------------------------------------------------------
// The agent's key
// ---------------------------------------------------------------------------

/// Two texts with the same UTF-8 bytes are the same text.
proof fn lemma_bytes_decide(a: Seq<char>, b: Seq<char>)
    requires
        vstd::utf8::encode_utf8(a) == vstd::utf8::encode_utf8(b),
    ensures
        a == b,
{
    vstd::utf8::encode_utf8_decode_utf8(a);
    vstd::utf8::encode_utf8_decode_utf8(b);
}

/// Whether the presented key is the expected one.
///
/// Every byte is compared whatever the earlier ones were, so the time taken
/// depends on the length alone, which is not the secret.
pub fn keys_match(presented: &str, expected: &str) -> (r: bool)
    ensures
        r == (presented@ == expected@),
{
    let p = presented.as_bytes();
    let e = expected.as_bytes();
    if p.len() != e.len() {
        return false;
    }
    let mut diff: u8 = 0;
    let mut i: usize = 0;
    while i < p.len()
        invariant
            i <= p@.len(),
            p@.len() == e@.len(),
            diff == 0 <==> forall|j: int| 0 <= j < i ==> p@[j] == e@[j],
        decreases p@.len() - i,
    {
        let a: u8 = p[i];
        let b: u8 = e[i];
        proof {
            assert((diff | (a ^ b)) == 0 <==> (diff == 0 && a == b)) by (bit_vector);
        }
        diff = diff | (a ^ b);
        i += 1;
    }
    proof {
        if diff == 0 {
            assert(p@ == e@);
            lemma_bytes_decide(presented@, expected@);
        }
    }
    diff == 0
}

/// The key in an `Authorization` header: what follows `Bearer `, else nothing.
pub open spec fn spec_bearer_token(authorization: Option<Seq<char>>) -> Seq<char> {
    match authorization {
        Some(h) => if text::starts_with(h, "Bearer "@) {
            h.skip("Bearer "@.len() as int)
        } else {
            Seq::empty()
        },
        None => Seq::empty(),
    }
}

/// Whether a handshake with this `Authorization` header is accepted by a room with
/// this key: it presents the key, and there is one.
pub open spec fn admitted(authorization: Option<Seq<char>>, agent_key: Seq<char>) -> bool {
    agent_key.len() > 0 && spec_bearer_token(authorization) == agent_key
}

/// A header value as a mathematical value.
pub open spec fn header_view(authorization: Option<&str>) -> Option<Seq<char>> {
    match authorization {
        Some(h) => Some(h@),
        None => None,
    }
}

/// The key in an `Authorization` header.
pub fn bearer_token(authorization: Option<&str>) -> (token: String)
    ensures
        token@ == spec_bearer_token(header_view(authorization)),
{
    match authorization {
        Some(h) => match text::text_after(h, "Bearer ") {
            Some(token) => token,
            None => String::new(),
        },
        None => String::new(),
    }
}

/// The `Authorization` header that presents `key`.
pub fn bearer_header(key: &str) -> (header: String)
    ensures
        header@ == "Bearer "@ + key@,
{
    let mut header = "Bearer ".to_owned();
    header.append(key);
    header
}

// ---------------------------------------------------------------------------
// The room
// ---------------------------------------------------------------------------

/// The room: which agent is the source, and the channel to it.
pub struct RelayRoom<S, W> {
    agent_key: String,
    generation: u64,
    downlink: Downlink<S, W>,
}

/// A room as a mathematical value.
pub struct RoomState<S, W> {
    /// The key that an agent has to present.
    pub agent_key: Seq<char>,
    /// The number of the agent that connected last.
    pub generation: u64,
    /// The command channel.
    pub downlink: DownlinkState<S, W>,
}

impl<S, W> View for RelayRoom<S, W> {
    type V = RoomState<S, W>;

    closed spec fn view(&self) -> RoomState<S, W> {
        RoomState {
            agent_key: self.agent_key@,
            generation: self.generation,
            downlink: self.downlink@,
        }
    }
}

impl<S, W> RoomState<S, W> {
    /// With a new agent as the source.
    pub open spec fn claimed(self, tx: S) -> Self {
        RoomState {
            generation: next_number(self.generation),
            downlink: self.downlink.attached(tx),
            ..self
        }
    }

    /// With one new agent after the other as the source.
    pub open spec fn claimed_by(self, txs: Seq<S>) -> Self
        decreases txs.len(),
    {
        if txs.len() == 0 {
            self
        } else {
            self.claimed_by(txs.drop_last()).claimed(txs.last())
        }
    }

    /// After agent `my_generation` left: only the current one takes the source
    /// with it.
    pub open spec fn left(self, my_generation: u64) -> Self {
        if self.generation == my_generation {
            RoomState { downlink: self.downlink.detached(), ..self }
        } else {
            self
        }
    }
}

/// Whether the connection of agent `my_generation` ends when it hears that the
/// current agent is `current`.
pub open spec fn superseded(my_generation: u64, closed: bool, current: u64) -> bool {
    closed || current != my_generation
}

/// What happens on the connection of one agent.
#[derive(Debug)]
pub enum AgentEvent {
    /// The number of the current agent changed, or can change no more.
    Generation { closed: bool, current: u64 },
    /// A frame arrived.
    Frame(UplinkFrame),
    /// A binary frame arrived that is no uplink frame.
    Undecodable,
    /// The agent closed the connection.
    Closed,
    /// The connection failed.
    Failed,
    /// A text, ping or pong frame arrived.
    Other,
}

/// What is to be done about an event.
#[derive(Debug)]
pub enum AgentStep<W> {
    /// Leave the connection.
    Stop,
    /// Send this frame to the agent, if there is one.
    Replay(Option<DownlinkFrame>),
    /// Send this message on in the local fabric.
    Inject(Injection, ServerMessage),
    /// Hand this answer to the viewer that asked.
    Deliver(W, ServerMessage),
    /// Nothing.
    Ignore,
}

/// What viewers are told when the room has gone dark.
pub open spec fn tells_agent_gone(msg: ServerMessage) -> bool {
    match msg {
        ServerMessage::ConnectionStatus {
            game_connected,
            plugin_version,
            telemetry_valid,
            telemetry_warning,
        } => !game_connected && plugin_version@.len() == 0 && !telemetry_valid && (
        telemetry_warning matches Some(w) && w@ == "Agent disconnected"@),
        _ => false,
    }
}

impl<S, W> RelayRoom<S, W> {
    /// A room that no agent has claimed.
    pub fn new(agent_key: String) -> (room: Self)
        ensures
            room@ == (RoomState {
                agent_key: agent_key@,
                generation: 0,
                downlink: DownlinkState::<S, W>::initial(),
            }),
    {
        RelayRoom { agent_key, generation: 0, downlink: Downlink::new() }
    }

    /// The way to the current agent.
    pub fn sender(&self) -> (r: Option<&S>)
        ensures
            r == (match self@.downlink.sender {
                Some(s) => Some(&s),
                None => None,
            }),
    {
        self.downlink.sender()
    }

    /// Starts one viewer command on the agent's PC.
    pub fn request(&mut self, cmd: ClientCommand, waiter: W) -> (r: Result<
        (u64, DownlinkFrame),
        RequestError,
    >)
        ensures
            old(self)@.downlink.sender is None ==> r == Err::<(u64, DownlinkFrame), _>(
                RequestError::NoAgent,
            ) && final(self)@ == old(self)@,
            old(self)@.downlink.sender is Some ==> r == Ok::<_, RequestError>(
                (
                    old(self)@.downlink.next_req,
                    DownlinkFrame::Command { req: old(self)@.downlink.next_req, cmd: cmd },
                ),
            ) && final(self)@ == (RoomState {
                downlink: old(self)@.downlink.parked(waiter),
                ..old(self)@
            }),
    {
        self.downlink.request(cmd, waiter)
    }

    /// After the frame of request `req` was handed over, or could not be.
    pub fn after_send(&mut self, req: u64, sent: bool) -> (r: Result<(), RequestError>)
        ensures
            sent ==> r == Ok::<(), RequestError>(()) && final(self)@ == old(self)@,
            !sent ==> r == Err::<(), _>(RequestError::NoAgent) && final(self)@ == (RoomState {
                downlink: old(self)@.downlink.without(req),
                ..old(self)@
            }),
    {
        self.downlink.after_send(req, sent)
    }

    /// After the wait for the answer to `req`.
    pub fn after_wait(&mut self, req: u64, outcome: WaitOutcome) -> (r: Result<
        ServerMessage,
        RequestError,
    >)
        ensures
            match outcome {
                WaitOutcome::Answered(msg) => r == Ok::<_, RequestError>(msg) && final(self)@
                    == old(self)@,
                WaitOutcome::Dropped => r == Err::<ServerMessage, _>(RequestError::NoAgent)
                    && final(self)@ == old(self)@,
                WaitOutcome::TimedOut => r == Err::<ServerMessage, _>(RequestError::Timeout)
                    && final(self)@ == (RoomState {
                    downlink: old(self)@.downlink.without(req),
                    ..old(self)@
                }),
            },
    {
        self.downlink.after_wait(req, outcome)
    }

    /// Starts one viewer command on the agent's PC whose answer is for everyone.
    pub fn broadcast(&mut self, cmd: ClientCommand) -> (r: Result<DownlinkFrame, RequestError>)
        ensures
            final(self)@ == (RoomState {
                downlink: old(self)@.downlink.after_broadcast(cmd),
                ..old(self)@
            }),
            old(self)@.downlink.sender is None ==> r == Err::<DownlinkFrame, _>(
                RequestError::NoAgent,
            ),
            old(self)@.downlink.sender is Some ==> r == Ok::<_, RequestError>(
                DownlinkFrame::Broadcast { cmd: cmd },
            ),
    {
        self.downlink.broadcast(cmd)
    }

    /// Whether a handshake with this `Authorization` header is accepted. A room
    /// without a key is open to nobody.
    pub fn admits(&self, authorization: Option<&str>) -> (r: bool)
        ensures
            r == admitted(header_view(authorization), self@.agent_key),
    {
        let presented = bearer_token(authorization);
        let has_key = !keys_match(self.agent_key.as_str(), "");
        proof {
            reveal_strlit("");
            if self.agent_key@.len() == 0 {
                assert(self.agent_key@ == ""@);
            }
        }
        has_key && keys_match(presented.as_str(), self.agent_key.as_str())
    }

    /// Claims the room for an agent whose handshake was accepted and returns
    /// its number. Any agent that was streaming is superseded by it, and whoever
    /// waited for an answer of that agent waits no longer.
    pub fn accept_agent(&mut self, tx: S) -> (my_generation: u64)
        ensures
            final(self)@ == old(self)@.claimed(tx),
            my_generation == final(self)@.generation,
    {
        self.generation = if self.generation == u64::MAX {
            0
        } else {
            self.generation + 1
        };
        self.downlink.attach(tx);
        self.generation
    }

    /// What the connection of agent `my_generation` does about an event.
    pub fn handle_agent(&mut self, my_generation: u64, event: AgentEvent) -> (r: AgentStep<W>)
        ensures
            match event {
                AgentEvent::Generation { closed, current } => final(self)@ == old(self)@ && r == (
                if superseded(my_generation, closed, current) {
                    AgentStep::<W>::Stop
                } else {
                    AgentStep::Ignore
                }),
                AgentEvent::Frame(UplinkFrame::Hello { .. }) => final(self)@ == old(self)@ && r
                    == AgentStep::<W>::Replay(old(self)@.downlink.replayed()),
                AgentEvent::Frame(UplinkFrame::Message(msg)) => final(self)@ == old(self)@ && r
                    == AgentStep::<W>::Inject(spec_inject(&msg), msg),
                AgentEvent::Frame(UplinkFrame::Response { req, msg }) => final(self)@ == (
                RoomState { downlink: old(self)@.downlink.without(req), ..old(self)@ }) && r == (
                if old(self)@.downlink.pending.contains_key(req) {
                    AgentStep::Deliver(old(self)@.downlink.pending[req], msg)
                } else {
                    AgentStep::Ignore
                }),
                AgentEvent::Undecodable => final(self)@ == old(self)@ && r
                    == AgentStep::<W>::Ignore,
                AgentEvent::Closed => final(self)@ == old(self)@ && r == AgentStep::<W>::Stop,
                AgentEvent::Failed => final(self)@ == old(self)@ && r == AgentStep::<W>::Stop,
                AgentEvent::Other => final(self)@ == old(self)@ && r == AgentStep::<W>::Ignore,
            },
    {
        match event {
            AgentEvent::Generation { closed, current } => {
                if closed || current != my_generation {
                    AgentStep::Stop
                } else {
                    AgentStep::Ignore
                }
            },
            AgentEvent::Frame(frame) => match frame {
                UplinkFrame::Hello { .. } => AgentStep::Replay(self.downlink.replay_behavior()),
                UplinkFrame::Message(msg) => {
                    let how = inject(&msg);
                    AgentStep::Inject(how, msg)
                },
                UplinkFrame::Response { req, msg } => match self.downlink.resolve(req) {
                    Some(waiter) => AgentStep::Deliver(waiter, msg),
                    None => AgentStep::Ignore,
                },
            },
            AgentEvent::Undecodable => AgentStep::Ignore,
            AgentEvent::Closed => AgentStep::Stop,
            AgentEvent::Failed => AgentStep::Stop,
            AgentEvent::Other => AgentStep::Ignore,
        }
    }

    /// After agent `my_generation` left its connection. Only the departure of
    /// the current agent means that the room has gone dark: then nobody waits
    /// any longer and viewers are told. A superseded agent changes nothing.
    pub fn agent_left(&mut self, my_generation: u64) -> (r: Option<ServerMessage>)
        ensures
            final(self)@ == old(self)@.left(my_generation),
            old(self)@.generation != my_generation ==> r is None,
            old(self)@.generation == my_generation ==> (r matches Some(msg) && tells_agent_gone(
                msg,
            )),
    {
        if self.generation != my_generation {
            return None;
        }
        self.downlink.detach();
        Some(
            ServerMessage::ConnectionStatus {
                game_connected: false,
                plugin_version: String::new(),
                telemetry_valid: false,
                telemetry_warning: Some("Agent disconnected".to_owned()),
            },
        )
    }
}

// ---------------------------------------------------------------------------
// Laws
// ---------------------------------------------------------------------------

proof fn lemma_number_after(req: u64, n: nat)
    requires
        n <= u64::MAX,
    ensures
        number_after(req, n) as int == (if req + n <= u64::MAX {
            req + n
        } else {
            req + n - u64::MAX - 1
        }),
    decreases n,
{
    if n > 0 {
        lemma_number_after(req, (n - 1) as nat);
    }
}

/// Request numbers do not repeat until all of them were used: the number of a
/// request differs from that of every other request within that many.
pub proof fn law_request_numbers_differ(req: u64, n: nat, m: nat)
    requires
        n < m <= u64::MAX,
    ensures
        number_after(req, n) != number_after(req, m),
{
    lemma_number_after(req, n);
    lemma_number_after(req, m);
}

/// Two requests answered in either order both reach the viewer that asked.
pub proof fn law_answers_do_not_cross<S, W>(d: DownlinkState<S, W>, first: W, second: W)
    ensures
        ({
            let a = d.next_req;
            let b = d.parked(first).next_req;
            let both = d.parked(first).parked(second);
            &&& a != b
            &&& both.pending.contains_key(a) && both.pending[a] == first
            &&& both.pending.contains_key(b) && both.pending[b] == second
            &&& both.without(b).pending.contains_key(a) && both.without(b).pending[a] == first
            &&& both.without(a).pending.contains_key(b) && both.without(a).pending[b] == second
        }),
{
}

/// Answering or giving up one request leaves every other one as it was, and a
/// second response to the same request finds nobody.
pub proof fn law_requests_are_independent<S, W>(d: DownlinkState<S, W>, req: u64, other: u64)
    requires
        req != other,
    ensures
        !d.without(req).pending.contains_key(req),
        d.without(req).pending.contains_key(other) == d.pending.contains_key(other),
        d.pending.contains_key(other) ==> d.without(req).pending[other] == d.pending[other],
        d.without(req).without(req) == d.without(req),
{
    assert(d.pending.remove(req).remove(req) =~= d.pending.remove(req));
}

/// A request that was parked and then answered or given up leaves no trace but
/// the number it used, if that number was free.
pub proof fn law_finished_requests_leave_nothing<S, W>(d: DownlinkState<S, W>, waiter: W)
    requires
        !d.pending.contains_key(d.next_req),
    ensures
        d.parked(waiter).without(d.next_req) == (DownlinkState {
            next_req: next_number(d.next_req),
            ..d
        }),
{
    assert(d.pending.insert(d.next_req, waiter).remove(d.next_req) =~= d.pending);
}

/// The behaviour that a viewer set outlives the agent: nothing but another one
/// replaces it, and the next agent that says hello is sent it.
pub proof fn law_behavior_survives_reconnects<S, W>(
    d: DownlinkState<S, W>,
    cmd: ClientCommand,
    other: ClientCommand,
    tx: S,
    waiter: W,
    req: u64,
)
    requires
        cmd is EngineerUpdateBehavior,
        !(other is EngineerUpdateBehavior),
    ensures
        d.after_broadcast(cmd).behavior == Some(cmd),
        d.after_broadcast(cmd).detached().attached(tx).replayed() == Some(
            DownlinkFrame::Broadcast { cmd },
        ),
        d.after_broadcast(other).behavior == d.behavior,
        d.parked(waiter).behavior == d.behavior,
        d.without(req).behavior == d.behavior,
        d.attached(tx).behavior == d.behavior,
        d.detached().behavior == d.behavior,
{
}

/// When the current agent leaves, nobody waits any longer and nothing is sent to
/// it: a viewer is not left to time out against an agent that is gone.
pub proof fn law_a_dark_room_keeps_nobody_waiting<S, W>(room: RoomState<S, W>)
    ensures
        room.left(room.generation).downlink.pending == Map::<u64, W>::empty(),
        room.left(room.generation).downlink.sender is None,
        room.left(room.generation).generation == room.generation,
{
}

/// A takeover wakes every waiter: nobody who asked the agent before is left to time
/// out against one that was never asked, and a late answer finds nobody.
pub proof fn law_a_takeover_wakes_every_waiter<S, W>(room: RoomState<S, W>, tx: S, req: u64)
    ensures
        room.claimed(tx).downlink.pending == Map::<u64, W>::empty(),
        !room.claimed(tx).downlink.pending.contains_key(req),
        room.claimed(tx).downlink.without(req) == room.claimed(tx).downlink,
{
    assert(Map::<u64, W>::empty().remove(req) =~= Map::<u64, W>::empty());
}

proof fn lemma_claims_count<S, W>(room: RoomState<S, W>, txs: Seq<S>)
    ensures
        room.claimed_by(txs).generation == number_after(room.generation, txs.len()),
        txs.len() > 0 ==> room.claimed_by(txs).downlink.sender == Some(txs.last()),
        txs.len() > 0 ==> room.claimed_by(txs).downlink.pending == Map::<u64, W>::empty(),
        room.claimed_by(txs).downlink.behavior == room.downlink.behavior,
        room.claimed_by(txs).agent_key == room.agent_key,
    decreases txs.len(),
{
    if txs.len() > 0 {
        lemma_claims_count(room, txs.drop_last());
    }
}

/// The agent that connected last is the source. An agent before it learns that it
/// was superseded, however many came after it, and its leaving takes nothing away
/// from the current one.
pub proof fn law_the_latest_agent_is_the_source<S, W>(room: RoomState<S, W>, txs: Seq<S>)
    requires
        0 < txs.len() <= u64::MAX,
    ensures
        ({
            let now = room.claimed_by(txs);
            &&& now.downlink.sender == Some(txs.last())
            &&& superseded(room.generation, false, now.generation)
            &&& !superseded(now.generation, false, now.generation)
            &&& now.left(room.generation) == now
        }),
{
    lemma_claims_count(room, txs);
    law_request_numbers_differ(room.generation, 0, txs.len());
}

/// A header made from a key presents exactly that key, so an agent is admitted
/// by a server that was given the same key, and by no other.
pub proof fn law_a_presented_key_is_read_back(key: Seq<char>, expected: Seq<char>)
    ensures
        spec_bearer_token(Some("Bearer "@ + key)) == key,
        admitted(Some("Bearer "@ + key), expected) <==> expected.len() > 0 && key == expected,
{
    let p = "Bearer "@;
    assert((p + key).subrange(0, p.len() as int) == p);
    assert((p + key).skip(p.len() as int) == key);
}

/// Without a key in the header nobody is admitted, and a room without a key admits
/// nobody at all.
pub proof fn law_no_key_no_entry(authorization: Option<Seq<char>>, expected: Seq<char>)
    ensures
        spec_bearer_token(authorization).len() == 0 ==> !admitted(authorization, expected),
        authorization is None ==> !admitted(authorization, expected),
        (authorization matches Some(h) && !text::starts_with(h, "Bearer "@)) ==> !admitted(
            authorization,
            expected,
        ),
        expected.len() == 0 ==> !admitted(authorization, expected),
{
}

/// Audio never reaches the channel of viewers that only display, and the
/// agent's version never reaches any viewer.
pub proof fn law_audio_and_version_stay_off_the_main_channel(msg: ServerMessage)
    ensures
        msg is EngineerAudio ==> spec_inject(&msg).route == Route::Audio,
        msg is VersionInfo ==> spec_inject(&msg).route == Route::Drop,
        spec_inject(&msg).route == Route::Viewers <==> !(msg is EngineerAudio) && !(
        msg is VersionInfo),
        spec_inject(&msg).replay != Replay::Nothing ==> spec_inject(&msg).route == Route::Viewers,
{
}

/// Request numbers and agent numbers count up by one and start over at zero.
pub proof fn law_numbers_count_up(req: u64)
    ensures
        req < 0xFFFF_FFFF_FFFF_FFFF ==> next_number(req) == req + 1,
        req == 0xFFFF_FFFF_FFFF_FFFF ==> next_number(req) == 0,
{
}

/// A channel starts without an agent, without waiters and without a behaviour, and
/// its first request has the number zero.
pub proof fn law_a_channel_starts_empty<S, W>(d: Downlink<S, W>, req: u64)
    requires
        call_ensures(Downlink::<S, W>::new, (), d),
    ensures
        d@.next_req == 0,
        !d@.pending.contains_key(req),
        d@.sender is None,
        d@.behavior is None,
{
}

/// A request is parked under the number that it is sent with, for the viewer that
/// asked. Every other request, the agent and the behaviour stay as they were.
pub proof fn law_a_request_waits_under_its_number<S, W>(
    d: DownlinkState<S, W>,
    waiter: W,
    other: u64,
)
    requires
        other != d.next_req,
    ensures
        ({
            let after = d.parked(waiter);
            &&& after.pending.contains_key(d.next_req)
            &&& after.pending[d.next_req] == waiter
            &&& after.pending.contains_key(other) == d.pending.contains_key(other)
            &&& d.pending.contains_key(other) ==> after.pending[other] == d.pending[other]
            &&& d.next_req < 0xFFFF_FFFF_FFFF_FFFF ==> after.next_req == d.next_req + 1
            &&& d.next_req == 0xFFFF_FFFF_FFFF_FFFF ==> after.next_req == 0
            &&& after.sender == d.sender
            &&& after.behavior == d.behavior
        }),
{
}

/// Finishing a request changes nothing but who waits for it.
pub proof fn law_finishing_a_request_keeps_the_rest<S, W>(d: DownlinkState<S, W>, req: u64)
    ensures
        !d.without(req).pending.contains_key(req),
        d.without(req).next_req == d.next_req,
        d.without(req).sender == d.sender,
        d.without(req).behavior == d.behavior,
{
}

/// A new agent is sent the frames from now on, and nobody waits for the one before.
/// Without an agent there is nobody to send to and nobody waits. Request numbers go
/// on in both cases.
pub proof fn law_agents_come_and_go<S, W>(d: DownlinkState<S, W>, tx: S, req: u64)
    ensures
        d.attached(tx).sender == Some(tx),
        !d.attached(tx).pending.contains_key(req),
        d.attached(tx).next_req == d.next_req,
        d.attached(tx).behavior == d.behavior,
        d.detached().sender is None,
        !d.detached().pending.contains_key(req),
        d.detached().next_req == d.next_req,
        d.detached().behavior == d.behavior,
{
}

/// A broadcast changes nothing but the behaviour, and that only where it sets one.
pub proof fn law_a_broadcast_parks_nobody<S, W>(d: DownlinkState<S, W>, cmd: ClientCommand)
    ensures
        cmd is EngineerUpdateBehavior ==> d.after_broadcast(cmd).behavior == Some(cmd),
        !(cmd is EngineerUpdateBehavior) ==> d.after_broadcast(cmd).behavior == d.behavior,
        d.after_broadcast(cmd).next_req == d.next_req,
        d.after_broadcast(cmd).pending == d.pending,
        d.after_broadcast(cmd).sender == d.sender,
{
}

/// An agent that says hello is sent the behaviour that is stored, as a broadcast, and
/// nothing where none is stored or there is no agent.
pub proof fn law_a_hello_is_answered_with_the_behavior<S, W>(
    d: Downlink<S, W>,
    frame: Option<DownlinkFrame>,
)
    requires
        call_ensures(Downlink::<S, W>::replay_behavior, (&d,), frame),
    ensures
        d@.behavior is None || d@.sender is None ==> frame is None,
        d@.behavior is Some && d@.sender is Some ==> frame is Some && frame->Some_0 is Broadcast
            && frame->Some_0->Broadcast_cmd == d@.behavior->Some_0,
{
}

/// A message of the engineer's voice goes to those who play audio, the agent's
/// version to nobody, and everything else to every viewer.
pub proof fn law_messages_go_where_they_belong(msg: ServerMessage, route: Route)
    requires
        call_ensures(route_of, (&msg,), route),
    ensures
        route is Audio <==> msg is EngineerAudio,
        route is Drop <==> msg is VersionInfo,
        route is Viewers <==> !(msg is EngineerAudio || msg is VersionInfo),
{
}

/// The standings of all drivers and the connection status are kept for viewers that
/// join later, each in its own place, and nothing else is.
pub proof fn law_late_viewers_are_shown_the_latest(msg: ServerMessage, how: Injection)
    requires
        call_ensures(inject, (&msg,), how),
    ensures
        how.replay is AllDrivers <==> msg is AllDriversUpdate,
        how.replay is ConnectionStatus <==> msg is ConnectionStatus,
        how.replay is Nothing <==> !(msg is AllDriversUpdate || msg is ConnectionStatus),
        how.route is Audio <==> msg is EngineerAudio,
        how.route is Drop <==> msg is VersionInfo,
{
}

/// Two keys match where they are the same text, and only there.
pub proof fn law_a_key_matches_itself_alone(presented: &str, expected: &str, r: bool)
    requires
        call_ensures(keys_match, (presented, expected), r),
    ensures
        r <==> presented@ == expected@,
{
}

/// A header presents what follows `Bearer `, and one that does not begin so, or that
/// is missing, presents nothing.
pub proof fn law_a_header_presents_what_follows_bearer(header: Option<&str>, token: String)
    requires
        call_ensures(bearer_token, (header,), token),
    ensures
        header is None ==> token@.len() == 0,
        header is Some && header->Some_0@.len() >= 7 && header->Some_0@.take(7) == "Bearer "@
            ==> header->Some_0@ == "Bearer "@ + token@,
        header is Some && !(header->Some_0@.len() >= 7 && header->Some_0@.take(7) == "Bearer "@)
            ==> token@.len() == 0,
{
    reveal_strlit("Bearer ");
    let b = "Bearer "@;
    assert(b.len() == 7);
    if header is Some {
        let h = header->Some_0@;
        if h.len() >= 7 {
            assert(h.take(7) == h.subrange(0, 7));
            assert(h == h.take(7) + h.skip(7));
        }
    }
}

/// A room admits whoever presents its key after `Bearer `, and nobody else; one
/// without a key admits nobody.
pub proof fn law_the_key_opens_the_room<S, W>(
    room: RelayRoom<S, W>,
    header: Option<&str>,
    r: bool,
)
    requires
        call_ensures(RelayRoom::<S, W>::admits, (&room, header), r),
    ensures
        r <==> room@.agent_key.len() > 0 && header is Some && header->Some_0@ == "Bearer "@
            + room@.agent_key,
{
    reveal_strlit("Bearer ");
    let b = "Bearer "@;
    assert(b.len() == 7);
    if header is Some {
        let h = header->Some_0@;
        if h == b + room@.agent_key {
            assert(h.subrange(0, 7) == b);
            assert(h.skip(7) == room@.agent_key);
        }
        if r {
            assert(h == h.subrange(0, 7) + h.skip(7));
        }
    }
}

/// A room starts with the key it was given, without an agent and with nobody waiting.
pub proof fn law_a_room_starts_empty<S, W>(agent_key: String, room: RelayRoom<S, W>, req: u64)
    requires
        call_ensures(RelayRoom::<S, W>::new, (agent_key,), room),
    ensures
        room@.agent_key == agent_key@,
        room@.generation == 0,
        room@.downlink.next_req == 0,
        room@.downlink.sender is None,
        room@.downlink.behavior is None,
        !room@.downlink.pending.contains_key(req),
{
}

/// A new agent gets the next number and is sent the frames from now on. The key, the
/// request numbers and the behaviour stay.
pub proof fn law_a_claim_makes_the_source<S, W>(room: RoomState<S, W>, tx: S, req: u64)
    ensures
        room.generation < 0xFFFF_FFFF_FFFF_FFFF ==> room.claimed(tx).generation
            == room.generation + 1,
        room.generation == 0xFFFF_FFFF_FFFF_FFFF ==> room.claimed(tx).generation == 0,
        room.claimed(tx).agent_key == room.agent_key,
        room.claimed(tx).downlink.sender == Some(tx),
        !room.claimed(tx).downlink.pending.contains_key(req),
        room.claimed(tx).downlink.next_req == room.downlink.next_req,
        room.claimed(tx).downlink.behavior == room.downlink.behavior,
{
}

/// Only the current agent takes the source with it when it leaves; the leaving of any
/// other changes nothing at all.
pub proof fn law_only_the_current_agent_leaves_a_dark_room<S, W>(
    room: RoomState<S, W>,
    who: u64,
    req: u64,
)
    ensures
        who != room.generation ==> room.left(who) == room,
        who == room.generation ==> room.left(who).downlink.sender is None
            && !room.left(who).downlink.pending.contains_key(req)
            && room.left(who).downlink.next_req == room.downlink.next_req
            && room.left(who).downlink.behavior == room.downlink.behavior
            && room.left(who).agent_key == room.agent_key && room.left(who).generation
            == room.generation,
{
}

/// An agent stays while it is the current one and the room is open.
pub proof fn law_an_agent_stays_while_it_is_current(who: u64, closed: bool, current: u64)
    ensures
        superseded(who, closed, current) <==> !(current == who && !closed),
{
}

/// Viewers of a dark room are told that the game is not connected, that there is no
/// valid telemetry, and why.
pub proof fn law_a_dark_room_says_why(msg: ServerMessage)
    requires
        tells_agent_gone(msg),
    ensures
        msg is ConnectionStatus,
        !msg->ConnectionStatus_game_connected,
        msg->ConnectionStatus_plugin_version@.len() == 0,
        !msg->ConnectionStatus_telemetry_valid,
        msg->ConnectionStatus_telemetry_warning is Some,
        msg->ConnectionStatus_telemetry_warning->Some_0@ == "Agent disconnected"@,
{
}

/// Agents that come one after the other are numbered one after the other.
pub proof fn law_every_claim_takes_one_number<S, W>(room: RoomState<S, W>, txs: Seq<S>)
    requires
        room.generation + txs.len() <= 0xFFFF_FFFF_FFFF_FFFF,
    ensures
        room.claimed_by(txs).generation == room.generation + txs.len(),
        room.claimed_by(txs).agent_key == room.agent_key,
        room.claimed_by(txs).downlink.behavior == room.downlink.behavior,
        txs.len() > 0 ==> room.claimed_by(txs).downlink.sender == Some(txs.last()),
{
    lemma_claims_count(room, txs);
    lemma_number_after(room.generation, txs.len());
}

/// A command is sent to the agent under the number that its answer will come under;
/// without an agent it fails and nobody is kept waiting.
pub proof fn law_a_command_is_sent_and_awaited<S, W>(
    room: &mut RelayRoom<S, W>,
    cmd: ClientCommand,
    waiter: W,
    r: Result<(u64, DownlinkFrame), RequestError>,
)
    requires
        call_ensures(RelayRoom::<S, W>::request, (room, cmd, waiter), r),
    ensures
        old(room)@.downlink.sender is None ==> r is Err && r->Err_0 == RequestError::NoAgent
            && final(room)@ == old(room)@,
        old(room)@.downlink.sender is Some ==> r is Ok && r->Ok_0.1 is Command
            && r->Ok_0.1->Command_req == r->Ok_0.0 && r->Ok_0.1->Command_cmd == cmd
            && r->Ok_0.0 == old(room)@.downlink.next_req,
        r is Ok ==> final(room)@.downlink.pending.contains_key(r->Ok_0.0)
            && final(room)@.downlink.pending[r->Ok_0.0] == waiter,
        final(room)@.downlink.sender == old(room)@.downlink.sender,
        final(room)@.downlink.behavior == old(room)@.downlink.behavior,
        final(room)@.generation == old(room)@.generation,
        final(room)@.agent_key == old(room)@.agent_key,
{
}

/// A command that could not be handed over fails and is forgotten, and one that was
/// handed over is left to wait.
pub proof fn law_a_lost_command_is_forgotten<S, W>(
    room: &mut RelayRoom<S, W>,
    req: u64,
    sent: bool,
    r: Result<(), RequestError>,
)
    requires
        call_ensures(RelayRoom::<S, W>::after_send, (room, req, sent), r),
    ensures
        sent ==> r is Ok && final(room)@ == old(room)@,
        !sent ==> r is Err && r->Err_0 == RequestError::NoAgent,
        !sent ==> final(room)@.downlink.pending == old(room)@.downlink.pending.remove(req),
        final(room)@.downlink.sender == old(room)@.downlink.sender,
        final(room)@.generation == old(room)@.generation,
{
}

/// An answer is handed on as it is. A wait that was cut short says that there is no
/// agent, and one that took too long says so and is forgotten.
pub proof fn law_every_wait_ends_in_its_own_way<S, W>(
    room: &mut RelayRoom<S, W>,
    req: u64,
    outcome: WaitOutcome,
    r: Result<ServerMessage, RequestError>,
)
    requires
        call_ensures(RelayRoom::<S, W>::after_wait, (room, req, outcome), r),
    ensures
        outcome is Answered ==> r is Ok && r->Ok_0 == outcome->Answered_0 && final(room)@ == old(
            room)@,
        outcome is Dropped ==> r is Err && r->Err_0 == RequestError::NoAgent && final(room)@
            == old(room)@,
        outcome is TimedOut ==> r is Err && r->Err_0 == RequestError::Timeout,
        outcome is TimedOut ==> final(room)@.downlink.pending == old(room)@.downlink.pending.remove(
            req),
        final(room)@.downlink.sender == old(room)@.downlink.sender,
        final(room)@.generation == old(room)@.generation,
{
}

/// A command for everyone is sent to the agent as it is, or fails where there is none.
/// Nobody waits for it, and a behaviour is remembered in either case.
pub proof fn law_a_command_for_everyone_is_not_awaited<S, W>(
    room: &mut RelayRoom<S, W>,
    cmd: ClientCommand,
    r: Result<DownlinkFrame, RequestError>,
)
    requires
        call_ensures(RelayRoom::<S, W>::broadcast, (room, cmd), r),
    ensures
        old(room)@.downlink.sender is None ==> r is Err && r->Err_0 == RequestError::NoAgent,
        old(room)@.downlink.sender is Some ==> r is Ok && r->Ok_0 is Broadcast
            && r->Ok_0->Broadcast_cmd == cmd,
        cmd is EngineerUpdateBehavior ==> final(room)@.downlink.behavior == Some(cmd),
        !(cmd is EngineerUpdateBehavior) ==> final(room)@.downlink.behavior == old(
            room)@.downlink.behavior,
        final(room)@.downlink.pending == old(room)@.downlink.pending,
        final(room)@.downlink.next_req == old(room)@.downlink.next_req,
        final(room)@.downlink.sender == old(room)@.downlink.sender,
        final(room)@.generation == old(room)@.generation,
{
}

/// An answer goes to the viewer that asked under its number, once, and to nobody where
/// nobody waits under it.
pub proof fn law_an_answer_reaches_who_asked<S, W>(
    room: &mut RelayRoom<S, W>,
    who: u64,
    event: AgentEvent,
    step: AgentStep<W>,
)
    requires
        call_ensures(RelayRoom::<S, W>::handle_agent, (room, who, event), step),
        event is Frame,
        event->Frame_0 is Response,
    ensures
        ({
            let req = event->Frame_0->Response_req;
            &&& old(room)@.downlink.pending.contains_key(req) ==> step is Deliver
                && step->Deliver_0 == old(room)@.downlink.pending[req] && step->Deliver_1
                == event->Frame_0->Response_msg
            &&& !old(room)@.downlink.pending.contains_key(req) ==> step is Ignore
            &&& final(room)@.downlink.pending == old(room)@.downlink.pending.remove(req)
        }),
        final(room)@.downlink.sender == old(room)@.downlink.sender,
        final(room)@.downlink.behavior == old(room)@.downlink.behavior,
        final(room)@.generation == old(room)@.generation,
{
}

/// A message of the agent is sent on as it is, a hello is answered with the stored
/// behaviour, and neither changes the room.
pub proof fn law_messages_of_the_agent_are_sent_on<S, W>(
    room: &mut RelayRoom<S, W>,
    who: u64,
    event: AgentEvent,
    step: AgentStep<W>,
)
    requires
        call_ensures(RelayRoom::<S, W>::handle_agent, (room, who, event), step),
        event is Frame,
        !(event->Frame_0 is Response),
    ensures
        final(room)@ == old(room)@,
        event->Frame_0 is Message ==> step is Inject && step->Inject_1 == event->Frame_0->Message_0
            && (step->Inject_0.route is Audio <==> event->Frame_0->Message_0 is EngineerAudio) && (
        step->Inject_0.route is Drop <==> event->Frame_0->Message_0 is VersionInfo) && (
        step->Inject_0.replay is AllDrivers <==> event->Frame_0->Message_0 is AllDriversUpdate) && (
        step->Inject_0.replay is ConnectionStatus
            <==> event->Frame_0->Message_0 is ConnectionStatus),
        event->Frame_0 is Hello ==> step is Replay,
        event->Frame_0 is Hello && old(room)@.downlink.behavior is Some && old(
            room)@.downlink.sender is Some ==> step->Replay_0 is Some
            && step->Replay_0->Some_0 is Broadcast && step->Replay_0->Some_0->Broadcast_cmd == old(
            room)@.downlink.behavior->Some_0,
        event->Frame_0 is Hello && (old(room)@.downlink.behavior is None || old(
            room)@.downlink.sender is None) ==> step->Replay_0 is None,
{
}

/// An agent's connection ends when it closes or fails, when the room is gone and when
/// another agent is the current one, and for no other reason. None of it changes the
/// room.
pub proof fn law_a_connection_ends_for_a_reason<S, W>(
    room: &mut RelayRoom<S, W>,
    who: u64,
    event: AgentEvent,
    step: AgentStep<W>,
)
    requires
        call_ensures(RelayRoom::<S, W>::handle_agent, (room, who, event), step),
    ensures
        step is Stop <==> event is Closed || event is Failed || (event is Generation && (
        event->Generation_closed || event->Generation_current != who)),
        !(event is Frame) && !(step is Stop) ==> step is Ignore,
        !(event is Frame) ==> final(room)@ == old(room)@,
{
}

/// An agent that is let in gets the next number and is the source from then on.
pub proof fn law_an_agent_that_is_let_in_is_the_source<S, W>(
    room: &mut RelayRoom<S, W>,
    tx: S,
    who: u64,
)
    requires
        call_ensures(RelayRoom::<S, W>::accept_agent, (room, tx), who),
    ensures
        who == final(room)@.generation,
        old(room)@.generation < 0xFFFF_FFFF_FFFF_FFFF ==> who == old(room)@.generation + 1,
        old(room)@.generation == 0xFFFF_FFFF_FFFF_FFFF ==> who == 0,
        final(room)@.downlink.sender == Some(tx),
        final(room)@.downlink.pending == Map::<u64, W>::empty(),
        final(room)@.downlink.next_req == old(room)@.downlink.next_req,
        final(room)@.downlink.behavior == old(room)@.downlink.behavior,
        final(room)@.agent_key == old(room)@.agent_key,
{
}

/// When the current agent leaves, viewers are told and nobody waits; when another one
/// leaves, nothing is told and nothing changes.
pub proof fn law_leaving_is_told_once<S, W>(
    room: &mut RelayRoom<S, W>,
    who: u64,
    told: Option<ServerMessage>,
)
    requires
        call_ensures(RelayRoom::<S, W>::agent_left, (room, who), told),
    ensures
        who != old(room)@.generation ==> told is None && final(room)@ == old(room)@,
        who == old(room)@.generation ==> told is Some && told->Some_0 is ConnectionStatus
            && !told->Some_0->ConnectionStatus_game_connected
            && !told->Some_0->ConnectionStatus_telemetry_valid
            && told->Some_0->ConnectionStatus_telemetry_warning is Some
            && told->Some_0->ConnectionStatus_telemetry_warning->Some_0@ == "Agent disconnected"@,
        who == old(room)@.generation ==> final(room)@.downlink.sender is None && final(
            room)@.downlink.pending == Map::<u64, W>::empty() && final(room)@.downlink.behavior
            == old(room)@.downlink.behavior && final(room)@.generation == old(room)@.generation,
{
}

/// A waiter is taken out once: whoever waits under a number is handed out and waits no
/// more, and nobody else is touched.
pub proof fn law_a_waiter_is_taken_out_once<S, W>(
    d: &mut Downlink<S, W>,
    req: u64,
    r: Option<W>,
    other: u64,
)
    requires
        call_ensures(Downlink::<S, W>::resolve, (d, req), r),
        other != req,
    ensures
        r is Some <==> old(d)@.pending.contains_key(req),
        r is Some ==> r->Some_0 == old(d)@.pending[req],
        !final(d)@.pending.contains_key(req),
        final(d)@.pending.contains_key(other) <==> old(d)@.pending.contains_key(other),
        old(d)@.pending.contains_key(other) ==> final(d)@.pending[other] == old(d)@.pending[other],
        final(d)@.sender == old(d)@.sender,
        final(d)@.next_req == old(d)@.next_req,
        final(d)@.behavior == old(d)@.behavior,
{
}

/// The header that presents a key is `Bearer ` and the key, and reads back as the key.
pub proof fn law_a_key_is_presented(key: &str, header: String, sent: &str, token: String)
    requires
        call_ensures(bearer_header, (key,), header),
        sent@ == header@,
        call_ensures(bearer_token, (Some(sent),), token),
    ensures
        header@ == "Bearer "@ + key@,
        token@ == key@,
{
    law_a_presented_key_is_read_back(key@, key@);
}

/// The way to the agent is the one that was installed last, and a channel is idle where
/// nobody waits.
pub proof fn law_the_channel_is_open_to_look_at<S, W>(
    d: Downlink<S, W>,
    sender: Option<&S>,
    idle: bool,
)
    requires
        call_ensures(Downlink::<S, W>::sender, (&d,), sender),
        call_ensures(Downlink::<S, W>::is_idle, (&d,), idle),
    ensures
        sender is Some <==> d@.sender is Some,
        sender is Some ==> *sender->Some_0 == d@.sender->Some_0,
        idle <==> d@.pending.dom().len() == 0,
{
}

/// The way to the agent of a room is that of its channel.
pub proof fn law_a_room_sends_to_its_agent<S, W>(room: RelayRoom<S, W>, sender: Option<&S>)
    requires
        call_ensures(RelayRoom::<S, W>::sender, (&room,), sender),
    ensures
        sender is Some <==> room@.downlink.sender is Some,
        sender is Some ==> *sender->Some_0 == room@.downlink.sender->Some_0,
{
}

/// A channel with a new agent sends to it, and one without an agent to nobody; in both
/// cases nobody waits, and the behaviour and the request numbers stay.
pub proof fn law_a_channel_changes_its_agent<S, W>(
    d: &mut Downlink<S, W>,
    e: &mut Downlink<S, W>,
    tx: S,
    came: (),
    left: (),
)
    requires
        call_ensures(Downlink::<S, W>::attach, (d, tx), came),
        call_ensures(Downlink::<S, W>::detach, (e,), left),
    ensures
        final(d)@.sender == Some(tx),
        final(d)@.pending == Map::<u64, W>::empty(),
        final(d)@.behavior == old(d)@.behavior,
        final(d)@.next_req == old(d)@.next_req,
        final(e)@.sender is None,
        final(e)@.pending == Map::<u64, W>::empty(),
        final(e)@.behavior == old(e)@.behavior,
        final(e)@.next_req == old(e)@.next_req,
{
}

/// A channel parks a request under the number that it is sent with, and gives it up
/// where it could not be sent or was not answered in time.
pub proof fn law_a_channel_parks_and_gives_up<S, W>(
    d: &mut Downlink<S, W>,
    cmd: ClientCommand,
    waiter: W,
    r: Result<(u64, DownlinkFrame), RequestError>,
    e: &mut Downlink<S, W>,
    req: u64,
    given_up: (),
)
    requires
        call_ensures(Downlink::<S, W>::request, (d, cmd, waiter), r),
        call_ensures(Downlink::<S, W>::forget, (e, req), given_up),
    ensures
        old(d)@.sender is None ==> r is Err && r->Err_0 == RequestError::NoAgent && final(d)@
            == old(d)@,
        old(d)@.sender is Some ==> r is Ok && r->Ok_0.0 == old(d)@.next_req
            && r->Ok_0.1 is Command && r->Ok_0.1->Command_req == old(d)@.next_req
            && r->Ok_0.1->Command_cmd == cmd && final(d)@.pending == old(d)@.pending.insert(
            old(d)@.next_req,
            waiter,
        ),
        final(d)@.sender == old(d)@.sender,
        final(d)@.behavior == old(d)@.behavior,
        final(e)@.pending == old(e)@.pending.remove(req),
        final(e)@.sender == old(e)@.sender,
        final(e)@.behavior == old(e)@.behavior,
        final(e)@.next_req == old(e)@.next_req,
{
}

} // verus!
