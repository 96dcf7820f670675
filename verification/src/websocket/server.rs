//! Viewers of the dashboard: who is connected, what each of them is sent, and
//! which of their commands run where.

use vstd::prelude::*;

use crate::protocol::messages::{ClientCommand, ServerMessage};
use crate::relay::room::RequestError;
use crate::rounding;
use crate::text;

verus! {

/// Wire format negotiated with each client by a query parameter.
#[derive(Debug, Clone, Copy, PartialEq, Eq, Structural)]
pub enum Format {
    /// MessagePack in binary frames.
    MsgPack,
    /// JSON in text frames, asked for by `?format=json`.
    Json,
}

/// Whether a query string has `format=json` among its parameters.
pub open spec fn asks_for_json(query: Seq<char>) -> bool {
    text::split(query, '&').contains("format=json"@)
}

/// The format that a client asks for by the query of its request.
pub fn requested_format(query: Option<&str>) -> (f: Format)
    ensures
        f == (match query {
            Some(q) => if asks_for_json(q@) {
                Format::Json
            } else {
                Format::MsgPack
            },
            None => Format::MsgPack,
        }),
{
    let q = match query {
        Some(q) => q,
        None => return Format::MsgPack,
    };
    let chars = text::chars_of(q);
    let pieces = text::split_on(&chars, '&');
    let ghost parts = text::split(q@, '&');
    let mut i: usize = 0;
    while i < pieces.len()
        invariant
            i <= pieces@.len(),
            query == Some(q),
            parts == text::split(q@, '&'),
            text::texts(pieces@) == parts,
            forall|k: int| 0 <= k < i ==> (#[trigger] parts[k]) != "format=json"@,
        decreases pieces@.len() - i,
    {
        proof {
            assert(parts[i as int] == pieces@[i as int]@);
        }
        let piece = text::text_between(&pieces[i], 0, pieces[i].len());
        proof {
            let chars = pieces@[i as int]@;
            assert(chars.subrange(0, chars.len() as int) == chars);
        }
        if text::same(piece.as_str(), "format=json") {
            proof {
                assert(parts.contains("format=json"@));
            }
            return Format::Json;
        }
        i += 1;
    }
    proof {
        assert(!parts.contains("format=json"@));
    }
    Format::MsgPack
}

/// The server's books: its port and how many clients are connected.
#[derive(Debug)]
pub struct WebSocketServer {
    port: u16,
    client_count: usize,
}

impl WebSocketServer {
    /// The port that clients connect to.
    pub closed spec fn spec_port(&self) -> u16 {
        self.port
    }

    /// How many clients are connected.
    pub closed spec fn clients(&self) -> nat {
        self.client_count as nat
    }

    /// A server without clients.
    pub fn new(port: u16) -> (s: WebSocketServer)
        ensures
            s.spec_port() == port,
            s.clients() == 0,
    {
        WebSocketServer { port, client_count: 0 }
    }

    /// The port that clients connect to.
    pub fn port(&self) -> (p: u16)
        ensures
            p == self.spec_port(),
    {
        self.port
    }

    /// How many clients are connected.
    pub fn client_count(&self) -> (count: usize)
        ensures
            count == self.clients(),
    {
        self.client_count
    }

    /// Counts one more client and returns how many there are now.
    pub fn accept_client(&mut self) -> (count: usize)
        requires
            old(self).clients() < usize::MAX,
        ensures
            final(self).clients() == old(self).clients() + 1,
            final(self).spec_port() == old(self).spec_port(),
            count == final(self).clients(),
    {
        self.client_count = self.client_count + 1;
        self.client_count
    }

    /// Counts one client less, whether it left or its handshake failed, and
    /// returns how many there are now.
    pub fn client_left(&mut self) -> (count: usize)
        requires
            old(self).clients() > 0,
        ensures
            final(self).clients() == old(self).clients() - 1,
            final(self).spec_port() == old(self).spec_port(),
            count == final(self).clients(),
    {
        self.client_count = self.client_count - 1;
        self.client_count
    }

    /// How many clients a broadcast reached; a send that fails reached none.
    pub fn broadcast(&self, sent: Option<usize>) -> (n: usize)
        ensures
            n == (match sent {
                Some(k) => k,
                None => 0,
            }),
    {
        match sent {
            Some(n) => n,
            None => 0,
        }
    }
}

// ---------------------------------------------------------------------------
// Which command runs where
// ---------------------------------------------------------------------------

/// The commands about the fuel calculator.
pub open spec fn is_fuel_command(cmd: ClientCommand) -> bool {
    cmd is FuelCalcInit || cmd is FuelCalcCompute
}

/// The commands about results.
pub open spec fn is_post_race_command(cmd: ClientCommand) -> bool {
    ||| cmd is PostRaceInit
    ||| cmd is PostRaceSessionDetail
    ||| cmd is PostRaceDriverLaps
    ||| cmd is PostRaceCompare
    ||| cmd is PostRaceStintSummary
    ||| cmd is PostRaceEvents
    ||| cmd is PostRaceFunFacts
}

/// The commands that the race engineer serves.
pub open spec fn is_engineer_command(cmd: ClientCommand) -> bool {
    ||| cmd is EngineerGetStatus
    ||| cmd is EngineerInstallPiper
    ||| cmd is EngineerInstallVoice
    ||| cmd is EngineerUninstallVoice
    ||| cmd is EngineerSynthesize
    ||| cmd is EngineerUpdateBehavior
}

/// Whether a command may be sent to the agent's PC: data queries only.
pub fn is_relayable(cmd: &ClientCommand) -> (r: bool)
    ensures
        r == (is_post_race_command(*cmd) || is_fuel_command(*cmd)),
{
    match cmd {
        ClientCommand::PostRaceInit { .. } => true,
        ClientCommand::PostRaceSessionDetail { .. } => true,
        ClientCommand::PostRaceDriverLaps { .. } => true,
        ClientCommand::PostRaceCompare { .. } => true,
        ClientCommand::PostRaceStintSummary { .. } => true,
        ClientCommand::PostRaceEvents { .. } => true,
        ClientCommand::PostRaceFunFacts => true,
        ClientCommand::FuelCalcInit => true,
        ClientCommand::FuelCalcCompute { .. } => true,
        _ => false,
    }
}

/// Whether the race engineer serves a command.
pub fn is_engineer(cmd: &ClientCommand) -> (r: bool)
    ensures
        r == is_engineer_command(*cmd),
{
    match cmd {
        ClientCommand::EngineerGetStatus => true,
        ClientCommand::EngineerInstallPiper => true,
        ClientCommand::EngineerInstallVoice { .. } => true,
        ClientCommand::EngineerUninstallVoice { .. } => true,
        ClientCommand::EngineerSynthesize { .. } => true,
        ClientCommand::EngineerUpdateBehavior { .. } => true,
        _ => false,
    }
}

/// Which component runs a command on this machine.
#[derive(Debug, Clone, Copy, PartialEq, Eq, Structural)]
pub enum Handler {
    FuelCalculator,
    PostRace,
}

/// The component that runs a command on this machine.
pub fn dispatch_command(cmd: &ClientCommand) -> (h: Handler)
    ensures
        h == (if is_fuel_command(*cmd) {
            Handler::FuelCalculator
        } else {
            Handler::PostRace
        }),
{
    match cmd {
        ClientCommand::FuelCalcInit => Handler::FuelCalculator,
        ClientCommand::FuelCalcCompute { .. } => Handler::FuelCalculator,
        _ => Handler::PostRace,
    }
}

/// How many seconds to wait for the agent's answer. A cold `PostRaceInit` parses
/// every result, which is far more than a query's worth of work.
pub open spec fn spec_command_timeout(cmd: ClientCommand) -> u64 {
    if cmd is PostRaceInit {
        30
    } else {
        10
    }
}

/// How many seconds to wait for the agent's answer.
pub fn command_timeout(cmd: &ClientCommand) -> (secs: u64)
    ensures
        secs == spec_command_timeout(*cmd),
{
    match cmd {
        ClientCommand::PostRaceInit { .. } => 30,
        _ => 10,
    }
}

/// Whether `reply` is the error with this text that the panel of `cmd` renders.
pub open spec fn is_error_for(cmd: ClientCommand, message: Seq<char>, reply: ServerMessage) -> bool {
    if is_fuel_command(cmd) {
        reply matches ServerMessage::FuelCalcError { message: m } && m@ == message
    } else {
        reply matches ServerMessage::PostRaceError { message: m } && m@ == message
    }
}

/// The error that the panel that sent `cmd` knows how to render.
pub fn command_error(cmd: &ClientCommand, message: String) -> (reply: ServerMessage)
    ensures
        is_error_for(*cmd, message@, reply),
{
    match cmd {
        ClientCommand::FuelCalcInit => ServerMessage::FuelCalcError { message },
        ClientCommand::FuelCalcCompute { .. } => ServerMessage::FuelCalcError { message },
        _ => ServerMessage::PostRaceError { message },
    }
}

/// The answer to a relayed command.
pub fn relay_reply(cmd: &ClientCommand, answer: Result<ServerMessage, RequestError>) -> (reply:
    ServerMessage)
    ensures
        match answer {
            Ok(msg) => reply == msg,
            Err(RequestError::NoAgent) => is_error_for(
                *cmd,
                "No agent connected to this relay"@,
                reply,
            ),
            Err(RequestError::Timeout) => is_error_for(
                *cmd,
                "The agent did not answer in time"@,
                reply,
            ),
        },
{
    match answer {
        Ok(msg) => msg,
        Err(RequestError::NoAgent) => command_error(
            cmd,
            "No agent connected to this relay".to_owned(),
        ),
        Err(RequestError::Timeout) => command_error(
            cmd,
            "The agent did not answer in time".to_owned(),
        ),
    }
}

/// The answer where the task that ran a command on this machine failed.
pub fn local_reply(result: Result<ServerMessage, String>) -> (reply: ServerMessage)
    ensures
        match result {
            Ok(msg) => reply == msg,
            Err(e) => reply matches ServerMessage::PostRaceError { message } && message@
                == "command task panicked: "@ + e@,
        },
{
    match result {
        Ok(msg) => msg,
        Err(e) => {
            let mut message = "command task panicked: ".to_owned();
            message.append(e.as_str());
            ServerMessage::PostRaceError { message }
        },
    }
}

// ---------------------------------------------------------------------------
// How fast a viewer may ask
// ---------------------------------------------------------------------------

/// How many commands per second one viewer may send to the agent.
pub const PER_SEC: u64 = 5;

/// Nanoseconds in a second.
pub const NANOS: u64 = 1_000_000_000;

/// Parts of a token in a token, 2^82: so many that every double the bucket can hold,
/// and every double that a refill goes through, is a whole number of parts.
pub const TOKEN: u128 = 4_835_703_278_458_516_698_824_704;

/// Parts of a token in a full bucket.
pub const BURST: u128 = 24_178_516_392_292_583_494_123_520;

/// Caps how fast one viewer socket may ask the agent to do work: a bucket of
/// `PER_SEC` tokens that refills at `PER_SEC` tokens per second. What it holds is a
/// double, and so is each step of a refill.
#[derive(Debug)]
pub struct CommandRate {
    /// What the bucket holds, in parts of a token.
    pub tokens: u128,
    /// When it was last refilled, in nanoseconds of a steady clock.
    pub last: u64,
}

/// What a bucket holds after `elapsed` nanoseconds: the time in seconds, what flows
/// in during it and the new content are each rounded to a double. From a second on
/// the bucket is full.
pub open spec fn refilled(tokens: int, elapsed: int) -> int {
    if elapsed >= NANOS {
        BURST as int
    } else {
        let seconds = rounding::nearest_double((elapsed * TOKEN) as nat, NANOS as nat);
        let inflow = rounding::nearest_double(seconds * PER_SEC as nat, 1);
        let content = rounding::nearest_double((tokens + inflow) as nat, 1);
        if content > BURST {
            BURST as int
        } else {
            content as int
        }
    }
}

/// The time from `last` to `now`; none if the clock did not move on.
pub open spec fn since(last: int, now: int) -> int {
    if now > last {
        now - last
    } else {
        0
    }
}

impl CommandRate {
    /// A bucket never holds more than a full burst.
    pub open spec fn wf(&self) -> bool {
        self.tokens <= BURST
    }

    /// A full bucket.
    pub fn new(now: u64) -> (r: CommandRate)
        ensures
            r.wf(),
            r.tokens == BURST,
            r.last == now,
    {
        CommandRate { tokens: BURST, last: now }
    }

    /// Takes one token at time `now`, if there is one.
    pub fn allow(&mut self, now: u64) -> (r: bool)
        requires
            old(self).wf(),
        ensures
            final(self).wf(),
            final(self).last == now,
            r == (refilled(old(self).tokens as int, since(old(self).last as int, now as int))
                >= TOKEN),
            final(self).tokens == refilled(
                old(self).tokens as int,
                since(old(self).last as int, now as int),
            ) - (if r {
                TOKEN as int
            } else {
                0
            }),
    {
        let elapsed: u64 = if now > self.last {
            now - self.last
        } else {
            0
        };
        self.tokens = refill(self.tokens, elapsed);
        self.last = now;
        if self.tokens >= TOKEN {
            self.tokens = self.tokens - TOKEN;
            true
        } else {
            false
        }
    }
}

/// What a bucket holds after `elapsed` nanoseconds.
fn refill(tokens: u128, elapsed: u64) -> (r: u128)
    requires
        tokens <= BURST,
    ensures
        r == refilled(tokens as int, elapsed as int),
        r <= BURST,
{
    if elapsed >= NANOS {
        BURST
    } else {
        proof {
            lemma_refill_steps(tokens as int, elapsed as int);
        }
        let seconds: u128 = rounding::round_to_double(elapsed as u128 * TOKEN, NANOS as u128);
        let inflow: u128 = rounding::round_to_double(seconds * PER_SEC as u128, 1);
        let content: u128 = rounding::round_to_double(tokens + inflow, 1);
        if content > BURST {
            BURST
        } else {
            content
        }
    }
}

/// How far each step of a refill may round up.
proof fn lemma_refill_steps(tokens: int, elapsed: int)
    requires
        0 <= tokens <= BURST,
        0 <= elapsed < NANOS,
    ensures
        ({
            let seconds = rounding::nearest_double((elapsed * TOKEN) as nat, NANOS as nat);
            let inflow = rounding::nearest_double(seconds * PER_SEC as nat, 1);
            let content = rounding::nearest_double((tokens + inflow) as nat, 1);
            &&& seconds <= TOKEN + 0x4000_0000
            &&& inflow <= 6 * TOKEN
            &&& seconds * NANOS <= elapsed * TOKEN + 0x2000_0000 * NANOS
            &&& inflow <= seconds * PER_SEC + 0x1_0000_0000
            &&& content <= tokens + inflow + 0x2_0000_0000
        }),
{
    let time = (elapsed * TOKEN) as nat;
    let seconds = rounding::nearest_double(time, NANOS as nat);
    rounding::lemma_rounds_up_little(time, NANOS as nat, TOKEN as nat);
    let flow = seconds * PER_SEC as nat;
    let inflow = rounding::nearest_double(flow, 1);
    rounding::lemma_rounds_up_little(flow, 1, (8 * TOKEN) as nat);
    let sum = (tokens + inflow) as nat;
    rounding::lemma_rounds_up_little(sum, 1, (16 * TOKEN) as nat);
}

/// How many of the commands at the given times a bucket lets through.
pub open spec fn allowed(tokens: int, last: int, times: Seq<int>) -> int
    decreases times.len(),
{
    if times.len() == 0 {
        0
    } else {
        let have = refilled(tokens, since(last, times[0]));
        if have >= TOKEN {
            1 + allowed(have - TOKEN, times[0], times.skip(1))
        } else {
            allowed(have, times[0], times.skip(1))
        }
    }
}

/// What the roundings of one refill may add, in parts of a token.
pub const REFILL_ERROR: u128 = 15_569_256_448;

/// A refill adds no more than the time is worth, but for its roundings, and leaves
/// no more than a full bucket.
proof fn lemma_refilled_bound(tokens: int, elapsed: int)
    requires
        0 <= tokens <= BURST,
        0 <= elapsed,
    ensures
        0 <= refilled(tokens, elapsed) <= BURST,
        refilled(tokens, elapsed) * NANOS <= tokens * NANOS + elapsed * PER_SEC * TOKEN
            + REFILL_ERROR * NANOS,
{
    if elapsed < NANOS {
        lemma_refill_steps(tokens, elapsed);
    }
}

proof fn lemma_allowed_bound(tokens: int, last: int, times: Seq<int>, end: int)
    requires
        0 <= tokens <= BURST,
        last <= end,
        forall|i: int| 0 <= i < times.len() ==> last <= #[trigger] times[i] <= end,
        forall|i: int, j: int| 0 <= i < j < times.len() ==> times[i] <= times[j],
    ensures
        allowed(tokens, last, times) * TOKEN * NANOS <= tokens * NANOS + (end - last) * PER_SEC
            * TOKEN + times.len() * REFILL_ERROR * NANOS,
    decreases times.len(),
{
    if times.len() > 0 {
        let t = times[0];
        let have = refilled(tokens, since(last, t));
        lemma_refilled_bound(tokens, since(last, t));
        let rest = times.skip(1);
        assert forall|i: int| 0 <= i < rest.len() implies t <= #[trigger] rest[i] <= end by {
            assert(rest[i] == times[i + 1]);
        }
        assert forall|i: int, j: int| 0 <= i < j < rest.len() implies rest[i] <= rest[j] by {
            assert(rest[i] == times[i + 1] && rest[j] == times[j + 1]);
        }
        if have >= TOKEN {
            lemma_allowed_bound(have - TOKEN, t, rest, end);
        } else {
            lemma_allowed_bound(have, t, rest, end);
        }
    }
}

/// However a viewer times its commands, at most a burst of `PER_SEC` and
/// `PER_SEC` more per second get through between `last` and `end`. Roundings add at
/// most a billionth of a command for every 300,000 commands that were sent.
pub proof fn law_commands_are_capped(tokens: int, last: int, times: Seq<int>, end: int)
    requires
        0 <= tokens <= BURST,
        last <= end,
        forall|i: int| 0 <= i < times.len() ==> last <= #[trigger] times[i] <= end,
        forall|i: int, j: int| 0 <= i < j < times.len() ==> times[i] <= times[j],
    ensures
        allowed(tokens, last, times) * NANOS <= PER_SEC * NANOS + (end - last) * PER_SEC
            + times.len() / 300_000,
{
    lemma_allowed_bound(tokens, last, times, end);
    let excess = allowed(tokens, last, times) * NANOS - PER_SEC * NANOS - (end - last) * PER_SEC;
    assert(excess * TOKEN <= times.len() * REFILL_ERROR * NANOS);
    assert(excess * 300_000 <= times.len());
}

/// A fifth of a second, rounded to a double, is worth a whole token.
proof fn lemma_a_fifth_of_a_second()
    ensures
        ({
            let seconds = rounding::nearest_double(
                (200_000_000 * TOKEN) as nat,
                NANOS as nat,
            );
            rounding::nearest_double(seconds * PER_SEC as nat, 1) == TOKEN
        }),
        rounding::nearest_double(TOKEN as nat, 1) == TOKEN,
{
    vstd::arithmetic::power2::lemma2_to64();
    rounding::lemma_halvings_are(((200_000_000 * TOKEN) as nat) / (NANOS as nat), 27);
    let seconds = rounding::nearest_double((200_000_000 * TOKEN) as nat, NANOS as nat);
    assert(seconds == 967_140_655_691_703_393_452_032);
    let flow = seconds * PER_SEC as nat;
    rounding::lemma_halvings_are(flow, 30);
    rounding::lemma_halvings_are(TOKEN as nat, 30);
    assert(flow / 1 == flow && TOKEN as nat / 1 == TOKEN as nat);
    let p: nat = 0x4000_0000;
    assert(rounding::half_even(flow, 1 * p) == 4_503_599_627_370_496);
    assert(rounding::half_even(TOKEN as nat, 1 * p) == 4_503_599_627_370_496);
}

/// A viewer that waited long enough for one token is always served.
pub proof fn law_the_bucket_refills(tokens: int, last: int, now: int)
    requires
        0 <= tokens <= BURST,
        (now - last) * PER_SEC >= NANOS,
    ensures
        allowed(tokens, last, seq![now]) == 1,
{
    let elapsed = since(last, now);
    if elapsed < NANOS {
        lemma_a_fifth_of_a_second();
        let least = (200_000_000 * TOKEN) as nat;
        let time = (elapsed * TOKEN) as nat;
        rounding::lemma_nearest_grows(least, time, NANOS as nat);
        let least_seconds = rounding::nearest_double(least, NANOS as nat);
        let seconds = rounding::nearest_double(time, NANOS as nat);
        rounding::lemma_nearest_grows(
            least_seconds * PER_SEC as nat,
            seconds * PER_SEC as nat,
            1,
        );
        let inflow = rounding::nearest_double(seconds * PER_SEC as nat, 1);
        rounding::lemma_nearest_grows(TOKEN as nat, (tokens + inflow) as nat, 1);
    }
    assert(refilled(tokens, elapsed) >= TOKEN);
    assert(seq![now].skip(1) =~= Seq::<int>::empty());
    assert(allowed(refilled(tokens, elapsed) - TOKEN, now, seq![now].skip(1)) == 0);
}

// ---------------------------------------------------------------------------
// Laws of the operations
// ---------------------------------------------------------------------------

/// A client is sent text where one of the parameters of its query, which are
/// separated by `&`, is `format=json`, and binary frames otherwise.
pub proof fn law_json_is_one_of_the_parameters(a: Seq<char>, b: Seq<char>)
    requires
        forall|i: int| 0 <= i < a.len() ==> a[i] != '&',
    ensures
        asks_for_json(a) <==> a == "format=json"@,
        asks_for_json(a + seq!['&'] + b) <==> a == "format=json"@ || asks_for_json(b),
{
    let j = "format=json"@;
    text::law_split_at_the_first_separator(a, '&', b);
    let rest = text::split(b, '&');
    let all = seq![a] + rest;
    assert(seq![a].contains(j) <==> a == j) by {
        assert(seq![a][0] == a);
    }
    if a == j {
        assert(all[0] == j);
    }
    if rest.contains(j) {
        let k = choose|k: int| 0 <= k < rest.len() && rest[k] == j;
        assert(all[k + 1] == j);
    }
    if all.contains(j) {
        let k = choose|k: int| 0 <= k < all.len() && all[k] == j;
        if k > 0 {
            assert(rest[k - 1] == j);
        }
    }
}

/// The format follows the query: text where it asks for it, binary frames where it
/// does not or where there is none.
pub proof fn law_the_format_follows_the_query(query: Option<&str>, f: Format)
    requires
        call_ensures(requested_format, (query,), f),
    ensures
        query is None ==> f is MsgPack,
        query is Some ==> (f is Json <==> text::split(query->Some_0@, '&').contains(
            "format=json"@,
        )),
        f is Json || f is MsgPack,
{
}

/// A server starts on its port without clients.
pub proof fn law_a_server_starts_without_clients(port: u16, s: WebSocketServer)
    requires
        call_ensures(WebSocketServer::new, (port,), s),
    ensures
        s.spec_port() == port,
        s.clients() == 0,
{
}

/// Each client counts for one from when it is accepted until it leaves.
pub proof fn law_clients_count_one_by_one(s: &mut WebSocketServer, count: usize)
    requires
        old(s).clients() < usize::MAX,
        call_ensures(WebSocketServer::accept_client, (s,), count),
    ensures
        count == old(s).clients() + 1,
        final(s).clients() == count,
        final(s).spec_port() == old(s).spec_port(),
{
}

/// A client that leaves is one less.
pub proof fn law_a_client_that_leaves_is_one_less(s: &mut WebSocketServer, count: usize)
    requires
        old(s).clients() > 0,
        call_ensures(WebSocketServer::client_left, (s,), count),
    ensures
        count == old(s).clients() - 1,
        final(s).clients() == count,
        final(s).spec_port() == old(s).spec_port(),
{
}

/// The agent is asked for results and for the fuel calculator, and for nothing else.
pub proof fn law_data_queries_are_relayable(cmd: ClientCommand, r: bool)
    requires
        call_ensures(is_relayable, (&cmd,), r),
    ensures
        r <==> cmd is PostRaceInit || cmd is PostRaceSessionDetail || cmd is PostRaceDriverLaps
            || cmd is PostRaceCompare || cmd is PostRaceStintSummary || cmd is PostRaceEvents
            || cmd is PostRaceFunFacts || cmd is FuelCalcInit || cmd is FuelCalcCompute,
{
}

/// The race engineer serves the commands that bear its name, but for the role of a
/// client, which is the connection's own.
pub proof fn law_the_engineer_serves_its_commands(cmd: ClientCommand, r: bool)
    requires
        call_ensures(is_engineer, (&cmd,), r),
    ensures
        r <==> cmd is EngineerGetStatus || cmd is EngineerInstallPiper
            || cmd is EngineerInstallVoice || cmd is EngineerUninstallVoice
            || cmd is EngineerSynthesize || cmd is EngineerUpdateBehavior,
{
}

/// Fuel is for the fuel calculator and everything else for the results.
pub proof fn law_fuel_is_for_the_fuel_calculator(cmd: ClientCommand, h: Handler)
    requires
        call_ensures(dispatch_command, (&cmd,), h),
    ensures
        h is FuelCalculator <==> cmd is FuelCalcInit || cmd is FuelCalcCompute,
        h is PostRace <==> !(cmd is FuelCalcInit || cmd is FuelCalcCompute),
{
}

/// The first look at the results is given half a minute, every other command ten
/// seconds.
pub proof fn law_the_first_look_is_given_more_time(cmd: ClientCommand, secs: u64)
    requires
        call_ensures(command_timeout, (&cmd,), secs),
    ensures
        cmd is PostRaceInit ==> secs == 30,
        !(cmd is PostRaceInit) ==> secs == 10,
{
}

/// An error goes to the panel that asked, with its text: that of the fuel calculator
/// for fuel, that of the results for everything else.
pub proof fn law_errors_go_to_the_panel_that_asked(
    cmd: ClientCommand,
    message: String,
    reply: ServerMessage,
)
    requires
        call_ensures(command_error, (&cmd, message), reply),
    ensures
        cmd is FuelCalcInit || cmd is FuelCalcCompute ==> reply is FuelCalcError
            && reply->FuelCalcError_message@ == message@,
        !(cmd is FuelCalcInit || cmd is FuelCalcCompute) ==> reply is PostRaceError
            && reply->PostRaceError_message@ == message@,
{
}

/// The agent's answer is handed on as it is; without one the panel that asked is told
/// whether there was no agent or no answer in time.
pub proof fn law_a_relayed_command_is_always_answered(
    cmd: ClientCommand,
    answer: Result<ServerMessage, RequestError>,
    reply: ServerMessage,
)
    requires
        call_ensures(relay_reply, (&cmd, answer), reply),
    ensures
        answer is Ok ==> reply == answer->Ok_0,
        answer is Err && answer->Err_0 == RequestError::NoAgent && (cmd is FuelCalcInit
            || cmd is FuelCalcCompute) ==> reply is FuelCalcError && reply->FuelCalcError_message@
            == "No agent connected to this relay"@,
        answer is Err && answer->Err_0 == RequestError::NoAgent && !(cmd is FuelCalcInit
            || cmd is FuelCalcCompute) ==> reply is PostRaceError && reply->PostRaceError_message@
            == "No agent connected to this relay"@,
        answer is Err && answer->Err_0 == RequestError::Timeout && (cmd is FuelCalcInit
            || cmd is FuelCalcCompute) ==> reply is FuelCalcError && reply->FuelCalcError_message@
            == "The agent did not answer in time"@,
        answer is Err && answer->Err_0 == RequestError::Timeout && !(cmd is FuelCalcInit
            || cmd is FuelCalcCompute) ==> reply is PostRaceError && reply->PostRaceError_message@
            == "The agent did not answer in time"@,
{
}

/// A command that ran here is answered with its result; one whose task failed with
/// the reason.
pub proof fn law_a_local_command_is_always_answered(
    result: Result<ServerMessage, String>,
    reply: ServerMessage,
)
    requires
        call_ensures(local_reply, (result,), reply),
    ensures
        result is Ok ==> reply == result->Ok_0,
        result is Err ==> reply is PostRaceError && reply->PostRaceError_message@
            == "command task panicked: "@ + result->Err_0@,
{
}

/// A bucket starts with five tokens.
pub proof fn law_a_bucket_starts_with_five_tokens(now: u64, r: CommandRate)
    requires
        call_ensures(CommandRate::new, (now,), r),
    ensures
        r.tokens == 5 * 4_835_703_278_458_516_698_824_704,
        r.last == now,
{
}

/// A command is let through where the bucket then holds a token, which it takes; one
/// that is refused takes nothing.
pub proof fn law_a_command_takes_one_token(rate: &mut CommandRate, now: u64, ok: bool)
    requires
        old(rate).wf(),
        old(rate).last <= now,
        call_ensures(CommandRate::allow, (rate, now), ok),
    ensures
        ({
            let have = refilled(old(rate).tokens as int, now - old(rate).last);
            &&& ok <==> have >= 4_835_703_278_458_516_698_824_704
            &&& ok ==> final(rate).tokens == have - 4_835_703_278_458_516_698_824_704
            &&& !ok ==> final(rate).tokens == have
        }),
        final(rate).last == now,
        final(rate).tokens <= 5 * 4_835_703_278_458_516_698_824_704,
        now - old(rate).last >= 1_000_000_000 ==> ok && final(rate).tokens == 4
            * 4_835_703_278_458_516_698_824_704,
{
}

/// A clock that does not move on gives nothing.
pub proof fn law_no_time_no_refill(last: int, now: int)
    ensures
        now >= last ==> since(last, now) == now - last,
        now < last ==> since(last, now) == 0,
{
}

/// A refill goes through three doubles: the time in seconds, what flows in during it at
/// five tokens a second, and what the bucket then holds, of which no more stays than
/// five tokens.
pub proof fn law_a_refill_is_rounded_step_by_step(
    tokens: u128,
    elapsed: u64,
    seconds: u128,
    inflow: u128,
    content: u128,
)
    requires
        tokens <= BURST,
        elapsed < 1_000_000_000,
        call_ensures(
            rounding::round_to_double,
            ((elapsed * 4_835_703_278_458_516_698_824_704) as u128, 1_000_000_000u128),
            seconds,
        ),
        call_ensures(rounding::round_to_double, ((seconds * 5) as u128, 1u128), inflow),
        call_ensures(rounding::round_to_double, ((tokens + inflow) as u128, 1u128), content),
    ensures
        content <= 5 * 4_835_703_278_458_516_698_824_704 ==> refilled(
            tokens as int,
            elapsed as int,
        ) == content,
        content > 5 * 4_835_703_278_458_516_698_824_704 ==> refilled(tokens as int, elapsed as int)
            == 5 * 4_835_703_278_458_516_698_824_704,
{
    lemma_refill_steps(tokens as int, elapsed as int);
    assert(elapsed * TOKEN <= u128::MAX);
    let s = rounding::nearest_double((elapsed * TOKEN) as nat, NANOS as nat);
    assert(seconds == s);
    assert(seconds * PER_SEC == seconds * 5);
    assert(inflow == rounding::nearest_double(s * PER_SEC as nat, 1));
}

/// What a refill brings is what the time is worth at five tokens a second, but for its
/// roundings, and never more than fills the bucket; a second fills it.
pub proof fn law_a_refill_is_worth_the_time(tokens: int, elapsed: int)
    requires
        0 <= tokens <= 5 * 4_835_703_278_458_516_698_824_704,
        0 <= elapsed,
    ensures
        ({
            let have = refilled(tokens, elapsed);
            let full: int = 24_178_516_392_292_583_494_123_520;
            let exact = tokens * 1_000_000_000 + elapsed * full;
            &&& elapsed >= 1_000_000_000 ==> have == full
            &&& have <= full
            &&& have * 1_000_000_000 <= exact + 15_569_256_448 * 1_000_000_000
            &&& have == full || exact <= have * 1_000_000_000 + 15_569_256_448 * 1_000_000_000
        }),
{
    lemma_refilled_bound(tokens, elapsed);
    if elapsed < NANOS {
        lemma_refill_steps(tokens, elapsed);
        let time = (elapsed * TOKEN) as nat;
        let seconds = rounding::nearest_double(time, NANOS as nat);
        rounding::lemma_rounds_down_little(time, NANOS as nat, TOKEN as nat);
        let flow = seconds * PER_SEC as nat;
        let inflow = rounding::nearest_double(flow, 1);
        rounding::lemma_rounds_down_little(flow, 1, (8 * TOKEN) as nat);
        let sum = (tokens + inflow) as nat;
        rounding::lemma_rounds_down_little(sum, 1, (16 * TOKEN) as nat);
    }
}

/// Commands are let through one after the other: each finds what those before it left
/// and what has flowed in since.
pub proof fn law_commands_are_let_through_one_by_one(
    tokens: int,
    last: int,
    now: int,
    rest: Seq<int>,
)
    requires
        last <= now,
    ensures
        allowed(tokens, last, Seq::<int>::empty()) == 0,
        ({
            let have = refilled(tokens, now - last);
            &&& have >= 4_835_703_278_458_516_698_824_704 ==> allowed(
                tokens,
                last,
                seq![now] + rest,
            ) == 1 + allowed(have - 4_835_703_278_458_516_698_824_704, now, rest)
            &&& have < 4_835_703_278_458_516_698_824_704 ==> allowed(
                tokens,
                last,
                seq![now] + rest,
            ) == allowed(have, now, rest)
        }),
{
    let times = seq![now] + rest;
    assert(times[0] == now);
    assert(times.skip(1) == rest);
}

/// The books say what they are asked for: the port, how many clients there are, and how
/// many a broadcast reached.
pub proof fn law_the_books_are_open(
    s: WebSocketServer,
    p: u16,
    count: usize,
    sent: Option<usize>,
    n: usize,
)
    requires
        call_ensures(WebSocketServer::port, (&s,), p),
        call_ensures(WebSocketServer::client_count, (&s,), count),
        call_ensures(WebSocketServer::broadcast, (&s, sent), n),
    ensures
        p == s.spec_port(),
        count == s.clients(),
        sent is Some ==> n == sent->Some_0,
        sent is None ==> n == 0,
{
}

} // verus!
