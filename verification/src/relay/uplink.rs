//! The agent side of the relay: what is forwarded, how often, when a lost
//! connection is tried again, and what the server may have run here.

use vstd::prelude::*;

use crate::protocol::messages::{ClientCommand, ServerMessage};
use crate::relay::envelope::{DownlinkFrame, UplinkFrame};
use crate::websocket::server;

verus! {

/// Nanoseconds in a second.
pub const NANOS_PER_SEC: u64 = 1_000_000_000;

// ---------------------------------------------------------------------------
// Reconnecting
// ---------------------------------------------------------------------------

/// The shortest wait before a reconnect, in milliseconds.
pub const BASE_DELAY_MS: u64 = 1_000;

/// The longest wait before a reconnect, in milliseconds.
pub const MAX_DELAY_MS: u64 = 30_000;

/// A connection that lasted at least this many seconds counts as healthy.
pub const STABLE_CONNECTION_SECS: u64 = 60;

/// How many short-lived connections there were in a row.
#[derive(Debug)]
pub struct Backoff {
    pub attempt: u32,
}

/// The count after a connection that lasted `lasted` nanoseconds.
pub open spec fn next_attempt(attempt: u32, lasted: u64) -> u32 {
    if lasted >= STABLE_CONNECTION_SECS * NANOS_PER_SEC {
        0
    } else if attempt == u32::MAX {
        attempt
    } else {
        (attempt + 1) as u32
    }
}

/// The wait after that many short-lived connections in a row: it doubles each
/// time up to the longest wait.
pub open spec fn delay_ms(attempt: u32) -> int {
    let doublings = if attempt < 5 {
        attempt as nat
    } else {
        5
    };
    let d = BASE_DELAY_MS * vstd::arithmetic::power2::pow2(doublings);
    if d > MAX_DELAY_MS {
        MAX_DELAY_MS as int
    } else {
        d
    }
}

impl Backoff {
    /// Before the first connection.
    pub fn new() -> (b: Backoff)
        ensures
            b.attempt == 0,
    {
        Backoff { attempt: 0 }
    }

    /// After a connection that lasted `lasted` nanoseconds: how many milliseconds
    /// to wait before the next one. A clean close counts as short-lived too, or
    /// two agents would evict each other as fast as they can reconnect.
    pub fn after_connection(&mut self, lasted: u64) -> (delay: u64)
        ensures
            final(self).attempt == next_attempt(old(self).attempt, lasted),
            delay == delay_ms(final(self).attempt),
    {
        if lasted >= 60_000_000_000 {
            self.attempt = 0;
        } else if self.attempt < u32::MAX {
            self.attempt = self.attempt + 1;
        }
        proof {
            vstd::arithmetic::power2::lemma2_to64();
        }
        match self.attempt {
            0 => 1_000,
            1 => 2_000,
            2 => 4_000,
            3 => 8_000,
            4 => 16_000,
            _ => 30_000,
        }
    }
}

/// The wait is never shorter than the shortest nor longer than the longest, and
/// more failures in a row never make it shorter.
pub proof fn law_backoff_is_bounded_and_grows(a: u32, b: u32)
    requires
        a <= b,
    ensures
        BASE_DELAY_MS <= delay_ms(a) <= delay_ms(b) <= MAX_DELAY_MS,
{
    vstd::arithmetic::power2::lemma2_to64();
}

/// After a healthy connection the shortest wait is back.
pub proof fn law_a_healthy_connection_resets_the_backoff(attempt: u32, lasted: u64)
    requires
        lasted >= STABLE_CONNECTION_SECS * NANOS_PER_SEC,
    ensures
        delay_ms(next_attempt(attempt, lasted)) == BASE_DELAY_MS,
{
    vstd::arithmetic::power2::lemma2_to64();
}

// ---------------------------------------------------------------------------
// Rate limit
// ---------------------------------------------------------------------------

/// Rate-limits the two high-frequency messages. Everything else is event-driven
/// and passes through untouched. Times are nanoseconds of a steady clock.
#[derive(Debug)]
pub struct Throttle {
    pub interval: u64,
    pub last_telemetry: Option<u64>,
    pub last_scoring: Option<u64>,
}

/// The interval of `fps` frames per second, to the nearest nanosecond. A rate whose
/// interval lies half way between two is rounded as the double of `1 / fps` is: at
/// 1024 the double is the half itself, which goes to the even number; at 16 and at
/// 80 million it lies below the half, and at every other such rate above.
pub open spec fn frame_interval(fps: u32) -> int {
    let f = if fps == 0 {
        1
    } else {
        fps as int
    };
    if f == 1024 || f == 16_000_000 || f == 80_000_000 {
        1_000_000_000int / f
    } else {
        (2 * NANOS_PER_SEC + f) / (2 * f)
    }
}

/// Whether a frame at `now` comes too soon after the last one that passed.
pub open spec fn too_soon(last: Option<u64>, now: u64, interval: u64) -> bool {
    match last {
        Some(t) => (if now > t {
            now - t
        } else {
            0
        }) < interval,
        None => false,
    }
}

/// The time of the last frame that passed, after a frame at `now`.
pub open spec fn last_after(last: Option<u64>, now: u64, interval: u64) -> Option<u64> {
    if too_soon(last, now, interval) {
        last
    } else {
        Some(now)
    }
}

/// Whether a frame at `now` comes too soon after the last one that passed.
fn comes_too_soon(last: Option<u64>, now: u64, interval: u64) -> (r: bool)
    ensures
        r == too_soon(last, now, interval),
{
    match last {
        Some(t) => {
            let elapsed: u64 = if now > t {
                now - t
            } else {
                0
            };
            elapsed < interval
        },
        None => false,
    }
}

impl Throttle {
    /// A limit of `fps` frames per second of each kind; zero counts as one.
    pub fn new(fps: u32) -> (t: Throttle)
        ensures
            t.interval == frame_interval(fps),
            t.last_telemetry is None,
            t.last_scoring is None,
    {
        let f: u64 = if fps == 0 {
            1
        } else {
            fps as u64
        };
        proof {
            assert((2 * NANOS_PER_SEC + f) / (2 * f as int) >= 0) by (nonlinear_arith)
                requires
                    f >= 1,
            ;
        }
        let interval: u64 = if f == 1024 || f == 16_000_000 || f == 80_000_000 {
            1_000_000_000 / f
        } else {
            (2_000_000_000 + f) / (2 * f)
        };
        Throttle { interval, last_telemetry: None, last_scoring: None }
    }

    /// Whether a message at time `now` is dropped.
    pub fn should_drop(&mut self, msg: &ServerMessage, now: u64) -> (r: bool)
        ensures
            final(self).interval == old(self).interval,
            msg is TelemetryUpdate ==> r == too_soon(
                old(self).last_telemetry,
                now,
                old(self).interval,
            ) && final(self).last_telemetry == last_after(
                old(self).last_telemetry,
                now,
                old(self).interval,
            ) && final(self).last_scoring == old(self).last_scoring,
            msg is ScoringUpdate ==> r == too_soon(old(self).last_scoring, now, old(self).interval)
                && final(self).last_scoring == last_after(
                old(self).last_scoring,
                now,
                old(self).interval,
            ) && final(self).last_telemetry == old(self).last_telemetry,
            !(msg is TelemetryUpdate) && !(msg is ScoringUpdate) ==> !r && *final(self) == *old(
                self,
            ),
    {
        match msg {
            ServerMessage::TelemetryUpdate { .. } => {
                if comes_too_soon(self.last_telemetry, now, self.interval) {
                    true
                } else {
                    self.last_telemetry = Some(now);
                    false
                }
            },
            ServerMessage::ScoringUpdate { .. } => {
                if comes_too_soon(self.last_scoring, now, self.interval) {
                    true
                } else {
                    self.last_scoring = Some(now);
                    false
                }
            },
            _ => false,
        }
    }
}

/// How many of the frames of one kind at the given times pass.
pub open spec fn passed(last: Option<u64>, interval: u64, times: Seq<u64>) -> int
    decreases times.len(),
{
    if times.len() == 0 {
        0
    } else if too_soon(last, times[0], interval) {
        passed(last, interval, times.skip(1))
    } else {
        1 + passed(Some(times[0]), interval, times.skip(1))
    }
}

proof fn lemma_passed_bound(last: u64, interval: u64, times: Seq<u64>, end: int)
    requires
        last <= end,
        forall|i: int| 0 <= i < times.len() ==> last <= #[trigger] times[i] <= end,
        forall|i: int, j: int| 0 <= i < j < times.len() ==> times[i] <= times[j],
    ensures
        passed(Some(last), interval, times) * interval <= end - last,
    decreases times.len(),
{
    if times.len() > 0 {
        let rest = times.skip(1);
        assert forall|i: int, j: int| 0 <= i < j < rest.len() implies rest[i] <= rest[j] by {
            assert(rest[i] == times[i + 1] && rest[j] == times[j + 1]);
        }
        if too_soon(Some(last), times[0], interval) {
            assert forall|i: int| 0 <= i < rest.len() implies last <= #[trigger] rest[i] <= end by {
                assert(rest[i] == times[i + 1]);
            }
            lemma_passed_bound(last, interval, rest, end);
        } else {
            assert forall|i: int| 0 <= i < rest.len() implies times[0] <= #[trigger] rest[i]
                <= end by {
                assert(rest[i] == times[i + 1]);
            }
            lemma_passed_bound(times[0], interval, rest, end);
            let n = passed(Some(times[0]), interval, rest);
            assert((1 + n) * interval == interval + n * interval) by (nonlinear_arith);
        }
    } else {
        assert(0 * interval == 0) by (nonlinear_arith);
    }
}

/// Frames of one kind pass no faster than the rate that was asked for: between
/// the first and the last of them lie all the intervals but one.
pub proof fn law_the_uplink_rate_is_kept(interval: u64, times: Seq<u64>)
    requires
        times.len() > 0,
        forall|i: int, j: int| 0 <= i < j < times.len() ==> times[i] <= times[j],
    ensures
        (passed(None, interval, times) - 1) * interval <= times.last() - times[0],
{
    let rest = times.skip(1);
    assert forall|i: int| 0 <= i < rest.len() implies times[0] <= #[trigger] rest[i]
        <= times.last() by {
        assert(rest[i] == times[i + 1]);
    }
    assert forall|i: int, j: int| 0 <= i < j < rest.len() implies rest[i] <= rest[j] by {
        assert(rest[i] == times[i + 1] && rest[j] == times[j + 1]);
    }
    assert(times[0] <= times.last());
    lemma_passed_bound(times[0], interval, rest, times.last() as int);
}

// ---------------------------------------------------------------------------
// Throughput
// ---------------------------------------------------------------------------

/// How often the uplink reports its throughput, in seconds.
pub const THROUGHPUT_LOG_SECS: u64 = 30;

/// Measures the throughput of the uplink.
#[derive(Debug)]
pub struct Meter {
    pub bytes: usize,
    pub frames: usize,
    pub window_start: u64,
}

/// What was sent in one window.
#[derive(Debug, Clone, Copy, PartialEq, Eq, Structural)]
pub struct Throughput {
    pub bytes: usize,
    pub frames: usize,
    /// The length of the window, in nanoseconds.
    pub elapsed: u64,
}

impl Meter {
    /// A window that starts at `now`.
    pub fn new(now: u64) -> (m: Meter)
        ensures
            m.bytes == 0,
            m.frames == 0,
            m.window_start == now,
    {
        Meter { bytes: 0, frames: 0, window_start: now }
    }

    /// Counts a frame of `len` bytes at time `now`. When the window is over, it
    /// is reported and a new one starts.
    pub fn record(&mut self, len: usize, now: u64) -> (r: Option<Throughput>)
        requires
            old(self).bytes + len <= usize::MAX,
            old(self).frames < usize::MAX,
        ensures
            ({
                let elapsed = server::since(old(self).window_start as int, now as int);
                if elapsed >= THROUGHPUT_LOG_SECS * NANOS_PER_SEC {
                    &&& r == Some(
                        Throughput {
                            bytes: (old(self).bytes + len) as usize,
                            frames: (old(self).frames + 1) as usize,
                            elapsed: elapsed as u64,
                        },
                    )
                    &&& *final(self) == (Meter { bytes: 0, frames: 0, window_start: now })
                } else {
                    &&& r is None
                    &&& *final(self) == (Meter {
                        bytes: (old(self).bytes + len) as usize,
                        frames: (old(self).frames + 1) as usize,
                        window_start: old(self).window_start,
                    })
                }
            }),
    {
        self.bytes = self.bytes + len;
        self.frames = self.frames + 1;
        let elapsed: u64 = if now > self.window_start {
            now - self.window_start
        } else {
            0
        };
        if elapsed >= 30_000_000_000 {
            let report = Throughput { bytes: self.bytes, frames: self.frames, elapsed };
            self.bytes = 0;
            self.frames = 0;
            self.window_start = now;
            Some(report)
        } else {
            None
        }
    }
}

// ---------------------------------------------------------------------------
// One connection
// ---------------------------------------------------------------------------

/// What a subscription of the uplink delivers.
#[derive(Debug)]
pub enum UplinkEvent {
    /// A message of the main or of the audio channel.
    Message(ServerMessage),
    /// Some messages were dropped.
    Lagged,
    /// There will be no more messages.
    Closed,
}

/// What the uplink does about it.
#[derive(Debug)]
pub enum UplinkStep {
    /// Send this frame to the relay.
    Send(UplinkFrame),
    /// Nothing.
    Skip,
    /// Leave the connection; this is a clean close.
    Done,
}

/// The first frame of a connection.
pub fn hello(agent_version: String) -> (f: UplinkFrame)
    ensures
        f == (UplinkFrame::Hello { agent_version }),
{
    UplinkFrame::Hello { agent_version }
}

impl Throttle {
    /// What the uplink does about one delivery at time `now`.
    pub fn forward(&mut self, event: UplinkEvent, now: u64) -> (step: UplinkStep)
        ensures
            final(self).interval == old(self).interval,
            match event {
                UplinkEvent::Message(msg) => {
                    let dropped = (msg is TelemetryUpdate && too_soon(
                        old(self).last_telemetry,
                        now,
                        old(self).interval,
                    )) || (msg is ScoringUpdate && too_soon(
                        old(self).last_scoring,
                        now,
                        old(self).interval,
                    ));
                    &&& step == (if dropped {
                        UplinkStep::Skip
                    } else {
                        UplinkStep::Send(UplinkFrame::Message(msg))
                    })
                    &&& final(self).last_telemetry == (if msg is TelemetryUpdate {
                        last_after(old(self).last_telemetry, now, old(self).interval)
                    } else {
                        old(self).last_telemetry
                    })
                    &&& final(self).last_scoring == (if msg is ScoringUpdate {
                        last_after(old(self).last_scoring, now, old(self).interval)
                    } else {
                        old(self).last_scoring
                    })
                },
                UplinkEvent::Lagged => step == UplinkStep::Skip && *final(self) == *old(self),
                UplinkEvent::Closed => step == UplinkStep::Done && *final(self) == *old(self),
            },
    {
        match event {
            UplinkEvent::Message(msg) => {
                if self.should_drop(&msg, now) {
                    UplinkStep::Skip
                } else {
                    UplinkStep::Send(UplinkFrame::Message(msg))
                }
            },
            UplinkEvent::Lagged => UplinkStep::Skip,
            UplinkEvent::Closed => UplinkStep::Done,
        }
    }
}

// ---------------------------------------------------------------------------
// Commands from the server
// ---------------------------------------------------------------------------

/// How many commands of viewers run here at once.
pub const MAX_RUNNING: usize = 4;

/// The commands of viewers that run here.
#[derive(Debug)]
pub struct AgentSlots {
    running: usize,
    allow_remote_install: bool,
}

/// What the agent does about a frame from the server.
#[derive(Debug)]
pub enum AgentTask {
    /// Run this and answer under this number.
    Execute(u64, ClientCommand),
    /// Let the race engineer run this.
    Engineer(ClientCommand),
    /// Send this frame to the server.
    Answer(UplinkFrame),
    /// Nothing.
    Ignore,
}

/// Whether a command writes a downloaded program or voice to this PC.
pub open spec fn installs(cmd: ClientCommand) -> bool {
    cmd is EngineerInstallPiper || cmd is EngineerInstallVoice
}

impl AgentSlots {
    /// How many commands run now.
    pub closed spec fn busy(&self) -> int {
        self.running as int
    }

    /// Whether viewers may install here.
    pub closed spec fn installs_allowed(&self) -> bool {
        self.allow_remote_install
    }

    #[verifier::type_invariant]
    spec fn within_limit(self) -> bool {
        self.running <= MAX_RUNNING
    }

    /// No command runs.
    pub fn new(allow_remote_install: bool) -> (s: AgentSlots)
        ensures
            s.busy() == 0,
            s.installs_allowed() == allow_remote_install,
    {
        AgentSlots { running: 0, allow_remote_install }
    }

    /// What the agent does about a frame from the server. Over the limit, a
    /// viewer is answered with the error that its panel renders, not with
    /// silence.
    pub fn on_frame(&mut self, frame: DownlinkFrame) -> (task: AgentTask)
        ensures
            0 <= old(self).busy() <= MAX_RUNNING,
            0 <= final(self).busy() <= MAX_RUNNING,
            final(self).installs_allowed() == old(self).installs_allowed(),
            match frame {
                DownlinkFrame::Command { req, cmd } => if old(self).busy() < MAX_RUNNING {
                    &&& task == AgentTask::Execute(req, cmd)
                    &&& final(self).busy() == old(self).busy() + 1
                } else {
                    &&& task matches AgentTask::Answer(UplinkFrame::Response { req: r, msg }) && r
                        == req && server::is_error_for(
                        cmd,
                        "The agent is busy — try again"@,
                        msg,
                    )
                    &&& final(self).busy() == old(self).busy()
                },
                DownlinkFrame::Broadcast { cmd } => {
                    &&& final(self).busy() == old(self).busy()
                    &&& task == (if server::is_engineer_command(cmd) && (!installs(cmd) || old(
                        self,
                    ).installs_allowed()) {
                        AgentTask::Engineer(cmd)
                    } else {
                        AgentTask::Ignore
                    })
                },
            },
    {
        proof {
            use_type_invariant(&*self);
        }
        match frame {
            DownlinkFrame::Command { req, cmd } => {
                if self.running < MAX_RUNNING {
                    self.running = self.running + 1;
                    AgentTask::Execute(req, cmd)
                } else {
                    let msg = server::command_error(
                        &cmd,
                        "The agent is busy — try again".to_owned(),
                    );
                    AgentTask::Answer(UplinkFrame::Response { req, msg })
                }
            },
            DownlinkFrame::Broadcast { cmd } => {
                let is_install = match &cmd {
                    ClientCommand::EngineerInstallPiper => true,
                    ClientCommand::EngineerInstallVoice { .. } => true,
                    _ => false,
                };
                if server::is_engineer(&cmd) && (!is_install || self.allow_remote_install) {
                    AgentTask::Engineer(cmd)
                } else {
                    AgentTask::Ignore
                }
            },
        }
    }

    /// One command is done; its answer goes back under its number.
    pub fn finished(&mut self, req: u64, msg: ServerMessage) -> (f: UplinkFrame)
        requires
            old(self).busy() > 0,
        ensures
            f == (UplinkFrame::Response { req, msg }),
            final(self).busy() == old(self).busy() - 1,
            final(self).installs_allowed() == old(self).installs_allowed(),
    {
        proof {
            use_type_invariant(&*self);
        }
        self.running = self.running - 1;
        UplinkFrame::Response { req, msg }
    }
}

// ---------------------------------------------------------------------------
// Laws of the operations
// ---------------------------------------------------------------------------

/// The wait before a reconnect doubles with every connection that lasted less than a
/// minute, from two seconds up to thirty, and is one second after one that lasted a
/// minute.
pub proof fn law_the_wait_doubles(b: &mut Backoff, lasted: u64, delay: u64)
    requires
        call_ensures(Backoff::after_connection, (b, lasted), delay),
    ensures
        lasted >= 60_000_000_000 ==> final(b).attempt == 0 && delay == 1_000,
        lasted < 60_000_000_000 && old(b).attempt < 0xFFFF_FFFF ==> final(b).attempt == old(b).attempt + 1,
        lasted < 60_000_000_000 && old(b).attempt == 0xFFFF_FFFF ==> final(b).attempt == old(b).attempt,
        lasted < 60_000_000_000 && old(b).attempt == 0 ==> delay == 2_000,
        lasted < 60_000_000_000 && old(b).attempt == 1 ==> delay == 4_000,
        lasted < 60_000_000_000 && old(b).attempt == 2 ==> delay == 8_000,
        lasted < 60_000_000_000 && old(b).attempt == 3 ==> delay == 16_000,
        lasted < 60_000_000_000 && old(b).attempt >= 4 ==> delay == 30_000,
{
    vstd::arithmetic::power2::lemma2_to64();
}

/// So many intervals as there are frames make up a second, as nearly as nanoseconds
/// can say it.
pub proof fn law_a_second_holds_the_frames(fps: u32, t: Throttle)
    requires
        call_ensures(Throttle::new, (fps,), t),
    ensures
        t.last_telemetry is None,
        t.last_scoring is None,
        fps == 0 ==> t.interval == 1_000_000_000,
        fps > 0 ==> 2_000_000_000 - fps <= 2 * (t.interval * fps) <= 2_000_000_000 + fps,
        2 * (t.interval * fps) == 2_000_000_000 - fps ==> fps == 0 || fps == 1024 || fps
            == 16_000_000 || fps == 80_000_000,
        fps == 1024 ==> t.interval == 976_562,
        fps == 16_000_000 ==> t.interval == 62,
        fps == 80_000_000 ==> t.interval == 12,
{
    if fps != 1024 && fps != 16_000_000 && fps != 80_000_000 {
        let f = if fps == 0 {
            1
        } else {
            fps as int
        };
        let n = 2_000_000_000 + f;
        vstd::arithmetic::div_mod::lemma_fundamental_div_mod(n, 2 * f);
        let q = n / (2 * f);
        assert(t.interval == q);
        assert((2 * f) * q == 2 * (q * f)) by (nonlinear_arith);
        vstd::arithmetic::div_mod::lemma_mod_bound(n, 2 * f);
    }
}

/// A frame passes where none of its kind has passed, or where the last one passed a
/// whole interval ago.
pub proof fn law_a_frame_passes_after_the_interval(last: u64, now: u64, interval: u64)
    ensures
        !too_soon(None, now, interval),
        now >= last ==> (too_soon(Some(last), now, interval) <==> now - last < interval),
        now < last ==> (too_soon(Some(last), now, interval) <==> interval > 0),
        too_soon(Some(last), now, interval) ==> last_after(Some(last), now, interval) == Some(
            last,
        ),
        !too_soon(Some(last), now, interval) ==> last_after(Some(last), now, interval) == Some(
            now,
        ),
        last_after(None, now, interval) == Some(now),
{
}

/// Telemetry is dropped where the last one passed less than an interval ago, and
/// remembered where it passes. The standings do not count for it.
pub proof fn law_telemetry_is_limited_by_itself(
    t: &mut Throttle,
    msg: ServerMessage,
    now: u64,
    dropped: bool,
)
    requires
        call_ensures(Throttle::should_drop, (t, &msg, now), dropped),
        msg is TelemetryUpdate,
        old(t).last_telemetry is Some ==> old(t).last_telemetry->Some_0 <= now,
    ensures
        dropped <==> old(t).last_telemetry is Some && now - old(t).last_telemetry->Some_0 < old(t).interval,
        dropped ==> final(t).last_telemetry == old(t).last_telemetry,
        !dropped ==> final(t).last_telemetry == Some(now),
        final(t).last_scoring == old(t).last_scoring,
        final(t).interval == old(t).interval,
{
}

/// The standings are dropped where the last ones passed less than an interval ago,
/// and remembered where they pass. The telemetry does not count for them.
pub proof fn law_standings_are_limited_by_themselves(
    t: &mut Throttle,
    msg: ServerMessage,
    now: u64,
    dropped: bool,
)
    requires
        call_ensures(Throttle::should_drop, (t, &msg, now), dropped),
        msg is ScoringUpdate,
        old(t).last_scoring is Some ==> old(t).last_scoring->Some_0 <= now,
    ensures
        dropped <==> old(t).last_scoring is Some && now - old(t).last_scoring->Some_0 < old(t).interval,
        dropped ==> final(t).last_scoring == old(t).last_scoring,
        !dropped ==> final(t).last_scoring == Some(now),
        final(t).last_telemetry == old(t).last_telemetry,
        final(t).interval == old(t).interval,
{
}

/// Everything else is never dropped, and changes nothing.
pub proof fn law_everything_else_passes(
    t: &mut Throttle,
    msg: ServerMessage,
    now: u64,
    dropped: bool,
)
    requires
        call_ensures(Throttle::should_drop, (t, &msg, now), dropped),
        !(msg is TelemetryUpdate || msg is ScoringUpdate),
    ensures
        !dropped,
        *final(t) == *old(t),
{
}

/// Of the frames of one kind the first passes, and after one that passed the next to
/// pass is one that comes an interval later or more.
pub proof fn law_frames_pass_one_by_one(last: u64, interval: u64, now: u64, rest: Seq<u64>)
    requires
        last <= now,
    ensures
        passed(None, interval, Seq::<u64>::empty()) == 0,
        passed(Some(last), interval, Seq::<u64>::empty()) == 0,
        passed(None, interval, seq![now] + rest) == 1 + passed(Some(now), interval, rest),
        now - last >= interval ==> passed(Some(last), interval, seq![now] + rest) == 1 + passed(
            Some(now),
            interval,
            rest,
        ),
        now - last < interval ==> passed(Some(last), interval, seq![now] + rest) == passed(
            Some(last),
            interval,
            rest,
        ),
{
    let times = seq![now] + rest;
    assert(times[0] == now);
    assert(times.skip(1) == rest);
}

/// A window of throughput counts every frame with its bytes, and is reported and
/// closed with the first frame that comes thirty seconds after its start.
pub proof fn law_throughput_counts_every_frame(
    m: &mut Meter,
    len: usize,
    now: u64,
    report: Option<Throughput>,
)
    requires
        call_ensures(Meter::record, (m, len, now), report),
        old(m).window_start <= now,
        old(m).bytes + len <= usize::MAX,
        old(m).frames < usize::MAX,
    ensures
        report is Some <==> now - old(m).window_start >= 30_000_000_000,
        report is Some ==> report->Some_0.bytes == old(m).bytes + len && report->Some_0.frames
            == old(m).frames + 1 && report->Some_0.elapsed == now - old(m).window_start && final(m).bytes == 0 && final(m).frames == 0 && final(m).window_start == now,
        report is None ==> final(m).bytes == old(m).bytes + len && final(m).frames == old(m).frames + 1 && final(m).window_start == old(m).window_start,
{
}

/// A message that is due is sent as it is; one that was dropped, or a gap in the
/// subscription, is passed over; and the end of the subscription ends the uplink.
pub proof fn law_messages_are_forwarded_unchanged(
    t: &mut Throttle,
    event: UplinkEvent,
    now: u64,
    step: UplinkStep,
)
    requires
        call_ensures(Throttle::forward, (t, event, now), step),
    ensures
        event is Lagged ==> step is Skip && *final(t) == *old(t),
        event is Closed <==> step is Done,
        event is Closed ==> *final(t) == *old(t),
        step is Send ==> event is Message && step->Send_0 is Message && step->Send_0->Message_0
            == event->Message_0,
        event is Message && !(event->Message_0 is TelemetryUpdate) && !(
        event->Message_0 is ScoringUpdate) ==> step is Send && *final(t) == *old(t),
        event is Message && event->Message_0 is TelemetryUpdate && old(t).last_telemetry is None
            ==> step is Send && final(t).last_telemetry == Some(now),
        event is Message && event->Message_0 is ScoringUpdate && old(t).last_scoring is None
            ==> step is Send && final(t).last_scoring == Some(now),
{
}

/// What is forwarded is limited by kind: a frame is passed over where, and only where,
/// one of its kind was sent less than an interval ago.
pub proof fn law_forwarding_keeps_the_rate(
    t: &mut Throttle,
    event: UplinkEvent,
    now: u64,
    step: UplinkStep,
)
    requires
        call_ensures(Throttle::forward, (t, event, now), step),
        event is Message,
        old(t).last_telemetry is Some ==> old(t).last_telemetry->Some_0 <= now,
        old(t).last_scoring is Some ==> old(t).last_scoring->Some_0 <= now,
    ensures
        step is Skip <==> (event->Message_0 is TelemetryUpdate && old(t).last_telemetry is Some
            && now - old(t).last_telemetry->Some_0 < old(t).interval) || (
        event->Message_0 is ScoringUpdate && old(t).last_scoring is Some && now - old(t).last_scoring->Some_0 < old(t).interval),
        final(t).interval == old(t).interval,
        event->Message_0 is TelemetryUpdate ==> final(t).last_scoring == old(t).last_scoring && (
        step is Send ==> final(t).last_telemetry == Some(now)) && (step is Skip ==> final(t).last_telemetry == old(t).last_telemetry),
        event->Message_0 is ScoringUpdate ==> final(t).last_telemetry == old(t).last_telemetry && (
        step is Send ==> final(t).last_scoring == Some(now)) && (step is Skip ==> final(t).last_scoring == old(t).last_scoring),
{
}

/// A viewer's command runs where fewer than four run already, under its own number,
/// and is otherwise answered at once, under its own number, that the agent is busy:
/// a fuel command with the error of the fuel calculator, any other with that of the
/// results.
pub proof fn law_four_commands_run_at_once(
    slots: &mut AgentSlots,
    frame: DownlinkFrame,
    task: AgentTask,
)
    requires
        call_ensures(AgentSlots::on_frame, (slots, frame), task),
        frame is Command,
    ensures
        old(slots).busy() < 4 ==> task is Execute && task->Execute_0 == frame->Command_req
            && task->Execute_1 == frame->Command_cmd && final(slots).busy() == old(slots).busy()
            + 1,
        old(slots).busy() == 4 ==> task is Answer && task->Answer_0 is Response
            && task->Answer_0->Response_req == frame->Command_req && final(slots).busy() == 4,
        old(slots).busy() == 4 && (frame->Command_cmd is FuelCalcInit
            || frame->Command_cmd is FuelCalcCompute) ==> task->Answer_0->Response_msg
            is FuelCalcError && task->Answer_0->Response_msg->FuelCalcError_message@
            == "The agent is busy — try again"@,
        old(slots).busy() == 4 && !(frame->Command_cmd is FuelCalcInit
            || frame->Command_cmd is FuelCalcCompute) ==> task->Answer_0->Response_msg
            is PostRaceError && task->Answer_0->Response_msg->PostRaceError_message@
            == "The agent is busy — try again"@,
        0 <= old(slots).busy() <= 4,
        final(slots).installs_allowed() == old(slots).installs_allowed(),
{
}

/// A broadcast reaches the race engineer where it is one of the engineer's commands,
/// and one that installs a program or a voice only where that is allowed here.
pub proof fn law_viewers_install_only_where_allowed(
    slots: &mut AgentSlots,
    frame: DownlinkFrame,
    task: AgentTask,
)
    requires
        call_ensures(AgentSlots::on_frame, (slots, frame), task),
        frame is Broadcast,
    ensures
        ({
            let cmd = frame->Broadcast_cmd;
            &&& task is Engineer || task is Ignore
            &&& task is Engineer ==> task->Engineer_0 == cmd
            &&& cmd is EngineerGetStatus || cmd is EngineerUninstallVoice
                || cmd is EngineerSynthesize || cmd is EngineerUpdateBehavior ==> task is Engineer
            &&& cmd is EngineerInstallPiper || cmd is EngineerInstallVoice ==> (
            task is Engineer <==> old(slots).installs_allowed())
            &&& !(cmd is EngineerGetStatus || cmd is EngineerUninstallVoice
                || cmd is EngineerSynthesize || cmd is EngineerUpdateBehavior
                || cmd is EngineerInstallPiper || cmd is EngineerInstallVoice) ==> task is Ignore
        }),
        final(slots).busy() == old(slots).busy(),
        final(slots).installs_allowed() == old(slots).installs_allowed(),
{
}

/// A connection begins with the agent's version, and a command that is done is answered
/// under its number and makes room for the next.
pub proof fn law_a_finished_command_makes_room(
    slots: &mut AgentSlots,
    req: u64,
    msg: ServerMessage,
    frame: UplinkFrame,
    version: String,
    first: UplinkFrame,
)
    requires
        old(slots).busy() > 0,
        call_ensures(AgentSlots::finished, (slots, req, msg), frame),
        call_ensures(hello, (version,), first),
    ensures
        frame is Response,
        frame->Response_req == req,
        frame->Response_msg == msg,
        final(slots).busy() == old(slots).busy() - 1,
        final(slots).installs_allowed() == old(slots).installs_allowed(),
        first is Hello,
        first->Hello_agent_version == version,
{
}

/// An agent starts with nothing running, and may be told to install or not.
pub proof fn law_an_agent_starts_idle(allow: bool, slots: AgentSlots, now: u64, m: Meter, b: Backoff)
    requires
        call_ensures(AgentSlots::new, (allow,), slots),
        call_ensures(Meter::new, (now,), m),
        call_ensures(Backoff::new, (), b),
    ensures
        slots.busy() == 0,
        slots.installs_allowed() == allow,
        m.bytes == 0,
        m.frames == 0,
        m.window_start == now,
        b.attempt == 0,
{
}

} // verus!
