//! The daemon that keeps the model loaded: the phases of its life, what it
//! does with a request, when it gives up waiting, and how a client tells
//! whether it is there.

use vstd::prelude::*;
use vstd::string::StringExecFns;
use crate::number::{decimal, decimal_of, i32_value, law_decimal_is_injective, parse_i32};
use crate::text::{chars_of, concat2, text_of, trim, trimmed};
use crate::wire::{DaemonRequest, DaemonRequestView, DaemonResponse, DaemonResponseView, Incoming,
    IncomingView};

verus! {

/// How long the daemon waits for a request before it stops, in milliseconds.
pub const IDLE_TIMEOUT_MS: u64 = 3600000;

/// How long the daemon pauses when no client is waiting, in milliseconds.
pub const ACCEPT_PAUSE_MS: u64 = 50;

/// How long the daemon pauses when accepting a client failed, in milliseconds.
pub const ACCEPT_ERROR_PAUSE_MS: u64 = 100;

/// How long a client pauses between two looks at the daemon, in milliseconds.
pub const CLIENT_POLL_MS: u64 = 100;

/// How often a client looks for the endpoint of a daemon that it started.
pub const STARTUP_POLLS: u32 = 50;

/// How often a client looks whether a daemon that it stopped is gone.
pub const STOP_POLLS: u32 = 20;

/// The phases of a daemon's life, in their order.
#[derive(Debug, Clone, Copy, PartialEq, Eq, Structural)]
pub enum Phase {
    /// The endpoint is being bound and the model loaded.
    Starting,
    /// Requests are taken.
    Serving,
    /// The endpoint and the marker are being removed.
    Stopping,
    /// Nothing is left to do.
    Terminated,
}

/// A daemon: the phase it is in, when it last heard from a client, and how
/// long it waits for one.
#[derive(Debug, Clone, Copy, PartialEq, Eq, Structural)]
pub struct Daemon {
    pub phase: Phase,
    pub last_activity_ms: u64,
    pub idle_timeout_ms: u64,
}

/// What the daemon is to do next.
#[derive(Debug, Clone, Copy, PartialEq, Eq, Structural)]
pub enum Tick {
    /// Go on starting.
    Start,
    /// Look for a client.
    Accept,
    /// Remove the endpoint and the marker.
    CleanUp,
    /// Exit.
    Exit,
}

/// What a daemon does to start, step by step.
#[derive(Debug, Clone, Copy, PartialEq, Eq, Structural)]
pub enum StartStep {
    /// Remove the endpoint that an earlier daemon may have left.
    RemoveStaleEndpoint,
    /// Load the model.
    LoadBackend,
    /// Bind the endpoint.
    BindEndpoint,
}

/// One of the daemon's two files.
#[derive(Debug, Clone, Copy, PartialEq, Eq, Structural)]
pub enum Artifact {
    /// The socket that clients connect to.
    Endpoint,
    /// The file that holds the daemon's process id.
    Marker,
}

/// What the daemon does with a request.
#[derive(Debug, Clone, PartialEq, Eq)]
pub enum Reaction {
    /// Send this response.
    Reply(DaemonResponse),
    /// Run this correction, and send what comes of it.
    Correct(DaemonRequest),
}

/// What the daemon does with a request, as sequences of characters.
pub enum ReactionView {
    Reply(DaemonResponseView),
    Correct(DaemonRequestView),
}

impl View for Reaction {
    type V = ReactionView;

    open spec fn view(&self) -> ReactionView {
        match self {
            Reaction::Reply(response) => ReactionView::Reply(response@),
            Reaction::Correct(request) => ReactionView::Correct(request@),
        }
    }
}

/// How long the daemon has heard nothing at `now_ms`.
pub open spec fn idle_for(daemon: Daemon, now_ms: u64) -> int {
    if now_ms >= daemon.last_activity_ms {
        now_ms - daemon.last_activity_ms
    } else {
        0
    }
}

/// The daemon at the beginning of its life.
pub open spec fn born(now_ms: u64) -> Daemon {
    Daemon { phase: Phase::Starting, last_activity_ms: now_ms, idle_timeout_ms: IDLE_TIMEOUT_MS }
}

/// The daemon once it has bound its endpoint and loaded the model.
pub open spec fn started(daemon: Daemon, now_ms: u64) -> Daemon {
    if daemon.phase == Phase::Starting {
        Daemon { phase: Phase::Serving, last_activity_ms: now_ms, ..daemon }
    } else {
        daemon
    }
}

/// The daemon once starting has failed.
pub open spec fn start_failed(daemon: Daemon) -> Daemon {
    if daemon.phase == Phase::Starting {
        Daemon { phase: Phase::Stopping, ..daemon }
    } else {
        daemon
    }
}

/// The daemon at `now_ms`: a serving daemon that has heard nothing for longer
/// than it waits begins to stop.
pub open spec fn ticked(daemon: Daemon, now_ms: u64) -> Daemon {
    if daemon.phase == Phase::Serving && idle_for(daemon, now_ms) > daemon.idle_timeout_ms {
        Daemon { phase: Phase::Stopping, ..daemon }
    } else {
        daemon
    }
}

/// What a daemon is to do next, by its phase.
pub open spec fn due(daemon: Daemon) -> Tick {
    match daemon.phase {
        Phase::Starting => Tick::Start,
        Phase::Serving => Tick::Accept,
        Phase::Stopping => Tick::CleanUp,
        Phase::Terminated => Tick::Exit,
    }
}

/// The daemon once a client has connected at `now_ms`.
pub open spec fn connected(daemon: Daemon, now_ms: u64) -> Daemon {
    if daemon.phase == Phase::Serving {
        Daemon { last_activity_ms: now_ms, ..daemon }
    } else {
        daemon
    }
}

/// The response to a request to stop.
pub open spec fn stopping_response() -> DaemonResponseView {
    DaemonResponseView { success: true, output: "Daemon stopping"@, error: None }
}

/// The response to a line that is no request.
pub open spec fn malformed_response(reason: Seq<char>) -> DaemonResponseView {
    DaemonResponseView {
        success: false,
        output: Seq::empty(),
        error: Some("Invalid request: "@ + reason),
    }
}

/// The response of a daemon that takes no requests.
pub open spec fn closed_response() -> DaemonResponseView {
    DaemonResponseView { success: false, output: Seq::empty(), error: Some("Daemon is not serving"@) }
}

/// The response that reports a correction: the command, or why there is none.
pub open spec fn response_for(outcome: Result<Seq<char>, Seq<char>>) -> DaemonResponseView {
    match outcome {
        Ok(output) => DaemonResponseView { success: true, output, error: None },
        Err(reason) => DaemonResponseView {
            success: false,
            output: Seq::empty(),
            error: Some(reason),
        },
    }
}

/// What a daemon does with a line from a client, and what becomes of it. A
/// serving daemon that is asked to stop says so and begins to stop; asked for
/// a correction it makes one; a line that is neither it answers with what is
/// wrong; either way it goes on serving.
pub open spec fn received(daemon: Daemon, incoming: IncomingView) -> (Daemon, ReactionView) {
    if daemon.phase != Phase::Serving {
        (daemon, ReactionView::Reply(closed_response()))
    } else {
        match incoming {
            IncomingView::Stop => (
                Daemon { phase: Phase::Stopping, ..daemon },
                ReactionView::Reply(stopping_response()),
            ),
            IncomingView::Correct(request) => (daemon, ReactionView::Correct(request)),
            IncomingView::Malformed(reason) => (
                daemon,
                ReactionView::Reply(malformed_response(reason)),
            ),
        }
    }
}

/// The daemon once it has removed its files.
pub open spec fn cleaned(daemon: Daemon) -> Daemon {
    if daemon.phase == Phase::Stopping {
        Daemon { phase: Phase::Terminated, ..daemon }
    } else {
        daemon
    }
}

/// What a daemon does to start, in this order.
pub open spec fn to_start() -> Seq<StartStep> {
    seq![StartStep::RemoveStaleEndpoint, StartStep::LoadBackend, StartStep::BindEndpoint]
}

/// The files that a stopping daemon removes.
pub open spec fn to_remove() -> Seq<Artifact> {
    seq![Artifact::Endpoint, Artifact::Marker]
}

impl Daemon {
    /// The daemon at the beginning of its life.
    pub fn new(now_ms: u64) -> (r: Daemon)
        ensures
            r == born(now_ms),
    {
        Daemon {
            phase: Phase::Starting,
            last_activity_ms: now_ms,
            idle_timeout_ms: IDLE_TIMEOUT_MS,
        }
    }

    /// The daemon with another time to wait for a request.
    pub fn with_idle_timeout(self, idle_timeout_ms: u64) -> (r: Daemon)
        ensures
            r == (Daemon { idle_timeout_ms, ..self }),
    {
        Daemon { idle_timeout_ms, ..self }
    }

    /// The daemon once it has bound its endpoint and loaded the model.
    pub fn on_started(self, now_ms: u64) -> (r: Daemon)
        ensures
            r == started(self, now_ms),
    {
        if matches!(self.phase, Phase::Starting) {
            Daemon { phase: Phase::Serving, last_activity_ms: now_ms, ..self }
        } else {
            self
        }
    }

    /// The daemon once starting has failed.
    pub fn on_start_failed(self) -> (r: Daemon)
        ensures
            r == start_failed(self),
    {
        if matches!(self.phase, Phase::Starting) {
            Daemon { phase: Phase::Stopping, ..self }
        } else {
            self
        }
    }

    /// The daemon at `now_ms`, and what it is to do next.
    pub fn on_tick(self, now_ms: u64) -> (r: (Daemon, Tick))
        ensures
            r.0 == ticked(self, now_ms),
            r.1 == due(r.0),
    {
        let idle: u64 = if now_ms >= self.last_activity_ms {
            now_ms - self.last_activity_ms
        } else {
            0
        };
        let next = if matches!(self.phase, Phase::Serving) && idle > self.idle_timeout_ms {
            Daemon { phase: Phase::Stopping, ..self }
        } else {
            self
        };
        let tick = match next.phase {
            Phase::Starting => Tick::Start,
            Phase::Serving => Tick::Accept,
            Phase::Stopping => Tick::CleanUp,
            Phase::Terminated => Tick::Exit,
        };
        (next, tick)
    }

    /// The daemon once a client has connected at `now_ms`.
    pub fn on_connection(self, now_ms: u64) -> (r: Daemon)
        ensures
            r == connected(self, now_ms),
    {
        if matches!(self.phase, Phase::Serving) {
            Daemon { last_activity_ms: now_ms, ..self }
        } else {
            self
        }
    }

    /// What the daemon does with a line from a client, and what becomes of it.
    pub fn on_request(self, incoming: Incoming) -> (r: (Daemon, Reaction))
        ensures
            (r.0, r.1@) == received(self, incoming@),
    {
        if !matches!(self.phase, Phase::Serving) {
            return (
                self,
                Reaction::Reply(
                    DaemonResponse {
                        success: false,
                        output: String::new(),
                        error: Some("Daemon is not serving".to_owned()),
                    },
                ),
            );
        }
        match incoming {
            Incoming::Stop => (
                Daemon { phase: Phase::Stopping, ..self },
                Reaction::Reply(
                    DaemonResponse {
                        success: true,
                        output: "Daemon stopping".to_owned(),
                        error: None,
                    },
                ),
            ),
            Incoming::Correct(request) => (self, Reaction::Correct(request)),
            Incoming::Malformed(reason) => (
                self,
                Reaction::Reply(
                    DaemonResponse {
                        success: false,
                        output: String::new(),
                        error: Some(concat2("Invalid request: ", reason.as_str())),
                    },
                ),
            ),
        }
    }

    /// The daemon once it has removed its files.
    pub fn on_cleaned(self) -> (r: Daemon)
        ensures
            r == cleaned(self),
    {
        if matches!(self.phase, Phase::Stopping) {
            Daemon { phase: Phase::Terminated, ..self }
        } else {
            self
        }
    }

    /// What a daemon does to start, in this order.
    pub fn startup() -> (r: Vec<StartStep>)
        ensures
            r@ == to_start(),
    {
        let mut r: Vec<StartStep> = Vec::new();
        r.push(StartStep::RemoveStaleEndpoint);
        r.push(StartStep::LoadBackend);
        r.push(StartStep::BindEndpoint);
        assert(r@ =~= to_start());
        r
    }

    /// The files that a stopping daemon removes.
    pub fn cleanup() -> (r: Vec<Artifact>)
        ensures
            r@ == to_remove(),
    {
        let mut r: Vec<Artifact> = Vec::new();
        r.push(Artifact::Endpoint);
        r.push(Artifact::Marker);
        assert(r@ =~= to_remove());
        r
    }
}

/// The response that reports a correction.
pub fn respond(outcome: Result<String, String>) -> (r: DaemonResponse)
    ensures
        r@ == response_for(
            match outcome {
                Ok(output) => Ok(output@),
                Err(reason) => Err(reason@),
            },
        ),
{
    match outcome {
        Ok(output) => DaemonResponse { success: true, output, error: None },
        Err(reason) => DaemonResponse { success: false, output: String::new(), error: Some(reason) },
    }
}

/// How long the daemon pauses after it found no client to accept.
pub fn accept_pause(would_block: bool) -> (ms: u64)
    ensures
        ms == if would_block {
            ACCEPT_PAUSE_MS
        } else {
            ACCEPT_ERROR_PAUSE_MS
        },
{
    if would_block {
        ACCEPT_PAUSE_MS
    } else {
        ACCEPT_ERROR_PAUSE_MS
    }
}

/// Which of a daemon's files are there.
#[derive(Debug, Clone, Copy, PartialEq, Eq, Structural)]
pub struct Artifacts {
    pub endpoint: bool,
    pub marker: bool,
}

/// The files that are left when one is removed.
pub open spec fn without(files: Artifacts, artifact: Artifact) -> Artifacts {
    match artifact {
        Artifact::Endpoint => Artifacts { endpoint: false, ..files },
        Artifact::Marker => Artifacts { marker: false, ..files },
    }
}

/// The files that are left when some are removed.
pub open spec fn without_all(files: Artifacts, artifacts: Seq<Artifact>) -> Artifacts
    decreases artifacts.len(),
{
    if artifacts.len() == 0 {
        files
    } else {
        without(without_all(files, artifacts.drop_last()), artifacts.last())
    }
}

/// What a client finds when it looks for the daemon.
#[derive(Debug, Clone, Copy, PartialEq, Eq, Structural)]
pub enum Liveness {
    /// The daemon is there and can be talked to.
    Running,
    /// There is no daemon and no trace of one.
    NotRunning,
    /// There is no daemon, but files of one: they are to be removed.
    Stale,
}

/// The process id that a marker holds.
pub open spec fn marker_pid_of(marker: Seq<char>) -> Option<i32> {
    i32_value(trimmed(marker))
}

/// What a client finds: `marker` is what the marker file holds, where there is
/// one; `alive` whether the process of that id lives; `endpoint` whether the
/// endpoint is there. Without a marker there is no daemon. With one, the
/// daemon runs where the id can be read, the process lives and the endpoint is
/// there; else the files are stale.
pub open spec fn probed(marker: Option<Seq<char>>, alive: bool, endpoint: bool) -> Liveness {
    match marker {
        None => Liveness::NotRunning,
        Some(text) => if marker_pid_of(text) is Some && alive && endpoint {
            Liveness::Running
        } else {
            Liveness::Stale
        },
    }
}

/// The process id that a marker holds.
pub fn marker_pid(marker: &str) -> (r: Option<i32>)
    ensures
        r == marker_pid_of(marker@),
{
    let s = chars_of(marker);
    let t = trim(&s);
    let text = text_of(&t);
    parse_i32(text.as_str())
}

/// What a client finds when it looks for the daemon.
pub fn probe(marker: Option<&str>, alive: bool, endpoint: bool) -> (r: Liveness)
    ensures
        r == probed(
            match marker {
                Some(text) => Some(text@),
                None => None,
            },
            alive,
            endpoint,
        ),
{
    match marker {
        None => Liveness::NotRunning,
        Some(text) => {
            if marker_pid(text).is_some() && alive && endpoint {
                Liveness::Running
            } else {
                Liveness::Stale
            }
        },
    }
}

/// The name of the endpoint of a program's daemon for a user.
pub open spec fn endpoint_name_of(program: Seq<char>, uid: u32) -> Seq<char> {
    program + "-daemon-"@ + decimal_of(uid as nat) + ".sock"@
}

/// The name of the marker of a program's daemon for a user.
pub open spec fn marker_name_of(program: Seq<char>, uid: u32) -> Seq<char> {
    program + "-daemon-"@ + decimal_of(uid as nat) + ".pid"@
}

/// The name of the endpoint of a program's daemon for a user.
pub fn endpoint_name(program: &str, uid: u32) -> (r: String)
    ensures
        r@ == endpoint_name_of(program@, uid),
{
    let mut r = concat2(program, "-daemon-");
    r.append(decimal(uid as u64).as_str());
    r.append(".sock");
    r
}

/// The name of the marker of a program's daemon for a user.
pub fn marker_name(program: &str, uid: u32) -> (r: String)
    ensures
        r@ == marker_name_of(program@, uid),
{
    let mut r = concat2(program, "-daemon-");
    r.append(decimal(uid as u64).as_str());
    r.append(".pid");
    r
}

/// What a client waits for: that something is there, or that it is gone.
#[derive(Debug, Clone, Copy, PartialEq, Eq, Structural)]
pub enum Waiting {
    /// What the client waited for has come about.
    Ready,
    /// The client is to pause and look again.
    Again,
    /// The client has looked as often as it may.
    GaveUp,
}

/// What a client does after it has looked `polls` times of `limit`, `seen`
/// telling whether the last look found what the client waits for.
pub fn waiting(seen: bool, polls: u32, limit: u32) -> (r: Waiting)
    ensures
        r == if seen {
            Waiting::Ready
        } else if polls < limit {
            Waiting::Again
        } else {
            Waiting::GaveUp
        },
{
    if seen {
        Waiting::Ready
    } else if polls < limit {
        Waiting::Again
    } else {
        Waiting::GaveUp
    }
}

/// What a response means to the client: the corrected command, or what to
/// tell the user instead.
pub open spec fn verdict_of(response: DaemonResponseView) -> Result<Seq<char>, Seq<char>> {
    if response.success {
        if response.output.len() > 0 {
            Ok(response.output)
        } else {
            Err("Could not correct command"@)
        }
    } else {
        Err(
            "Error: "@ + match response.error {
                Some(e) => e,
                None => "Unknown error"@,
            },
        )
    }
}

/// What a response means to the client.
pub fn verdict(response: &DaemonResponse) -> (r: Result<String, String>)
    ensures
        match r {
            Ok(command) => verdict_of(response@) == Ok::<Seq<char>, Seq<char>>(command@),
            Err(message) => verdict_of(response@) == Err::<Seq<char>, Seq<char>>(message@),
        },
{
    if response.success {
        if !response.output.as_str().is_empty() {
            Ok(response.output.clone())
        } else {
            Err("Could not correct command".to_owned())
        }
    } else {
        match &response.error {
            Some(e) => Err(concat2("Error: ", e.as_str())),
            None => Err(concat2("Error: ", "Unknown error")),
        }
    }
}

/// A serving daemon that is asked to stop comes to its end: it answers that it
/// stops, removes its endpoint and its marker whatever was there, and is then
/// terminated; and a client that looks for it afterwards finds no daemon.
pub proof fn law_stop_terminates(daemon: Daemon, files: Artifacts, alive: bool)
    requires
        daemon.phase == Phase::Serving,
    ensures
        ({
            let (stopping, reaction) = received(daemon, IncomingView::Stop);
            let left = without_all(files, to_remove());
            &&& reaction == ReactionView::Reply(stopping_response())
            &&& stopping.phase == Phase::Stopping
            &&& due(stopping) == Tick::CleanUp
            &&& cleaned(stopping).phase == Phase::Terminated
            &&& due(cleaned(stopping)) == Tick::Exit
            &&& left == (Artifacts { endpoint: false, marker: false })
            &&& probed(None, alive, left.endpoint) == Liveness::NotRunning
        }),
{
    let both = to_remove();
    assert(both.drop_last() =~= seq![Artifact::Endpoint]);
    assert(both.drop_last().drop_last() =~= Seq::<Artifact>::empty());
    assert(without_all(files, both.drop_last().drop_last()) == files);
    assert(without_all(files, both.drop_last()) == without(files, Artifact::Endpoint));
}

/// A daemon that has heard nothing for longer than it waits stops by itself,
/// and one that has heard something in time goes on.
pub proof fn law_idle_daemon_stops(daemon: Daemon, now_ms: u64)
    requires
        daemon.phase == Phase::Serving,
    ensures
        idle_for(daemon, now_ms) > daemon.idle_timeout_ms ==> ticked(daemon, now_ms).phase
            == Phase::Stopping,
        idle_for(daemon, now_ms) <= daemon.idle_timeout_ms ==> ticked(daemon, now_ms) == daemon,
        ticked(connected(daemon, now_ms), now_ms) == connected(daemon, now_ms),
{
}

/// A daemon never goes back: whatever happens to it, its phase stays or
/// moves on in the order of the phases.
pub open spec fn phase_rank(phase: Phase) -> int {
    match phase {
        Phase::Starting => 0,
        Phase::Serving => 1,
        Phase::Stopping => 2,
        Phase::Terminated => 3,
    }
}

/// Whatever happens to a daemon, its phase stays or moves on.
pub proof fn law_phases_move_on(daemon: Daemon, now_ms: u64, incoming: IncomingView)
    ensures
        phase_rank(started(daemon, now_ms).phase) >= phase_rank(daemon.phase),
        phase_rank(start_failed(daemon).phase) >= phase_rank(daemon.phase),
        phase_rank(ticked(daemon, now_ms).phase) >= phase_rank(daemon.phase),
        phase_rank(connected(daemon, now_ms).phase) >= phase_rank(daemon.phase),
        phase_rank(received(daemon, incoming).0.phase) >= phase_rank(daemon.phase),
        phase_rank(cleaned(daemon).phase) >= phase_rank(daemon.phase),
{
}

/// Different users have different endpoints and different markers.
pub proof fn law_names_tell_users_apart(program: Seq<char>, a: u32, b: u32)
    requires
        endpoint_name_of(program, a) == endpoint_name_of(program, b) || marker_name_of(program, a)
            == marker_name_of(program, b),
    ensures
        a == b,
{
    let head = program + "-daemon-"@;
    let x = decimal_of(a as nat);
    let y = decimal_of(b as nat);
    if endpoint_name_of(program, a) == endpoint_name_of(program, b) {
        let tail = ".sock"@;
        let left = head + x + tail;
        let right = head + y + tail;
        assert(left.len() == right.len());
        assert(x =~= left.subrange(head.len() as int, (head.len() + x.len()) as int));
        assert(y =~= right.subrange(head.len() as int, (head.len() + y.len()) as int));
    } else {
        let tail = ".pid"@;
        let left = head + x + tail;
        let right = head + y + tail;
        assert(left.len() == right.len());
        assert(x =~= left.subrange(head.len() as int, (head.len() + x.len()) as int));
        assert(y =~= right.subrange(head.len() as int, (head.len() + y.len()) as int));
    }
    law_decimal_is_injective(a as nat, b as nat);
}

} // verus!
