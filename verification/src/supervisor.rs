//! Lifecycle and command logic of the worker supervisor.
//!
//! The supervisor's decisions — when a spawn proceeds, what bytes a command
//! sends, when a graceful shutdown gives up and kills — are functions from
//! plain values to plain values and are verified here. The caller owns the OS
//! process handle and pipes; it reports probe outcomes in and carries actions
//! out.

use vstd::prelude::*;

use crate::codec::{decode, decode_spec, encode, encoded_line, WorkerEvent};
use crate::snapshot::{
    empty_snapshot, events_view, replay_spec, update_spec, Snapshot, SnapshotModel,
};

verus! {

/// Outcome of a non-blocking liveness probe of the tracked worker process.
#[derive(Clone, Copy, Debug)]
pub enum ProbeResult {
    /// The process is still running.
    Alive,
    /// The process has exited.
    Exited,
    /// The probe itself failed; nothing is known.
    Unknown,
}

/// Why starting the worker failed.
#[derive(Clone, Copy, Debug)]
pub enum StartError {
    /// The worker executable could not be located or started.
    NotFound,
    /// Standard input or standard output of the child could not be captured.
    PipeUnavailable,
}

/// Why sending a command failed.
#[derive(Clone, Debug)]
pub enum SendError {
    /// No worker process is tracked, or its input pipe is unavailable.
    NotRunning,
    /// The write or the flush to the worker's input pipe failed.
    IoFailure(String),
}

/// What the graceful-shutdown loop does next after one liveness probe.
#[derive(Clone, Copy, Debug)]
pub enum ShutdownAction {
    /// The worker has exited; shutdown is complete.
    Finished,
    /// Wait one poll interval, then probe again.
    Wait,
    /// Give up waiting and force-terminate the process.
    ForceKill,
}

/// One command of the closed outbound command set.
#[derive(Clone, Debug)]
pub enum Command {
    /// `POWER ON` / `POWER OFF`.
    Power(bool),
    /// `FEATURE ON` / `FEATURE OFF`.
    Feature(bool),
    /// `SET_SENS <value>`, the value already rendered as decimal text.
    SetSensitivity(String),
    /// `RESET`.
    Reset,
    /// `QUIT`.
    Quit,
}

/// The text of a command, without the trailing newline.
pub open spec fn command_text(c: Command) -> Seq<char> {
    match c {
        Command::Power(on) => if on {
            "POWER ON"@
        } else {
            "POWER OFF"@
        },
        Command::Feature(on) => if on {
            "FEATURE ON"@
        } else {
            "FEATURE OFF"@
        },
        Command::SetSensitivity(v) => "SET_SENS "@ + v@,
        Command::Reset => "RESET"@,
        Command::Quit => "QUIT"@,
    }
}

/// Render one command as its protocol text, without the trailing newline.
pub fn render_command(c: &Command) -> (r: String)
    ensures
        r@ == command_text(*c),
{
    match c {
        Command::Power(on) => if *on {
            String::from_str("POWER ON")
        } else {
            String::from_str("POWER OFF")
        },
        Command::Feature(on) => if *on {
            String::from_str("FEATURE ON")
        } else {
            String::from_str("FEATURE OFF")
        },
        Command::SetSensitivity(v) => {
            let mut s = String::from_str("SET_SENS ");
            s.append(v.as_str());
            s
        },
        Command::Reset => String::from_str("RESET"),
        Command::Quit => String::from_str("QUIT"),
    }
}

/// How many times the graceful shutdown probes the process before killing it.
pub const MAX_SHUTDOWN_POLLS: u64 = 50;

/// How long the caller waits between two shutdown probes, in milliseconds.
pub const SHUTDOWN_POLL_INTERVAL_MS: u64 = 10;

/// What the graceful-shutdown loop does after its probe number `polls_done`
/// (counting from zero) came back as `probe`: stop on exit, wait while polls
/// remain, and force-terminate once the bounded wait is spent or the probe
/// failed. The wait is therefore bounded by `MAX_SHUTDOWN_POLLS` intervals.
pub fn shutdown_poll_action(polls_done: u64, probe: &ProbeResult) -> (a: ShutdownAction)
    ensures
        probe is Exited ==> a is Finished,
        probe is Unknown ==> a is ForceKill,
        probe is Alive && polls_done + 1 < MAX_SHUTDOWN_POLLS ==> a is Wait,
        probe is Alive && polls_done + 1 >= MAX_SHUTDOWN_POLLS ==> a is ForceKill,
{
    match probe {
        ProbeResult::Exited => ShutdownAction::Finished,
        ProbeResult::Unknown => ShutdownAction::ForceKill,
        ProbeResult::Alive => {
            if polls_done < MAX_SHUTDOWN_POLLS - 1 {
                ShutdownAction::Wait
            } else {
                ShutdownAction::ForceKill
            }
        },
    }
}

/// Mathematical model of a [`Supervisor`].
pub struct SupervisorModel {
    /// Whether a worker process is currently tracked.
    pub running: bool,
    /// Whether an observer is attached to receive forwarded events.
    pub attached: bool,
    /// Latest-known state of the current worker instance.
    pub snapshot: SnapshotModel,
}

/// The shared supervisor state: whether a worker is tracked, whether an
/// observer is attached, and the snapshot of the current worker instance.
/// The caller keeps it under one lock together with the OS handles it stands
/// for, so that `running` mirrors "a child process is tracked".
pub struct Supervisor {
    pub running: bool,
    pub attached: bool,
    pub snapshot: Snapshot,
}

impl View for Supervisor {
    type V = SupervisorModel;

    open spec fn view(&self) -> SupervisorModel {
        SupervisorModel { running: self.running, attached: self.attached, snapshot: self.snapshot@ }
    }
}

/// Whether a spawn request proceeds to create a process: only when no worker
/// is tracked, or the tracked one has provably exited. A live worker (or one
/// whose probe failed) makes the request a no-op, so two spawns in a row
/// create exactly one process.
pub open spec fn spawn_proceeds(m: SupervisorModel, probe: Option<ProbeResult>) -> bool {
    !m.running || probe == Some(ProbeResult::Exited)
}

impl Supervisor {
    /// A fresh supervisor: nothing tracked, nobody attached, snapshot unset.
    pub fn new() -> (r: Supervisor)
        ensures
            r@ == (SupervisorModel {
                running: false,
                attached: false,
                snapshot: empty_snapshot(),
            }),
    {
        Supervisor { running: false, attached: false, snapshot: Snapshot::new() }
    }

    /// Decide a spawn request. `probe` is the liveness probe of the tracked
    /// process (`None` when none is tracked or no outcome was obtained).
    /// When the spawn proceeds, any stale process is untracked and the
    /// snapshot is reset for the new worker instance; the caller then creates
    /// the process and reports back through [`Supervisor::confirm_spawn`].
    /// Otherwise the request is a no-op and the state is untouched.
    pub fn begin_spawn(&mut self, probe: Option<ProbeResult>) -> (proceed: bool)
        ensures
            proceed == spawn_proceeds(old(self)@, probe),
            !proceed ==> *final(self) == *old(self),
            proceed ==> final(self)@ == (SupervisorModel {
                running: false,
                attached: old(self)@.attached,
                snapshot: empty_snapshot(),
            }),
    {
        let proceed = match &probe {
            Some(ProbeResult::Alive) => !self.running,
            Some(ProbeResult::Unknown) => !self.running,
            Some(ProbeResult::Exited) => true,
            None => !self.running,
        };
        if proceed {
            self.running = false;
            self.snapshot = Snapshot::new();
        }
        proceed
    }

    /// Record that the worker process was created and both pipes captured.
    pub fn confirm_spawn(&mut self)
        ensures
            final(self)@ == (SupervisorModel { running: true, ..old(self)@ }),
    {
        self.running = true;
    }

    /// Fold one worker output line into the state: decode it, update the
    /// snapshot, and hand back the event to forward — present exactly when
    /// the line decoded and an observer is attached. Malformed lines change
    /// nothing and are never an error.
    pub fn handle_line(&mut self, line: &str) -> (forward: Option<WorkerEvent>)
        ensures
            final(self)@.running == old(self)@.running,
            final(self)@.attached == old(self)@.attached,
            decode_spec(line@) matches Some(e) ==> {
                &&& final(self)@.snapshot == update_spec(old(self)@.snapshot, e)
                &&& (forward is Some <==> old(self)@.attached)
                &&& (forward matches Some(ev) ==> ev@ == e)
            },
            decode_spec(line@) is None ==> *final(self) == *old(self) && forward is None,
    {
        match decode(line) {
            Some(evt) => {
                self.snapshot.update(&evt);
                if self.attached {
                    Some(evt)
                } else {
                    None
                }
            },
            None => None,
        }
    }

    /// Attach the observer (idempotently) and hand back the replay of the
    /// current snapshot, in the fixed replay order, for forwarding.
    pub fn attach(&mut self) -> (replayed: Vec<WorkerEvent>)
        ensures
            final(self)@ == (SupervisorModel { attached: true, ..old(self)@ }),
            events_view(replayed@) == replay_spec(old(self)@.snapshot),
    {
        self.attached = true;
        self.snapshot.replay()
    }

    /// Decide a command send and build its wire line. Succeeds with the
    /// encoded bytes exactly when a worker is tracked; otherwise the caller
    /// gets `NotRunning` back, and no restart is attempted.
    pub fn prepare_send(&self, c: &Command) -> (r: Result<String, SendError>)
        ensures
            r is Ok <==> self@.running,
            r matches Ok(line) ==> line@ == encoded_line(command_text(*c)),
            r matches Err(e) ==> e is NotRunning,
    {
        if self.running {
            let text = render_command(c);
            Ok(encode(text.as_str()))
        } else {
            Err(SendError::NotRunning)
        }
    }

    /// Begin shutting the worker down: untrack the process and detach the
    /// observer, leaving the snapshot as it was. Hands back whether a process
    /// was tracked, i.e. whether the caller has a graceful stop to drive.
    pub fn begin_shutdown(&mut self) -> (was_running: bool)
        ensures
            was_running == old(self)@.running,
            final(self)@ == (SupervisorModel {
                running: false,
                attached: false,
                snapshot: old(self)@.snapshot,
            }),
    {
        let was_running = self.running;
        self.running = false;
        self.attached = false;
        was_running
    }
}

/// Index of the first available candidate, if any: the worker executable is
/// looked for in a fixed priority order, and the first location where it
/// exists wins.
pub fn first_available(found: &Vec<bool>) -> (r: Option<usize>)
    ensures
        r matches Some(i) ==> i < found@.len() && found@[i as int] && (forall|j: int|
            0 <= j < i ==> !found@[j]),
        r is None ==> forall|j: int| 0 <= j < found@.len() ==> !found@[j],
{
    let mut i: usize = 0;
    while i < found.len()
        invariant
            i <= found@.len(),
            forall|j: int| 0 <= j < i ==> !found@[j],
        decreases found@.len() - i,
    {
        if found[i] {
            return Some(i);
        }
        i += 1;
    }
    None
}

} // verus!
