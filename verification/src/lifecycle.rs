//! Stopping and starting the core process. Each procedure alternates work
//! on the host (signals, sleeps, connection probes) with decisions; the
//! decisions are a function from where the procedure stands and what the
//! last piece of work reported to the next stage and the next thing to do.
use vstd::prelude::*;
use crate::updater::Platform;

verus! {

// ─── Stopping ─────────────────────────────────────────────────────────

/// Where a stop stands.
#[derive(Debug, Clone, Copy, PartialEq, Eq, Structural)]
pub enum StopStage {
    /// Nothing done yet.
    Idle,
    /// A console Ctrl+C was sent to the core (Windows).
    CtrlCSent,
    /// A termination signal was sent.
    TermSent,
    /// Waiting for the core to exit; this many more waits may follow.
    Waiting(u32),
    /// A forced kill was sent.
    KillSent,
    /// The stop is complete.
    Done,
}

/// A stop in progress: the platform, whether it is graceful (a core in TUN
/// mode gets time to remove its adapter and routes), whether a core process
/// is known, and the stage.
#[derive(Debug, Clone, Copy, PartialEq, Eq, Structural)]
pub struct StopState {
    pub platform: Platform,
    pub graceful: bool,
    pub has_pid: bool,
    pub stage: StopStage,
}

/// What the last piece of work reported.
#[derive(Debug, Clone, Copy, PartialEq, Eq, Structural)]
pub enum StopEvent {
    /// The stop was requested.
    Begin,
    /// The signal or kill command ran; for a Ctrl+C, whether it was delivered.
    CommandDone(bool),
    /// A wait ended; whether the core still runs.
    Polled(bool),
}

/// The next thing to do.
#[derive(Debug, Clone, Copy, PartialEq, Eq, Structural)]
pub enum StopAction {
    /// Deliver a console Ctrl+C to the core's process (Windows).
    CtrlC,
    /// `taskkill /PID <pid> /F` (Windows).
    TaskKill,
    /// Send SIGTERM to the root-owned TUN core through `sudo -n pkill -TERM` (macOS).
    PkillTerm,
    /// Send SIGKILL to the root-owned TUN core through `sudo -n pkill -KILL` (macOS).
    PkillKill,
    /// `kill -SIGTERM <pid>`.
    KillTerm,
    /// `kill -SIGKILL <pid>`.
    KillKill,
    /// Sleep 50 ms, then report whether the core still runs.
    Wait,
    /// Record the core as stopped (not running, no pid, no start time).
    Finish,
}

/// How many 50 ms waits a graceful stop allows: about three seconds on
/// Windows and macOS, one and a half on Linux.
pub open spec fn wait_budget(platform: Platform) -> u32 {
    match platform {
        Platform::Linux => 30,
        _ => 60,
    }
}

/// The stop at another stage.
pub open spec fn at_stage(s: StopState, stage: StopStage) -> StopState {
    StopState { stage, ..s }
}

/// The forced kill after a graceful stop whose core did not exit in time:
/// `taskkill /F` on Windows, `pkill -KILL` on macOS; Linux leaves it.
pub open spec fn after_timeout(s: StopState) -> (StopState, StopAction) {
    match s.platform {
        Platform::Windows => (at_stage(s, StopStage::KillSent), StopAction::TaskKill),
        Platform::MacOs => (at_stage(s, StopStage::KillSent), StopAction::PkillKill),
        Platform::Linux => (at_stage(s, StopStage::Done), StopAction::Finish),
    }
}

/// One step of a stop. Without a known process there is nothing to
/// signal. A graceful stop sends Ctrl+C (Windows; a failed delivery falls
/// back to `taskkill /F`) or SIGTERM, waits for the exit, and on Windows and
/// macOS kills the core when it did not exit; a forced stop kills at once.
/// An event that does not answer the last action ends the stop.
pub open spec fn stop_next(s: StopState, e: StopEvent) -> (StopState, StopAction) {
    match (s.stage, e) {
        (StopStage::Idle, StopEvent::Begin) => if !s.has_pid {
            (at_stage(s, StopStage::Done), StopAction::Finish)
        } else {
            match s.platform {
                Platform::Windows => if s.graceful {
                    (at_stage(s, StopStage::CtrlCSent), StopAction::CtrlC)
                } else {
                    (at_stage(s, StopStage::KillSent), StopAction::TaskKill)
                },
                Platform::MacOs => if s.graceful {
                    (at_stage(s, StopStage::TermSent), StopAction::PkillTerm)
                } else {
                    (at_stage(s, StopStage::KillSent), StopAction::KillKill)
                },
                Platform::Linux => if s.graceful {
                    (at_stage(s, StopStage::TermSent), StopAction::KillTerm)
                } else {
                    (at_stage(s, StopStage::KillSent), StopAction::KillKill)
                },
            }
        },
        (StopStage::CtrlCSent, StopEvent::CommandDone(ok)) => if ok {
            (at_stage(s, StopStage::Waiting((wait_budget(s.platform) - 1) as u32)), StopAction::Wait)
        } else {
            (at_stage(s, StopStage::KillSent), StopAction::TaskKill)
        },
        (StopStage::TermSent, StopEvent::CommandDone(_)) =>
            (at_stage(s, StopStage::Waiting((wait_budget(s.platform) - 1) as u32)), StopAction::Wait),
        (StopStage::Waiting(n), StopEvent::Polled(running)) => if !running {
            (at_stage(s, StopStage::Done), StopAction::Finish)
        } else if n > 0 {
            (at_stage(s, StopStage::Waiting((n - 1) as u32)), StopAction::Wait)
        } else {
            after_timeout(s)
        },
        (StopStage::KillSent, StopEvent::CommandDone(_)) => (at_stage(s, StopStage::Done), StopAction::Finish),
        _ => (at_stage(s, StopStage::Done), StopAction::Finish),
    }
}

/// A stop that has not started.
pub fn new_stop(platform: Platform, graceful: bool, has_pid: bool) -> (r: StopState)
    ensures
        r == (StopState { platform, graceful, has_pid, stage: StopStage::Idle }),
{
    StopState { platform, graceful, has_pid, stage: StopStage::Idle }
}

fn budget_of(platform: Platform) -> (r: u32)
    ensures
        r == wait_budget(platform),
{
    match platform {
        Platform::Linux => 30,
        _ => 60,
    }
}

fn stage_of(s: StopState, stage: StopStage) -> (r: StopState)
    ensures
        r == at_stage(s, stage),
{
    StopState { stage, ..s }
}

/// One step of a stop.
pub fn stop_step(s: StopState, e: StopEvent) -> (r: (StopState, StopAction))
    ensures
        r == stop_next(s, e),
{
    match (s.stage, e) {
        (StopStage::Idle, StopEvent::Begin) => {
            if !s.has_pid {
                (stage_of(s, StopStage::Done), StopAction::Finish)
            } else {
                match s.platform {
                    Platform::Windows => if s.graceful {
                        (stage_of(s, StopStage::CtrlCSent), StopAction::CtrlC)
                    } else {
                        (stage_of(s, StopStage::KillSent), StopAction::TaskKill)
                    },
                    Platform::MacOs => if s.graceful {
                        (stage_of(s, StopStage::TermSent), StopAction::PkillTerm)
                    } else {
                        (stage_of(s, StopStage::KillSent), StopAction::KillKill)
                    },
                    Platform::Linux => if s.graceful {
                        (stage_of(s, StopStage::TermSent), StopAction::KillTerm)
                    } else {
                        (stage_of(s, StopStage::KillSent), StopAction::KillKill)
                    },
                }
            }
        },
        (StopStage::CtrlCSent, StopEvent::CommandDone(ok)) => {
            if ok {
                (stage_of(s, StopStage::Waiting(budget_of(s.platform) - 1)), StopAction::Wait)
            } else {
                (stage_of(s, StopStage::KillSent), StopAction::TaskKill)
            }
        },
        (StopStage::TermSent, StopEvent::CommandDone(_)) => {
            (stage_of(s, StopStage::Waiting(budget_of(s.platform) - 1)), StopAction::Wait)
        },
        (StopStage::Waiting(n), StopEvent::Polled(running)) => {
            if !running {
                (stage_of(s, StopStage::Done), StopAction::Finish)
            } else if n > 0 {
                (stage_of(s, StopStage::Waiting(n - 1)), StopAction::Wait)
            } else {
                match s.platform {
                    Platform::Windows => (stage_of(s, StopStage::KillSent), StopAction::TaskKill),
                    Platform::MacOs => (stage_of(s, StopStage::KillSent), StopAction::PkillKill),
                    Platform::Linux => (stage_of(s, StopStage::Done), StopAction::Finish),
                }
            }
        },
        (StopStage::KillSent, StopEvent::CommandDone(_)) => (stage_of(s, StopStage::Done), StopAction::Finish),
        _ => (stage_of(s, StopStage::Done), StopAction::Finish),
    }
}

/// An upper bound on the steps a stop still takes.
pub open spec fn stop_measure(stage: StopStage) -> nat {
    match stage {
        StopStage::Idle => 63,
        StopStage::CtrlCSent => 62,
        StopStage::TermSent => 62,
        StopStage::Waiting(n) => (n + 2) as nat,
        StopStage::KillSent => 1,
        StopStage::Done => 0,
    }
}

/// Every stop ends, and ends by finishing: each step of a stop that is not
/// done brings it strictly closer to the end (at most 63 steps from the
/// start), the step that finishes is exactly the one that reaches `Done`,
/// and a graceful Windows or macOS stop whose core outlives the last wait
/// kills it.
pub proof fn lemma_stop_terminates(s: StopState, e: StopEvent)
    requires
        s.stage != StopStage::Done,
        s.stage is Waiting ==> s.stage->Waiting_0 < 60,
    ensures
        stop_measure(stop_next(s, e).0.stage) < stop_measure(s.stage),
        stop_measure(s.stage) <= 63,
        (stop_next(s, e).1 == StopAction::Finish) <==> (stop_next(s, e).0.stage == StopStage::Done),
        stop_next(s, e).0.stage is Waiting ==> stop_next(s, e).0.stage->Waiting_0 < 60,
        (s.stage == StopStage::Waiting(0) && e == StopEvent::Polled(true) && s.platform != Platform::Linux)
            ==> stop_next(s, e).1 != StopAction::Finish,
{
}

// ─── Starting ─────────────────────────────────────────────────────────

/// How many times the control port is probed before the start fails.
pub const READY_PROBES: u32 = 40;

/// Where a start stands.
#[derive(Debug, Clone, Copy, PartialEq, Eq, Structural)]
pub enum StartStage {
    /// Nothing done yet.
    Idle,
    /// Leftover core processes are being killed.
    Cleaning,
    /// Giving the ports of killed leftovers time to close.
    Settling,
    /// The core was asked to spawn.
    Spawning,
    /// Probe number `k` of the control port runs.
    Probing(u32),
    /// Pausing after failed probe number `k`.
    Pausing(u32),
    /// The port never answered; leftovers are being killed.
    FailCleaning,
    /// The port never answered; ports of killed leftovers are closing.
    FailSettling,
    /// The start is over.
    Done,
}

/// What the last piece of work reported.
#[derive(Debug, Clone, Copy, PartialEq, Eq, Structural)]
pub enum StartEvent {
    /// The start was requested; whether a core already runs.
    Begin(bool),
    /// The leftover processes were killed; whether there were any.
    OrphansKilled(bool),
    /// A pause ended.
    Paused,
    /// The spawn was handed off (the core records itself as running once it spawns).
    Spawned,
    /// A probe of the control port (200 ms at most) ended; whether it connected.
    Probed(bool),
}

/// The next thing to do.
#[derive(Debug, Clone, Copy, PartialEq, Eq, Structural)]
pub enum StartAction {
    /// Fail: a core already runs.
    Refuse,
    /// Kill leftover core processes and report whether there were any.
    KillOrphans,
    /// Sleep this many milliseconds.
    Pause(u32),
    /// Spawn the core in the background.
    Spawn,
    /// Try to connect to the control port.
    Probe,
    /// The core is up.
    Succeed,
    /// Record the core as exited and fail: it never became ready.
    Fail,
}

/// One step of a start. A start is refused while a core runs; otherwise
/// leftover cores are killed (and their ports given 300 ms when there were
/// any), the core is spawned and its control port probed up to forty times
/// with 50 ms pauses between the probes and after the last one. The start
/// succeeds at the first probe that connects; when none does, leftovers are
/// killed again (300 ms for their ports) and the start fails. An event that
/// does not answer the last action ends the start as failed.
pub open spec fn start_next(stage: StartStage, e: StartEvent) -> (StartStage, StartAction) {
    match (stage, e) {
        (StartStage::Idle, StartEvent::Begin(running)) => if running {
            (StartStage::Done, StartAction::Refuse)
        } else {
            (StartStage::Cleaning, StartAction::KillOrphans)
        },
        (StartStage::Cleaning, StartEvent::OrphansKilled(killed)) => if killed {
            (StartStage::Settling, StartAction::Pause(300))
        } else {
            (StartStage::Spawning, StartAction::Spawn)
        },
        (StartStage::Settling, StartEvent::Paused) => (StartStage::Spawning, StartAction::Spawn),
        (StartStage::Spawning, StartEvent::Spawned) => (StartStage::Probing(1), StartAction::Probe),
        (StartStage::Probing(k), StartEvent::Probed(ok)) => if ok {
            (StartStage::Done, StartAction::Succeed)
        } else {
            (StartStage::Pausing(k), StartAction::Pause(50))
        },
        (StartStage::Pausing(k), StartEvent::Paused) => if k < READY_PROBES {
            (StartStage::Probing((k + 1) as u32), StartAction::Probe)
        } else {
            (StartStage::FailCleaning, StartAction::KillOrphans)
        },
        (StartStage::FailCleaning, StartEvent::OrphansKilled(killed)) => if killed {
            (StartStage::FailSettling, StartAction::Pause(300))
        } else {
            (StartStage::Done, StartAction::Fail)
        },
        (StartStage::FailSettling, StartEvent::Paused) => (StartStage::Done, StartAction::Fail),
        _ => (StartStage::Done, StartAction::Fail),
    }
}

/// One step of a start.
pub fn start_step(stage: StartStage, e: StartEvent) -> (r: (StartStage, StartAction))
    ensures
        r == start_next(stage, e),
{
    match (stage, e) {
        (StartStage::Idle, StartEvent::Begin(running)) => {
            if running {
                (StartStage::Done, StartAction::Refuse)
            } else {
                (StartStage::Cleaning, StartAction::KillOrphans)
            }
        },
        (StartStage::Cleaning, StartEvent::OrphansKilled(killed)) => {
            if killed {
                (StartStage::Settling, StartAction::Pause(300))
            } else {
                (StartStage::Spawning, StartAction::Spawn)
            }
        },
        (StartStage::Settling, StartEvent::Paused) => (StartStage::Spawning, StartAction::Spawn),
        (StartStage::Spawning, StartEvent::Spawned) => (StartStage::Probing(1), StartAction::Probe),
        (StartStage::Probing(k), StartEvent::Probed(ok)) => {
            if ok {
                (StartStage::Done, StartAction::Succeed)
            } else {
                (StartStage::Pausing(k), StartAction::Pause(50))
            }
        },
        (StartStage::Pausing(k), StartEvent::Paused) => {
            if k < READY_PROBES {
                (StartStage::Probing(k + 1), StartAction::Probe)
            } else {
                (StartStage::FailCleaning, StartAction::KillOrphans)
            }
        },
        (StartStage::FailCleaning, StartEvent::OrphansKilled(killed)) => {
            if killed {
                (StartStage::FailSettling, StartAction::Pause(300))
            } else {
                (StartStage::Done, StartAction::Fail)
            }
        },
        (StartStage::FailSettling, StartEvent::Paused) => (StartStage::Done, StartAction::Fail),
        _ => (StartStage::Done, StartAction::Fail),
    }
}

/// Probes not yet made: `40 - k` for probe `k` (none past the last).
pub open spec fn probes_after(k: u32) -> nat {
    if k <= READY_PROBES { (READY_PROBES - k) as nat } else { 0 }
}

/// An upper bound on the steps a start still takes.
pub open spec fn start_measure(stage: StartStage) -> nat {
    match stage {
        StartStage::Idle => 100,
        StartStage::Cleaning => 90,
        StartStage::Settling => 89,
        StartStage::Spawning => 88,
        StartStage::Probing(k) => 2 * probes_after(k) + 6,
        StartStage::Pausing(k) => 2 * probes_after(k) + 5,
        StartStage::FailCleaning => 4,
        StartStage::FailSettling => 3,
        StartStage::Done => 0,
    }
}

/// Every start ends: each step of a start that is not over brings it
/// strictly closer to the end (at most 100 steps); it succeeds only on a
/// probe that connected, and probes the port at most forty times.
pub proof fn lemma_start_terminates(stage: StartStage, e: StartEvent)
    requires
        stage != StartStage::Done,
    ensures
        start_measure(start_next(stage, e).0) < start_measure(stage),
        start_measure(stage) <= 100,
        start_next(stage, e).1 == StartAction::Succeed ==> (stage is Probing && e == StartEvent::Probed(true)),
        (start_next(stage, e).0 is Probing && stage !is Pausing) ==> start_next(stage, e).0->Probing_0 == 1,
        (stage is Probing && start_next(stage, e).0 is Pausing) ==> start_next(stage, e).0->Pausing_0 == stage->Probing_0,
        (stage is Pausing && start_next(stage, e).0 is Probing) ==> (start_next(stage, e).0->Probing_0 == stage->Pausing_0 + 1
            && start_next(stage, e).0->Probing_0 <= READY_PROBES),
{
}

// ─── The core's command line ──────────────────────────────────────────

/// The arguments that run the core with a configuration file.
pub open spec fn run_args(config: Seq<char>) -> Seq<Seq<char>> {
    seq!["run"@, "-c"@, config]
}

/// The program and arguments that start the core: on macOS in TUN mode the
/// root-owned core at `root_core` through passwordless `sudo -n`, otherwise
/// the core binary itself.
pub open spec fn core_invocation(platform: Platform, tun_mode: bool, binary: Seq<char>, root_core: Seq<char>, config: Seq<char>) -> (Seq<char>, Seq<Seq<char>>) {
    if platform == Platform::MacOs && tun_mode {
        ("sudo"@, seq!["-n"@, root_core] + run_args(config))
    } else {
        (binary, run_args(config))
    }
}

/// The program and arguments that start the core.
pub fn core_command(platform: Platform, tun_mode: bool, binary: &str, root_core: &str, config: &str) -> (r: (String, Vec<String>))
    ensures
        (r.0@, crate::json::strs_view(r.1@)) == core_invocation(platform, tun_mode, binary@, root_core@, config@),
{
    let mut args: Vec<String> = Vec::new();
    let program = match platform {
        Platform::MacOs if tun_mode => {
            args.push("-n".to_string());
            args.push(root_core.to_string());
            "sudo".to_string()
        },
        _ => binary.to_string(),
    };
    let ghost pre = crate::json::strs_view(args@);
    args.push("run".to_string());
    args.push("-c".to_string());
    args.push(config.to_string());
    proof {
        assert(crate::json::strs_view(args@) =~= pre + run_args(config@));
        if platform == Platform::MacOs && tun_mode {
            assert(pre =~= seq!["-n"@, root_core@]);
        } else {
            assert(pre =~= Seq::<Seq<char>>::empty());
        }
    }
    (program, args)
}

/// The core binary to run: the downloaded one when it exists, else the
/// bundled one when that exists; otherwise the error names the download path.
pub fn choose_core_binary(downloaded: &str, downloaded_exists: bool, bundled: &str, bundled_exists: bool) -> (r: Result<String, String>)
    ensures
        downloaded_exists ==> (r matches Ok(p) && p@ == downloaded@),
        !downloaded_exists && bundled_exists ==> (r matches Ok(p) && p@ == bundled@),
        !downloaded_exists && !bundled_exists ==> (r matches Err(p) && p@ == downloaded@),
{
    if downloaded_exists {
        Ok(downloaded.to_string())
    } else if bundled_exists {
        Ok(bundled.to_string())
    } else {
        Err(downloaded.to_string())
    }
}

} // verus!
