//! The state of the sing-box core process as the client tracks it: whether it
//! runs, its pid and start time, its TUN mode and its recent log lines.
use vstd::prelude::*;
use crate::types::SingboxStatus;

verus! {

/// How many log lines the client keeps.
pub const LOG_CAPACITY: usize = 1000;

/// How many of the oldest lines go when the buffer overflows.
pub const LOG_DRAIN: usize = 100;

/// The tracked state of the core.
#[derive(Debug)]
pub struct SingboxState {
    pub running: bool,
    pub pid: Option<u32>,
    /// When the running core started: milliseconds on a monotonic clock.
    pub start_time: Option<u64>,
    pub version: Option<String>,
    /// Recent stderr lines of the core, oldest first.
    pub logs: Vec<String>,
    /// Whether the running core was started with the TUN inbound.
    pub tun_mode: bool,
}

/// The texts of a list of strings.
pub open spec fn lines_view(v: Seq<String>) -> Seq<Seq<char>> {
    v.map_values(|s: String| s@)
}

/// The log buffer after `line` arrives: appended, and when that makes it
/// longer than the capacity, the oldest lines dropped.
pub open spec fn logs_after(logs: Seq<Seq<char>>, line: Seq<char>) -> Seq<Seq<char>> {
    let l = logs.push(line);
    if l.len() > LOG_CAPACITY {
        l.subrange(LOG_DRAIN as int, l.len() as int)
    } else {
        l
    }
}

impl SingboxState {
    /// The log buffer holds at most its capacity.
    pub open spec fn wf(&self) -> bool {
        self.logs@.len() <= LOG_CAPACITY
    }

    /// Not running, nothing known, no logs.
    pub open spec fn is_initial(&self) -> bool {
        &&& !self.running
        &&& self.pid is None
        &&& self.start_time is None
        &&& self.version is None
        &&& self.logs@.len() == 0
        &&& !self.tun_mode
    }

    /// Records a log line of the core.
    pub fn push_log(&mut self, line: String)
        requires
            old(self).wf(),
        ensures
            final(self).wf(),
            lines_view(final(self).logs@) == logs_after(lines_view(old(self).logs@), line@),
            final(self).running == old(self).running,
            final(self).pid == old(self).pid,
            final(self).start_time == old(self).start_time,
            final(self).version == old(self).version,
            final(self).tun_mode == old(self).tun_mode,
    {
        let ghost before = lines_view(self.logs@);
        self.logs.push(line);
        proof {
            assert(lines_view(self.logs@) =~= before.push(line@));
        }
        if self.logs.len() > LOG_CAPACITY {
            let ghost full = self.logs@;
            let rest = self.logs.split_off(LOG_DRAIN);
            self.logs = rest;
            proof {
                assert(lines_view(self.logs@) =~= lines_view(full).subrange(LOG_DRAIN as int, full.len() as int));
            }
        }
    }

    /// Records that a core process started.
    pub fn mark_started(&mut self, pid: Option<u32>, now: u64, tun: bool)
        ensures
            final(self).running,
            final(self).pid == pid,
            final(self).start_time == Some(now),
            final(self).tun_mode == tun,
            final(self).version == old(self).version,
            final(self).logs@ == old(self).logs@,
    {
        self.running = true;
        self.pid = pid;
        self.start_time = Some(now);
        self.tun_mode = tun;
    }

    /// Records that the core process ended (it exited, or never became
    /// ready): not running, no pid, no start time, not in TUN mode.
    pub fn mark_exited(&mut self)
        ensures
            !final(self).running,
            final(self).pid is None,
            final(self).start_time is None,
            !final(self).tun_mode,
            final(self).version == old(self).version,
            final(self).logs@ == old(self).logs@,
    {
        self.running = false;
        self.pid = None;
        self.start_time = None;
        self.tun_mode = false;
    }

    /// Records a stop request: not running, no pid, no start time (the TUN
    /// flag stays until the process is seen to exit).
    pub fn mark_stopped(&mut self)
        ensures
            !final(self).running,
            final(self).pid is None,
            final(self).start_time is None,
            final(self).tun_mode == old(self).tun_mode,
            final(self).version == old(self).version,
            final(self).logs@ == old(self).logs@,
    {
        self.running = false;
        self.pid = None;
        self.start_time = None;
    }

    /// The status shown to the user at monotonic time `now` (milliseconds):
    /// the uptime is the whole seconds since the start.
    pub fn status(&self, now: u64) -> (r: SingboxStatus)
        ensures
            r.running == self.running,
            r.pid == self.pid,
            r.uptime == match self.start_time {
                Some(t) => Some((if now >= t { (now - t) / 1000 } else { 0 }) as u64),
                None => None,
            },
            match r.version {
                Some(v) => self.version matches Some(w) && v@ == w@,
                None => self.version is None,
            },
    {
        SingboxStatus {
            running: self.running,
            uptime: match self.start_time {
                Some(t) => Some(if now >= t { (now - t) / 1000 } else { 0 }),
                None => None,
            },
            pid: self.pid,
            version: match &self.version {
                Some(v) => Some(v.clone()),
                None => None,
            },
        }
    }

    /// A copy of the log lines.
    pub fn logs_copy(&self) -> (r: Vec<String>)
        ensures
            lines_view(r@) == lines_view(self.logs@),
    {
        let mut out: Vec<String> = Vec::new();
        let mut i: usize = 0;
        while i < self.logs.len()
            invariant
                0 <= i <= self.logs.len(),
                lines_view(out@) == lines_view(self.logs@).subrange(0, i as int),
            decreases self.logs.len() - i,
        {
            let x = self.logs[i].clone();
            proof {
                assert(lines_view(out@.push(x)) =~= lines_view(out@).push(x@));
                assert(lines_view(self.logs@).subrange(0, i + 1) =~= lines_view(self.logs@).subrange(0, i as int).push(self.logs@[i as int]@));
            }
            out.push(x);
            i += 1;
        }
        proof {
            assert(lines_view(self.logs@).subrange(0, i as int) =~= lines_view(self.logs@));
        }
        out
    }
}

impl Default for SingboxState {
    fn default() -> (r: SingboxState)
        ensures
            r.is_initial(),
            r.wf(),
    {
        SingboxState { running: false, pid: None, start_time: None, version: None, logs: Vec::new(), tun_mode: false }
    }
}

/// The state of a core that has not been started yet.
pub fn new_shared_state() -> (r: SingboxState)
    ensures
        r.is_initial(),
        r.wf(),
{
    SingboxState::default()
}

/// Why the core could not be started.
#[derive(Debug, Clone, Copy, PartialEq, Eq, Structural)]
pub enum StartError {
    /// A core is already running.
    AlreadyRunning,
    /// The core never accepted connections on its control port.
    NotReady,
    /// TUN mode without administrator/root rights.
    NotElevated,
    /// TUN mode on Windows without the WinTun driver.
    WintunMissing,
}

/// A new core may start only when none runs.
pub fn check_can_start(state: &SingboxState) -> (r: Result<(), StartError>)
    ensures
        r is Ok <==> !state.running,
        r matches Err(e) ==> e == StartError::AlreadyRunning,
{
    if state.running {
        Err(StartError::AlreadyRunning)
    } else {
        Ok(())
    }
}

/// The tray's two check marks, (system proxy, TUN): at most one is set, and
/// neither while the core is not running. TUN is checked while a core in TUN
/// mode runs; the system proxy is checked while the core runs, the system
/// proxy is on and TUN is not.
pub fn tray_checks(running: bool, tun_mode: bool, sys_on: bool) -> (r: (bool, bool))
    ensures
        r.1 == (running && tun_mode),
        r.0 == (running && sys_on && !r.1),
        !(r.0 && r.1),
        !running ==> !r.0 && !r.1,
{
    let in_tun = running && tun_mode;
    (running && sys_on && !in_tun, in_tun)
}

/// The first line of the core's `version` output, or `unknown`.
pub fn version_line(stdout: &str) -> (r: String)
    ensures
        r@ == {
            let ls = crate::text::lines(stdout@);
            if ls.len() > 0 { ls[0] } else { "unknown"@ }
        },
{
    let ls = crate::text::lines_of(crate::text::chars_of(stdout).as_slice());
    if ls.len() > 0 {
        proof {
            assert(crate::text::views_of(ls@)[0] == ls@[0]@);
        }
        crate::text::string_of(ls[0].as_slice())
    } else {
        "unknown".to_string()
    }
}

/// The first line of a command's output, if it has one.
pub fn first_line(stdout: &str) -> (r: Option<String>)
    ensures
        crate::external::opt_view(r) == {
            let ls = crate::text::lines(stdout@);
            if ls.len() > 0 { Some(ls[0]) } else { None }
        },
{
    let ls = crate::text::lines_of(crate::text::chars_of(stdout).as_slice());
    if ls.len() > 0 {
        proof {
            assert(crate::text::views_of(ls@)[0] == ls@[0]@);
        }
        Some(crate::text::string_of(ls[0].as_slice()))
    } else {
        None
    }
}

/// Keeping the state well formed: after any sequence of log lines the
/// buffer never holds more than its capacity, and the newest line is last.
pub proof fn lemma_log_buffer_bounded(logs: Seq<Seq<char>>, line: Seq<char>)
    requires
        logs.len() <= LOG_CAPACITY,
    ensures
        logs_after(logs, line).len() <= LOG_CAPACITY,
        logs_after(logs, line).last() == line,
        logs_after(logs, line).len() > 0,
{
}

} // verus!
