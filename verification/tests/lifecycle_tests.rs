use skylark::lifecycle::{
    choose_core_binary, core_command, new_stop, start_step, stop_step, StartAction, StartEvent, StartStage,
    StopAction, StopEvent, StopStage,
};
use skylark::system::{app_cache_path, bundled_core_path, cache_path};
use skylark::updater::Platform;

/// Runs a stop to its end, answering each wait with `still_running(wait_no)`
/// and each command with `delivered`; returns the actions taken.
fn run_stop(platform: Platform, graceful: bool, has_pid: bool, delivered: bool, exits_after: Option<u32>) -> Vec<StopAction> {
    let mut s = new_stop(platform, graceful, has_pid);
    let mut e = StopEvent::Begin;
    let mut actions = Vec::new();
    let mut waits = 0u32;
    for _ in 0..100 {
        let (next, a) = stop_step(s, e);
        s = next;
        actions.push(a);
        e = match a {
            StopAction::Finish => break,
            StopAction::Wait => {
                waits += 1;
                StopEvent::Polled(exits_after.map_or(true, |n| waits < n))
            },
            _ => StopEvent::CommandDone(delivered),
        };
    }
    assert_eq!(s.stage, StopStage::Done);
    actions
}

fn count(actions: &[StopAction], a: StopAction) -> usize {
    actions.iter().filter(|x| **x == a).count()
}

#[test]
fn stop_without_process_finishes_at_once() {
    assert_eq!(run_stop(Platform::Windows, true, false, true, None), vec![StopAction::Finish]);
}

#[test]
fn forced_stops_kill_at_once() {
    assert_eq!(run_stop(Platform::Windows, false, true, true, None), vec![StopAction::TaskKill, StopAction::Finish]);
    assert_eq!(run_stop(Platform::MacOs, false, true, true, None), vec![StopAction::KillKill, StopAction::Finish]);
    assert_eq!(run_stop(Platform::Linux, false, true, true, None), vec![StopAction::KillKill, StopAction::Finish]);
}

#[test]
fn graceful_windows_stop() {
    let a = run_stop(Platform::Windows, true, true, true, Some(3));
    assert_eq!(a, vec![StopAction::CtrlC, StopAction::Wait, StopAction::Wait, StopAction::Wait, StopAction::Finish]);
    let never = run_stop(Platform::Windows, true, true, true, None);
    assert_eq!(count(&never, StopAction::Wait), 60);
    assert_eq!(&never[never.len() - 2..], &[StopAction::TaskKill, StopAction::Finish]);
    let undelivered = run_stop(Platform::Windows, true, true, false, None);
    assert_eq!(undelivered, vec![StopAction::CtrlC, StopAction::TaskKill, StopAction::Finish]);
}

#[test]
fn graceful_unix_stops() {
    let mac = run_stop(Platform::MacOs, true, true, true, None);
    assert_eq!(mac[0], StopAction::PkillTerm);
    assert_eq!(count(&mac, StopAction::Wait), 60);
    assert_eq!(&mac[mac.len() - 2..], &[StopAction::PkillKill, StopAction::Finish]);
    let linux = run_stop(Platform::Linux, true, true, true, None);
    assert_eq!(linux[0], StopAction::KillTerm);
    assert_eq!(count(&linux, StopAction::Wait), 30);
    assert_eq!(linux.last(), Some(&StopAction::Finish));
    assert_eq!(count(&linux, StopAction::KillKill), 0);
}

fn run_start(running: bool, orphans: bool, ready_at: Option<u32>) -> Vec<StartAction> {
    let mut st = StartStage::Idle;
    let mut e = StartEvent::Begin(running);
    let mut out = Vec::new();
    let mut probes = 0u32;
    for _ in 0..200 {
        let (next, a) = start_step(st, e);
        st = next;
        out.push(a);
        e = match a {
            StartAction::Refuse | StartAction::Succeed | StartAction::Fail => break,
            StartAction::KillOrphans => StartEvent::OrphansKilled(orphans),
            StartAction::Pause(_) => StartEvent::Paused,
            StartAction::Spawn => StartEvent::Spawned,
            StartAction::Probe => {
                probes += 1;
                StartEvent::Probed(ready_at.map_or(false, |n| probes >= n))
            },
        };
    }
    assert_eq!(st, StartStage::Done);
    out
}

#[test]
fn start_procedures() {
    assert_eq!(run_start(true, false, Some(1)), vec![StartAction::Refuse]);
    assert_eq!(run_start(false, false, Some(1)), vec![StartAction::KillOrphans, StartAction::Spawn, StartAction::Probe, StartAction::Succeed]);
    assert_eq!(
        run_start(false, true, Some(2)),
        vec![
            StartAction::KillOrphans,
            StartAction::Pause(300),
            StartAction::Spawn,
            StartAction::Probe,
            StartAction::Pause(50),
            StartAction::Probe,
            StartAction::Succeed
        ]
    );
    let never = run_start(false, false, None);
    assert_eq!(never.iter().filter(|a| **a == StartAction::Probe).count(), 40);
    assert_eq!(&never[never.len() - 3..], &[StartAction::Pause(50), StartAction::KillOrphans, StartAction::Fail]);
    let never2 = run_start(false, true, None);
    assert_eq!(&never2[never2.len() - 3..], &[StartAction::KillOrphans, StartAction::Pause(300), StartAction::Fail]);
    // an answer to the wrong question ends the start
    assert_eq!(start_step(StartStage::Spawning, StartEvent::Paused), (StartStage::Done, StartAction::Fail));
}

#[test]
fn core_command_lines() {
    let (p, a) = core_command(Platform::Linux, true, "/d/bin/sing-box", "/root/core", "/d/config.json");
    assert_eq!(p, "/d/bin/sing-box");
    assert_eq!(a, vec!["run", "-c", "/d/config.json"]);
    let (p, a) = core_command(Platform::MacOs, true, "/d/bin/sing-box", "/root/core", "/d/config.json");
    assert_eq!(p, "sudo");
    assert_eq!(a, vec!["-n", "/root/core", "run", "-c", "/d/config.json"]);
    let (p, _) = core_command(Platform::MacOs, false, "/d/bin/sing-box", "/root/core", "/d/c.json");
    assert_eq!(p, "/d/bin/sing-box");
    assert_eq!(choose_core_binary("/u", true, "/b", true), Ok("/u".to_string()));
    assert_eq!(choose_core_binary("/u", false, "/b", true), Ok("/b".to_string()));
    assert_eq!(choose_core_binary("/u", false, "/b", false), Err("/u".to_string()));
}

#[test]
fn cache_and_bundle_paths() {
    assert_eq!(cache_path("/d", false), "/d/update_cache.json");
    assert_eq!(app_cache_path("/d", "beta", false), "/d/app_update_cache_beta.json");
    assert_eq!(app_cache_path("C:\\D", "stable", true), "C:\\D\\app_update_cache_stable.json");
    assert_eq!(bundled_core_path("/res", Platform::Linux), "/res/binaries/sing-box");
    assert_eq!(bundled_core_path("C:\\res", Platform::Windows), "C:\\res\\binaries/sing-box.exe");
}
