use skylark::core_state::{
    check_can_start, first_line, new_shared_state, tray_checks, version_line, SingboxState, StartError, LOG_CAPACITY,
    LOG_DRAIN,
};
use skylark::schedule::{app_update_available, core_update_notice, due_subscriptions, last_word_of, whole_hours, CoreNotice};
use skylark::types::{SubType, Subscription, UtcTime};

#[test]
fn log_buffer_drops_oldest_hundred() {
    let mut s = new_shared_state();
    for i in 0..LOG_CAPACITY {
        s.push_log(format!("line {}", i));
    }
    assert_eq!(s.logs.len(), 1000);
    s.push_log("line 1000".to_string());
    assert_eq!(s.logs.len(), 1001 - LOG_DRAIN);
    assert_eq!(s.logs.len(), 901);
    assert_eq!(s.logs[0], "line 100");
    assert_eq!(s.logs.last().unwrap(), "line 1000");
    assert_eq!(s.logs_copy(), s.logs);
}

#[test]
fn lifecycle_and_status() {
    let mut s = SingboxState::default();
    assert!(!s.running);
    assert_eq!(check_can_start(&s), Ok(()));
    s.mark_started(Some(42), 10_000, true);
    assert!(s.running);
    assert_eq!(check_can_start(&s), Err(StartError::AlreadyRunning));
    s.version = Some("sing-box version 1.10.0".to_string());
    let st = s.status(73_500);
    assert!(st.running);
    assert_eq!(st.pid, Some(42));
    assert_eq!(st.uptime, Some(63));
    assert_eq!(st.version.as_deref(), Some("sing-box version 1.10.0"));
    assert_eq!(s.status(5_000).uptime, Some(0));
    s.mark_exited();
    assert!(!s.running);
    assert_eq!(s.pid, None);
    assert_eq!(s.status(80_000).uptime, None);
    s.mark_started(Some(7), 0, false);
    s.mark_stopped();
    assert!(!s.running);
    assert_eq!(s.pid, None);
}

#[test]
fn tray_items_exclusive() {
    assert_eq!(tray_checks(true, true, true), (false, true));
    assert_eq!(tray_checks(true, false, true), (true, false));
    assert_eq!(tray_checks(false, true, true), (false, false));
    assert_eq!(tray_checks(false, false, true), (false, false));
    assert_eq!(tray_checks(false, false, false), (false, false));
}

#[test]
fn version_lines() {
    assert_eq!(version_line("sing-box version 1.10.1\nEnvironment: go\n"), "sing-box version 1.10.1");
    assert_eq!(version_line(""), "unknown");
    assert_eq!(first_line("a\nb"), Some("a".to_string()));
    assert_eq!(first_line(""), None);
}

#[test]
fn whole_hours_rounds_toward_zero() {
    let t = |secs: i64, nanos: u32| UtcTime { secs, nanos };
    assert_eq!(whole_hours(t(7200, 0), t(0, 0)), 2);
    assert_eq!(whole_hours(t(7199, 999_999_999), t(0, 0)), 1);
    assert_eq!(whole_hours(t(0, 0), t(7200, 0)), -2);
    assert_eq!(whole_hours(t(0, 0), t(3599, 0)), 0);
    assert_eq!(whole_hours(t(0, 0), t(3600, 1)), -1);
    assert_eq!(whole_hours(t(3600, 0), t(0, 1)), 0);
}

fn sub(id: &str, auto: bool, interval: u32, last: Option<i64>) -> Subscription {
    Subscription {
        id: id.to_string(),
        name: id.to_uppercase(),
        url: format!("https://example.com/{}", id),
        sub_type: SubType::V2ray,
        node_count: 1,
        last_update: last.map(|s| UtcTime { secs: s, nanos: 0 }),
        auto_update: auto,
        update_interval: interval,
    }
}

#[test]
fn due_subscription_selection() {
    let now = UtcTime { secs: 10 * 3600, nanos: 0 };
    let subs = vec![
        sub("never", true, 24, None),
        sub("old", true, 6, Some(3 * 3600)),
        sub("fresh", true, 12, Some(3 * 3600)),
        sub("off", false, 1, None),
        sub("zero", true, 0, None),
        sub("exact", true, 10, Some(0)),
    ];
    let due = due_subscriptions(&subs, now);
    let ids: Vec<&str> = due.iter().map(|(i, _)| i.as_str()).collect();
    assert_eq!(ids, vec!["never", "old", "exact"]);
    assert_eq!(due[1].1, "https://example.com/old");
}

#[test]
fn update_notices() {
    assert_eq!(last_word_of("sing-box version 1.10.0"), "1.10.0");
    assert_eq!(last_word_of("  x  y \n"), "y");
    assert_eq!(last_word_of("   "), "");
    assert_eq!(core_update_notice(None, "v1.10.0"), CoreNotice::NotInstalled);
    assert_eq!(core_update_notice(Some("   "), "v1.10.0"), CoreNotice::NotInstalled);
    assert_eq!(core_update_notice(Some("sing-box version 1.9.0"), "v1.10.0"), CoreNotice::UpdateAvailable);
    assert_eq!(core_update_notice(Some("sing-box version 1.10.0"), "v1.10.0"), CoreNotice::UpToDate);
    assert!(app_update_available("v0.3.0", "0.2.9"));
    assert!(!app_update_available("v0.3.0", "0.3.0"));
    assert!(!app_update_available("vv0.3.0", "0.3.0"));
}

#[test]
fn refreshed_subscription_waits_for_its_interval() {
    let t0 = UtcTime { secs: 1_000_000, nanos: 0 };
    let mut subs = vec![sub("s", true, 2, None)];
    assert_eq!(due_subscriptions(&subs, t0).len(), 1);
    skylark::client::record_refresh(&mut subs, "s", SubType::V2ray, 3, t0).unwrap();
    assert!(due_subscriptions(&subs, t0).is_empty());
    let t1 = UtcTime { secs: 1_000_000 + 2 * 3600 - 1, nanos: 999_999_999 };
    assert!(due_subscriptions(&subs, t1).is_empty());
    let t2 = UtcTime { secs: 1_000_000 + 2 * 3600, nanos: 0 };
    assert_eq!(due_subscriptions(&subs, t2).len(), 1);
    let t3 = UtcTime { secs: 1_000_000 + 9 * 3600, nanos: 5 };
    assert_eq!(due_subscriptions(&subs, t3).len(), 1);
}
