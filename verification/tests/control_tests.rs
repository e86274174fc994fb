use skylark::control::{
    activate_node, active_proxy_of, active_tag, begin_mode_switch, check_delay_test, check_tun_start,
    connections_from, deactivate_all, delay_test_members, download_kbps, find_node, node_endpoint,
    parse_connection_mode, parse_proxy_mode, proxy_latency_ms, record_proxy_state, record_test,
    restore_active_flags, restore_mode, set_active_tag, system_proxy_port, tcp_latency_ms,
    traffic_total_from, wants_system_proxy, ConnMode, DelayTestError, SystemProxyError,
};
use skylark::control::{is_just_upgraded, merge_runtime_fields, restore_attempts};
use skylark::core_state::StartError;
use skylark::system::{registry_proxy_enabled, set_system_proxy};
use skylark::json::Json;
use skylark::system::fresh_config;
use skylark::types::{ProxyMode, ProxyNode};

fn to_json(v: &serde_json::Value) -> Json {
    match v {
        serde_json::Value::Null => Json::Null,
        serde_json::Value::Bool(b) => Json::Bool(*b),
        serde_json::Value::Number(n) => match (n.as_u64(), n.as_i64()) {
            (Some(u), _) => Json::UInt(u),
            (None, Some(i)) => Json::NegInt(i),
            _ => Json::Float(n.to_string()),
        },
        serde_json::Value::String(s) => Json::Str(s.clone()),
        serde_json::Value::Array(a) => Json::Arr(a.iter().map(to_json).collect()),
        serde_json::Value::Object(m) => Json::Obj(m.iter().map(|(k, v)| (k.clone(), to_json(v))).collect()),
    }
}

fn parse(s: &str) -> Json {
    to_json(&serde_json::from_str::<serde_json::Value>(s).unwrap())
}

fn node(id: &str, name: &str, sub: Option<&str>) -> ProxyNode {
    ProxyNode {
        id: id.to_string(),
        name: name.to_string(),
        group: "G".to_string(),
        protocol: "trojan".to_string(),
        server: format!("{}.example.com", id),
        port: 443,
        latency: None,
        download_speed: None,
        is_active: false,
        subscription_id: sub.map(|s| s.to_string()),
    }
}

#[test]
fn find_and_endpoint() {
    let nodes = vec![node("a", "A", None), node("b", "B", None), node("b", "B2", None)];
    assert_eq!(find_node(&nodes, "b"), 1);
    assert_eq!(find_node(&nodes, "z"), 3);
    assert_eq!(node_endpoint(&nodes, "a"), Some(("a.example.com".to_string(), 443)));
    assert_eq!(node_endpoint(&nodes, "z"), None);
}

#[test]
fn record_test_keeps_speed_when_not_given() {
    let mut nodes = vec![node("a", "A", None)];
    record_test(&mut nodes, "a", Some(120), Some(Some(900)));
    assert_eq!(nodes[0].latency, Some(120));
    assert_eq!(nodes[0].download_speed, Some(900));
    record_test(&mut nodes, "a", Some(80), None);
    assert_eq!(nodes[0].latency, Some(80));
    assert_eq!(nodes[0].download_speed, Some(900));
    record_test(&mut nodes, "zz", Some(1), None);
    assert_eq!(nodes[0].latency, Some(80));
}

#[test]
fn latency_and_speed_formulas() {
    assert_eq!(proxy_latency_ms(0), 1);
    assert_eq!(proxy_latency_ms(250), 250);
    assert_eq!(tcp_latency_ms(999), 1);
    assert_eq!(tcp_latency_ms(45_678), 45);
    assert_eq!(download_kbps(0, 100), None);
    assert_eq!(download_kbps(1000, 0), None);
    // 1 MiB in 1 s: 1048576 B/s / 1024 = 1024 KB/s
    assert_eq!(download_kbps(1_048_576, 1000), Some(1024));
    // 512 KiB in 250 ms: 2097152 B/s / 1024 = 2048 KB/s
    assert_eq!(download_kbps(524_288, 250), Some(2048));
}

#[test]
fn delay_members_of_groups() {
    let nodes = vec![node("1", "N1", Some("s1")), node("2", "N2", Some("s2")), node("3", "N3", Some("s1"))];
    assert_eq!(delay_test_members(&nodes, "auto"), vec!["N1", "N2", "N3"]);
    assert_eq!(delay_test_members(&nodes, "auto-s1"), vec!["N1", "N3"]);
    assert_eq!(delay_test_members(&nodes, "auto-none"), Vec::<String>::new());
    assert_eq!(delay_test_members(&nodes, "N2"), vec!["N2"]);
    assert_eq!(check_delay_test(false, 3), Err(DelayTestError::NotRunning));
    assert_eq!(check_delay_test(true, 0), Err(DelayTestError::NoMembers));
    assert_eq!(check_delay_test(true, 2), Ok(()));
}

#[test]
fn activating_a_node() {
    let mut nodes = vec![node("a", "A", None), node("b", "B", None)];
    nodes[0].is_active = true;
    assert_eq!(activate_node(&mut nodes, "b"), Some("B".to_string()));
    assert!(!nodes[0].is_active);
    assert!(nodes[1].is_active);
    assert_eq!(activate_node(&mut nodes, "zz"), None);
    assert!(!nodes[0].is_active && !nodes[1].is_active);
    nodes[0].is_active = true;
    deactivate_all(&mut nodes);
    assert!(!nodes[0].is_active);
    restore_active_flags(&mut nodes, Some("B"));
    assert!(!nodes[0].is_active && nodes[1].is_active);
    restore_active_flags(&mut nodes, None);
    assert!(!nodes[0].is_active && nodes[1].is_active);
}

#[test]
fn active_selection_in_config() {
    let mut c = fresh_config("en".to_string());
    assert_eq!(active_tag(&c), None);
    set_active_tag(&mut c, "Node A");
    assert_eq!(active_tag(&c), Some("Node A".to_string()));
    c.active_nodes.insert(0, ("other".to_string(), "x".to_string()));
    set_active_tag(&mut c, "Node B");
    assert_eq!(active_tag(&c), Some("Node B".to_string()));
    assert_eq!(c.active_nodes.len(), 2);
    assert_eq!(c.active_nodes[0], ("other".to_string(), "x".to_string()));
}

#[test]
fn active_proxy_chain() {
    let body = parse(
        r#"{"proxies":{
            "proxy":{"type":"Selector","now":"auto"},
            "auto":{"type":"URLTest","now":"HK 01"},
            "HK 01":{"type":"Trojan"}}}"#,
    );
    assert_eq!(active_proxy_of(&body), Some("HK 01".to_string()));
    let direct = parse(r#"{"proxies":{"proxy":{"type":"Selector","now":""}}}"#);
    assert_eq!(active_proxy_of(&direct), None);
    let missing = parse(r#"{"proxies":{"auto":{"type":"URLTest","now":"HK 01"}}}"#);
    assert_eq!(active_proxy_of(&missing), None);
    let dangling = parse(r#"{"proxies":{"proxy":{"type":"Selector","now":"gone"}}}"#);
    assert_eq!(active_proxy_of(&dangling), None);
    let plain = parse(r#"{"proxies":{"proxy":{"type":"Shadowsocks"}}}"#);
    assert_eq!(active_proxy_of(&plain), Some("proxy".to_string()));
    assert_eq!(active_proxy_of(&parse(r#"{"x":1}"#)), None);
    let cyc = parse(r#"{"proxies":{"proxy":{"type":"Selector","now":"a"},"a":{"type":"Selector","now":"proxy"}}}"#);
    // a cycle never reaches a node within six links
    assert_eq!(active_proxy_of(&cyc), None);
}

#[test]
fn proxy_modes() {
    assert_eq!(parse_proxy_mode("rule"), Some(ProxyMode::Rule));
    assert_eq!(parse_proxy_mode("global"), Some(ProxyMode::Global));
    assert_eq!(parse_proxy_mode("direct"), Some(ProxyMode::Direct));
    assert_eq!(parse_proxy_mode("tun"), Some(ProxyMode::Tun));
    assert_eq!(parse_proxy_mode("Rule"), None);
    assert_eq!(parse_connection_mode("off"), ConnMode::Off);
    assert_eq!(parse_connection_mode("tun"), ConnMode::Tun);
    assert_eq!(parse_connection_mode("system"), ConnMode::System);
    assert_eq!(parse_connection_mode("whatever"), ConnMode::System);
}

#[test]
fn traffic_and_connections() {
    let body = parse(
        r#"{"uploadTotal":100,"downloadTotal":2000,"connections":[
            {"id":"c1","metadata":{"network":"tcp","type":"HTTP","sourceIP":"127.0.0.1","sourcePort":"5000",
             "destinationIP":"1.2.3.4","destinationPort":"443","host":"example.com"},
             "rule":"rule_set","rulePayload":"geosite-cn","chains":["proxy","HK"],"upload":10,"download":20,"start":"T"}]}"#,
    );
    let t = traffic_total_from(&body);
    assert_eq!((t.upload, t.download), (100, 2000));
    let t0 = traffic_total_from(&parse("{}"));
    assert_eq!((t0.upload, t0.download), (0, 0));
    let cs = connections_from(&body);
    assert_eq!(cs.len(), 1);
    let c = &cs[0];
    assert_eq!(c.id, "c1");
    assert_eq!(c.network, "tcp");
    assert_eq!(c.conn_type, "HTTP");
    assert_eq!(c.source, "127.0.0.1:5000");
    assert_eq!(c.destination, "1.2.3.4:443");
    assert_eq!(c.host, "example.com");
    assert_eq!(c.rule_payload, "geosite-cn");
    assert_eq!(c.chains, vec!["proxy", "HK"]);
    assert_eq!((c.upload, c.download), (10, 20));
    assert!(connections_from(&parse("{}")).is_empty());
}

#[test]
fn system_proxy_and_tun_rules() {
    assert_eq!(system_proxy_port(false, false, false, 7890), Ok(0));
    assert_eq!(system_proxy_port(true, false, false, 7890), Err(SystemProxyError::CoreNotRunning));
    assert_eq!(system_proxy_port(true, true, true, 7890), Err(SystemProxyError::TunActive));
    assert_eq!(system_proxy_port(true, true, false, 7890), Ok(7890));
    assert_eq!(check_tun_start(false, false, true, false), Ok(()));
    assert_eq!(check_tun_start(true, false, false, true), Err(StartError::NotElevated));
    assert_eq!(check_tun_start(true, true, true, false), Err(StartError::WintunMissing));
    assert_eq!(check_tun_start(true, true, false, false), Ok(()));
    let mut c = fresh_config("en".to_string());
    assert!(wants_system_proxy(&c));
    c.tun_enabled = true;
    assert!(!wants_system_proxy(&c));
    c.tun_enabled = false;
    c.proxy_mode = ProxyMode::Tun;
    assert!(!wants_system_proxy(&c));
}

#[test]
fn mode_switch_and_restore() {
    let mut c = fresh_config("en".to_string());
    assert!(!begin_mode_switch(&mut c, ConnMode::Tun));
    assert!(c.tun_enabled);
    assert!(begin_mode_switch(&mut c, ConnMode::System));
    assert!(!c.tun_enabled);
    c.restore_proxy_on_startup = true;
    record_proxy_state(&mut c, false, false);
    assert_eq!(restore_mode(&c), None);
    record_proxy_state(&mut c, true, true);
    assert_eq!(restore_mode(&c), Some(ConnMode::System));
    record_proxy_state(&mut c, true, false);
    c.tun_enabled = true;
    assert_eq!(restore_mode(&c), Some(ConnMode::Tun));
    c.tun_enabled = false;
    assert_eq!(restore_mode(&c), Some(ConnMode::System));
    c.restore_proxy_on_startup = false;
    assert_eq!(restore_mode(&c), None);
}

#[test]
fn startup_restore_attempts() {
    assert_eq!(restore_attempts(ConnMode::Tun, true), 5);
    assert_eq!(restore_attempts(ConnMode::Tun, false), 3);
    assert_eq!(restore_attempts(ConnMode::System, true), 1);
    assert_eq!(restore_attempts(ConnMode::Off, false), 1);
    assert!(is_just_upgraded("0.3.11", "0.3.12"));
    assert!(is_just_upgraded("", "0.3.12"));
    assert!(!is_just_upgraded("0.3.12", "0.3.12"));
}

#[test]
fn saving_settings_keeps_runtime_fields() {
    let mut current = fresh_config("en".to_string());
    current.last_proxy_running = true;
    current.last_system_proxy = true;
    current.last_app_version = "0.3.12".to_string();
    let mut incoming = fresh_config("zh-CN".to_string());
    incoming.mixed_port = 1080;
    incoming.restore_proxy_on_startup = true;
    let merged = merge_runtime_fields(incoming, &current);
    assert!(merged.last_proxy_running && merged.last_system_proxy);
    assert_eq!(merged.last_app_version, "0.3.12");
    assert_eq!(merged.mixed_port, 1080);
    assert!(merged.restore_proxy_on_startup);
    assert_eq!(merged.language, "zh-CN");
}

#[test]
fn proxy_setting_reads_back() {
    for on in [true, false] {
        let s = set_system_proxy(on, 7890, false);
        assert_eq!(registry_proxy_enabled(Some(s.enable)), on);
    }
}
