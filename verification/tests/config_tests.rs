use skylark::document::{build_singbox_config, build_singbox_config_named, ConfigInputs};
use skylark::json::Json;
use skylark::rules::{RouteRule, RuleAction};
use skylark::singbox_config::subscription_groups;
use skylark::types::{AppConfig, ProxyMode, ProxyNode};

fn outbound(tag: &str, server: &str, transport: Option<&str>) -> Json {
    let mut ms = vec![
        ("type".to_string(), Json::Str("trojan".to_string())),
        ("tag".to_string(), Json::Str(tag.to_string())),
        ("server".to_string(), Json::Str(server.to_string())),
    ];
    if let Some(t) = transport {
        ms.push(("transport".to_string(), Json::Obj(vec![("type".to_string(), Json::Str(t.to_string()))])));
    }
    Json::Obj(ms)
}

fn node(name: &str, sub: Option<&str>) -> ProxyNode {
    ProxyNode {
        id: name.to_string(),
        name: name.to_string(),
        group: "??".to_string(),
        protocol: "trojan".to_string(),
        server: "s".to_string(),
        port: 1,
        latency: None,
        download_speed: None,
        is_active: false,
        subscription_id: sub.map(|s| s.to_string()),
    }
}

fn inputs() -> ConfigInputs {
    ConfigInputs {
        user_rules: vec![],
        ip_servers: vec!["1.2.3.4".to_string()],
        geosite_path: Some("C:\\data\\rule-sets\\geosite-cn.srs".to_string()),
        geoip_path: None,
        api_secret: "sec".to_string(),
        windows: false,
    }
}

fn member<'a>(j: &'a Json, path: &[&str]) -> &'a Json {
    let mut cur = j;
    for k in path {
        cur = cur.get(k).expect(k);
    }
    cur
}

fn arr(j: &Json) -> &Vec<Json> {
    match j {
        Json::Arr(v) => v,
        _ => panic!("not an array"),
    }
}

#[test]
fn empty_config_falls_back_to_direct() {
    let cfg = AppConfig::default();
    let doc = build_singbox_config_named(&vec![], &cfg, Some("gone"), &vec![], &inputs(), None);
    let obs = arr(member(&doc, &["outbounds"]));
    assert_eq!(obs.len(), 3);
    let opts = arr(obs[0].get("outbounds").unwrap());
    assert_eq!(opts.len(), 1);
    assert_eq!(opts[0].as_str(), Some("direct"));
    assert_eq!(obs[0].str_at("default"), Some("direct".to_string()));
    assert_eq!(member(&doc, &["experimental", "clash_api"]).str_at("secret"), Some("sec".to_string()));
    assert_eq!(member(&doc, &["experimental", "clash_api"]).str_at("external_controller"), Some("127.0.0.1:9090".to_string()));
}

#[test]
fn selector_groups_and_defaults() {
    let obs = vec![
        outbound("n1", "a.example.com", Some("tcp")),
        outbound("n2", "1.2.3.4", Some("ws")),
        outbound("n3", "c.example.com", None),
    ];
    let nodes = vec![node("n1", Some("sb")), node("n2", Some("sb")), node("n3", Some("sa")), node("x", Some("sa"))];
    let groups = subscription_groups(&nodes, &obs);
    assert_eq!(groups.len(), 1);
    assert_eq!(groups[0].0, "auto-sb");
    assert_eq!(groups[0].1, vec!["n1".to_string(), "n2".to_string()]);
    let cfg = AppConfig::default();
    let doc = build_singbox_config_named(&obs, &cfg, Some("stale"), &nodes, &inputs(), None);
    let all = arr(member(&doc, &["outbounds"]));
    let opts: Vec<String> = arr(all[0].get("outbounds").unwrap()).iter().map(|o| o.as_str().unwrap().to_string()).collect();
    assert_eq!(opts, vec!["auto", "auto-sb", "n1", "n2", "n3"]);
    assert_eq!(all[0].str_at("default"), Some("auto".to_string()));
    assert_eq!(all[3].str_at("type"), Some("urltest".to_string()));
    assert_eq!(all[3].str_at("interval"), Some("3m".to_string()));
    assert_eq!(all[3].u64_at("tolerance"), Some(50));
    assert_eq!(all[4].str_at("tag"), Some("auto-sb".to_string()));
    assert!(all[5].get("transport").is_none());
    assert!(all[6].get("transport").is_some());
    let doc2 = build_singbox_config_named(&obs, &cfg, Some("n2"), &nodes, &inputs(), None);
    assert_eq!(arr(member(&doc2, &["outbounds"]))[0].str_at("default"), Some("n2".to_string()));
}

#[test]
fn dns_and_route_rules() {
    let obs = vec![outbound("n1", "a.example.com", None), outbound("n2", "1.2.3.4", None)];
    let mut direct = RouteRule::new_empty("d", RuleAction::Direct);
    direct.domain = vec!["x.cn".to_string()];
    let mut dns = RouteRule::new_empty("dns", RuleAction::Dns);
    dns.port = vec!["53".to_string()];
    let mut block = RouteRule::new_empty("b", RuleAction::Block);
    block.domain_keyword = vec!["ads".to_string()];
    let mut inp = inputs();
    inp.user_rules = vec![direct, dns, block];
    let mut cfg = AppConfig::default();
    cfg.auto_test_url = "  ".to_string();
    cfg.auto_test_interval = 0;
    let doc = build_singbox_config_named(&obs, &cfg, None, &vec![], &inp, None);
    let rules = arr(member(&doc, &["dns", "rules"]));
    assert_eq!(rules.len(), 5);
    let servers: Vec<&str> = arr(rules[0].get("domain").unwrap()).iter().map(|s| s.as_str().unwrap()).collect();
    assert_eq!(servers, vec!["a.example.com"]);
    assert_eq!(arr(rules[1].get("domain_suffix").unwrap()).len(), 57);
    assert_eq!(arr(rules[2].get("domain").unwrap())[0].as_str(), Some("x.cn"));
    assert!(rules[2].get("domain_suffix").is_none());
    assert_eq!(rules[4].str_at("server"), Some("dns_fakeip".to_string()));
    let route = arr(member(&doc, &["route", "rules"]));
    assert_eq!(route.len(), 7 + 2 + 2);
    assert_eq!(route[7].str_at("outbound"), Some("direct".to_string()));
    assert_eq!(route[8].str_at("outbound"), Some("block".to_string()));
    let sets = arr(member(&doc, &["route", "rule_set"]));
    assert_eq!(sets[0].str_at("path"), Some("C:/data/rule-sets/geosite-cn.srs".to_string()));
    assert_eq!(sets[1].str_at("download_detour"), Some("proxy".to_string()));
    let auto = &arr(member(&doc, &["outbounds"]))[3];
    assert_eq!(auto.str_at("url"), Some("https://www.gstatic.com/generate_204".to_string()));
    assert_eq!(auto.str_at("interval"), Some("1m".to_string()));
}

#[test]
fn tun_inbound_and_mode() {
    let mut cfg = AppConfig::default();
    cfg.tun_enabled = true;
    cfg.proxy_mode = ProxyMode::Global;
    let mut inp = inputs();
    inp.windows = true;
    let doc = build_singbox_config(&vec![], &cfg, None, &vec![], &inp);
    let ins = arr(member(&doc, &["inbounds"]));
    assert_eq!(ins.len(), 2);
    let name = ins[1].str_at("interface_name").unwrap();
    assert!(name.starts_with("sing-box-tun-") && name.len() == 19);
    assert_eq!(member(&doc, &["experimental", "clash_api"]).str_at("default_mode"), Some("Global".to_string()));
    inp.windows = false;
    let doc2 = build_singbox_config(&vec![], &cfg, None, &vec![], &inp);
    assert!(arr(member(&doc2, &["inbounds"]))[1].get("interface_name").is_none());
    cfg.tun_enabled = false;
    let doc3 = build_singbox_config(&vec![], &cfg, None, &vec![], &inp);
    assert_eq!(arr(member(&doc3, &["inbounds"])).len(), 1);
}

#[test]
fn latency_probe_url() {
    let mut c = AppConfig::default();
    assert_eq!(skylark::singbox_config::latency_test_url(&c), "https://www.gstatic.com/generate_204");
    c.auto_test_url = "  https://cp.cloudflare.com/generate_204 ".to_string();
    assert_eq!(skylark::singbox_config::latency_test_url(&c), "https://cp.cloudflare.com/generate_204");
    c.auto_test_url = "   ".to_string();
    assert_eq!(skylark::singbox_config::latency_test_url(&c), "https://www.gstatic.com/generate_204");
}

#[test]
fn subscription_groups_come_in_id_order() {
    let obs = vec![outbound("z1", "a", None), outbound("z2", "b", None), outbound("a1", "c", None), outbound("a2", "d", None)];
    let nodes = vec![node("z1", Some("zeta")), node("z2", Some("zeta")), node("a1", Some("alpha")), node("a2", Some("alpha"))];
    let groups = subscription_groups(&nodes, &obs);
    let tags: Vec<&str> = groups.iter().map(|g| g.0.as_str()).collect();
    assert_eq!(tags, vec!["auto-alpha", "auto-zeta"]);
}
