use skylark::json::Json;
use skylark::rules::{add_rule, delete_rule, expand_ports, preset_rules, rule_to_singbox, rules_to_singbox, toggle_rule, RouteRule, RuleAction};

fn rule(id: &str, action: RuleAction) -> RouteRule {
    let mut r = RouteRule::new_empty("r", action);
    r.id = id.to_string();
    r
}

#[test]
fn presets_are_the_built_in_list() {
    let p = preset_rules();
    assert_eq!(p.len(), 24);
    assert_eq!(p[0].name, "DNS 流量");
    assert_eq!(p[0].port, vec!["53".to_string()]);
    assert_eq!(p[2].ip_cidr.len(), 7);
    assert!(p.iter().all(|r| r.enabled && r.id.len() == 36));
    assert_ne!(p[0].id, p[1].id);
}

#[test]
fn ports_expand_ranges_and_skip_garbage() {
    let ps = vec!["443".to_string(), "8080-8082".to_string(), "x".to_string(), "1-2-3".to_string(), "9-7".to_string()];
    assert_eq!(expand_ports(&ps), vec![443, 8080, 8081, 8082]);
    assert_eq!(expand_ports(&vec!["65535-65535".to_string()]), vec![65535]);
}

#[test]
fn rule_conversion() {
    let mut r = rule("1", RuleAction::Direct);
    assert!(rule_to_singbox(&r).is_none());
    r.domain_suffix = vec!["cn".to_string()];
    r.port = vec!["80".to_string()];
    let j = rule_to_singbox(&r).unwrap();
    assert_eq!(j.str_at("outbound"), Some("direct".to_string()));
    match j.get("port") {
        Some(Json::Arr(ps)) => assert_eq!(ps.len(), 1),
        _ => panic!("no ports"),
    }
    r.enabled = false;
    assert!(rule_to_singbox(&r).is_none());
    let all = rules_to_singbox(&vec![r]);
    assert_eq!(all.len(), 3);
    assert_eq!(all[0].str_at("outbound"), Some("dns-out".to_string()));
    assert_eq!(all[2].str_at("clash_mode"), Some("global".to_string()));
}

#[test]
fn rule_action_names() {
    assert_eq!(RuleAction::Proxy.to_string(), "proxy");
    assert_eq!(RuleAction::Dns.to_string(), "dns-out");
}

#[test]
fn toggle_twice_restores() {
    let mut rs = vec![rule("a", RuleAction::Proxy), rule("b", RuleAction::Block), rule("b", RuleAction::Direct)];
    toggle_rule(&mut rs, "b");
    assert!(rs[0].enabled && !rs[1].enabled && rs[2].enabled);
    toggle_rule(&mut rs, "b");
    assert!(rs.iter().all(|r| r.enabled));
    toggle_rule(&mut rs, "zzz");
    assert!(rs.iter().all(|r| r.enabled));
}

#[test]
fn delete_removes_every_rule_with_the_id() {
    let mut rs = vec![rule("a", RuleAction::Proxy), rule("b", RuleAction::Block), rule("a", RuleAction::Direct)];
    delete_rule(&mut rs, "a");
    assert_eq!(rs.len(), 1);
    assert_eq!(rs[0].id, "b");
    add_rule(&mut rs, rule("c", RuleAction::Proxy));
    assert_eq!(rs.iter().map(|r| r.id.clone()).collect::<Vec<_>>(), vec!["b", "c"]);
}
