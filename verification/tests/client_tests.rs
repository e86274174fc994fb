use skylark::client::{
    merge_outbounds, new_subscription, record_refresh, remove_subscription, remove_subscription_nodes,
    remove_subscription_outbounds, replace_subscription_nodes, save_subscription_settings, subscription_url,
};
use skylark::json::Json;
use skylark::types::{ProxyNode, SubType, Subscription, UtcTime};

fn node(id: &str, sub: Option<&str>) -> ProxyNode {
    ProxyNode {
        id: id.to_string(),
        name: id.to_uppercase(),
        group: "G".to_string(),
        protocol: "vless".to_string(),
        server: "s.example.com".to_string(),
        port: 443,
        latency: None,
        download_speed: None,
        is_active: false,
        subscription_id: sub.map(|s| s.to_string()),
    }
}

fn ob(tag: Option<Json>, sub: &str) -> Json {
    let mut v = vec![("type".to_string(), Json::Str("trojan".to_string()))];
    if let Some(t) = tag {
        v.push(("tag".to_string(), t));
    }
    v.push(("subscription_id".to_string(), Json::Str(sub.to_string())));
    Json::Obj(v)
}

fn tag_of(j: &Json) -> Option<String> {
    j.str_at("tag")
}

#[test]
fn replacing_a_subscriptions_nodes() {
    let mut nodes = vec![node("a1", Some("a")), node("b1", Some("b")), node("x", None), node("a2", Some("a"))];
    replace_subscription_nodes(&mut nodes, "a", vec![node("a3", Some("a"))]);
    let ids: Vec<&str> = nodes.iter().map(|n| n.id.as_str()).collect();
    assert_eq!(ids, vec!["b1", "x", "a3"]);
    remove_subscription_nodes(&mut nodes, "b");
    let ids: Vec<&str> = nodes.iter().map(|n| n.id.as_str()).collect();
    assert_eq!(ids, vec!["x", "a3"]);
}

#[test]
fn merge_by_text_tag() {
    let mut obs = vec![
        ob(Some(Json::Str("A".to_string())), "s1"),
        ob(Some(Json::Str("B".to_string())), "s1"),
        ob(None, "s2"),
    ];
    let fresh = vec![ob(Some(Json::Str("B".to_string())), "s3"), ob(None, "s3")];
    merge_outbounds(&mut obs, fresh, false);
    let tags: Vec<Option<String>> = obs.iter().map(tag_of).collect();
    assert_eq!(tags, vec![Some("A".to_string()), None, Some("B".to_string()), None]);
    assert_eq!(obs[2].str_at("subscription_id"), Some("s3".to_string()));
}

#[test]
fn merge_by_tag_value_drops_untagged_too() {
    let mut obs = vec![ob(Some(Json::Str("A".to_string())), "s1"), ob(None, "s2"), ob(Some(Json::UInt(5)), "s2")];
    let fresh = vec![ob(None, "s3"), ob(Some(Json::UInt(5)), "s3")];
    merge_outbounds(&mut obs, fresh, true);
    assert_eq!(obs.len(), 3);
    assert_eq!(tag_of(&obs[0]), Some("A".to_string()));
    assert_eq!(obs[1].str_at("subscription_id"), Some("s3".to_string()));
    assert_eq!(obs[2].str_at("subscription_id"), Some("s3".to_string()));
}

#[test]
fn removing_a_subscriptions_outbounds() {
    let mut obs = vec![ob(Some(Json::Str("A".to_string())), "s1"), ob(Some(Json::Str("B".to_string())), "s2")];
    remove_subscription_outbounds(&mut obs, "s1");
    assert_eq!(obs.len(), 1);
    assert_eq!(tag_of(&obs[0]), Some("B".to_string()));
}

#[test]
fn subscription_records() {
    let now = UtcTime { secs: 1_700_000_000, nanos: 5 };
    let s = new_subscription("id1".into(), "Mine".into(), "https://e.com/s".into(), SubType::Clash, 12, now);
    assert!(s.auto_update);
    assert_eq!(s.update_interval, 24);
    assert_eq!(s.last_update, Some(now));
    let mut subs: Vec<Subscription> = vec![s, new_subscription("id2".into(), "Two".into(), "u2".into(), SubType::V2ray, 1, now)];
    assert_eq!(subscription_url(&subs, "id2"), Some("u2".to_string()));
    assert_eq!(subscription_url(&subs, "nope"), None);
    let later = UtcTime { secs: 1_700_003_600, nanos: 0 };
    let r = record_refresh(&mut subs, "id1", SubType::Sip008, 7, later).unwrap();
    assert_eq!(r.sub_type, SubType::Sip008);
    assert_eq!(subs[0].node_count, 7);
    assert_eq!(subs[0].last_update, Some(later));
    assert_eq!(subs[0].name, "Mine");
    assert!(record_refresh(&mut subs, "nope", SubType::Clash, 1, later).is_none());
    assert!(save_subscription_settings(&mut subs, "id2", false, 6));
    assert!(!subs[1].auto_update);
    assert_eq!(subs[1].update_interval, 6);
    assert!(!save_subscription_settings(&mut subs, "nope", true, 1));
    remove_subscription(&mut subs, "id1");
    assert_eq!(subs.len(), 1);
    assert_eq!(subs[0].id, "id2");
}
