use base64::Engine;
use skylark::json::Json;
use skylark::links::{ParseError, ParsedDocs};
use skylark::subscription::{detect_sub_type, parse_subscription, reparse_all, texts_to_parse, v2ray_text_of};
use skylark::types::SubType;

fn from_json(v: &serde_json::Value) -> Json {
    match v {
        serde_json::Value::Null => Json::Null,
        serde_json::Value::Bool(b) => Json::Bool(*b),
        serde_json::Value::Number(n) => match (n.as_u64(), n.as_i64()) {
            (Some(u), _) => Json::UInt(u),
            (None, Some(i)) => Json::NegInt(i),
            _ => Json::Float(n.to_string()),
        },
        serde_json::Value::String(s) => Json::Str(s.clone()),
        serde_json::Value::Array(a) => Json::Arr(a.iter().map(from_json).collect()),
        serde_json::Value::Object(m) => Json::Obj(m.iter().map(|(k, v)| (k.clone(), from_json(v))).collect()),
    }
}

fn from_yaml(v: &serde_yaml::Value) -> Json {
    match v {
        serde_yaml::Value::Null => Json::Null,
        serde_yaml::Value::Bool(b) => Json::Bool(*b),
        serde_yaml::Value::Number(n) => match (n.as_u64(), n.as_i64()) {
            (Some(u), _) => Json::UInt(u),
            (None, Some(i)) => Json::NegInt(i),
            _ => Json::Float(n.to_string()),
        },
        serde_yaml::Value::String(s) => Json::Str(s.clone()),
        serde_yaml::Value::Sequence(a) => Json::Arr(a.iter().map(from_yaml).collect()),
        serde_yaml::Value::Mapping(m) => Json::Obj(
            m.iter()
                .filter_map(|(k, v)| k.as_str().map(|k| (k.to_string(), from_yaml(v))))
                .collect(),
        ),
        serde_yaml::Value::Tagged(t) => from_yaml(&t.value),
    }
}

/// Parses every text the library asks for, as the host does.
fn docs_for(content: &str) -> ParsedDocs {
    let (js, ys) = texts_to_parse(content);
    ParsedDocs {
        json: js
            .iter()
            .filter_map(|t| serde_json::from_str::<serde_json::Value>(t).ok().map(|v| (t.clone(), from_json(&v))))
            .collect(),
        yaml: ys
            .iter()
            .filter_map(|t| serde_yaml::from_str::<serde_yaml::Value>(t).ok().map(|v| (t.clone(), from_yaml(&v))))
            .collect(),
    }
}

const CLASH: &str = "proxies:
  - name: A
    type: ss
    server: a.example.com
    port: 8388
    cipher: chacha20-ietf-poly1305
    password: p
  - name: B
    type: vless
    server: b.example.com
    port: 443
    uuid: u
    network: ws
    ws-opts:
      path: /p
      headers:
        Host: h.example.com
    reality-opts:
      public-key: PK
  - name: C
    type: tuic
    server: c.example.com
    port: 1
";

#[test]
fn clash_content() {
    let docs = docs_for(CLASH);
    assert_eq!(detect_sub_type(CLASH, "", &docs), SubType::Clash);
    let (nodes, obs) = parse_subscription(CLASH, "s1", &docs).unwrap();
    assert_eq!(nodes.len(), 3);
    assert_eq!(obs.len(), 2);
    assert_eq!(nodes[2].protocol, "tuic");
    assert_eq!(obs[0].str_at("method"), Some("chacha20-ietf-poly1305".to_string()));
    let tls = obs[1].get("tls").unwrap();
    assert_eq!(tls.get("reality").unwrap().str_at("public_key"), Some("PK".to_string()));
    assert_eq!(tls.str_at("server_name"), Some("b.example.com".to_string()));
    assert_eq!(obs[1].get("transport").unwrap().get("headers").unwrap().str_at("Host"), Some("h.example.com".to_string()));
}

#[test]
fn clash_without_proxies_list() {
    let c = "proxy-groups: []\n";
    assert!(matches!(parse_subscription(c, "s", &docs_for(c)), Err(ParseError::MissingProxies)));
    let bad = "proxies: [\n";
    assert!(matches!(parse_subscription(bad, "s", &docs_for(bad)), Err(ParseError::InvalidYaml)));
}

#[test]
fn base64_link_list() {
    let list = "trojan://p@t.example.com:443#T\n\nss://bad\nvless://u@v.example.com#V\n";
    let content = base64::engine::general_purpose::STANDARD.encode(list);
    assert_eq!(v2ray_text_of(&content), list);
    let docs = docs_for(&content);
    assert_eq!(detect_sub_type(&content, "", &docs), SubType::V2ray);
    let (nodes, obs) = parse_subscription(&content, "s2", &docs).unwrap();
    let names: Vec<String> = nodes.iter().map(|n| n.name.clone()).collect();
    assert_eq!(names, vec!["T", "bad", "V"]);
    assert_eq!(obs.len(), 3);
}

#[test]
fn plain_single_link_and_empty_list() {
    let c = "  hy2://pw@h.example.com:4443#H  ";
    let docs = docs_for(c);
    assert_eq!(detect_sub_type(c, "", &docs), SubType::V2ray);
    let (nodes, _) = parse_subscription(c, "s", &docs).unwrap();
    assert_eq!(nodes[0].port, 4443);
    let none = "vmess://notbase64";
    assert!(matches!(parse_subscription(none, "s", &docs_for(none)), Err(ParseError::NoNodes)));
}

#[test]
fn vmess_in_a_base64_list() {
    let payload = r#"{"ps":"VM","add":"1.2.3.4","port":443,"id":"x","net":"ws","host":"w.example.com"}"#;
    let link = format!("vmess://{}", base64::engine::general_purpose::STANDARD.encode(payload));
    let content = base64::engine::general_purpose::STANDARD.encode(&link);
    let docs = docs_for(&content);
    let (nodes, obs) = parse_subscription(&content, "s", &docs).unwrap();
    assert_eq!(nodes[0].name, "VM");
    assert_eq!(obs[0].get("transport").unwrap().get("headers").unwrap().str_at("Host"), Some("w.example.com".to_string()));
}

#[test]
fn sip008_content() {
    let c = r#"{"version":1,"servers":[{"server":"1.1.1.1","server_port":8388,"method":"aes-128-gcm","password":"p","remarks":"R"},{"server":"2.2.2.2","server_port":70000}]}"#;
    let docs = docs_for(c);
    assert_eq!(detect_sub_type(c, "", &docs), SubType::Sip008);
    let (nodes, obs) = parse_subscription(c, "s", &docs).unwrap();
    assert_eq!(nodes[0].name, "R");
    assert_eq!(nodes[1].name, "2.2.2.2");
    assert_eq!(nodes[1].port, 4464);
    assert_eq!(obs[1].u64_at("server_port"), Some(4464));
    assert_eq!(obs[1].str_at("method"), Some("aes-128-gcm".to_string()));
}

#[test]
fn unknown_content() {
    let c = "hello world";
    assert_eq!(detect_sub_type(c, "", &docs_for(c)), SubType::Unknown);
    assert!(matches!(parse_subscription(c, "s", &docs_for(c)), Err(ParseError::UnknownFormat)));
    let j = r#"{"servers":[]}"#;
    assert_eq!(detect_sub_type(j, "", &docs_for(j)), SubType::Unknown);
}

#[test]
fn reparse_concatenates_cached_contents() {
    let a = "trojan://p@a.example.com#A".to_string();
    let b = "nothing".to_string();
    let mut docs = docs_for(&a);
    docs.json.extend(docs_for(&b).json);
    let (nodes, obs) = reparse_all(&vec![("1".to_string(), a), ("2".to_string(), b)], &docs);
    assert_eq!(nodes.len(), 1);
    assert_eq!(obs.len(), 1);
    assert_eq!(nodes[0].subscription_id.as_deref(), Some("1"));
}

#[test]
fn launch_rebuilds_nodes_only_when_none_are_saved() {
    let a = "trojan://p@a.example.com#A".to_string();
    let docs = docs_for(&a);
    let cached = vec![("1".to_string(), a.clone())];
    let (ns, obs, rebuilt) = skylark::subscription::launch_nodes(vec![], vec![], 1, &cached, &docs);
    assert!(rebuilt);
    assert_eq!(ns.len(), 1);
    assert_eq!(obs.len(), 1);
    assert_eq!(ns[0].name, "A");
    // no subscriptions: nothing is rebuilt
    let (ns, _, rebuilt) = skylark::subscription::launch_nodes(vec![], vec![], 0, &cached, &docs);
    assert!(!rebuilt && ns.is_empty());
    // saved nodes stay
    let (saved, _) = reparse_all(&cached, &docs);
    let (ns, _, rebuilt) = skylark::subscription::launch_nodes(saved, vec![], 1, &vec![], &docs);
    assert!(!rebuilt);
    assert_eq!(ns.len(), 1);
    // nothing parses: the empty lists stay
    let bad = vec![("2".to_string(), "nothing".to_string())];
    let (ns, _, rebuilt) = skylark::subscription::launch_nodes(vec![], vec![], 1, &bad, &docs_for("nothing"));
    assert!(!rebuilt && ns.is_empty());
}

#[test]
fn base64_list_of_trojan_links() {
    let content = base64::engine::general_purpose::STANDARD.encode("trojan://pw@example.com:443#T");
    let docs = docs_for(&content);
    assert_eq!(detect_sub_type(&content, "", &docs), SubType::V2ray);
    let (nodes, obs) = parse_subscription(&content, "s", &docs).unwrap();
    assert_eq!(nodes.len(), 1);
    assert_eq!(nodes[0].protocol, "trojan");
    assert_eq!(nodes[0].name, "T");
    assert_eq!(obs[0].str_at("type"), Some("trojan".to_string()));
    let hy = base64::engine::general_purpose::STANDARD.encode("hy2://pw@h.example.com:443#H");
    assert_eq!(detect_sub_type(&hy, "", &docs_for(&hy)), SubType::V2ray);
}
