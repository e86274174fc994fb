use base64::Engine;
use skylark::json::Json;
use skylark::links::{parse_hysteria2, parse_node_link, parse_ss, parse_trojan, parse_vless, parse_vmess, ParseError, ParsedDocs};

fn to_json(v: &serde_json::Value) -> Json {
    match v {
        serde_json::Value::Null => Json::Null,
        serde_json::Value::Bool(b) => Json::Bool(*b),
        serde_json::Value::Number(n) => match (n.as_u64(), n.as_i64()) {
            (Some(u), _) => Json::UInt(u),
            (None, Some(i)) => Json::NegInt(i),
            _ => Json::Float(n.to_string()),
        },
        serde_json::Value::String(s) => Json::Str(s.clone()),
        serde_json::Value::Array(a) => Json::Arr(a.iter().map(to_json).collect()),
        serde_json::Value::Object(m) => Json::Obj(m.iter().map(|(k, v)| (k.clone(), to_json(v))).collect()),
    }
}

fn no_docs() -> ParsedDocs {
    ParsedDocs { json: vec![], yaml: vec![] }
}

#[test]
fn vless_reality_link() {
    let link = "vless://uuid-1@example.com:8443?type=ws&security=reality&pbk=PK&sid=ab&path=%2Fws&host=h.example.com#Node%20A";
    let (n, o) = parse_vless(link, "sub1").unwrap();
    assert_eq!(n.name, "Node%20A");
    assert_eq!(n.server, "example.com");
    assert_eq!(n.port, 8443);
    assert_eq!(n.protocol, "vless");
    assert_eq!(n.group, "??");
    assert_eq!(n.subscription_id.as_deref(), Some("sub1"));
    assert_eq!(n.id.len(), 36);
    assert_eq!(o.str_at("uuid"), Some("uuid-1".to_string()));
    let t = o.get("transport").unwrap();
    assert_eq!(t.str_at("type"), Some("ws".to_string()));
    assert_eq!(t.str_at("path"), Some("/ws".to_string()));
    let tls = o.get("tls").unwrap();
    assert_eq!(tls.get("reality").unwrap().str_at("public_key"), Some("PK".to_string()));
    assert!(tls.get("insecure").is_none());
    assert_eq!(tls.str_at("server_name"), Some("example.com".to_string()));
}

#[test]
fn vless_plain_tcp_has_no_transport() {
    let (n, o) = parse_vless("vless://u@1.2.3.4?security=tls", "s").unwrap();
    assert_eq!(n.port, 443);
    assert_eq!(n.name, "1.2.3.4");
    assert!(o.get("transport").is_none());
    assert_eq!(o.get("tls").unwrap().bool_at("insecure"), Some(true));
    assert!(matches!(parse_vless("vless://[bad", "s"), Err(ParseError::InvalidUrl)));
}

#[test]
fn trojan_and_hysteria2_links() {
    let (n, o) = parse_trojan("trojan://pw@t.example.com:443?sni=s.example.com#T", "s").unwrap();
    assert_eq!(n.name, "T");
    assert_eq!(o.str_at("password"), Some("pw".to_string()));
    assert_eq!(o.get("tls").unwrap().str_at("server_name"), Some("s.example.com".to_string()));
    let (n2, o2) = parse_hysteria2("hy2://pw@h.example.com:8443?insecure=1#H", "s").unwrap();
    assert_eq!(n2.protocol, "hysteria2");
    assert_eq!(n2.port, 8443);
    assert_eq!(o2.get("tls").unwrap().bool_at("insecure"), Some(true));
    let (_, o3) = parse_hysteria2("hysteria2://pw@h.example.com", "s").unwrap();
    assert_eq!(o3.get("tls").unwrap().bool_at("insecure"), Some(false));
}

#[test]
fn shadowsocks_links() {
    let user = base64::engine::general_purpose::STANDARD.encode("aes-256-gcm:secret:xy");
    let link = format!("ss://{}@ss.example.com:8388#S", user);
    let (n, o) = parse_ss(&link, "s").unwrap();
    assert_eq!(n.port, 8388);
    assert_eq!(o.str_at("method"), Some("aes-256-gcm".to_string()));
    assert_eq!(o.str_at("password"), Some("secret:xy".to_string()));
    let (_, o2) = parse_ss("ss://aes-128-gcm:pw@1.1.1.1:1234", "s").unwrap();
    assert_eq!(o2.str_at("method"), Some("aes-128-gcm".to_string()));
    assert_eq!(o2.str_at("password"), Some("pw".to_string()));
    // a user part that happens to be valid base64 is decoded; its bytes are
    // not UTF-8 here, so method and password come out empty
    let (_, o3) = parse_ss("ss://chacha20:pw@1.1.1.1:1234", "s").unwrap();
    assert_eq!(o3.str_at("method"), Some("".to_string()));
    assert_eq!(o3.str_at("password"), Some("".to_string()));
}

#[test]
fn vmess_links_use_their_parsed_payload() {
    let payload = r#"{"ps":"V","add":"v.example.com","port":"10086","id":"id1","aid":"2","net":"grpc","path":"svc","tls":"tls","sni":"sni.example.com"}"#;
    let link = format!("vmess://{}", base64::engine::general_purpose::STANDARD.encode(payload));
    assert!(matches!(parse_vmess(&link, "s", &no_docs()), Err(ParseError::InvalidJson)));
    let v: serde_json::Value = serde_json::from_str(payload).unwrap();
    let docs = ParsedDocs { json: vec![(payload.to_string(), to_json(&v))], yaml: vec![] };
    let (n, o) = parse_vmess(&link, "s", &docs).unwrap();
    assert_eq!(n.name, "V");
    assert_eq!(n.port, 10086);
    assert_eq!(o.u64_at("alter_id"), Some(2));
    assert_eq!(o.get("transport").unwrap().str_at("service_name"), Some("svc".to_string()));
    assert_eq!(o.get("tls").unwrap().str_at("server_name"), Some("sni.example.com".to_string()));
    assert!(matches!(parse_vmess("vmess://!!!", "s", &docs), Err(ParseError::InvalidBase64)));
}

#[test]
fn unknown_schemes_are_refused() {
    assert!(matches!(parse_node_link("tuic://x", "s", &no_docs()), Err(ParseError::UnsupportedLink)));
    assert!(parse_node_link("trojan://p@h:1", "s", &no_docs()).is_ok());
}
