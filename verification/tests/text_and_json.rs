use skylark::json::{json_eq, lookup_entry, strings, string_array, Json};
use skylark::text::{
    decimal_string, lines_of, parse_unsigned_chars, replace_str, split_first_str, str_contains,
    str_ends_with, str_starts_with, trim_chars, trim_start_matches_str,
};

fn chars(s: &str) -> Vec<char> {
    s.chars().collect()
}

fn text(v: &[char]) -> String {
    v.iter().collect()
}

#[test]
fn trim_removes_unicode_white_space() {
    assert_eq!(text(&trim_chars(&chars("\u{3000} a b \t\n"))), "a b");
    assert_eq!(text(&trim_chars(&chars("   "))), "");
}

#[test]
fn lines_follow_str_lines() {
    let ls: Vec<String> = lines_of(&chars("a\r\nb\n\nc\n")).iter().map(|l| text(l)).collect();
    assert_eq!(ls, vec!["a", "b", "", "c"]);
    let ls2: Vec<String> = lines_of(&chars("x\r")).iter().map(|l| text(l)).collect();
    assert_eq!(ls2, "x\r".lines().collect::<Vec<_>>());
}

#[test]
fn contains_and_affixes() {
    assert!(str_contains("proxies:\n - a", "proxies:"));
    assert!(!str_contains("prox", "proxies:"));
    assert!(str_starts_with("vmess://abc", "vmess://"));
    assert!(str_ends_with("sing-box-1.0-linux-amd64.tar.gz", ".tar.gz"));
}

#[test]
fn replace_and_trim_start_matches() {
    assert_eq!(replace_str("hy2://a@b/hy2://", "hy2://", "hysteria2://"), "hysteria2://a@b/hysteria2://");
    assert_eq!(trim_start_matches_str("vmess://vmess://abc", "vmess://"), "abc");
    assert_eq!(trim_start_matches_str("v1.2.3", "v"), "1.2.3");
}

#[test]
fn split_first_splits_once() {
    assert_eq!(split_first_str("aes-256-gcm:pa:ss", ':'), ("aes-256-gcm".to_string(), Some("pa:ss".to_string())));
    assert_eq!(split_first_str("nocolon", ':'), ("nocolon".to_string(), None));
}

#[test]
fn numbers_parse_and_print() {
    assert_eq!(parse_unsigned_chars(&chars("443"), 65535), Some(443));
    assert_eq!(parse_unsigned_chars(&chars("+80"), 65535), Some(80));
    assert_eq!(parse_unsigned_chars(&chars("65536"), 65535), None);
    assert_eq!(parse_unsigned_chars(&chars(""), 65535), None);
    assert_eq!(parse_unsigned_chars(&chars("-1"), 65535), None);
    assert_eq!(decimal_string(0), "0");
    assert_eq!(decimal_string(9090), "9090");
    assert_eq!(skylark::text::concat("127.0.0.1:", "7890"), "127.0.0.1:7890");
}

#[test]
fn json_lookup_and_equality() {
    let obj = Json::Obj(vec![
        ("tag".to_string(), Json::Str("a".to_string())),
        ("port".to_string(), Json::UInt(443)),
    ]);
    assert_eq!(obj.str_at("tag"), Some("a".to_string()));
    assert_eq!(obj.u64_at("port"), Some(443));
    assert_eq!(obj.str_at("missing"), None);
    assert_eq!(obj.str_at_or("missing", "d"), "d");
    assert!(json_eq(&obj, &obj.deep_clone()));
    assert!(!json_eq(&obj, &obj.without_key("port")));
    let entries = vec![("x".to_string(), Json::Bool(true))];
    assert!(lookup_entry(&entries, "x").is_some());
    assert!(lookup_entry(&entries, "y").is_none());
}

#[test]
fn string_arrays() {
    let v = strings(vec!["A", "AAAA"]);
    match string_array(&v) {
        Json::Arr(items) => {
            assert_eq!(items.len(), 2);
            assert_eq!(items[1].as_str(), Some("AAAA"));
        }
        _ => panic!("not an array"),
    }
}
