//! Share links (`vless://`, `vmess://`, `ss://`, `trojan://`, `hysteria2://`
//! and `hy2://`): each one becomes a node and its sing-box outbound.
use vstd::prelude::*;
use vstd::utf8::{encode_utf8, decode_utf8, valid_utf8};
use crate::json::{Json, JVal, ObjBuilder, jview_members, lookup, lookup_entry, str_arr, strs_view, lemma_lookup_concat, lemma_lookup_has_key, lemma_lookup_past};
use crate::text::{
    starts_with, str_starts_with, trim_start_matches, trim_start_matches_str, replace_all, replace_str,
    split_first, split_first_str, parse_unsigned, parse_unsigned_chars, chars_of, find_from,
};
use crate::types::{ProxyNode, NodeView};
use crate::external::{
    url_components, parse_url, opt_view, pairs_view, new_uuid, standard_base64_decoded,
    url_safe_base64_decoded, base64_standard_decode, base64_url_safe_decode, utf8_decode,
};

verus! {

/// Why a subscription or one of its links could not be parsed.
#[derive(Debug, Clone, Copy, PartialEq, Eq, Structural)]
pub enum ParseError {
    /// The content is in none of the known formats.
    UnknownFormat,
    /// Clash content that is not YAML.
    InvalidYaml,
    /// Clash content without a `proxies` list.
    MissingProxies,
    /// Link-list content without one usable link.
    NoNodes,
    /// SIP008 content or a vmess payload that is not JSON.
    InvalidJson,
    /// SIP008 content without a `servers` list.
    MissingServers,
    /// A link with an unknown scheme.
    UnsupportedLink,
    /// A link that is not a URL.
    InvalidUrl,
    /// A vmess payload that is not base64.
    InvalidBase64,
    /// A vmess payload that is not UTF-8.
    InvalidUtf8,
}

/// Documents that the host has already parsed: each text that parses as
/// JSON (or as YAML) with the value it parses to.
pub struct ParsedDocs {
    pub json: Vec<(String, Json)>,
    pub yaml: Vec<(String, Json)>,
}

/// The JSON value of `t`, `None` when it does not parse.
pub open spec fn json_doc(docs: ParsedDocs, t: Seq<char>) -> Option<JVal> {
    lookup(jview_members(docs.json@), t)
}

/// The YAML value of `t`, `None` when it does not parse.
pub open spec fn yaml_doc(docs: ParsedDocs, t: Seq<char>) -> Option<JVal> {
    lookup(jview_members(docs.yaml@), t)
}

/// The node listed for a parsed proxy (its random id left empty).
pub open spec fn node_model(name: Seq<char>, protocol: Seq<char>, server: Seq<char>, port: u16, sub_id: Seq<char>) -> NodeView {
    NodeView {
        id: Seq::empty(),
        name,
        group: "??"@,
        protocol,
        server,
        port,
        latency: None,
        download_speed: None,
        is_active: false,
        subscription_id: Some(sub_id),
    }
}

/// A fresh node with a random 36-character id.
pub fn make_node(name: String, protocol: &str, server: String, port: u16, sub_id: &str) -> (r: ProxyNode)
    ensures
        r@.same_but_id(node_model(name@, protocol@, server@, port, sub_id@)),
        r@.id.len() == 36,
{
    ProxyNode {
        id: new_uuid(),
        name,
        group: "??".to_string(),
        protocol: protocol.to_string(),
        server,
        port,
        latency: None,
        download_speed: None,
        is_active: false,
        subscription_id: Some(sub_id.to_string()),
    }
}

/// `o`, or `d` when absent.
pub open spec fn or_text(o: Option<Seq<char>>, d: Seq<char>) -> Seq<char> {
    match o {
        Some(s) => s,
        None => d,
    }
}

/// The value of the last query pair named `k` (a map collected from the
/// pairs keeps the last one).
pub open spec fn param(pairs: Seq<(Seq<char>, Seq<char>)>, k: Seq<char>) -> Option<Seq<char>>
    decreases pairs.len(),
{
    if pairs.len() == 0 {
        None
    } else if pairs.last().0 == k {
        Some(pairs.last().1)
    } else {
        param(pairs.drop_last(), k)
    }
}

/// The value of the last query pair named `k`.
pub fn param_of(pairs: &Vec<(String, String)>, k: &str) -> (r: Option<String>)
    ensures
        opt_view(r) == param(pairs_view(pairs@), k@),
{
    let mut i: usize = pairs.len();
    proof {
        assert(pairs_view(pairs@).subrange(0, i as int) =~= pairs_view(pairs@));
    }
    while i > 0
        invariant
            0 <= i <= pairs.len(),
            param(pairs_view(pairs@), k@) == param(pairs_view(pairs@).subrange(0, i as int), k@),
        decreases i,
    {
        let ghost pre = pairs_view(pairs@).subrange(0, i as int);
        proof {
            assert(pre.last() == (pairs@[i - 1].0@, pairs@[i - 1].1@));
            assert(pre.drop_last() =~= pairs_view(pairs@).subrange(0, i - 1));
        }
        if crate::json::str_eq(pairs[i - 1].0.as_str(), k) {
            return Some(pairs[i - 1].1.clone());
        }
        i -= 1;
    }
    None
}

/// `param(pairs, k)`, or `d` when absent.
fn param_or(pairs: &Vec<(String, String)>, k: &str, d: &str) -> (r: String)
    ensures
        r@ == or_text(param(pairs_view(pairs@), k@), d@),
{
    match param_of(pairs, k) {
        Some(v) => v,
        None => d.to_string(),
    }
}

// ─── Shared outbound pieces ───────────────────────────────────────────

/// `{ "type": "ws", "path": path, "headers": { "Host": host } }`
pub open spec fn ws_transport(path: Seq<char>, host: Seq<char>) -> JVal {
    JVal::Obj(seq![
        ("type"@, JVal::Str("ws"@)),
        ("path"@, JVal::Str(path)),
        ("headers"@, JVal::Obj(seq![("Host"@, JVal::Str(host))])),
    ])
}

/// `{ "type": "grpc", "service_name": name }`
pub open spec fn grpc_transport(name: Seq<char>) -> JVal {
    JVal::Obj(seq![("type"@, JVal::Str("grpc"@)), ("service_name"@, JVal::Str(name))])
}

/// `{ "type": "http", "path": path, "host": [host] }`
pub open spec fn http_transport(path: Seq<char>, host: Seq<char>) -> JVal {
    JVal::Obj(seq![("type"@, JVal::Str("http"@)), ("path"@, JVal::Str(path)), ("host"@, str_arr(seq![host]))])
}

/// `{ "type": "httpupgrade", "path": path, "host": host }`
pub open spec fn httpupgrade_transport(path: Seq<char>, host: Seq<char>) -> JVal {
    JVal::Obj(seq![("type"@, JVal::Str("httpupgrade"@)), ("path"@, JVal::Str(path)), ("host"@, JVal::Str(host))])
}

/// `{ "type": ty }`
pub open spec fn bare_transport(ty: Seq<char>) -> JVal {
    JVal::Obj(seq![("type"@, JVal::Str(ty))])
}

/// `{ "enabled": true, "server_name": sni, "insecure": insecure }`
pub open spec fn plain_tls(sni: Seq<char>, insecure: bool) -> JVal {
    JVal::Obj(seq![("enabled"@, JVal::Bool(true)), ("server_name"@, JVal::Str(sni)), ("insecure"@, JVal::Bool(insecure))])
}

/// TLS with a uTLS fingerprint: Reality (public key and short id) when
/// `reality` is given, otherwise accepting self-signed certificates.
pub open spec fn utls_tls(sni: Seq<char>, fp: Seq<char>, reality: Option<(Seq<char>, Seq<char>)>) -> JVal {
    let base = seq![
        ("enabled"@, JVal::Bool(true)),
        ("server_name"@, JVal::Str(sni)),
        ("utls"@, JVal::Obj(seq![("enabled"@, JVal::Bool(true)), ("fingerprint"@, JVal::Str(fp))])),
    ];
    match reality {
        Some((pbk, sid)) => JVal::Obj(base.push(("reality"@, JVal::Obj(seq![
            ("enabled"@, JVal::Bool(true)),
            ("public_key"@, JVal::Str(pbk)),
            ("short_id"@, JVal::Str(sid)),
        ])))),
        None => JVal::Obj(base.push(("insecure"@, JVal::Bool(true)))),
    }
}

/// A WebSocket transport with a path and, when given, a `Host` header.
pub fn ws_transport_json(path: &str, host: &str) -> (r: Json)
    ensures
        r@ == ws_transport(path@, host@),
{
    let mut h = ObjBuilder::new();
    h.push("Host", Json::string(host));
    let mut b = ObjBuilder::new();
    b.push("type", Json::string("ws"));
    b.push("path", Json::string(path));
    proof {
        assert(h.view() =~= seq![("Host"@, JVal::Str(host@))]);
    }
    b.push("headers", h.build());
    proof {
        assert(b.view() =~= seq![
            ("type"@, JVal::Str("ws"@)),
            ("path"@, JVal::Str(path@)),
            ("headers"@, JVal::Obj(seq![("Host"@, JVal::Str(host@))])),
        ]);
    }
    b.build()
}

/// A gRPC transport with a service name.
pub fn grpc_transport_json(name: &str) -> (r: Json)
    ensures
        r@ == grpc_transport(name@),
{
    let mut b = ObjBuilder::new();
    b.push("type", Json::string("grpc"));
    b.push("service_name", Json::string(name));
    proof {
        assert(b.view() =~= seq![("type"@, JVal::Str("grpc"@)), ("service_name"@, JVal::Str(name@))]);
    }
    b.build()
}

/// An HTTP transport with a path and, when given, a host.
pub fn http_transport_json(path: &str, host: &str) -> (r: Json)
    ensures
        r@ == http_transport(path@, host@),
{
    let hs: Vec<String> = vec![host.to_string()];
    proof {
        assert(strs_view(hs@) =~= seq![host@]);
    }
    let mut b = ObjBuilder::new();
    b.push("type", Json::string("http"));
    b.push("path", Json::string(path));
    b.push("host", crate::json::string_array(&hs));
    proof {
        assert(b.view() =~= seq![("type"@, JVal::Str("http"@)), ("path"@, JVal::Str(path@)), ("host"@, str_arr(seq![host@]))]);
    }
    b.build()
}

/// An HTTPUpgrade transport with a path and, when given, a host.
pub fn httpupgrade_transport_json(path: &str, host: &str) -> (r: Json)
    ensures
        r@ == httpupgrade_transport(path@, host@),
{
    let mut b = ObjBuilder::new();
    b.push("type", Json::string("httpupgrade"));
    b.push("path", Json::string(path));
    b.push("host", Json::string(host));
    proof {
        assert(b.view() =~= seq![("type"@, JVal::Str("httpupgrade"@)), ("path"@, JVal::Str(path@)), ("host"@, JVal::Str(host@))]);
    }
    b.build()
}

/// A transport of a type with no settings.
pub fn bare_transport_json(ty: &str) -> (r: Json)
    ensures
        r@ == bare_transport(ty@),
{
    let mut b = ObjBuilder::new();
    b.push("type", Json::string(ty));
    proof {
        assert(b.view() =~= seq![("type"@, JVal::Str(ty@))]);
    }
    b.build()
}

/// TLS with a server name and the certificate check on or off.
pub fn plain_tls_json(sni: &str, insecure: bool) -> (r: Json)
    ensures
        r@ == plain_tls(sni@, insecure),
{
    let mut b = ObjBuilder::new();
    b.push("enabled", Json::Bool(true));
    b.push("server_name", Json::string(sni));
    b.push("insecure", Json::Bool(insecure));
    proof {
        assert(b.view() =~= seq![("enabled"@, JVal::Bool(true)), ("server_name"@, JVal::Str(sni@)), ("insecure"@, JVal::Bool(insecure))]);
    }
    b.build()
}

/// The texts of an optional pair of strings.
pub open spec fn pair_view(p: Option<(String, String)>) -> Option<(Seq<char>, Seq<char>)> {
    match p {
        Some((a, b)) => Some((a@, b@)),
        None => None,
    }
}

/// TLS with a server name, a uTLS fingerprint and, when given, REALITY (public key, short id).
pub fn utls_tls_json(sni: &str, fp: &str, reality: Option<(String, String)>) -> (r: Json)
    ensures
        r@ == utls_tls(sni@, fp@, pair_view(reality)),
{
    let mut u = ObjBuilder::new();
    u.push("enabled", Json::Bool(true));
    u.push("fingerprint", Json::string(fp));
    proof {
        assert(u.view() =~= seq![("enabled"@, JVal::Bool(true)), ("fingerprint"@, JVal::Str(fp@))]);
    }
    let mut b = ObjBuilder::new();
    b.push("enabled", Json::Bool(true));
    b.push("server_name", Json::string(sni));
    b.push("utls", u.build());
    let ghost base = b.view();
    proof {
        assert(base =~= seq![
            ("enabled"@, JVal::Bool(true)),
            ("server_name"@, JVal::Str(sni@)),
            ("utls"@, JVal::Obj(seq![("enabled"@, JVal::Bool(true)), ("fingerprint"@, JVal::Str(fp@))])),
        ]);
    }
    match reality {
        Some((pbk, sid)) => {
            let mut re = ObjBuilder::new();
            re.push("enabled", Json::Bool(true));
            re.push("public_key", Json::Str(pbk));
            re.push("short_id", Json::Str(sid));
            proof {
                assert(re.view() =~= seq![
                    ("enabled"@, JVal::Bool(true)),
                    ("public_key"@, JVal::Str(pbk@)),
                    ("short_id"@, JVal::Str(sid@)),
                ]);
            }
            b.push("reality", re.build());
        },
        None => {
            b.push("insecure", Json::Bool(true));
        },
    }
    b.build()
}

// ─── vless:// ─────────────────────────────────────────────────────────

/// The transport of a `vless://` link: none for plain TCP.
pub open spec fn vless_transport(network: Seq<char>, path: Seq<char>, host: Seq<char>, svc: Seq<char>) -> Option<JVal> {
    if network == "tcp"@ || network.len() == 0 {
        None
    } else if network == "ws"@ {
        Some(ws_transport(path, host))
    } else if network == "grpc"@ {
        Some(grpc_transport(svc))
    } else if network == "h2"@ || network == "http"@ {
        Some(http_transport(path, host))
    } else if network == "httpupgrade"@ {
        Some(httpupgrade_transport(path, host))
    } else {
        Some(bare_transport(network))
    }
}

/// Members `key: v` for a present `v`.
pub open spec fn opt_member(key: Seq<char>, v: Option<JVal>) -> Seq<(Seq<char>, JVal)> {
    match v {
        Some(x) => seq![(key, x)],
        None => Seq::empty(),
    }
}

/// The TLS of a `vless://` link: uTLS with the `fp` fingerprint (default
/// `chrome`) for `security=tls`, plus Reality for `security=reality`.
pub open spec fn vless_tls(security: Seq<char>, sni: Seq<char>, ps: Seq<(Seq<char>, Seq<char>)>) -> Option<JVal> {
    if security == "tls"@ || security == "reality"@ {
        Some(utls_tls(
            sni,
            or_text(param(ps, "fp"@), "chrome"@),
            if security == "reality"@ {
                Some((or_text(param(ps, "pbk"@), Seq::empty()), or_text(param(ps, "sid"@), Seq::empty())))
            } else {
                None
            },
        ))
    } else {
        None
    }
}

/// The node and outbound of a `vless://` link. The tag is the fragment
/// (else the host); `type`, `security`, `sni`, `flow`, `path`, `host`,
/// `serviceName`/`service_name`, `fp`, `pbk` and `sid` come from the query.
pub open spec fn vless_result(link: Seq<char>, sub_id: Seq<char>) -> Result<(NodeView, JVal), ParseError> {
    match url_components(link) {
        None => Err(ParseError::InvalidUrl),
        Some(u) => {
            let ps = u.5;
            let server = or_text(u.2, Seq::empty());
            let port: u16 = match u.3 { Some(p) => p, None => 443 };
            let name = or_text(u.4, server);
            let network = or_text(param(ps, "type"@), "tcp"@);
            let security = or_text(param(ps, "security"@), "none"@);
            let sni = or_text(param(ps, "sni"@), server);
            let flow = or_text(param(ps, "flow"@), Seq::empty());
            let path = or_text(param(ps, "path"@), "/"@);
            let host = or_text(param(ps, "host"@), server);
            let svc = match param(ps, "serviceName"@) {
                Some(s) => s,
                None => or_text(param(ps, "service_name"@), Seq::empty()),
            };
            let tls = vless_tls(security, sni, ps);
            let ob = JVal::Obj(seq![
                ("type"@, JVal::Str("vless"@)),
                ("tag"@, JVal::Str(name)),
                ("server"@, JVal::Str(server)),
                ("server_port"@, JVal::UInt(port as u64)),
                ("uuid"@, JVal::Str(u.0)),
                ("flow"@, JVal::Str(flow)),
            ] + opt_member("transport"@, vless_transport(network, path, host, svc)) + opt_member("tls"@, tls));
            Ok((node_model(name, "vless"@, server, port, sub_id), ob))
        },
    }
}

/// What a link parser hands back: the node and its outbound, matching the
/// model `m` but for the node's random id.
pub open spec fn link_matches(r: Result<(ProxyNode, Json), ParseError>, m: Result<(NodeView, JVal), ParseError>) -> bool {
    match r {
        Ok((n, o)) => m matches Ok((mn, mo)) && n@.same_but_id(mn) && n@.id.len() == 36 && o@ == mo,
        Err(e) => m == Err::<(NodeView, JVal), ParseError>(e),
    }
}

fn opt_string(o: &Option<String>, d: &str) -> (r: String)
    ensures
        r@ == or_text(opt_view(*o), d@),
{
    match o {
        Some(s) => s.clone(),
        None => d.to_string(),
    }
}

/// The transport of a `vless://` link.
fn vless_transport_json(network: &str, path: &str, host: &str, svc: &str) -> (r: Option<Json>)
    ensures
        match r {
            Some(j) => vless_transport(network@, path@, host@, svc@) == Some(j@),
            None => vless_transport(network@, path@, host@, svc@) is None,
        },
{
    proof {
        reveal_strlit("tcp");
        reveal_strlit("ws");
        reveal_strlit("grpc");
        reveal_strlit("h2");
        reveal_strlit("http");
        reveal_strlit("httpupgrade");
    }
    if crate::json::str_eq(network, "tcp") || network.is_empty() {
        None
    } else if crate::json::str_eq(network, "ws") {
        Some(ws_transport_json(path, host))
    } else if crate::json::str_eq(network, "grpc") {
        Some(grpc_transport_json(svc))
    } else if crate::json::str_eq(network, "h2") || crate::json::str_eq(network, "http") {
        Some(http_transport_json(path, host))
    } else if crate::json::str_eq(network, "httpupgrade") {
        Some(httpupgrade_transport_json(path, host))
    } else {
        Some(bare_transport_json(network))
    }
}

/// Parses a `vless://` link.
pub fn parse_vless(link: &str, sub_id: &str) -> (r: Result<(ProxyNode, Json), ParseError>)
    ensures
        link_matches(r, vless_result(link@, sub_id@)),
{
    let u = match parse_url(link) {
        Some(u) => u,
        None => {
            return Err(ParseError::InvalidUrl);
        },
    };
    let server = opt_string(&u.host, "");
    let port: u16 = match u.port {
        Some(p) => p,
        None => 443,
    };
    let name = opt_string(&u.fragment, server.as_str());
    let network = param_or(&u.query, "type", "tcp");
    let security = param_or(&u.query, "security", "none");
    let sni = param_or(&u.query, "sni", server.as_str());
    let flow = param_or(&u.query, "flow", "");
    let path = param_or(&u.query, "path", "/");
    let host = param_or(&u.query, "host", server.as_str());
    let svc = match param_of(&u.query, "serviceName") {
        Some(s) => s,
        None => param_or(&u.query, "service_name", ""),
    };
    let mut b = ObjBuilder::new();
    b.push("type", Json::string("vless"));
    b.push("tag", Json::Str(name.clone()));
    b.push("server", Json::Str(server.clone()));
    b.push("server_port", Json::UInt(port as u64));
    b.push("uuid", Json::Str(u.username.clone()));
    b.push("flow", Json::Str(flow));
    let ghost base = b.view();
    let tr = vless_transport_json(network.as_str(), path.as_str(), host.as_str(), svc.as_str());
    match tr {
        Some(t) => {
            b.push("transport", t);
        },
        None => {},
    }
    let ghost with_tr = b.view();
    let is_tls = crate::json::str_eq(security.as_str(), "tls");
    let is_reality = crate::json::str_eq(security.as_str(), "reality");
    let ghost tls_model: Option<JVal>;
    if is_tls || is_reality {
        let fp = param_or(&u.query, "fp", "chrome");
        let reality = if is_reality {
            Some((param_or(&u.query, "pbk", ""), param_or(&u.query, "sid", "")))
        } else {
            None
        };
        let ghost rv = pair_view(reality);
        proof {
            reveal_strlit("");
            reveal_strlit("reality");
            assert(rv == (if security@ == "reality"@ {
                Some((or_text(param(pairs_view(u.query@), "pbk"@), Seq::empty()), or_text(param(pairs_view(u.query@), "sid"@), Seq::empty())))
            } else {
                None
            }));
            assert(fp@ == or_text(param(pairs_view(u.query@), "fp"@), "chrome"@));
        }
        let t = utls_tls_json(sni.as_str(), fp.as_str(), reality);
        proof {
            reveal_strlit("tls");
            reveal_strlit("reality");
            reveal_strlit("");
            tls_model = Some(t@);
            assert(tls_model == vless_tls(security@, sni@, pairs_view(u.query@)));
        }
        b.push("tls", t);
    } else {
        proof {
            tls_model = None;
            assert(tls_model == vless_tls(security@, sni@, pairs_view(u.query@)));
        }
    }
    proof {
        reveal_strlit("tls");
        reveal_strlit("reality");
        reveal_strlit("");
        assert(server@ == or_text(u.view().2, Seq::empty()));
        assert(url_components(link@) == Some(u.view()));
        assert(with_tr =~= base + opt_member("transport"@, vless_transport(network@, path@, host@, svc@)));
        assert(b.view() =~= with_tr + opt_member("tls"@, tls_model));
        assert(""@ =~= Seq::<char>::empty());
        assert(base[1] == ("tag"@, JVal::Str(name@)));
        assert(base[2] == ("server"@, JVal::Str(server@)));
        assert(base[4] == ("uuid"@, JVal::Str(u.username@)));
        assert(base[5] == ("flow"@, JVal::Str(or_text(param(pairs_view(u.query@), "flow"@), Seq::empty()))));
        assert(base =~= seq![
            ("type"@, JVal::Str("vless"@)),
            ("tag"@, JVal::Str(name@)),
            ("server"@, JVal::Str(server@)),
            ("server_port"@, JVal::UInt(port as u64)),
            ("uuid"@, JVal::Str(u.username@)),
            ("flow"@, JVal::Str(or_text(param(pairs_view(u.query@), "flow"@), Seq::empty()))),
        ]);
        assert(svc@ == match param(pairs_view(u.query@), "serviceName"@) {
            Some(s) => s,
            None => or_text(param(pairs_view(u.query@), "service_name"@), Seq::empty()),
        });
    }
    let node = make_node(name, "vless", server, port, sub_id);
    Ok((node, b.build()))
}

/// A `vless://` link with `type=grpc` gets a gRPC transport whose service
/// name is the `serviceName` parameter; `service_name` is read only when
/// `serviceName` is absent, and with neither the name is empty.
pub proof fn lemma_vless_grpc_service_name(link: Seq<char>, sub_id: Seq<char>)
    requires
        url_components(link) is Some,
        param(url_components(link)->Some_0.5, "type"@) == Some("grpc"@),
    ensures
        vless_result(link, sub_id) is Ok,
        vless_result(link, sub_id)->Ok_0.1.field("transport"@).field("type"@) == JVal::Str("grpc"@),
        param(url_components(link)->Some_0.5, "serviceName"@) is Some ==> vless_result(link, sub_id)->Ok_0.1.field(
            "transport"@,
        ).field("service_name"@) == JVal::Str(param(url_components(link)->Some_0.5, "serviceName"@)->Some_0),
        param(url_components(link)->Some_0.5, "serviceName"@) is None && param(url_components(link)->Some_0.5, "service_name"@)
            is Some ==> vless_result(link, sub_id)->Ok_0.1.field("transport"@).field("service_name"@) == JVal::Str(
            param(url_components(link)->Some_0.5, "service_name"@)->Some_0,
        ),
        param(url_components(link)->Some_0.5, "serviceName"@) is None && param(url_components(link)->Some_0.5, "service_name"@)
            is None ==> vless_result(link, sub_id)->Ok_0.1.field("transport"@).field("service_name"@) == JVal::Str(
            Seq::empty(),
        ),
{
    reveal_strlit("type");
    reveal_strlit("tag");
    reveal_strlit("server");
    reveal_strlit("server_port");
    reveal_strlit("uuid");
    reveal_strlit("flow");
    reveal_strlit("transport");
    reveal_strlit("service_name");
    reveal_strlit("grpc");
    reveal_strlit("tcp");
    reveal_strlit("ws");
    assert("type"@.len() == 4 && "tag"@.len() == 3 && "server"@.len() == 6 && "server_port"@.len() == 11);
    assert("uuid"@.len() == 4 && "flow"@.len() == 4 && "transport"@.len() == 9 && "service_name"@.len() == 12);
    let u = url_components(link)->Some_0;
    let ps = u.5;
    let server = or_text(u.2, Seq::empty());
    let svc = match param(ps, "serviceName"@) {
        Some(s) => s,
        None => or_text(param(ps, "service_name"@), Seq::empty()),
    };
    let network = or_text(param(ps, "type"@), "tcp"@);
    assert(network == "grpc"@);
    assert(vless_transport(network, or_text(param(ps, "path"@), "/"@), or_text(param(ps, "host"@), server), svc) == Some(
        grpc_transport(svc),
    ));
    let ob = vless_result(link, sub_id)->Ok_0.1;
    let ms = ob->Obj_0;
    let head = ms.subrange(0, 6);
    let rest = ms.subrange(6, ms.len() as int);
    assert(ms =~= head + rest);
    assert(rest[0] == ("transport"@, grpc_transport(svc)));
    lemma_lookup_concat(head, rest, "transport"@);
    assert forall|i: int| 0 <= i < head.len() implies head[i].0 != "transport"@ by {
        assert(head[i] == ms[i]);
    }
    lemma_lookup_has_key(head, "transport"@);
    assert(lookup(rest, "transport"@) == Some(grpc_transport(svc)));
    let gm = seq![("type"@, JVal::Str("grpc"@)), ("service_name"@, JVal::Str(svc))];
    assert(gm.drop_first() =~= seq![("service_name"@, JVal::Str(svc))]);
    assert(lookup(seq![("service_name"@, JVal::Str(svc))], "service_name"@) == Some(JVal::Str(svc)));
    assert(lookup(gm, "service_name"@) == Some(JVal::Str(svc)));
}

/// The members of a uTLS setting.
pub proof fn lemma_utls_fields(sni: Seq<char>, fp: Seq<char>, reality: Option<(Seq<char>, Seq<char>)>)
    ensures
        utls_tls(sni, fp, reality).field("server_name"@) == JVal::Str(sni),
        utls_tls(sni, fp, reality).field("utls"@).field("fingerprint"@) == JVal::Str(fp),
        reality is Some ==> utls_tls(sni, fp, reality).field("reality"@).field("public_key"@) == JVal::Str(
            reality->Some_0.0,
        ),
        reality is Some ==> utls_tls(sni, fp, reality).field("reality"@).field("short_id"@) == JVal::Str(
            reality->Some_0.1,
        ),
        reality is None ==> utls_tls(sni, fp, reality).field("insecure"@) == JVal::Bool(true),
{
    reveal_strlit("enabled");
    reveal_strlit("server_name");
    reveal_strlit("utls");
    reveal_strlit("fingerprint");
    reveal_strlit("reality");
    reveal_strlit("public_key");
    reveal_strlit("short_id");
    reveal_strlit("insecure");
    assert("enabled"@.len() == 7 && "server_name"@.len() == 11 && "utls"@.len() == 4 && "fingerprint"@.len() == 11);
    assert("reality"@.len() == 7 && "reality"@[0] != "enabled"@[0] && "public_key"@.len() == 10);
    assert("short_id"@.len() == 8 && "insecure"@.len() == 8 && "short_id"@[0] != "insecure"@[0]);
    let u = seq![("enabled"@, JVal::Bool(true)), ("fingerprint"@, JVal::Str(fp))];
    let base = seq![("enabled"@, JVal::Bool(true)), ("server_name"@, JVal::Str(sni)), ("utls"@, JVal::Obj(u))];
    assert(lookup(u, "fingerprint"@) == Some(JVal::Str(fp))) by {
        reveal_with_fuel(lookup, 3);
    }
    match reality {
        Some((pbk, sid)) => {
            let r = seq![("enabled"@, JVal::Bool(true)), ("public_key"@, JVal::Str(pbk)), ("short_id"@, JVal::Str(sid))];
            let ms = base.push(("reality"@, JVal::Obj(r)));
            assert(lookup(ms, "server_name"@) == Some(JVal::Str(sni))) by {
                reveal_with_fuel(lookup, 3);
            }
            assert(lookup(ms, "utls"@) == Some(JVal::Obj(u))) by {
                reveal_with_fuel(lookup, 4);
            }
            assert(lookup(ms, "reality"@) == Some(JVal::Obj(r))) by {
                reveal_with_fuel(lookup, 5);
            }
            assert(lookup(r, "public_key"@) == Some(JVal::Str(pbk))) by {
                reveal_with_fuel(lookup, 3);
            }
            assert(lookup(r, "short_id"@) == Some(JVal::Str(sid))) by {
                reveal_with_fuel(lookup, 4);
            }
        },
        None => {
            let ms = base.push(("insecure"@, JVal::Bool(true)));
            assert(lookup(ms, "server_name"@) == Some(JVal::Str(sni))) by {
                reveal_with_fuel(lookup, 3);
            }
            assert(lookup(ms, "utls"@) == Some(JVal::Obj(u))) by {
                reveal_with_fuel(lookup, 4);
            }
            assert(lookup(ms, "insecure"@) == Some(JVal::Bool(true))) by {
                reveal_with_fuel(lookup, 5);
            }
        },
    }
}

/// A `vless://` link with `security=tls` or `security=reality` gets uTLS
/// naming the `sni` parameter (the host when there is none) with the `fp`
/// fingerprint (`chrome` when there is none); Reality carries the `pbk` and
/// `sid` parameters as its public key and short id, plain TLS accepts any
/// certificate; with any other security the outbound has no TLS.
pub proof fn lemma_vless_link_tls(link: Seq<char>, sub_id: Seq<char>)
    requires
        url_components(link) is Some,
    ensures
        vless_result(link, sub_id) is Ok,
        param(url_components(link)->Some_0.5, "security"@) == Some("tls"@) || param(url_components(link)->Some_0.5, "security"@)
            == Some("reality"@) ==> vless_result(link, sub_id)->Ok_0.1.field("tls"@).field("server_name"@) == JVal::Str(
            or_text(param(url_components(link)->Some_0.5, "sni"@), or_text(url_components(link)->Some_0.2, Seq::empty())),
        ) && vless_result(link, sub_id)->Ok_0.1.field("tls"@).field("utls"@).field("fingerprint"@) == JVal::Str(
            or_text(param(url_components(link)->Some_0.5, "fp"@), "chrome"@),
        ),
        param(url_components(link)->Some_0.5, "security"@) == Some("reality"@) ==> vless_result(link, sub_id)->Ok_0.1.field(
            "tls"@,
        ).field("reality"@).field("public_key"@) == JVal::Str(or_text(param(url_components(link)->Some_0.5, "pbk"@), Seq::empty()))
            && vless_result(link, sub_id)->Ok_0.1.field("tls"@).field("reality"@).field("short_id"@) == JVal::Str(
            or_text(param(url_components(link)->Some_0.5, "sid"@), Seq::empty()),
        ),
        param(url_components(link)->Some_0.5, "security"@) == Some("tls"@) ==> vless_result(link, sub_id)->Ok_0.1.field(
            "tls"@,
        ).field("insecure"@) == JVal::Bool(true),
        param(url_components(link)->Some_0.5, "security"@) != Some("tls"@) && param(url_components(link)->Some_0.5, "security"@)
            != Some("reality"@) ==> vless_result(link, sub_id)->Ok_0.1.field("tls"@) == JVal::Null,
{
    reveal_strlit("type");
    reveal_strlit("tag");
    reveal_strlit("server");
    reveal_strlit("server_port");
    reveal_strlit("uuid");
    reveal_strlit("flow");
    reveal_strlit("transport");
    reveal_strlit("tls");
    reveal_strlit("reality");
    reveal_strlit("none");
    assert("type"@.len() == 4 && "tag"@.len() == 3 && "server"@.len() == 6 && "server_port"@.len() == 11);
    assert("uuid"@.len() == 4 && "flow"@.len() == 4 && "transport"@.len() == 9 && "tls"@.len() == 3);
    assert("tls"@[1] != "tag"@[1] && "reality"@.len() == 7 && "none"@.len() == 4);
    let u = url_components(link)->Some_0;
    let ps = u.5;
    let server = or_text(u.2, Seq::empty());
    let security = or_text(param(ps, "security"@), "none"@);
    let sni = or_text(param(ps, "sni"@), server);
    let tls = vless_tls(security, sni, ps);
    let ms = vless_result(link, sub_id)->Ok_0.1->Obj_0;
    let head = ms.subrange(0, 6);
    let network = or_text(param(ps, "type"@), "tcp"@);
    let svc = match param(ps, "serviceName"@) {
        Some(s) => s,
        None => or_text(param(ps, "service_name"@), Seq::empty()),
    };
    let tr = opt_member("transport"@, vless_transport(network, or_text(param(ps, "path"@), "/"@), or_text(param(ps, "host"@), server), svc));
    let tl = opt_member("tls"@, tls);
    assert(ms =~= head + (tr + tl));
    assert forall|i: int| 0 <= i < head.len() implies (#[trigger] head[i]).0 != "tls"@ by {
        assert(head[i] == ms[i]);
    }
    assert forall|i: int| 0 <= i < tr.len() implies (#[trigger] tr[i]).0 != "tls"@ by {}
    lemma_lookup_past(head, tr + tl, "tls"@);
    lemma_lookup_past(tr, tl, "tls"@);
    lemma_lookup_has_key(tl, "tls"@);
    if security == "tls"@ || security == "reality"@ {
        let fp = or_text(param(ps, "fp"@), "chrome"@);
        let re = if security == "reality"@ {
            Some((or_text(param(ps, "pbk"@), Seq::empty()), or_text(param(ps, "sid"@), Seq::empty())))
        } else {
            None
        };
        lemma_utls_fields(sni, fp, re);
        assert(lookup(tl, "tls"@) == Some(utls_tls(sni, fp, re)));
    } else {
        assert(tl.len() == 0);
    }
}

// ─── trojan:// and hysteria2:// ───────────────────────────────────────

/// The outbound of a password-authenticated TLS protocol.
pub open spec fn password_outbound(ty: Seq<char>, name: Seq<char>, server: Seq<char>, port: u64, password: Seq<char>, tls: JVal) -> JVal {
    JVal::Obj(seq![
        ("type"@, JVal::Str(ty)),
        ("tag"@, JVal::Str(name)),
        ("server"@, JVal::Str(server)),
        ("server_port"@, JVal::UInt(port)),
        ("password"@, JVal::Str(password)),
        ("tls"@, tls),
    ])
}

/// The node and outbound of a `trojan://` link: the password is the user
/// name, TLS with the `sni` parameter (else the host), certificates not checked.
pub open spec fn trojan_result(link: Seq<char>, sub_id: Seq<char>) -> Result<(NodeView, JVal), ParseError> {
    match url_components(link) {
        None => Err(ParseError::InvalidUrl),
        Some(u) => {
            let server = or_text(u.2, Seq::empty());
            let port: u16 = match u.3 { Some(p) => p, None => 443 };
            let name = or_text(u.4, server);
            let sni = or_text(param(u.5, "sni"@), server);
            Ok((
                node_model(name, "trojan"@, server, port, sub_id),
                password_outbound("trojan"@, name, server, port as u64, u.0, plain_tls(sni, true)),
            ))
        },
    }
}

/// The node and outbound of a `hysteria2://` or `hy2://` link (every
/// `hy2://` in it read as `hysteria2://`): certificates are checked unless
/// `insecure=1`.
pub open spec fn hysteria2_result(link: Seq<char>, sub_id: Seq<char>) -> Result<(NodeView, JVal), ParseError> {
    match url_components(replace_all(link, "hy2://"@, "hysteria2://"@)) {
        None => Err(ParseError::InvalidUrl),
        Some(u) => {
            let server = or_text(u.2, Seq::empty());
            let port: u16 = match u.3 { Some(p) => p, None => 443 };
            let name = or_text(u.4, server);
            let sni = or_text(param(u.5, "sni"@), server);
            let insecure = param(u.5, "insecure"@) == Some("1"@);
            Ok((
                node_model(name, "hysteria2"@, server, port, sub_id),
                password_outbound("hysteria2"@, name, server, port as u64, u.0, plain_tls(sni, insecure)),
            ))
        },
    }
}

/// The members of a plain TLS setting.
proof fn lemma_plain_tls_fields(sni: Seq<char>, insecure: bool)
    ensures
        plain_tls(sni, insecure).field("server_name"@) == JVal::Str(sni),
        plain_tls(sni, insecure).field("insecure"@) == JVal::Bool(insecure),
{
    reveal_strlit("enabled");
    reveal_strlit("server_name");
    reveal_strlit("insecure");
    assert("enabled"@.len() == 7 && "server_name"@.len() == 11 && "insecure"@.len() == 8);
    let ts = seq![("enabled"@, JVal::Bool(true)), ("server_name"@, JVal::Str(sni)), ("insecure"@, JVal::Bool(insecure))];
    assert(lookup(ts, "server_name"@) == Some(JVal::Str(sni))) by {
        reveal_with_fuel(lookup, 3);
    }
    assert(lookup(ts, "insecure"@) == Some(JVal::Bool(insecure))) by {
        reveal_with_fuel(lookup, 4);
    }
}

/// The members of a password-protocol outbound and of its plain TLS.
pub proof fn lemma_password_outbound_fields(
    ty: Seq<char>,
    name: Seq<char>,
    server: Seq<char>,
    port: u64,
    password: Seq<char>,
    sni: Seq<char>,
    insecure: bool,
)
    ensures
        password_outbound(ty, name, server, port, password, plain_tls(sni, insecure)).field("type"@) == JVal::Str(ty),
        password_outbound(ty, name, server, port, password, plain_tls(sni, insecure)).field("server"@) == JVal::Str(
            server,
        ),
        password_outbound(ty, name, server, port, password, plain_tls(sni, insecure)).field("server_port"@)
            == JVal::UInt(port),
        password_outbound(ty, name, server, port, password, plain_tls(sni, insecure)).field("password"@) == JVal::Str(
            password,
        ),
        password_outbound(ty, name, server, port, password, plain_tls(sni, insecure)).field("tls"@).field(
            "server_name"@,
        ) == JVal::Str(sni),
        password_outbound(ty, name, server, port, password, plain_tls(sni, insecure)).field("tls"@).field(
            "insecure"@,
        ) == JVal::Bool(insecure),
{
    reveal_strlit("type");
    reveal_strlit("tag");
    reveal_strlit("server");
    reveal_strlit("server_port");
    reveal_strlit("password");
    reveal_strlit("tls");
    assert("type"@.len() == 4 && "tag"@.len() == 3 && "server"@.len() == 6 && "server_port"@.len() == 11);
    assert("password"@.len() == 8 && "tls"@.len() == 3 && "tls"@[1] != "tag"@[1]);
    let tls = plain_tls(sni, insecure);
    let ms = seq![
        ("type"@, JVal::Str(ty)),
        ("tag"@, JVal::Str(name)),
        ("server"@, JVal::Str(server)),
        ("server_port"@, JVal::UInt(port)),
        ("password"@, JVal::Str(password)),
        ("tls"@, tls),
    ];
    assert(lookup(ms, "type"@) == Some(JVal::Str(ty)));
    assert(lookup(ms, "server"@) == Some(JVal::Str(server))) by {
        reveal_with_fuel(lookup, 4);
    }
    assert(lookup(ms, "server_port"@) == Some(JVal::UInt(port))) by {
        reveal_with_fuel(lookup, 5);
    }
    assert(lookup(ms, "password"@) == Some(JVal::Str(password))) by {
        reveal_with_fuel(lookup, 6);
    }
    assert(lookup(ms, "tls"@) == Some(tls)) by {
        reveal_with_fuel(lookup, 7);
    }
    lemma_plain_tls_fields(sni, insecure);
}

/// A `trojan://` link's outbound authenticates with the link's user name and
/// names the `sni` parameter in its TLS, the host when there is none; it
/// does not check certificates; the port defaults to 443.
pub proof fn lemma_trojan_link_tls(link: Seq<char>, sub_id: Seq<char>)
    requires
        url_components(link) is Some,
    ensures
        trojan_result(link, sub_id) is Ok,
        trojan_result(link, sub_id)->Ok_0.1.field("password"@) == JVal::Str(url_components(link)->Some_0.0),
        trojan_result(link, sub_id)->Ok_0.1.field("server_port"@) == JVal::UInt(
            match url_components(link)->Some_0.3 {
                Some(p) => p as u64,
                None => 443,
            },
        ),
        param(url_components(link)->Some_0.5, "sni"@) is Some ==> trojan_result(link, sub_id)->Ok_0.1.field(
            "tls"@,
        ).field("server_name"@) == JVal::Str(param(url_components(link)->Some_0.5, "sni"@)->Some_0),
        param(url_components(link)->Some_0.5, "sni"@) is None ==> trojan_result(link, sub_id)->Ok_0.1.field(
            "tls"@,
        ).field("server_name"@) == JVal::Str(or_text(url_components(link)->Some_0.2, Seq::empty())),
        trojan_result(link, sub_id)->Ok_0.1.field("tls"@).field("insecure"@) == JVal::Bool(true),
{
    let u = url_components(link)->Some_0;
    let server = or_text(u.2, Seq::empty());
    let port: u16 = match u.3 { Some(p) => p, None => 443 };
    lemma_password_outbound_fields(
        "trojan"@,
        or_text(u.4, server),
        server,
        port as u64,
        u.0,
        or_text(param(u.5, "sni"@), server),
        true,
    );
}

/// A `hysteria2://` (or `hy2://`) link's outbound checks certificates unless
/// the query says `insecure=1`, and names the `sni` parameter in its TLS,
/// the host when there is none.
pub proof fn lemma_hysteria2_link_tls(link: Seq<char>, sub_id: Seq<char>)
    requires
        url_components(replace_all(link, "hy2://"@, "hysteria2://"@)) is Some,
    ensures
        hysteria2_result(link, sub_id) is Ok,
        hysteria2_result(link, sub_id)->Ok_0.1.field("type"@) == JVal::Str("hysteria2"@),
        hysteria2_result(link, sub_id)->Ok_0.1.field("tls"@).field("insecure"@) == JVal::Bool(
            param(url_components(replace_all(link, "hy2://"@, "hysteria2://"@))->Some_0.5, "insecure"@) == Some("1"@),
        ),
        param(url_components(replace_all(link, "hy2://"@, "hysteria2://"@))->Some_0.5, "sni"@) is Some
            ==> hysteria2_result(link, sub_id)->Ok_0.1.field("tls"@).field("server_name"@) == JVal::Str(
            param(url_components(replace_all(link, "hy2://"@, "hysteria2://"@))->Some_0.5, "sni"@)->Some_0,
        ),
        param(url_components(replace_all(link, "hy2://"@, "hysteria2://"@))->Some_0.5, "sni"@) is None
            ==> hysteria2_result(link, sub_id)->Ok_0.1.field("tls"@).field("server_name"@) == JVal::Str(
            or_text(url_components(replace_all(link, "hy2://"@, "hysteria2://"@))->Some_0.2, Seq::empty()),
        ),
{
    let u = url_components(replace_all(link, "hy2://"@, "hysteria2://"@))->Some_0;
    let server = or_text(u.2, Seq::empty());
    let port: u16 = match u.3 { Some(p) => p, None => 443 };
    lemma_password_outbound_fields(
        "hysteria2"@,
        or_text(u.4, server),
        server,
        port as u64,
        u.0,
        or_text(param(u.5, "sni"@), server),
        param(u.5, "insecure"@) == Some("1"@),
    );
}

/// An outbound of a password protocol (trojan, hysteria2) with its TLS settings.
pub fn password_outbound_json(ty: &str, name: &str, server: &str, port: u64, password: &str, tls: Json) -> (r: Json)
    ensures
        r@ == password_outbound(ty@, name@, server@, port, password@, tls@),
{
    let mut b = ObjBuilder::new();
    b.push("type", Json::string(ty));
    b.push("tag", Json::string(name));
    b.push("server", Json::string(server));
    b.push("server_port", Json::UInt(port));
    b.push("password", Json::string(password));
    b.push("tls", tls);
    proof {
        assert(b.view() =~= seq![
            ("type"@, JVal::Str(ty@)),
            ("tag"@, JVal::Str(name@)),
            ("server"@, JVal::Str(server@)),
            ("server_port"@, JVal::UInt(port)),
            ("password"@, JVal::Str(password@)),
            ("tls"@, tls@),
        ]);
    }
    b.build()
}

/// Parses a `trojan://` link.
pub fn parse_trojan(link: &str, sub_id: &str) -> (r: Result<(ProxyNode, Json), ParseError>)
    ensures
        link_matches(r, trojan_result(link@, sub_id@)),
{
    let u = match parse_url(link) {
        Some(u) => u,
        None => {
            return Err(ParseError::InvalidUrl);
        },
    };
    proof {
        reveal_strlit("");
        assert(""@ =~= Seq::<char>::empty());
    }
    let server = opt_string(&u.host, "");
    let port: u16 = match u.port {
        Some(p) => p,
        None => 443,
    };
    let name = opt_string(&u.fragment, server.as_str());
    let sni = param_or(&u.query, "sni", server.as_str());
    let ob = password_outbound_json("trojan", name.as_str(), server.as_str(), port as u64, u.username.as_str(), plain_tls_json(sni.as_str(), true));
    let node = make_node(name, "trojan", server, port, sub_id);
    Ok((node, ob))
}

/// Parses a `hysteria2://` or `hy2://` link.
pub fn parse_hysteria2(link: &str, sub_id: &str) -> (r: Result<(ProxyNode, Json), ParseError>)
    ensures
        link_matches(r, hysteria2_result(link@, sub_id@)),
{
    proof {
        reveal_strlit("hy2://");
    }
    let normalized = replace_str(link, "hy2://", "hysteria2://");
    let u = match parse_url(normalized.as_str()) {
        Some(u) => u,
        None => {
            return Err(ParseError::InvalidUrl);
        },
    };
    proof {
        reveal_strlit("");
        assert(""@ =~= Seq::<char>::empty());
    }
    let server = opt_string(&u.host, "");
    let port: u16 = match u.port {
        Some(p) => p,
        None => 443,
    };
    let name = opt_string(&u.fragment, server.as_str());
    let sni = param_or(&u.query, "sni", server.as_str());
    let insecure = match param_of(&u.query, "insecure") {
        Some(v) => crate::json::str_eq(v.as_str(), "1"),
        None => false,
    };
    let ob = password_outbound_json("hysteria2", name.as_str(), server.as_str(), port as u64, u.username.as_str(), plain_tls_json(sni.as_str(), insecure));
    let node = make_node(name, "hysteria2", server, port, sub_id);
    Ok((node, ob))
}

// ─── ss:// ────────────────────────────────────────────────────────────

/// The method and password of an `ss://` link: the user name, when it is
/// standard base64, decodes to `method:password` (invalid UTF-8 reads as
/// empty); otherwise the user name is the method and the URL password the
/// password.
pub open spec fn ss_credentials(user: Seq<char>, pass: Option<Seq<char>>) -> (Seq<char>, Seq<char>) {
    match standard_base64_decoded(encode_utf8(user)) {
        Some(bytes) => {
            let s = if valid_utf8(bytes) { decode_utf8(bytes) } else { Seq::empty() };
            let sp = split_first(s, ':');
            (sp.0, or_text(sp.1, Seq::empty()))
        },
        None => (user, or_text(pass, Seq::empty())),
    }
}

/// The node and outbound of an `ss://` link (default port 8388).
pub open spec fn ss_result(link: Seq<char>, sub_id: Seq<char>) -> Result<(NodeView, JVal), ParseError> {
    match url_components(link) {
        None => Err(ParseError::InvalidUrl),
        Some(u) => {
            let server = or_text(u.2, Seq::empty());
            let port: u16 = match u.3 { Some(p) => p, None => 8388 };
            let name = or_text(u.4, server);
            let cred = ss_credentials(u.0, u.1);
            Ok((node_model(name, "shadowsocks"@, server, port, sub_id), ss_outbound(name, server, port as u64, cred.0, cred.1)))
        },
    }
}

/// A shadowsocks outbound.
pub open spec fn ss_outbound(name: Seq<char>, server: Seq<char>, port: u64, method: Seq<char>, password: Seq<char>) -> JVal {
    JVal::Obj(seq![
        ("type"@, JVal::Str("shadowsocks"@)),
        ("tag"@, JVal::Str(name)),
        ("server"@, JVal::Str(server)),
        ("server_port"@, JVal::UInt(port)),
        ("method"@, JVal::Str(method)),
        ("password"@, JVal::Str(password)),
    ])
}

/// The members of a shadowsocks outbound that carry its credentials and port.
pub proof fn lemma_ss_outbound_fields(name: Seq<char>, server: Seq<char>, port: u64, method: Seq<char>, password: Seq<char>)
    ensures
        ss_outbound(name, server, port, method, password).field("server_port"@) == JVal::UInt(port),
        ss_outbound(name, server, port, method, password).field("method"@) == JVal::Str(method),
        ss_outbound(name, server, port, method, password).field("password"@) == JVal::Str(password),
{
    reveal_strlit("type");
    reveal_strlit("tag");
    reveal_strlit("server");
    reveal_strlit("server_port");
    reveal_strlit("method");
    reveal_strlit("password");
    assert("type"@.len() == 4 && "tag"@.len() == 3 && "server"@.len() == 6 && "server_port"@.len() == 11);
    assert("method"@.len() == 6 && "method"@[0] != "server"@[0] && "password"@.len() == 8);
    let ms = seq![
        ("type"@, JVal::Str("shadowsocks"@)),
        ("tag"@, JVal::Str(name)),
        ("server"@, JVal::Str(server)),
        ("server_port"@, JVal::UInt(port)),
        ("method"@, JVal::Str(method)),
        ("password"@, JVal::Str(password)),
    ];
    assert(lookup(ms, "server_port"@) == Some(JVal::UInt(port))) by {
        reveal_with_fuel(lookup, 5);
    }
    assert(lookup(ms, "method"@) == Some(JVal::Str(method))) by {
        reveal_with_fuel(lookup, 6);
    }
    assert(lookup(ms, "password"@) == Some(JVal::Str(password))) by {
        reveal_with_fuel(lookup, 7);
    }
}

/// An `ss://` link whose user name is base64 of `method:password` (the
/// method holding no colon) gets that method and password; the port
/// defaults to 8388.
pub proof fn lemma_ss_link_encoded_credentials(link: Seq<char>, sub_id: Seq<char>, method: Seq<char>, password: Seq<char>)
    requires
        url_components(link) is Some,
        standard_base64_decoded(encode_utf8(url_components(link)->Some_0.0)) is Some,
        valid_utf8(standard_base64_decoded(encode_utf8(url_components(link)->Some_0.0))->Some_0),
        decode_utf8(standard_base64_decoded(encode_utf8(url_components(link)->Some_0.0))->Some_0) == method + seq![':']
            + password,
        !method.contains(':'),
    ensures
        ss_result(link, sub_id) is Ok,
        ss_result(link, sub_id)->Ok_0.1.field("method"@) == JVal::Str(method),
        ss_result(link, sub_id)->Ok_0.1.field("password"@) == JVal::Str(password),
        ss_result(link, sub_id)->Ok_0.1.field("server_port"@) == JVal::UInt(
            match url_components(link)->Some_0.3 {
                Some(p) => p as u64,
                None => 8388,
            },
        ),
{
    let u = url_components(link)->Some_0;
    let t = method + seq![':'] + password;
    crate::text::lemma_find_from(t, ':', 0);
    let k = find_from(t, ':', 0);
    assert(t[method.len() as int] == ':');
    if k < method.len() {
        assert(t[k] == method[k]);
    }
    assert(k == method.len());
    assert(t.subrange(0, k) =~= method);
    assert(t.subrange(k + 1, t.len() as int) =~= password);
    let server = or_text(u.2, Seq::empty());
    let port: u16 = match u.3 { Some(p) => p, None => 8388 };
    lemma_ss_outbound_fields(or_text(u.4, server), server, port as u64, method, password);
}

/// An `ss://` link whose user name is not base64 takes it as the method and
/// the password part of the link as the password (empty when absent).
pub proof fn lemma_ss_link_plain_credentials(link: Seq<char>, sub_id: Seq<char>)
    requires
        url_components(link) is Some,
        standard_base64_decoded(encode_utf8(url_components(link)->Some_0.0)) is None,
    ensures
        ss_result(link, sub_id) is Ok,
        ss_result(link, sub_id)->Ok_0.1.field("method"@) == JVal::Str(url_components(link)->Some_0.0),
        ss_result(link, sub_id)->Ok_0.1.field("password"@) == JVal::Str(or_text(url_components(link)->Some_0.1, Seq::empty())),
{
    let u = url_components(link)->Some_0;
    let server = or_text(u.2, Seq::empty());
    let port: u16 = match u.3 { Some(p) => p, None => 8388 };
    lemma_ss_outbound_fields(or_text(u.4, server), server, port as u64, u.0, or_text(u.1, Seq::empty()));
}

/// A shadowsocks outbound.
pub fn ss_outbound_json(name: &str, server: &str, port: u64, method: &str, password: &str) -> (r: Json)
    ensures
        r@ == ss_outbound(name@, server@, port, method@, password@),
{
    let mut b = ObjBuilder::new();
    b.push("type", Json::string("shadowsocks"));
    b.push("tag", Json::string(name));
    b.push("server", Json::string(server));
    b.push("server_port", Json::UInt(port));
    b.push("method", Json::string(method));
    b.push("password", Json::string(password));
    proof {
        assert(b.view() =~= seq![
            ("type"@, JVal::Str("shadowsocks"@)),
            ("tag"@, JVal::Str(name@)),
            ("server"@, JVal::Str(server@)),
            ("server_port"@, JVal::UInt(port)),
            ("method"@, JVal::Str(method@)),
            ("password"@, JVal::Str(password@)),
        ]);
    }
    b.build()
}

fn ss_credentials_of(user: &str, pass: &Option<String>) -> (r: (String, String))
    ensures
        (r.0@, r.1@) == ss_credentials(user@, opt_view(*pass)),
{
    proof {
        reveal_strlit("");
        assert(""@ =~= Seq::<char>::empty());
    }
    match base64_standard_decode(user.as_bytes()) {
        Some(bytes) => {
            let s = match utf8_decode(bytes) {
                Some(t) => t,
                None => String::new(),
            };
            let (a, b) = split_first_str(s.as_str(), ':');
            let p = match b {
                Some(t) => t,
                None => String::new(),
            };
            (a, p)
        },
        None => (user.to_string(), opt_string(pass, "")),
    }
}

/// Parses an `ss://` link.
pub fn parse_ss(link: &str, sub_id: &str) -> (r: Result<(ProxyNode, Json), ParseError>)
    ensures
        link_matches(r, ss_result(link@, sub_id@)),
{
    let u = match parse_url(link) {
        Some(u) => u,
        None => {
            return Err(ParseError::InvalidUrl);
        },
    };
    proof {
        reveal_strlit("");
        assert(""@ =~= Seq::<char>::empty());
    }
    let server = opt_string(&u.host, "");
    let port: u16 = match u.port {
        Some(p) => p,
        None => 8388,
    };
    let name = opt_string(&u.fragment, server.as_str());
    let (method, password) = ss_credentials_of(u.username.as_str(), &u.password);
    let ob = ss_outbound_json(name.as_str(), server.as_str(), port as u64, method.as_str(), password.as_str());
    let node = make_node(name, "shadowsocks", server, port, sub_id);
    Ok((node, ob))
}

// ─── vmess:// ─────────────────────────────────────────────────────────

/// The decoded payload of a `vmess://` link: the text after the scheme
/// (every leading `vmess://` removed) as standard base64, else as URL-safe
/// base64.
pub open spec fn vmess_payload(link: Seq<char>) -> Option<Seq<u8>> {
    let enc = encode_utf8(trim_start_matches(link, "vmess://"@));
    match standard_base64_decoded(enc) {
        Some(b) => Some(b),
        None => url_safe_base64_decoded(enc),
    }
}

/// A number given either as a JSON number or as decimal text.
pub open spec fn number_or_text(v: JVal) -> Option<u64> {
    match v.as_u64() {
        Some(n) => Some(n),
        None => match v.as_str() {
            Some(s) => match parse_unsigned(s, u64::MAX as nat) {
                Some(n) => Some(n as u64),
                None => None,
            },
            None => None,
        },
    }
}

/// The transport of a vmess payload: none for plain TCP; gRPC takes its
/// service name from `path`.
pub open spec fn vmess_transport(network: Seq<char>, path: Seq<char>, host: Seq<char>) -> Option<JVal> {
    if network == "tcp"@ || network.len() == 0 {
        None
    } else if network == "ws"@ {
        Some(ws_transport(path, host))
    } else if network == "grpc"@ {
        Some(grpc_transport(path))
    } else if network == "h2"@ || network == "http"@ {
        Some(http_transport(path, host))
    } else {
        Some(bare_transport(network))
    }
}

/// The tag of a vmess payload: `ps`, else `add`, else `vmess`.
pub open spec fn vmess_name(v: JVal) -> Seq<char> {
    match v.field("ps"@).as_str() {
        Some(s) => s,
        None => or_text(v.field("add"@).as_str(), "vmess"@),
    }
}

/// The port of a vmess payload (default 443), kept modulo 2^16.
pub open spec fn vmess_port(v: JVal) -> u16 {
    ((match number_or_text(v.field("port"@)) { Some(n) => n, None => 443 }) % 65536) as u16
}

/// The TLS server name of a vmess payload: `sni`, else `host`, else empty.
pub open spec fn vmess_sni(v: JVal) -> Seq<char> {
    match v.field("sni"@).as_str() {
        Some(s) => s,
        None => or_text(v.field("host"@).as_str(), Seq::empty()),
    }
}

/// The node and outbound described by a vmess JSON payload.
pub open spec fn vmess_from_doc(v: JVal, sub_id: Seq<char>) -> (NodeView, JVal) {
    let name = vmess_name(v);
    let server = or_text(v.field("add"@).as_str(), Seq::empty());
    let port = vmess_port(v);
    let alter_id: u64 = match number_or_text(v.field("aid"@)) { Some(n) => n, None => 0 };
    let network = or_text(v.field("net"@).as_str(), "tcp"@);
    let tls = v.field("tls"@).as_str() == Some("tls"@);
    let sni = vmess_sni(v);
    let path = or_text(v.field("path"@).as_str(), "/"@);
    let host = or_text(v.field("host"@).as_str(), sni);
    let ob = JVal::Obj(seq![
        ("type"@, JVal::Str("vmess"@)),
        ("tag"@, JVal::Str(name)),
        ("server"@, JVal::Str(server)),
        ("server_port"@, JVal::UInt(port as u64)),
        ("uuid"@, JVal::Str(or_text(v.field("id"@).as_str(), Seq::empty()))),
        ("alter_id"@, JVal::UInt(alter_id)),
        ("security"@, JVal::Str("auto"@)),
    ] + opt_member("transport"@, vmess_transport(network, path, host))
        + opt_member("tls"@, if tls { Some(plain_tls(sni, true)) } else { None }));
    (node_model(name, "vmess"@, server, port, sub_id), ob)
}

/// The `transport` and `tls` members of an outbound whose other members
/// come first and carry neither key.
proof fn lemma_trailing_members(head: Seq<(Seq<char>, JVal)>, tr: Option<JVal>, tl: Option<JVal>)
    requires
        forall|i: int| 0 <= i < head.len() ==> (#[trigger] head[i]).0 != "transport"@ && head[i].0 != "tls"@,
    ensures
        JVal::Obj(head + opt_member("transport"@, tr) + opt_member("tls"@, tl)).field("transport"@) == (match tr {
            Some(t) => t,
            None => JVal::Null,
        }),
        JVal::Obj(head + opt_member("transport"@, tr) + opt_member("tls"@, tl)).field("tls"@) == (match tl {
            Some(t) => t,
            None => JVal::Null,
        }),
{
    reveal_strlit("transport");
    reveal_strlit("tls");
    assert("transport"@.len() == 9 && "tls"@.len() == 3);
    let a = opt_member("transport"@, tr);
    let b = opt_member("tls"@, tl);
    assert(head + a + b =~= head + (a + b));
    lemma_lookup_past(head, a + b, "transport"@);
    lemma_lookup_past(head, a + b, "tls"@);
    lemma_lookup_concat(a, b, "transport"@);
    lemma_lookup_past(a, b, "tls"@);
    lemma_lookup_has_key(b, "transport"@);
    lemma_lookup_has_key(b, "tls"@);
    lemma_lookup_has_key(a, "transport"@);
}

/// The outbound of a vmess payload has TLS exactly when its `tls` is
/// `"tls"`, naming `sni`, else `host`; a `ws` network gets a WebSocket
/// transport with `path` (`/` when absent) and a `Host` header of `host`,
/// else `sni`; a `grpc` network takes its service name from `path`.
pub proof fn lemma_vmess_doc_outbound(v: JVal, sub_id: Seq<char>)
    ensures
        v.field("tls"@).as_str() == Some("tls"@) && v.field("sni"@).as_str() is Some ==> vmess_from_doc(v, sub_id).1.field(
            "tls"@,
        ).field("server_name"@) == v.field("sni"@),
        v.field("tls"@).as_str() == Some("tls"@) && v.field("sni"@).as_str() is None && v.field("host"@).as_str() is Some
            ==> vmess_from_doc(v, sub_id).1.field("tls"@).field("server_name"@) == v.field("host"@),
        v.field("tls"@).as_str() != Some("tls"@) ==> vmess_from_doc(v, sub_id).1.field("tls"@) == JVal::Null,
        v.field("net"@) == JVal::Str("ws"@) ==> vmess_from_doc(v, sub_id).1.field("transport"@).field("path"@) == JVal::Str(
            or_text(v.field("path"@).as_str(), "/"@),
        ),
        v.field("net"@) == JVal::Str("ws"@) && v.field("host"@).as_str() is Some ==> vmess_from_doc(v, sub_id).1.field(
            "transport"@,
        ).field("headers"@).field("Host"@) == v.field("host"@),
        v.field("net"@) == JVal::Str("ws"@) && v.field("host"@).as_str() is None && v.field("sni"@).as_str() is Some
            ==> vmess_from_doc(v, sub_id).1.field("transport"@).field("headers"@).field("Host"@) == v.field("sni"@),
        v.field("net"@) == JVal::Str("grpc"@) ==> vmess_from_doc(v, sub_id).1.field("transport"@).field("service_name"@)
            == JVal::Str(or_text(v.field("path"@).as_str(), "/"@)),
{
    reveal_strlit("type");
    reveal_strlit("tag");
    reveal_strlit("server");
    reveal_strlit("server_port");
    reveal_strlit("uuid");
    reveal_strlit("alter_id");
    reveal_strlit("security");
    reveal_strlit("transport");
    reveal_strlit("tls");
    reveal_strlit("tcp");
    reveal_strlit("ws");
    reveal_strlit("grpc");
    reveal_strlit("path");
    reveal_strlit("headers");
    reveal_strlit("Host");
    reveal_strlit("service_name");
    assert("type"@.len() == 4 && "tag"@.len() == 3 && "server"@.len() == 6 && "server_port"@.len() == 11);
    assert("uuid"@.len() == 4 && "alter_id"@.len() == 8 && "security"@.len() == 8 && "transport"@.len() == 9);
    assert("tls"@.len() == 3 && "tls"@[1] != "tag"@[1] && "tcp"@.len() == 3 && "ws"@.len() == 2 && "grpc"@.len() == 4);
    assert("tcp"@[0] != "grpc"@[0] && "path"@.len() == 4 && "path"@[0] != "type"@[0] && "headers"@.len() == 7);
    assert("Host"@.len() == 4 && "service_name"@.len() == 12);
    let name = vmess_name(v);
    let server = or_text(v.field("add"@).as_str(), Seq::empty());
    let port = vmess_port(v);
    let alter_id: u64 = match number_or_text(v.field("aid"@)) { Some(n) => n, None => 0 };
    let network = or_text(v.field("net"@).as_str(), "tcp"@);
    let tls = v.field("tls"@).as_str() == Some("tls"@);
    let sni = vmess_sni(v);
    let path = or_text(v.field("path"@).as_str(), "/"@);
    let host = or_text(v.field("host"@).as_str(), sni);
    let head = seq![
        ("type"@, JVal::Str("vmess"@)),
        ("tag"@, JVal::Str(name)),
        ("server"@, JVal::Str(server)),
        ("server_port"@, JVal::UInt(port as u64)),
        ("uuid"@, JVal::Str(or_text(v.field("id"@).as_str(), Seq::empty()))),
        ("alter_id"@, JVal::UInt(alter_id)),
        ("security"@, JVal::Str("auto"@)),
    ];
    let tl: Option<JVal> = if tls { Some(plain_tls(sni, true)) } else { None };
    lemma_trailing_members(head, vmess_transport(network, path, host), tl);
    lemma_plain_tls_fields(sni, true);
    if v.field("net"@) == JVal::Str("ws"@) {
        let hm = seq![("Host"@, JVal::Str(host))];
        let wm = seq![("type"@, JVal::Str("ws"@)), ("path"@, JVal::Str(path)), ("headers"@, JVal::Obj(hm))];
        assert(lookup(wm, "path"@) == Some(JVal::Str(path))) by {
            reveal_with_fuel(lookup, 3);
        }
        assert(lookup(wm, "headers"@) == Some(JVal::Obj(hm))) by {
            reveal_with_fuel(lookup, 4);
        }
        assert(lookup(hm, "Host"@) == Some(JVal::Str(host)));
    }
    if v.field("net"@) == JVal::Str("grpc"@) {
        let gm = seq![("type"@, JVal::Str("grpc"@)), ("service_name"@, JVal::Str(path))];
        assert(lookup(gm, "service_name"@) == Some(JVal::Str(path))) by {
            reveal_with_fuel(lookup, 3);
        }
    }
}

/// The node and outbound of a `vmess://` link: the payload must be base64
/// of UTF-8 text that parses as JSON.
pub open spec fn vmess_result(link: Seq<char>, sub_id: Seq<char>, docs: ParsedDocs) -> Result<(NodeView, JVal), ParseError> {
    match vmess_payload(link) {
        None => Err(ParseError::InvalidBase64),
        Some(b) => if !valid_utf8(b) {
            Err(ParseError::InvalidUtf8)
        } else {
            match json_doc(docs, decode_utf8(b)) {
                None => Err(ParseError::InvalidJson),
                Some(v) => Ok(vmess_from_doc(v, sub_id)),
            }
        },
    }
}

/// `j[key]` read by [`number_or_text`].
pub fn number_or_text_at(j: &Json, key: &str) -> (r: Option<u64>)
    ensures
        r == number_or_text(j@.field(key@)),
{
    match j.get(key) {
        Some(v) => match v.as_u64() {
            Some(n) => Some(n),
            None => match v.as_str() {
                Some(s) => {
                    let cs = chars_of(s);
                    parse_unsigned_chars(cs.as_slice(), u64::MAX)
                },
                None => None,
            },
        },
        None => None,
    }
}

fn vmess_transport_json(network: &str, path: &str, host: &str) -> (r: Option<Json>)
    ensures
        match r {
            Some(j) => vmess_transport(network@, path@, host@) == Some(j@),
            None => vmess_transport(network@, path@, host@) is None,
        },
{
    if crate::json::str_eq(network, "tcp") || network.is_empty() {
        None
    } else if crate::json::str_eq(network, "ws") {
        Some(ws_transport_json(path, host))
    } else if crate::json::str_eq(network, "grpc") {
        Some(grpc_transport_json(path))
    } else if crate::json::str_eq(network, "h2") || crate::json::str_eq(network, "http") {
        Some(http_transport_json(path, host))
    } else {
        Some(bare_transport_json(network))
    }
}

fn vmess_name_of(v: &Json) -> (r: String)
    ensures
        r@ == vmess_name(v@),
{
    match v.str_at("ps") {
        Some(s) => s,
        None => v.str_at_or("add", "vmess"),
    }
}

fn vmess_port_of(v: &Json) -> (r: u16)
    ensures
        r == vmess_port(v@),
{
    let pn: u64 = match number_or_text_at(v, "port") {
        Some(n) => n,
        None => 443,
    };
    (pn % 65536) as u16
}

fn vmess_sni_of(v: &Json) -> (r: String)
    ensures
        r@ == vmess_sni(v@),
{
    proof {
        reveal_strlit("");
        assert(""@ =~= Seq::<char>::empty());
    }
    match v.str_at("sni") {
        Some(s) => s,
        None => v.str_at_or("host", ""),
    }
}

/// The outbound of a vmess payload, from its fields.
fn vmess_outbound_json(
    v: &Json,
    name: &str,
    server: &str,
    port: u16,
    sni: &str,
) -> (r: Json)
    requires
        name@ == vmess_name(v@),
        server@ == or_text(v@.field("add"@).as_str(), Seq::empty()),
        port == vmess_port(v@),
        sni@ == vmess_sni(v@),
    ensures
        r@ == vmess_from_doc(v@, Seq::empty()).1,
{
    proof {
        reveal_strlit("");
        assert(""@ =~= Seq::<char>::empty());
    }
    let alter_id: u64 = match number_or_text_at(v, "aid") {
        Some(n) => n,
        None => 0,
    };
    let network = v.str_at_or("net", "tcp");
    let tls = match v.str_at("tls") {
        Some(t) => crate::json::str_eq(t.as_str(), "tls"),
        None => false,
    };
    let path = v.str_at_or("path", "/");
    let host = v.str_at_or("host", sni);
    let uuid = v.str_at_or("id", "");
    let mut b = ObjBuilder::new();
    b.push("type", Json::string("vmess"));
    b.push("tag", Json::string(name));
    b.push("server", Json::string(server));
    b.push("server_port", Json::UInt(port as u64));
    b.push("uuid", Json::Str(uuid));
    b.push("alter_id", Json::UInt(alter_id));
    b.push("security", Json::string("auto"));
    let ghost base = b.view();
    match vmess_transport_json(network.as_str(), path.as_str(), host.as_str()) {
        Some(t) => {
            b.push("transport", t);
        },
        None => {},
    }
    let ghost with_tr = b.view();
    if tls {
        b.push("tls", plain_tls_json(sni, true));
    }
    proof {
        assert(base =~= seq![
            ("type"@, JVal::Str("vmess"@)),
            ("tag"@, JVal::Str(name@)),
            ("server"@, JVal::Str(server@)),
            ("server_port"@, JVal::UInt(port as u64)),
            ("uuid"@, JVal::Str(or_text(v@.field("id"@).as_str(), Seq::empty()))),
            ("alter_id"@, JVal::UInt(alter_id)),
            ("security"@, JVal::Str("auto"@)),
        ]);
        assert(with_tr =~= base + opt_member("transport"@, vmess_transport(network@, path@, host@)));
        assert(b.view() =~= with_tr + opt_member("tls"@, if tls { Some(plain_tls(sni@, true)) } else { None }));
    }
    b.build()
}

/// The node and outbound of a vmess JSON payload.
pub fn vmess_node_of(v: &Json, sub_id: &str) -> (r: (ProxyNode, Json))
    ensures
        r.0@.same_but_id(vmess_from_doc(v@, sub_id@).0),
        r.0@.id.len() == 36,
        r.1@ == vmess_from_doc(v@, sub_id@).1,
{
    proof {
        reveal_strlit("");
        assert(""@ =~= Seq::<char>::empty());
    }
    let name = vmess_name_of(v);
    let server = v.str_at_or("add", "");
    let port = vmess_port_of(v);
    let sni = vmess_sni_of(v);
    let ob = vmess_outbound_json(v, name.as_str(), server.as_str(), port, sni.as_str());
    let node = make_node(name, "vmess", server, port, sub_id);
    (node, ob)
}

/// The decoded payload of a `vmess://` link.
pub fn vmess_payload_of(link: &str) -> (r: Option<Vec<u8>>)
    ensures
        match r {
            Some(b) => vmess_payload(link@) == Some(b@),
            None => vmess_payload(link@) is None,
        },
{
    let encoded = trim_start_matches_str(link, "vmess://");
    match base64_standard_decode(encoded.as_str().as_bytes()) {
        Some(b) => Some(b),
        None => base64_url_safe_decode(encoded.as_str().as_bytes()),
    }
}

/// Parses a `vmess://` link; `docs` holds the JSON parse of its payload.
pub fn parse_vmess(link: &str, sub_id: &str, docs: &ParsedDocs) -> (r: Result<(ProxyNode, Json), ParseError>)
    ensures
        link_matches(r, vmess_result(link@, sub_id@, *docs)),
{
    let bytes = match vmess_payload_of(link) {
        Some(b) => b,
        None => {
            return Err(ParseError::InvalidBase64);
        },
    };
    let text = match utf8_decode(bytes) {
        Some(t) => t,
        None => {
            return Err(ParseError::InvalidUtf8);
        },
    };
    match lookup_entry(&docs.json, text.as_str()) {
        Some(v) => {
            let (n, o) = vmess_node_of(v, sub_id);
            Ok((n, o))
        },
        None => Err(ParseError::InvalidJson),
    }
}

// ─── Any link ─────────────────────────────────────────────────────────

/// The node and outbound of a share link, chosen by its scheme.
pub open spec fn link_result(link: Seq<char>, sub_id: Seq<char>, docs: ParsedDocs) -> Result<(NodeView, JVal), ParseError> {
    if starts_with(link, "vmess://"@) {
        vmess_result(link, sub_id, docs)
    } else if starts_with(link, "vless://"@) {
        vless_result(link, sub_id)
    } else if starts_with(link, "ss://"@) {
        ss_result(link, sub_id)
    } else if starts_with(link, "trojan://"@) {
        trojan_result(link, sub_id)
    } else if starts_with(link, "hysteria2://"@) || starts_with(link, "hy2://"@) {
        hysteria2_result(link, sub_id)
    } else {
        Err(ParseError::UnsupportedLink)
    }
}

/// Parses a share link of any supported scheme.
pub fn parse_node_link(link: &str, sub_id: &str, docs: &ParsedDocs) -> (r: Result<(ProxyNode, Json), ParseError>)
    ensures
        link_matches(r, link_result(link@, sub_id@, *docs)),
{
    if str_starts_with(link, "vmess://") {
        parse_vmess(link, sub_id, docs)
    } else if str_starts_with(link, "vless://") {
        parse_vless(link, sub_id)
    } else if str_starts_with(link, "ss://") {
        parse_ss(link, sub_id)
    } else if str_starts_with(link, "trojan://") {
        parse_trojan(link, sub_id)
    } else if str_starts_with(link, "hysteria2://") || str_starts_with(link, "hy2://") {
        parse_hysteria2(link, sub_id)
    } else {
        Err(ParseError::UnsupportedLink)
    }
}

} // verus!
