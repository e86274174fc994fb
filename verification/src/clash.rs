//! Clash (YAML) proxies and their sing-box outbounds.
use vstd::prelude::*;
use crate::json::{Json, JVal, ObjBuilder, lemma_lookup_past, lemma_lookup_has_key};
use crate::links::{
    or_text, opt_member, ws_transport, grpc_transport, http_transport, httpupgrade_transport, bare_transport,
    plain_tls, utls_tls, pair_view, ss_outbound, password_outbound, ws_transport_json, grpc_transport_json,
    http_transport_json, httpupgrade_transport_json, bare_transport_json, plain_tls_json, utls_tls_json,
    ss_outbound_json, password_outbound_json, lemma_utls_fields, lemma_ss_outbound_fields,
    lemma_password_outbound_fields,
};

verus! {

/// The view of an optional value.
pub open spec fn opt_jview(o: Option<Json>) -> Option<JVal> {
    match o {
        Some(j) => Some(j@),
        None => None,
    }
}

/// `v.as_str()`, or `d`.
pub open spec fn str_or(v: JVal, d: Seq<char>) -> Seq<char> {
    or_text(v.as_str(), d)
}

/// The transport of a Clash proxy: none for plain TCP; ws, grpc, h2/http and
/// httpupgrade read their `*-opts` (ws also the older `ws-path` and
/// `ws-headers`); any other network is passed on by name.
pub open spec fn clash_transport(network: Seq<char>, p: JVal) -> Option<JVal> {
    if network == "tcp"@ || network.len() == 0 {
        None
    } else if network == "ws"@ {
        let path = match p.field("ws-opts"@).field("path"@).as_str() {
            Some(s) => s,
            None => str_or(p.field("ws-path"@), "/"@),
        };
        let host = match p.field("ws-opts"@).field("headers"@).field("Host"@).as_str() {
            Some(s) => s,
            None => str_or(p.field("ws-headers"@).field("Host"@), Seq::empty()),
        };
        Some(ws_transport(path, host))
    } else if network == "grpc"@ {
        Some(grpc_transport(str_or(p.field("grpc-opts"@).field("grpc-service-name"@), Seq::empty())))
    } else if network == "h2"@ || network == "http"@ {
        Some(http_transport(
            str_or(p.field("h2-opts"@).field("path"@).at(0), "/"@),
            str_or(p.field("h2-opts"@).field("host"@).at(0), Seq::empty()),
        ))
    } else if network == "httpupgrade"@ {
        Some(httpupgrade_transport(
            str_or(p.field("httpupgrade-opts"@).field("path"@), "/"@),
            str_or(p.field("httpupgrade-opts"@).field("host"@), Seq::empty()),
        ))
    } else {
        Some(bare_transport(network))
    }
}

/// `{ "enabled": true, "insecure": true }`
pub open spec fn insecure_tls() -> JVal {
    JVal::Obj(seq![("enabled"@, JVal::Bool(true)), ("insecure"@, JVal::Bool(true))])
}

/// The vmess outbound of a Clash proxy.
pub open spec fn clash_vmess(p: JVal, tag: Seq<char>, server: Seq<char>, port: u64) -> JVal {
    let network = str_or(p.field("network"@), "tcp"@);
    let tls = match p.field("tls"@).as_bool() { Some(b) => b, None => false };
    JVal::Obj(seq![
        ("type"@, JVal::Str("vmess"@)),
        ("tag"@, JVal::Str(tag)),
        ("server"@, JVal::Str(server)),
        ("server_port"@, JVal::UInt(port)),
        ("uuid"@, JVal::Str(str_or(p.field("uuid"@), Seq::empty()))),
        ("alter_id"@, JVal::UInt(match p.field("alterId"@).as_u64() { Some(n) => n, None => 0 })),
        ("security"@, JVal::Str("auto"@)),
    ] + opt_member("transport"@, clash_transport(network, p))
        + opt_member("tls"@, if tls { Some(insecure_tls()) } else { None }))
}

/// The TLS of a Clash vless proxy: present when `tls` is set or the proxy
/// has a `reality-opts` mapping (Reality implies TLS); uTLS with
/// `client-fingerprint` (default `chrome`), server name `servername`, else
/// `sni`, else the server.
pub open spec fn clash_vless_tls(p: JVal, server: Seq<char>) -> Option<JVal> {
    let ro = p.field("reality-opts"@);
    let has_reality = ro.is_obj();
    let tls = (match p.field("tls"@).as_bool() { Some(b) => b, None => false }) || has_reality;
    let sni = match p.field("servername"@).as_str() {
        Some(s) => s,
        None => str_or(p.field("sni"@), server),
    };
    if tls {
        Some(utls_tls(
            sni,
            str_or(p.field("client-fingerprint"@), "chrome"@),
            if has_reality {
                Some((str_or(ro.field("public-key"@), Seq::empty()), str_or(ro.field("short-id"@), Seq::empty())))
            } else {
                None
            },
        ))
    } else {
        None
    }
}

/// The vless outbound of a Clash proxy.
pub open spec fn clash_vless(p: JVal, tag: Seq<char>, server: Seq<char>, port: u64) -> JVal {
    let network = str_or(p.field("network"@), "tcp"@);
    JVal::Obj(seq![
        ("type"@, JVal::Str("vless"@)),
        ("tag"@, JVal::Str(tag)),
        ("server"@, JVal::Str(server)),
        ("server_port"@, JVal::UInt(port)),
        ("uuid"@, JVal::Str(str_or(p.field("uuid"@), Seq::empty()))),
        ("flow"@, JVal::Str(str_or(p.field("flow"@), Seq::empty()))),
    ] + opt_member("transport"@, clash_transport(network, p)) + opt_member("tls"@, clash_vless_tls(p, server)))
}

/// The sing-box outbound of a Clash proxy, tagged `tag`: none when `type`,
/// `server` or a non-negative integer `port` is missing, or for an
/// unsupported type.
pub open spec fn clash_outbound(p: JVal, tag: Seq<char>) -> Option<JVal> {
    match (p.field("type"@).as_str(), p.field("server"@).as_str(), p.field("port"@).as_u64()) {
        (Some(proto), Some(server), Some(port)) => if proto == "ss"@ {
            Some(ss_outbound(
                tag,
                server,
                port,
                str_or(p.field("cipher"@), "aes-128-gcm"@),
                str_or(p.field("password"@), Seq::empty()),
            ))
        } else if proto == "vmess"@ {
            Some(clash_vmess(p, tag, server, port))
        } else if proto == "vless"@ {
            Some(clash_vless(p, tag, server, port))
        } else if proto == "trojan"@ || proto == "hysteria2"@ || proto == "hy2"@ {
            Some(password_outbound(
                if proto == "trojan"@ { "trojan"@ } else { "hysteria2"@ },
                tag,
                server,
                port,
                str_or(p.field("password"@), Seq::empty()),
                plain_tls(str_or(p.field("sni"@), server), true),
            ))
        } else {
            None
        },
        _ => None,
    }
}

/// `j[key]`, or null when absent.
fn member<'a>(j: &'a Json, key: &str, null: &'a Json) -> (r: &'a Json)
    requires
        null@ == JVal::Null,
    ensures
        r@ == j@.field(key@),
{
    match j.get(key) {
        Some(v) => v,
        None => null,
    }
}

/// `j.as_str()`, or `d`.
fn str_or_of(j: &Json, d: &str) -> (r: String)
    ensures
        r@ == str_or(j@, d@),
{
    match j.as_str() {
        Some(s) => s.to_string(),
        None => d.to_string(),
    }
}

/// The element `i` of an array, or null.
fn element<'a>(j: &'a Json, i: usize, null: &'a Json) -> (r: &'a Json)
    requires
        null@ == JVal::Null,
    ensures
        r@ == j@.at(i as int),
{
    match j.at_index(i) {
        Some(v) => v,
        None => {
            proof {
                match j@ {
                    JVal::Arr(s) => {},
                    _ => {},
                }
            }
            null
        },
    }
}

/// The transport of a Clash proxy.
pub fn clash_transport_json(network: &str, p: &Json) -> (r: Option<Json>)
    ensures
        match r {
            Some(j) => clash_transport(network@, p@) == Some(j@),
            None => clash_transport(network@, p@) is None,
        },
{
    proof {
        reveal_strlit("");
        assert(""@ =~= Seq::<char>::empty());
    }
    let null = Json::Null;
    if crate::json::str_eq(network, "tcp") || network.is_empty() {
        None
    } else if crate::json::str_eq(network, "ws") {
        let opts = member(p, "ws-opts", &null);
        let path = match member(opts, "path", &null).as_str() {
            Some(s) => s.to_string(),
            None => str_or_of(member(p, "ws-path", &null), "/"),
        };
        let host = match member(member(opts, "headers", &null), "Host", &null).as_str() {
            Some(s) => s.to_string(),
            None => str_or_of(member(member(p, "ws-headers", &null), "Host", &null), ""),
        };
        Some(ws_transport_json(path.as_str(), host.as_str()))
    } else if crate::json::str_eq(network, "grpc") {
        let svc = str_or_of(member(member(p, "grpc-opts", &null), "grpc-service-name", &null), "");
        Some(grpc_transport_json(svc.as_str()))
    } else if crate::json::str_eq(network, "h2") || crate::json::str_eq(network, "http") {
        let opts = member(p, "h2-opts", &null);
        let path = str_or_of(element(member(opts, "path", &null), 0, &null), "/");
        let host = str_or_of(element(member(opts, "host", &null), 0, &null), "");
        Some(http_transport_json(path.as_str(), host.as_str()))
    } else if crate::json::str_eq(network, "httpupgrade") {
        let opts = member(p, "httpupgrade-opts", &null);
        let path = str_or_of(member(opts, "path", &null), "/");
        let host = str_or_of(member(opts, "host", &null), "");
        Some(httpupgrade_transport_json(path.as_str(), host.as_str()))
    } else {
        Some(bare_transport_json(network))
    }
}

fn insecure_tls_json() -> (r: Json)
    ensures
        r@ == insecure_tls(),
{
    let mut b = ObjBuilder::new();
    b.push("enabled", Json::Bool(true));
    b.push("insecure", Json::Bool(true));
    proof {
        assert(b.view() =~= seq![("enabled"@, JVal::Bool(true)), ("insecure"@, JVal::Bool(true))]);
    }
    b.build()
}

fn clash_vmess_json(p: &Json, tag: &str, server: &str, port: u64) -> (r: Json)
    ensures
        r@ == clash_vmess(p@, tag@, server@, port),
{
    proof {
        reveal_strlit("");
        assert(""@ =~= Seq::<char>::empty());
    }
    let null = Json::Null;
    let network = str_or_of(member(p, "network", &null), "tcp");
    let tls = match p.bool_at("tls") {
        Some(b) => b,
        None => false,
    };
    let alter_id: u64 = match p.u64_at("alterId") {
        Some(n) => n,
        None => 0,
    };
    let mut b = ObjBuilder::new();
    b.push("type", Json::string("vmess"));
    b.push("tag", Json::string(tag));
    b.push("server", Json::string(server));
    b.push("server_port", Json::UInt(port));
    b.push("uuid", Json::Str(str_or_of(member(p, "uuid", &null), "")));
    b.push("alter_id", Json::UInt(alter_id));
    b.push("security", Json::string("auto"));
    let ghost base = b.view();
    match clash_transport_json(network.as_str(), p) {
        Some(t) => {
            b.push("transport", t);
        },
        None => {},
    }
    let ghost with_tr = b.view();
    if tls {
        b.push("tls", insecure_tls_json());
    }
    proof {
        assert(base =~= seq![
            ("type"@, JVal::Str("vmess"@)),
            ("tag"@, JVal::Str(tag@)),
            ("server"@, JVal::Str(server@)),
            ("server_port"@, JVal::UInt(port)),
            ("uuid"@, JVal::Str(str_or(p@.field("uuid"@), Seq::empty()))),
            ("alter_id"@, JVal::UInt(match p@.field("alterId"@).as_u64() { Some(n) => n, None => 0 })),
            ("security"@, JVal::Str("auto"@)),
        ]);
        assert(with_tr =~= base + opt_member("transport"@, clash_transport(network@, p@)));
        assert(b.view() =~= with_tr + opt_member("tls"@, if tls { Some(insecure_tls()) } else { None }));
    }
    b.build()
}

fn clash_vless_tls_json(p: &Json, server: &str) -> (r: Option<Json>)
    ensures
        match r {
            Some(j) => clash_vless_tls(p@, server@) == Some(j@),
            None => clash_vless_tls(p@, server@) is None,
        },
{
    proof {
        reveal_strlit("");
        assert(""@ =~= Seq::<char>::empty());
    }
    let null = Json::Null;
    let ro = member(p, "reality-opts", &null);
    let has_reality = ro.is_obj();
    let tls_flag = match p.bool_at("tls") {
        Some(b) => b,
        None => false,
    };
    if !(tls_flag || has_reality) {
        return None;
    }
    let sni = match p.str_at("servername") {
        Some(s) => s,
        None => str_or_of(member(p, "sni", &null), server),
    };
    let fp = str_or_of(member(p, "client-fingerprint", &null), "chrome");
    let reality = if has_reality {
        Some((str_or_of(member(ro, "public-key", &null), ""), str_or_of(member(ro, "short-id", &null), "")))
    } else {
        None
    };
    let ghost rv = pair_view(reality);
    proof {
        assert(rv == (if has_reality {
            Some((str_or(ro@.field("public-key"@), Seq::empty()), str_or(ro@.field("short-id"@), Seq::empty())))
        } else {
            None
        }));
    }
    Some(utls_tls_json(sni.as_str(), fp.as_str(), reality))
}

fn clash_vless_json(p: &Json, tag: &str, server: &str, port: u64) -> (r: Json)
    ensures
        r@ == clash_vless(p@, tag@, server@, port),
{
    proof {
        reveal_strlit("");
        assert(""@ =~= Seq::<char>::empty());
    }
    let null = Json::Null;
    let network = str_or_of(member(p, "network", &null), "tcp");
    let mut b = ObjBuilder::new();
    b.push("type", Json::string("vless"));
    b.push("tag", Json::string(tag));
    b.push("server", Json::string(server));
    b.push("server_port", Json::UInt(port));
    b.push("uuid", Json::Str(str_or_of(member(p, "uuid", &null), "")));
    b.push("flow", Json::Str(str_or_of(member(p, "flow", &null), "")));
    let ghost base = b.view();
    match clash_transport_json(network.as_str(), p) {
        Some(t) => {
            b.push("transport", t);
        },
        None => {},
    }
    let ghost with_tr = b.view();
    let tls = clash_vless_tls_json(p, server);
    let ghost tls_model = opt_jview(tls);
    match tls {
        Some(t) => {
            b.push("tls", t);
        },
        None => {},
    }
    proof {
        assert(base =~= seq![
            ("type"@, JVal::Str("vless"@)),
            ("tag"@, JVal::Str(tag@)),
            ("server"@, JVal::Str(server@)),
            ("server_port"@, JVal::UInt(port)),
            ("uuid"@, JVal::Str(str_or(p@.field("uuid"@), Seq::empty()))),
            ("flow"@, JVal::Str(str_or(p@.field("flow"@), Seq::empty()))),
        ]);
        assert(with_tr =~= base + opt_member("transport"@, clash_transport(network@, p@)));
        assert(b.view() =~= with_tr + opt_member("tls"@, tls_model));
    }
    b.build()
}

/// The sing-box outbound of a Clash proxy, if it has one.
pub fn clash_outbound_json(p: &Json, tag: &str) -> (r: Option<Json>)
    ensures
        match r {
            Some(j) => clash_outbound(p@, tag@) == Some(j@),
            None => clash_outbound(p@, tag@) is None,
        },
{
    proof {
        reveal_strlit("");
        assert(""@ =~= Seq::<char>::empty());
    }
    let null = Json::Null;
    let proto = match p.str_at("type") {
        Some(s) => s,
        None => {
            return None;
        },
    };
    let server = match p.str_at("server") {
        Some(s) => s,
        None => {
            return None;
        },
    };
    let port = match p.u64_at("port") {
        Some(n) => n,
        None => {
            return None;
        },
    };
    let pr = proto.as_str();
    if crate::json::str_eq(pr, "ss") {
        let cipher = str_or_of(member(p, "cipher", &null), "aes-128-gcm");
        let password = str_or_of(member(p, "password", &null), "");
        Some(ss_outbound_json(tag, server.as_str(), port, cipher.as_str(), password.as_str()))
    } else if crate::json::str_eq(pr, "vmess") {
        Some(clash_vmess_json(p, tag, server.as_str(), port))
    } else if crate::json::str_eq(pr, "vless") {
        Some(clash_vless_json(p, tag, server.as_str(), port))
    } else if crate::json::str_eq(pr, "trojan") || crate::json::str_eq(pr, "hysteria2") || crate::json::str_eq(pr, "hy2") {
        let ty = if crate::json::str_eq(pr, "trojan") { "trojan" } else { "hysteria2" };
        let password = str_or_of(member(p, "password", &null), "");
        let sni = str_or_of(member(p, "sni", &null), server.as_str());
        Some(password_outbound_json(ty, tag, server.as_str(), port, password.as_str(), plain_tls_json(sni.as_str(), true)))
    } else {
        None
    }
}

/// A Clash trojan, hysteria2 or hy2 proxy with a server and a port becomes
/// an outbound of that type whose TLS names the proxy's `sni` when it has
/// one and the server otherwise, with certificate checks off.
pub proof fn lemma_clash_password_proxy_sni(p: JVal, tag: Seq<char>)
    requires
        p.field("type"@) == JVal::Str("trojan"@) || p.field("type"@) == JVal::Str("hysteria2"@) || p.field("type"@)
            == JVal::Str("hy2"@),
        p.field("server"@).as_str() is Some,
        p.field("port"@).as_u64() is Some,
    ensures
        clash_outbound(p, tag) is Some,
        clash_outbound(p, tag)->Some_0.field("type"@) == JVal::Str(
            if p.field("type"@) == JVal::Str("trojan"@) { "trojan"@ } else { "hysteria2"@ },
        ),
        clash_outbound(p, tag)->Some_0.field("server"@) == p.field("server"@),
        p.field("sni"@).as_str() is Some ==> clash_outbound(p, tag)->Some_0.field("tls"@).field("server_name"@)
            == p.field("sni"@),
        p.field("sni"@).as_str() is None ==> clash_outbound(p, tag)->Some_0.field("tls"@).field("server_name"@)
            == p.field("server"@),
        clash_outbound(p, tag)->Some_0.field("tls"@).field("insecure"@) == JVal::Bool(true),
{
    reveal_strlit("ss");
    reveal_strlit("vmess");
    reveal_strlit("vless");
    reveal_strlit("trojan");
    reveal_strlit("hysteria2");
    reveal_strlit("hy2");
    assert("ss"@.len() == 2 && "vmess"@.len() == 5 && "vless"@.len() == 5 && "trojan"@.len() == 6);
    assert("hysteria2"@.len() == 9 && "hy2"@.len() == 3);
    let proto = p.field("type"@)->Str_0;
    let server = p.field("server"@)->Str_0;
    lemma_password_outbound_fields(
        if proto == "trojan"@ { "trojan"@ } else { "hysteria2"@ },
        tag,
        server,
        p.field("port"@)->UInt_0,
        str_or(p.field("password"@), Seq::empty()),
        str_or(p.field("sni"@), server),
        true,
    );
}

/// A Clash vless proxy with a server and a port has TLS exactly when `tls`
/// is set or it has `reality-opts`; the TLS names `servername`, else `sni`,
/// else the server, and uses `client-fingerprint` (`chrome` when absent).
pub proof fn lemma_clash_vless_tls(p: JVal, tag: Seq<char>)
    requires
        p.field("type"@) == JVal::Str("vless"@),
        p.field("server"@).as_str() is Some,
        p.field("port"@).as_u64() is Some,
    ensures
        clash_outbound(p, tag) is Some,
        (p.field("tls"@) == JVal::Bool(true) || p.field("reality-opts"@).is_obj()) ==> clash_outbound(p, tag)->Some_0.field(
            "tls"@,
        ).field("server_name"@) == JVal::Str(
            match p.field("servername"@).as_str() {
                Some(s) => s,
                None => str_or(p.field("sni"@), p.field("server"@)->Str_0),
            },
        ) && clash_outbound(p, tag)->Some_0.field("tls"@).field("utls"@).field("fingerprint"@) == JVal::Str(
            str_or(p.field("client-fingerprint"@), "chrome"@),
        ),
        p.field("tls"@) != JVal::Bool(true) && !p.field("reality-opts"@).is_obj() ==> clash_outbound(p, tag)->Some_0.field(
            "tls"@,
        ) == JVal::Null,
{
    reveal_strlit("type");
    reveal_strlit("tag");
    reveal_strlit("server");
    reveal_strlit("server_port");
    reveal_strlit("uuid");
    reveal_strlit("flow");
    reveal_strlit("transport");
    reveal_strlit("tls");
    reveal_strlit("ss");
    reveal_strlit("vmess");
    reveal_strlit("vless");
    assert("type"@.len() == 4 && "tag"@.len() == 3 && "server"@.len() == 6 && "server_port"@.len() == 11);
    assert("uuid"@.len() == 4 && "flow"@.len() == 4 && "transport"@.len() == 9 && "tls"@.len() == 3);
    assert("tls"@[1] != "tag"@[1] && "ss"@.len() == 2 && "vmess"@.len() == 5 && "vless"@.len() == 5);
    assert("vmess"@[1] != "vless"@[1]);
    let server = p.field("server"@)->Str_0;
    let port = p.field("port"@)->UInt_0;
    let ob = clash_outbound(p, tag)->Some_0;
    assert(ob == clash_vless(p, tag, server, port));
    let ms = ob->Obj_0;
    let head = ms.subrange(0, 6);
    let network = str_or(p.field("network"@), "tcp"@);
    let tr = opt_member("transport"@, clash_transport(network, p));
    let tl = opt_member("tls"@, clash_vless_tls(p, server));
    assert(ms =~= head + (tr + tl));
    assert forall|i: int| 0 <= i < head.len() implies (#[trigger] head[i]).0 != "tls"@ by {
        assert(head[i] == ms[i]);
    }
    assert forall|i: int| 0 <= i < tr.len() implies (#[trigger] tr[i]).0 != "tls"@ by {}
    lemma_lookup_past(head, tr + tl, "tls"@);
    lemma_lookup_past(tr, tl, "tls"@);
    lemma_lookup_has_key(tl, "tls"@);
    let ro = p.field("reality-opts"@);
    let sni = match p.field("servername"@).as_str() {
        Some(s) => s,
        None => str_or(p.field("sni"@), server),
    };
    let fp = str_or(p.field("client-fingerprint"@), "chrome"@);
    let re = if ro.is_obj() {
        Some((str_or(ro.field("public-key"@), Seq::empty()), str_or(ro.field("short-id"@), Seq::empty())))
    } else {
        None
    };
    lemma_utls_fields(sni, fp, re);
    if !(p.field("tls"@) == JVal::Bool(true) || ro.is_obj()) {
        assert(tl.len() == 0);
    }
}

/// A Clash ss proxy with a server and a port becomes a shadowsocks
/// outbound with the proxy's `cipher` (`aes-128-gcm` when absent) and
/// `password` (empty when absent) on the proxy's port.
pub proof fn lemma_clash_ss_credentials(p: JVal, tag: Seq<char>)
    requires
        p.field("type"@) == JVal::Str("ss"@),
        p.field("server"@).as_str() is Some,
        p.field("port"@).as_u64() is Some,
    ensures
        clash_outbound(p, tag) is Some,
        clash_outbound(p, tag)->Some_0.field("server_port"@) == p.field("port"@),
        clash_outbound(p, tag)->Some_0.field("method"@) == JVal::Str(str_or(p.field("cipher"@), "aes-128-gcm"@)),
        clash_outbound(p, tag)->Some_0.field("password"@) == JVal::Str(str_or(p.field("password"@), Seq::empty())),
{
    lemma_ss_outbound_fields(
        tag,
        p.field("server"@)->Str_0,
        p.field("port"@)->UInt_0,
        str_or(p.field("cipher"@), "aes-128-gcm"@),
        str_or(p.field("password"@), Seq::empty()),
    );
}

} // verus!
