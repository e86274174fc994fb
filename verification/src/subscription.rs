//! Subscription content: recognising its format and turning it into nodes
//! and sing-box outbounds.
use vstd::prelude::*;
use vstd::utf8::{encode_utf8, decode_utf8, valid_utf8};
use crate::json::{Json, JVal, jview_seq, lemma_jview_seq_push, lookup_entry};
use crate::text::{
    trim, contains, starts_with, lines, views_of, chars_of, trim_chars, string_of, lines_of,
    str_contains, str_starts_with, contains_chars, starts_with_chars,
};
use crate::types::{ProxyNode, NodeView, SubType};
use crate::external::{standard_base64_decoded, url_safe_base64_decoded, base64_standard_decode, base64_url_safe_decode, utf8_decode};
use crate::links::{
    ParseError, ParsedDocs, json_doc, yaml_doc, node_model, make_node, or_text, link_result, link_matches,
    parse_node_link, ss_outbound, ss_outbound_json, vmess_payload, vmess_payload_of,
};
use crate::clash::{str_or, clash_outbound, clash_outbound_json};

verus! {

/// Every node matches its model but for its random 36-character id.
pub open spec fn nodes_match(ns: Seq<ProxyNode>, ms: Seq<NodeView>) -> bool {
    &&& ns.len() == ms.len()
    &&& forall|i: int| 0 <= i < ns.len() ==> (#[trigger] ns[i])@.same_but_id(ms[i]) && ns[i]@.id.len() == 36
}

/// What a subscription parser hands back, against its model: the nodes and
/// the outbounds, or the error.
pub open spec fn parsed_matches(
    r: Result<(Vec<ProxyNode>, Vec<Json>), ParseError>,
    m: Result<(Seq<NodeView>, Seq<JVal>), ParseError>,
) -> bool {
    match r {
        Ok((ns, os)) => m matches Ok((mn, mo)) && nodes_match(ns@, mn) && jview_seq(os@) == mo,
        Err(e) => m == Err::<(Seq<NodeView>, Seq<JVal>), ParseError>(e),
    }
}

proof fn lemma_nodes_match_push(ns: Seq<ProxyNode>, ms: Seq<NodeView>, n: ProxyNode, m: NodeView)
    requires
        nodes_match(ns, ms),
        n@.same_but_id(m),
        n@.id.len() == 36,
    ensures
        nodes_match(ns.push(n), ms.push(m)),
{
    assert forall|i: int| 0 <= i < ns.push(n).len() implies (#[trigger] ns.push(n)[i])@.same_but_id(ms.push(m)[i])
        && ns.push(n)[i]@.id.len() == 36 by {
        if i < ns.len() {
            assert(ns.push(n)[i] == ns[i]);
        }
    }
}

// ─── Clash ────────────────────────────────────────────────────────────

/// The node listed for a Clash proxy: `name` (default `Unknown`), `type`
/// (default `unknown`), `server` and `port` (default 0, kept modulo 2^16).
pub open spec fn clash_node(p: JVal, sub_id: Seq<char>) -> NodeView {
    node_model(
        str_or(p.field("name"@), "Unknown"@),
        str_or(p.field("type"@), "unknown"@),
        str_or(p.field("server"@), Seq::empty()),
        ((match p.field("port"@).as_u64() { Some(n) => n, None => 0 }) % 65536) as u16,
        sub_id,
    )
}

/// Every proxy's node, and the outbounds of those that have one, in order.
pub open spec fn clash_entries(ps: Seq<JVal>, sub_id: Seq<char>) -> (Seq<NodeView>, Seq<JVal>)
    decreases ps.len(),
{
    if ps.len() == 0 {
        (Seq::empty(), Seq::empty())
    } else {
        let prev = clash_entries(ps.drop_last(), sub_id);
        let p = ps.last();
        (
            prev.0.push(clash_node(p, sub_id)),
            match clash_outbound(p, str_or(p.field("name"@), "Unknown"@)) {
                Some(o) => prev.1.push(o),
                None => prev.1,
            },
        )
    }
}

/// Clash content: the YAML's `proxies` list.
pub open spec fn clash_result(content: Seq<char>, sub_id: Seq<char>, docs: ParsedDocs) -> Result<(Seq<NodeView>, Seq<JVal>), ParseError> {
    match yaml_doc(docs, content) {
        None => Err(ParseError::InvalidYaml),
        Some(y) => match y.field("proxies"@).as_arr() {
            None => Err(ParseError::MissingProxies),
            Some(ps) => Ok(clash_entries(ps, sub_id)),
        },
    }
}

/// Parses Clash content; `docs` holds its YAML parse.
pub fn parse_clash(content: &str, sub_id: &str, docs: &ParsedDocs) -> (r: Result<(Vec<ProxyNode>, Vec<Json>), ParseError>)
    ensures
        parsed_matches(r, clash_result(content@, sub_id@, *docs)),
{
    proof {
        reveal_strlit("");
        assert(""@ =~= Seq::<char>::empty());
    }
    let y = match lookup_entry(&docs.yaml, content) {
        Some(y) => y,
        None => {
            return Err(ParseError::InvalidYaml);
        },
    };
    let proxies = match y.get("proxies") {
        Some(Json::Arr(v)) => v,
        _ => {
            return Err(ParseError::MissingProxies);
        },
    };
    let ghost pv = jview_seq(proxies@);
    proof {
        crate::json::lemma_jview_seq(proxies@);
        assert(y@.field("proxies"@).as_arr() == Some(pv));
    }
    let mut nodes: Vec<ProxyNode> = Vec::new();
    let mut obs: Vec<Json> = Vec::new();
    let mut i: usize = 0;
    while i < proxies.len()
        invariant
            0 <= i <= proxies.len(),
            ""@ == Seq::<char>::empty(),
            pv == jview_seq(proxies@),
            pv.len() == proxies@.len(),
            forall|k: int| 0 <= k < proxies@.len() ==> #[trigger] pv[k] == proxies@[k]@,
            nodes_match(nodes@, clash_entries(pv.subrange(0, i as int), sub_id@).0),
            jview_seq(obs@) == clash_entries(pv.subrange(0, i as int), sub_id@).1,
        decreases proxies.len() - i,
    {
        let p = &proxies[i];
        proof {
            let t = pv.subrange(0, i + 1);
            assert(t.drop_last() =~= pv.subrange(0, i as int));
            assert(t.last() == p@);
        }
        let name = p.str_at_or("name", "Unknown");
        let proto = p.str_at_or("type", "unknown");
        let server = p.str_at_or("server", "");
        let pn: u64 = match p.u64_at("port") {
            Some(n) => n,
            None => 0,
        };
        let port = (pn % 65536) as u16;
        let ob = clash_outbound_json(p, name.as_str());
        let node = make_node(name, proto.as_str(), server, port, sub_id);
        proof {
            lemma_nodes_match_push(nodes@, clash_entries(pv.subrange(0, i as int), sub_id@).0, node, clash_node(p@, sub_id@));
        }
        nodes.push(node);
        match ob {
            Some(o) => {
                proof {
                    lemma_jview_seq_push(obs@, o);
                }
                obs.push(o);
            },
            None => {},
        }
        i += 1;
    }
    proof {
        assert(pv.subrange(0, i as int) =~= pv);
    }
    Ok((nodes, obs))
}

// ─── Link lists ───────────────────────────────────────────────────────

/// The text of link-list content: the trimmed content decoded as standard
/// base64, else as URL-safe base64, else the content itself (also when the
/// decoded bytes are not UTF-8).
pub open spec fn v2ray_text(content: Seq<char>) -> Seq<char> {
    let t = encode_utf8(trim(content));
    match standard_base64_decoded(t) {
        Some(b) => if valid_utf8(b) { decode_utf8(b) } else { content },
        None => match url_safe_base64_decoded(t) {
            Some(b) => if valid_utf8(b) { decode_utf8(b) } else { content },
            None => content,
        },
    }
}

/// The nodes and outbounds of the lines that hold a valid link (each line
/// trimmed, blank lines skipped).
pub open spec fn link_entries(ls: Seq<Seq<char>>, sub_id: Seq<char>, docs: ParsedDocs) -> (Seq<NodeView>, Seq<JVal>)
    decreases ls.len(),
{
    if ls.len() == 0 {
        (Seq::empty(), Seq::empty())
    } else {
        let prev = link_entries(ls.drop_last(), sub_id, docs);
        let l = trim(ls.last());
        if l.len() == 0 {
            prev
        } else {
            match link_result(l, sub_id, docs) {
                Ok((n, o)) => (prev.0.push(n), prev.1.push(o)),
                Err(_) => prev,
            }
        }
    }
}

/// Link-list content: an error when no line holds a valid link.
pub open spec fn v2ray_result(content: Seq<char>, sub_id: Seq<char>, docs: ParsedDocs) -> Result<(Seq<NodeView>, Seq<JVal>), ParseError> {
    let es = link_entries(lines(v2ray_text(content)), sub_id, docs);
    if es.0.len() == 0 {
        Err(ParseError::NoNodes)
    } else {
        Ok(es)
    }
}

fn decoded_or(bytes: Vec<u8>, content: &str) -> (r: String)
    ensures
        r@ == (if valid_utf8(bytes@) { decode_utf8(bytes@) } else { content@ }),
{
    match utf8_decode(bytes) {
        Some(s) => s,
        None => content.to_string(),
    }
}

/// The text of link-list content.
pub fn v2ray_text_of(content: &str) -> (r: String)
    ensures
        r@ == v2ray_text(content@),
{
    let t = string_of(trim_chars(chars_of(content).as_slice()).as_slice());
    match base64_standard_decode(t.as_str().as_bytes()) {
        Some(b) => decoded_or(b, content),
        None => match base64_url_safe_decode(t.as_str().as_bytes()) {
            Some(b) => decoded_or(b, content),
            None => content.to_string(),
        },
    }
}

/// Parses link-list content (plain or base64); `docs` holds the JSON parse
/// of every vmess payload.
pub fn parse_v2ray(content: &str, sub_id: &str, docs: &ParsedDocs) -> (r: Result<(Vec<ProxyNode>, Vec<Json>), ParseError>)
    ensures
        parsed_matches(r, v2ray_result(content@, sub_id@, *docs)),
{
    let text = v2ray_text_of(content);
    let ls = lines_of(chars_of(text.as_str()).as_slice());
    let ghost lv = views_of(ls@);
    let mut nodes: Vec<ProxyNode> = Vec::new();
    let mut obs: Vec<Json> = Vec::new();
    let mut i: usize = 0;
    while i < ls.len()
        invariant
            0 <= i <= ls.len(),
            lv == views_of(ls@),
            lv == lines(v2ray_text(content@)),
            nodes_match(nodes@, link_entries(lv.subrange(0, i as int), sub_id@, *docs).0),
            jview_seq(obs@) == link_entries(lv.subrange(0, i as int), sub_id@, *docs).1,
        decreases ls.len() - i,
    {
        proof {
            let t = lv.subrange(0, i + 1);
            assert(t.drop_last() =~= lv.subrange(0, i as int));
            assert(t.last() == ls@[i as int]@);
        }
        let line = trim_chars(ls[i].as_slice());
        if line.len() > 0 {
            let l = string_of(line.as_slice());
            match parse_node_link(l.as_str(), sub_id, docs) {
                Ok((n, o)) => {
                    proof {
                        let m = link_result(l@, sub_id@, *docs);
                        lemma_nodes_match_push(nodes@, link_entries(lv.subrange(0, i as int), sub_id@, *docs).0, n, m->Ok_0.0);
                        lemma_jview_seq_push(obs@, o);
                    }
                    nodes.push(n);
                    obs.push(o);
                },
                Err(_) => {},
            }
        }
        i += 1;
    }
    proof {
        assert(lv.subrange(0, i as int) =~= lv);
    }
    if nodes.len() == 0 {
        return Err(ParseError::NoNodes);
    }
    Ok((nodes, obs))
}

// ─── SIP008 ───────────────────────────────────────────────────────────

/// The node and outbound of a SIP008 server: tag `remarks` (else `server`,
/// else `Unknown`), port `server_port` (default 0, kept modulo 2^16), method
/// (default `aes-128-gcm`) and password.
pub open spec fn sip008_entry(s: JVal, sub_id: Seq<char>) -> (NodeView, JVal) {
    let name = match s.field("remarks"@).as_str() {
        Some(x) => x,
        None => str_or(s.field("server"@), "Unknown"@),
    };
    let server = str_or(s.field("server"@), Seq::empty());
    let port: u16 = ((match s.field("server_port"@).as_u64() { Some(n) => n, None => 0 }) % 65536) as u16;
    (
        node_model(name, "shadowsocks"@, server, port, sub_id),
        ss_outbound(name, server, port as u64, str_or(s.field("method"@), "aes-128-gcm"@), str_or(s.field("password"@), Seq::empty())),
    )
}

/// The nodes and outbounds of the SIP008 servers, in order.
pub open spec fn sip008_entries(ss: Seq<JVal>, sub_id: Seq<char>) -> (Seq<NodeView>, Seq<JVal>)
    decreases ss.len(),
{
    if ss.len() == 0 {
        (Seq::empty(), Seq::empty())
    } else {
        let prev = sip008_entries(ss.drop_last(), sub_id);
        let e = sip008_entry(ss.last(), sub_id);
        (prev.0.push(e.0), prev.1.push(e.1))
    }
}

/// SIP008 content: the JSON's `servers` list.
pub open spec fn sip008_result(content: Seq<char>, sub_id: Seq<char>, docs: ParsedDocs) -> Result<(Seq<NodeView>, Seq<JVal>), ParseError> {
    match json_doc(docs, content) {
        None => Err(ParseError::InvalidJson),
        Some(v) => match v.field("servers"@).as_arr() {
            None => Err(ParseError::MissingServers),
            Some(ss) => Ok(sip008_entries(ss, sub_id)),
        },
    }
}

/// Parses SIP008 content; `docs` holds its JSON parse.
pub fn parse_sip008(content: &str, sub_id: &str, docs: &ParsedDocs) -> (r: Result<(Vec<ProxyNode>, Vec<Json>), ParseError>)
    ensures
        parsed_matches(r, sip008_result(content@, sub_id@, *docs)),
{
    proof {
        reveal_strlit("");
        assert(""@ =~= Seq::<char>::empty());
    }
    let v = match lookup_entry(&docs.json, content) {
        Some(v) => v,
        None => {
            return Err(ParseError::InvalidJson);
        },
    };
    let servers = match v.get("servers") {
        Some(Json::Arr(s)) => s,
        _ => {
            return Err(ParseError::MissingServers);
        },
    };
    let ghost sv = jview_seq(servers@);
    proof {
        crate::json::lemma_jview_seq(servers@);
        assert(v@.field("servers"@).as_arr() == Some(sv));
    }
    let mut nodes: Vec<ProxyNode> = Vec::new();
    let mut obs: Vec<Json> = Vec::new();
    let mut i: usize = 0;
    while i < servers.len()
        invariant
            0 <= i <= servers.len(),
            ""@ == Seq::<char>::empty(),
            sv == jview_seq(servers@),
            sv.len() == servers@.len(),
            forall|k: int| 0 <= k < servers@.len() ==> #[trigger] sv[k] == servers@[k]@,
            nodes_match(nodes@, sip008_entries(sv.subrange(0, i as int), sub_id@).0),
            jview_seq(obs@) == sip008_entries(sv.subrange(0, i as int), sub_id@).1,
        decreases servers.len() - i,
    {
        let s = &servers[i];
        proof {
            let t = sv.subrange(0, i + 1);
            assert(t.drop_last() =~= sv.subrange(0, i as int));
            assert(t.last() == s@);
        }
        let name = match s.str_at("remarks") {
            Some(x) => x,
            None => s.str_at_or("server", "Unknown"),
        };
        let server = s.str_at_or("server", "");
        let pn: u64 = match s.u64_at("server_port") {
            Some(n) => n,
            None => 0,
        };
        let port = (pn % 65536) as u16;
        let method = s.str_at_or("method", "aes-128-gcm");
        let password = s.str_at_or("password", "");
        let o = ss_outbound_json(name.as_str(), server.as_str(), port as u64, method.as_str(), password.as_str());
        let n = make_node(name, "shadowsocks", server, port, sub_id);
        proof {
            lemma_nodes_match_push(nodes@, sip008_entries(sv.subrange(0, i as int), sub_id@).0, n, sip008_entry(s@, sub_id@).0);
            lemma_jview_seq_push(obs@, o);
        }
        nodes.push(n);
        obs.push(o);
        i += 1;
    }
    proof {
        assert(sv.subrange(0, i as int) =~= sv);
    }
    Ok((nodes, obs))
}

// ─── Format detection ─────────────────────────────────────────────────

/// The trimmed content is standard base64 of UTF-8 text that holds a link
/// of a supported scheme (`vmess://`, `vless://`, `ss://`, `trojan://`,
/// `hysteria2://` or `hy2://`).
pub open spec fn is_base64_link_list(t: Seq<char>) -> bool {
    match standard_base64_decoded(encode_utf8(t)) {
        Some(b) => valid_utf8(b) && {
            let x = decode_utf8(b);
            contains(x, "vmess://"@) || contains(x, "vless://"@) || contains(x, "ss://"@)
                || contains(x, "trojan://"@) || contains(x, "hysteria2://"@) || contains(x, "hy2://"@)
        },
        None => false,
    }
}

/// The trimmed content starts with a supported share link.
pub open spec fn starts_with_link(t: Seq<char>) -> bool {
    starts_with(t, "vmess://"@) || starts_with(t, "vless://"@) || starts_with(t, "ss://"@)
        || starts_with(t, "trojan://"@) || starts_with(t, "hysteria2://"@) || starts_with(t, "hy2://"@)
}

/// The format of subscription content, judged on the trimmed text: Clash
/// when it mentions `proxies:` or `proxy-groups:`; a link list when it is
/// base64 of links or starts with a link; SIP008 when it is a JSON object
/// with `servers` and `version`.
pub open spec fn sub_type_of(content: Seq<char>, docs: ParsedDocs) -> SubType {
    let t = trim(content);
    if contains(t, "proxies:"@) || contains(t, "proxy-groups:"@) {
        SubType::Clash
    } else if is_base64_link_list(t) || starts_with_link(t) {
        SubType::V2ray
    } else if (match json_doc(docs, t) { Some(v) => v.has("servers"@) && v.has("version"@), None => false }) {
        SubType::Sip008
    } else {
        SubType::Unknown
    }
}

/// Trimmed content that starts with a share link of a supported scheme
/// (`vmess://`, `vless://`, `ss://`, `trojan://`, `hysteria2://`, `hy2://`)
/// is a link list, whatever parse of it is at hand, unless it mentions
/// `proxies:` or `proxy-groups:`, which make it Clash.
pub proof fn lemma_single_link_is_v2ray(content: Seq<char>, docs: ParsedDocs)
    requires
        starts_with(trim(content), "vmess://"@) || starts_with(trim(content), "vless://"@) || starts_with(
            trim(content),
            "ss://"@,
        ) || starts_with(trim(content), "trojan://"@) || starts_with(trim(content), "hysteria2://"@) || starts_with(
            trim(content),
            "hy2://"@,
        ),
    ensures
        contains(trim(content), "proxies:"@) || contains(trim(content), "proxy-groups:"@) ==> sub_type_of(content, docs)
            == SubType::Clash,
        !contains(trim(content), "proxies:"@) && !contains(trim(content), "proxy-groups:"@) ==> sub_type_of(
            content,
            docs,
        ) == SubType::V2ray,
{
}

fn base64_link_list(t: &str) -> (r: bool)
    ensures
        r == is_base64_link_list(t@),
{
    match base64_standard_decode(t.as_bytes()) {
        Some(b) => match utf8_decode(b) {
            Some(x) => str_contains(x.as_str(), "vmess://") || str_contains(x.as_str(), "vless://")
                || str_contains(x.as_str(), "ss://") || str_contains(x.as_str(), "trojan://")
                || str_contains(x.as_str(), "hysteria2://") || str_contains(x.as_str(), "hy2://"),
            None => false,
        },
        None => false,
    }
}

/// The format of subscription content (`url` is not consulted); `docs`
/// holds the JSON parse of the trimmed content.
pub fn detect_sub_type(content: &str, url: &str, docs: &ParsedDocs) -> (r: SubType)
    ensures
        r == sub_type_of(content@, *docs),
{
    let tc = trim_chars(chars_of(content).as_slice());
    let t = string_of(tc.as_slice());
    if str_contains(t.as_str(), "proxies:") || str_contains(t.as_str(), "proxy-groups:") {
        return SubType::Clash;
    }
    if base64_link_list(t.as_str()) {
        return SubType::V2ray;
    }
    let ts = t.as_str();
    if str_starts_with(ts, "vmess://") || str_starts_with(ts, "vless://") || str_starts_with(ts, "ss://")
        || str_starts_with(ts, "trojan://") || str_starts_with(ts, "hysteria2://") || str_starts_with(ts, "hy2://") {
        return SubType::V2ray;
    }
    match lookup_entry(&docs.json, ts) {
        Some(v) => {
            let hs = v.get("servers");
            let hv = v.get("version");
            if hs.is_some() && hv.is_some() {
                return SubType::Sip008;
            }
        },
        None => {},
    }
    SubType::Unknown
}

/// Subscription content of any supported format.
pub open spec fn subscription_result(content: Seq<char>, sub_id: Seq<char>, docs: ParsedDocs) -> Result<(Seq<NodeView>, Seq<JVal>), ParseError> {
    match sub_type_of(content, docs) {
        SubType::Clash => clash_result(content, sub_id, docs),
        SubType::V2ray => v2ray_result(content, sub_id, docs),
        SubType::Sip008 => sip008_result(content, sub_id, docs),
        SubType::Unknown => Err(ParseError::UnknownFormat),
    }
}

/// Parses subscription content into nodes and sing-box outbounds; `docs`
/// holds the documents the formats need parsed (see [`texts_to_parse`]).
pub fn parse_subscription(content: &str, sub_id: &str, docs: &ParsedDocs) -> (r: Result<(Vec<ProxyNode>, Vec<Json>), ParseError>)
    ensures
        parsed_matches(r, subscription_result(content@, sub_id@, *docs)),
{
    match detect_sub_type(content, "", docs) {
        SubType::Clash => parse_clash(content, sub_id, docs),
        SubType::V2ray => parse_v2ray(content, sub_id, docs),
        SubType::Sip008 => parse_sip008(content, sub_id, docs),
        SubType::Unknown => Err(ParseError::UnknownFormat),
    }
}

// ─── Documents to parse ───────────────────────────────────────────────

/// The payload texts of the `vmess://` links among the lines (trimmed) whose
/// payload is base64 of UTF-8 text.
pub open spec fn vmess_texts(ls: Seq<Seq<char>>) -> Seq<Seq<char>>
    decreases ls.len(),
{
    if ls.len() == 0 {
        Seq::empty()
    } else {
        let prev = vmess_texts(ls.drop_last());
        let l = trim(ls.last());
        if starts_with(l, "vmess://"@) {
            match vmess_payload(l) {
                Some(b) => if valid_utf8(b) { prev.push(decode_utf8(b)) } else { prev },
                None => prev,
            }
        } else {
            prev
        }
    }
}

/// The texts whose JSON parse [`parse_subscription`] may consult: the
/// trimmed content, the content, and every vmess payload of the link list.
pub open spec fn json_texts(content: Seq<char>) -> Seq<Seq<char>> {
    seq![trim(content), content] + vmess_texts(lines(v2ray_text(content)))
}

/// The texts to parse before calling [`parse_subscription`]: those whose
/// JSON parse it may consult, and those (the content) whose YAML parse it may.
pub fn texts_to_parse(content: &str) -> (r: (Vec<String>, Vec<String>))
    ensures
        crate::json::strs_view(r.0@) == json_texts(content@),
        crate::json::strs_view(r.1@) == seq![content@],
{
    let mut js: Vec<String> = Vec::new();
    js.push(string_of(trim_chars(chars_of(content).as_slice()).as_slice()));
    js.push(content.to_string());
    let ghost head = crate::json::strs_view(js@);
    let text = v2ray_text_of(content);
    let ls = lines_of(chars_of(text.as_str()).as_slice());
    let ghost lv = views_of(ls@);
    let mut i: usize = 0;
    proof {
        assert(head + vmess_texts(lv.subrange(0, 0)) =~= head);
    }
    while i < ls.len()
        invariant
            0 <= i <= ls.len(),
            lv == views_of(ls@),
            crate::json::strs_view(js@) == head + vmess_texts(lv.subrange(0, i as int)),
        decreases ls.len() - i,
    {
        proof {
            let t = lv.subrange(0, i + 1);
            assert(t.drop_last() =~= lv.subrange(0, i as int));
            assert(t.last() == ls@[i as int]@);
        }
        let l = string_of(trim_chars(ls[i].as_slice()).as_slice());
        if str_starts_with(l.as_str(), "vmess://") {
            match vmess_payload_of(l.as_str()) {
                Some(b) => match utf8_decode(b) {
                    Some(x) => {
                        proof {
                            assert(crate::json::strs_view(js@.push(x)) =~= crate::json::strs_view(js@).push(x@));
                        }
                        js.push(x);
                    },
                    None => {},
                },
                None => {},
            }
        }
        i += 1;
    }
    proof {
        assert(lv.subrange(0, i as int) =~= lv);
        assert(head =~= seq![trim(content@), content@]);
    }
    let ys: Vec<String> = vec![content.to_string()];
    proof {
        assert(crate::json::strs_view(ys@) =~= seq![content@]);
    }
    (js, ys)
}

// ─── Re-parsing cached contents ───────────────────────────────────────

/// The nodes and outbounds of every cached content that parses, in order
/// (contents that fail are skipped).
pub open spec fn reparsed(cached: Seq<(Seq<char>, Seq<char>)>, docs: ParsedDocs) -> (Seq<NodeView>, Seq<JVal>)
    decreases cached.len(),
{
    if cached.len() == 0 {
        (Seq::empty(), Seq::empty())
    } else {
        let prev = reparsed(cached.drop_last(), docs);
        match subscription_result(cached.last().1, cached.last().0, docs) {
            Ok((ns, os)) => (prev.0 + ns, prev.1 + os),
            Err(_) => prev,
        }
    }
}

/// The texts of a list of (id, content) pairs.
pub open spec fn cached_view(v: Seq<(String, String)>) -> Seq<(Seq<char>, Seq<char>)> {
    v.map_values(|p: (String, String)| (p.0@, p.1@))
}

proof fn lemma_nodes_match_append(a: Seq<ProxyNode>, am: Seq<NodeView>, b: Seq<ProxyNode>, bm: Seq<NodeView>)
    requires
        nodes_match(a, am),
        nodes_match(b, bm),
    ensures
        nodes_match(a + b, am + bm),
{
    assert forall|i: int| 0 <= i < (a + b).len() implies (#[trigger] (a + b)[i])@.same_but_id((am + bm)[i]) && (a + b)[i]@.id.len() == 36 by {
        if i < a.len() {
            assert((a + b)[i] == a[i]);
            assert((am + bm)[i] == am[i]);
        } else {
            assert((a + b)[i] == b[i - a.len()]);
            assert((am + bm)[i] == bm[i - a.len()]);
        }
    }
}

/// Re-parses the cached content of each subscription (id, content), as at
/// launch when the saved nodes are gone.
pub fn reparse_all(cached: &Vec<(String, String)>, docs: &ParsedDocs) -> (r: (Vec<ProxyNode>, Vec<Json>))
    ensures
        nodes_match(r.0@, reparsed(cached_view(cached@), *docs).0),
        jview_seq(r.1@) == reparsed(cached_view(cached@), *docs).1,
{
    let mut nodes: Vec<ProxyNode> = Vec::new();
    let mut obs: Vec<Json> = Vec::new();
    let mut i: usize = 0;
    while i < cached.len()
        invariant
            0 <= i <= cached.len(),
            nodes_match(nodes@, reparsed(cached_view(cached@).subrange(0, i as int), *docs).0),
            jview_seq(obs@) == reparsed(cached_view(cached@).subrange(0, i as int), *docs).1,
        decreases cached.len() - i,
    {
        proof {
            let t = cached_view(cached@).subrange(0, i + 1);
            assert(t.drop_last() =~= cached_view(cached@).subrange(0, i as int));
            assert(t.last() == (cached@[i as int].0@, cached@[i as int].1@));
        }
        match parse_subscription(cached[i].1.as_str(), cached[i].0.as_str(), docs) {
            Ok((ns, os)) => {
                let ghost pn = nodes@;
                let ghost po = obs@;
                let mut ns2 = ns;
                let mut os2 = os;
                let ghost nsv = ns2@;
                let ghost osv = os2@;
                nodes.append(&mut ns2);
                obs.append(&mut os2);
                proof {
                    let m = subscription_result(cached@[i as int].1@, cached@[i as int].0@, *docs);
                    lemma_nodes_match_append(pn, reparsed(cached_view(cached@).subrange(0, i as int), *docs).0, nsv, m->Ok_0.0);
                    crate::json::lemma_jview_seq(po);
                    crate::json::lemma_jview_seq(osv);
                    crate::json::lemma_jview_seq(po + osv);
                    assert(jview_seq(po + osv) =~= jview_seq(po) + jview_seq(osv));
                }
            },
            Err(_) => {},
        }
        i += 1;
    }
    proof {
        assert(cached_view(cached@).subrange(0, i as int) =~= cached_view(cached@));
    }
    (nodes, obs)
}

/// The nodes and outbounds at launch: the saved ones, unless no node is
/// saved while subscriptions exist and re-parsing their cached contents
/// (id, content) yields nodes; then the re-parsed ones, flagged (`true`) to
/// be saved.
pub fn launch_nodes(nodes: Vec<ProxyNode>, outbounds: Vec<Json>, sub_count: usize, cached: &Vec<(String, String)>, docs: &ParsedDocs) -> (r: (Vec<ProxyNode>, Vec<Json>, bool))
    ensures
        ({
            let re = reparsed(cached_view(cached@), *docs);
            if nodes@.len() == 0 && sub_count > 0 && re.0.len() > 0 {
                r.2 && nodes_match(r.0@, re.0) && jview_seq(r.1@) == re.1
            } else {
                !r.2 && r.0@ == nodes@ && r.1@ == outbounds@
            }
        }),
{
    if nodes.len() == 0 && sub_count > 0 {
        let (ns, os) = reparse_all(cached, docs);
        if ns.len() > 0 {
            return (ns, os, true);
        }
    }
    (nodes, outbounds, false)
}

// ─── Laws of parsing ──────────────────────────────────────────────────

/// Every node is listed under group `??`, inactive and untested, and
/// belongs to subscription `sub_id`.
pub open spec fn all_fresh_of(ms: Seq<NodeView>, sub_id: Seq<char>) -> bool {
    forall|i: int| 0 <= i < ms.len() ==> {
        &&& (#[trigger] ms[i]).subscription_id == Some(sub_id)
        &&& ms[i].group == "??"@
        &&& !ms[i].is_active
        &&& ms[i].latency is None
        &&& ms[i].download_speed is None
    }
}

proof fn lemma_fresh_push(ms: Seq<NodeView>, n: NodeView, sub_id: Seq<char>)
    requires
        all_fresh_of(ms, sub_id),
        all_fresh_of(seq![n], sub_id),
    ensures
        all_fresh_of(ms.push(n), sub_id),
{
    assert forall|i: int| 0 <= i < ms.push(n).len() implies {
        &&& (#[trigger] ms.push(n)[i]).subscription_id == Some(sub_id)
        &&& ms.push(n)[i].group == "??"@
        &&& !ms.push(n)[i].is_active
        &&& ms.push(n)[i].latency is None
        &&& ms.push(n)[i].download_speed is None
    } by {
        if i < ms.len() {
            assert(ms.push(n)[i] == ms[i]);
        } else {
            assert(ms.push(n)[i] == seq![n][0]);
        }
    }
}

proof fn lemma_link_node_fresh(link: Seq<char>, sub_id: Seq<char>, docs: ParsedDocs)
    ensures
        link_result(link, sub_id, docs) matches Ok((n, _)) ==> all_fresh_of(seq![n], sub_id),
{
}

proof fn lemma_link_entries_fresh(ls: Seq<Seq<char>>, sub_id: Seq<char>, docs: ParsedDocs)
    ensures
        all_fresh_of(link_entries(ls, sub_id, docs).0, sub_id),
        link_entries(ls, sub_id, docs).0.len() == link_entries(ls, sub_id, docs).1.len(),
    decreases ls.len(),
{
    if ls.len() > 0 {
        lemma_link_entries_fresh(ls.drop_last(), sub_id, docs);
        let l = trim(ls.last());
        if l.len() > 0 {
            lemma_link_node_fresh(l, sub_id, docs);
            if let Ok((n, o)) = link_result(l, sub_id, docs) {
                lemma_fresh_push(link_entries(ls.drop_last(), sub_id, docs).0, n, sub_id);
            }
        }
    }
}

proof fn lemma_clash_entries_fresh(ps: Seq<JVal>, sub_id: Seq<char>)
    ensures
        all_fresh_of(clash_entries(ps, sub_id).0, sub_id),
        clash_entries(ps, sub_id).0.len() == ps.len(),
        clash_entries(ps, sub_id).1.len() <= ps.len(),
    decreases ps.len(),
{
    if ps.len() > 0 {
        lemma_clash_entries_fresh(ps.drop_last(), sub_id);
        lemma_fresh_push(clash_entries(ps.drop_last(), sub_id).0, clash_node(ps.last(), sub_id), sub_id);
    }
}

proof fn lemma_sip008_entries_fresh(ss: Seq<JVal>, sub_id: Seq<char>)
    ensures
        all_fresh_of(sip008_entries(ss, sub_id).0, sub_id),
        sip008_entries(ss, sub_id).0.len() == ss.len(),
        sip008_entries(ss, sub_id).1.len() == ss.len(),
    decreases ss.len(),
{
    if ss.len() > 0 {
        lemma_sip008_entries_fresh(ss.drop_last(), sub_id);
        lemma_fresh_push(sip008_entries(ss.drop_last(), sub_id).0, sip008_entry(ss.last(), sub_id).0, sub_id);
    }
}

/// Whatever the format, parsed nodes belong to the subscription they were
/// parsed for and start inactive and untested; link lists and SIP008 give one
/// outbound per node, Clash at most one per node.
pub proof fn lemma_parsed_nodes_fresh(content: Seq<char>, sub_id: Seq<char>, docs: ParsedDocs)
    ensures
        subscription_result(content, sub_id, docs) matches Ok((ms, os)) ==> {
            &&& all_fresh_of(ms, sub_id)
            &&& os.len() <= ms.len()
            &&& sub_type_of(content, docs) != SubType::Clash ==> os.len() == ms.len()
            &&& sub_type_of(content, docs) == SubType::V2ray ==> ms.len() > 0
        },
{
    match sub_type_of(content, docs) {
        SubType::Clash => {
            if let Some(y) = yaml_doc(docs, content) {
                if let Some(ps) = y.field("proxies"@).as_arr() {
                    lemma_clash_entries_fresh(ps, sub_id);
                }
            }
        },
        SubType::V2ray => {
            lemma_link_entries_fresh(lines(v2ray_text(content)), sub_id, docs);
        },
        SubType::Sip008 => {
            if let Some(v) = json_doc(docs, content) {
                if let Some(ss) = v.field("servers"@).as_arr() {
                    lemma_sip008_entries_fresh(ss, sub_id);
                }
            }
        },
        SubType::Unknown => {},
    }
}

} // verus!
