//! The DNS rules, route rules and rule sets of the sing-box configuration.
use vstd::prelude::*;
use crate::json::{Json, JVal, ObjBuilder, lookup, lemma_lookup_past, lemma_lookup_concat, lemma_lookup_has_key, jview_seq, lemma_jview_seq, lemma_jview_seq_push, strs_view, str_arr, num_arr, string_array, port_array, strings};
use crate::text::chars_of;
use crate::rules::{RouteRule, RuleView, RuleAction, rules_view, port_values, list_member, expand_ports, push_list_member};
use crate::cn_direct::{cn_direct_suffix_list, cn_direct_suffixes, wechat_process_list, wechat_processes};
use crate::singbox_config::{obj2, obj2_json};

verus! {

// ─── Rule sets ────────────────────────────────────────────────────────

/// `p` with every `\` turned into `/`.
pub open spec fn forward_slashes(p: Seq<char>) -> Seq<char> {
    p.map_values(|c: char| if c == '\\' { '/' } else { c })
}

/// A rule-set entry: the local file when there is one, otherwise the remote
/// file, downloaded through the proxy and refreshed weekly.
pub open spec fn rule_set_entry(tag: Seq<char>, local: Option<Seq<char>>, url: Seq<char>) -> JVal {
    match local {
        Some(p) => JVal::Obj(seq![
            ("type"@, JVal::Str("local"@)),
            ("tag"@, JVal::Str(tag)),
            ("format"@, JVal::Str("binary"@)),
            ("path"@, JVal::Str(forward_slashes(p))),
        ]),
        None => JVal::Obj(seq![
            ("type"@, JVal::Str("remote"@)),
            ("tag"@, JVal::Str(tag)),
            ("format"@, JVal::Str("binary"@)),
            ("url"@, JVal::Str(url)),
            ("download_detour"@, JVal::Str("proxy"@)),
            ("update_interval"@, JVal::Str("7d"@)),
        ]),
    }
}

/// Where the `geosite-cn` rule set is downloaded when no local copy exists.
pub open spec fn geosite_url() -> Seq<char> {
    "https://raw.githubusercontent.com/SagerNet/sing-geosite/rule-set/geosite-cn.srs"@
}

/// Where the `geoip-cn` rule set is downloaded when no local copy exists.
pub open spec fn geoip_url() -> Seq<char> {
    "https://raw.githubusercontent.com/SagerNet/sing-geoip/rule-set/geoip-cn.srs"@
}

/// The view of an optional string slice.
pub open spec fn str_opt(o: Option<&str>) -> Option<Seq<char>> {
    match o {
        Some(s) => Some(s@),
        None => None,
    }
}

/// `p` with every `\` turned into `/`.
pub fn forward_slashes_string(p: &str) -> (r: String)
    ensures
        r@ == forward_slashes(p@),
{
    let cs = chars_of(p);
    let mut out = String::new();
    let mut i: usize = 0;
    while i < cs.len()
        invariant
            0 <= i <= cs.len(),
            cs@ == p@,
            out@ == forward_slashes(p@.subrange(0, i as int)),
        decreases cs.len() - i,
    {
        let c = if cs[i] == '\\' { '/' } else { cs[i] };
        out.push(c);
        proof {
            assert(forward_slashes(p@.subrange(0, i + 1)) =~= forward_slashes(p@.subrange(0, i as int)).push(c));
        }
        i += 1;
    }
    proof {
        assert(p@.subrange(0, i as int) =~= p@);
    }
    out
}

/// A rule-set entry for the configuration.
pub fn rule_set_json(tag: &str, local: Option<&str>, url: &str) -> (r: Json)
    ensures
        r@ == rule_set_entry(tag@, str_opt(local), url@),
{
    let mut b = ObjBuilder::new();
    match local {
        Some(p) => {
            b.push("type", Json::string("local"));
            b.push("tag", Json::string(tag));
            b.push("format", Json::string("binary"));
            b.push("path", Json::Str(forward_slashes_string(p)));
            proof {
                assert(b.view() =~= seq![
                    ("type"@, JVal::Str("local"@)),
                    ("tag"@, JVal::Str(tag@)),
                    ("format"@, JVal::Str("binary"@)),
                    ("path"@, JVal::Str(forward_slashes(p@))),
                ]);
            }
        },
        None => {
            b.push("type", Json::string("remote"));
            b.push("tag", Json::string(tag));
            b.push("format", Json::string("binary"));
            b.push("url", Json::string(url));
            b.push("download_detour", Json::string("proxy"));
            b.push("update_interval", Json::string("7d"));
            proof {
                assert(b.view() =~= seq![
                    ("type"@, JVal::Str("remote"@)),
                    ("tag"@, JVal::Str(tag@)),
                    ("format"@, JVal::Str("binary"@)),
                    ("url"@, JVal::Str(url@)),
                    ("download_detour"@, JVal::Str("proxy"@)),
                    ("update_interval"@, JVal::Str("7d"@)),
                ]);
            }
        },
    }
    b.build()
}

// ─── DNS rules ────────────────────────────────────────────────────────

/// The text `server` of every outbound that has one and that is not an IP
/// address (`ips` lists the servers that are), in order.
pub open spec fn server_domains(obs: Seq<JVal>, ips: Seq<Seq<char>>) -> Seq<Seq<char>>
    decreases obs.len(),
{
    if obs.len() == 0 {
        Seq::empty()
    } else {
        server_domains(obs.drop_last(), ips) + match obs.last().field("server"@).as_str() {
            Some(s) => if ips.contains(s) { Seq::empty() } else { seq![s] },
            None => Seq::empty(),
        }
    }
}

/// An enabled rule that sends its traffic direct.
pub open spec fn is_direct_rule(r: RuleView) -> bool {
    r.enabled && r.action == RuleAction::Direct
}

/// The domain suffixes of the enabled direct rules, in order.
pub open spec fn direct_suffixes(rs: Seq<RuleView>) -> Seq<Seq<char>>
    decreases rs.len(),
{
    if rs.len() == 0 {
        Seq::empty()
    } else {
        direct_suffixes(rs.drop_last()) + if is_direct_rule(rs.last()) { rs.last().domain_suffix } else { Seq::empty() }
    }
}

/// The exact domains of the enabled direct rules, in order.
pub open spec fn direct_domains(rs: Seq<RuleView>) -> Seq<Seq<char>>
    decreases rs.len(),
{
    if rs.len() == 0 {
        Seq::empty()
    } else {
        direct_domains(rs.drop_last()) + if is_direct_rule(rs.last()) { rs.last().domain } else { Seq::empty() }
    }
}

/// `{ key: value, "server": server }`
pub open spec fn dns_rule(key: Seq<char>, value: JVal, server: Seq<char>) -> JVal {
    JVal::Obj(seq![(key, value), ("server"@, JVal::Str(server))])
}

/// The DNS rules, first match wins: proxy server host names, the CN-core
/// suffixes, the user's direct domains (when there are any) and `geosite-cn`
/// resolve for real through `dns_local`; every other A/AAAA query gets a fake IP.
pub open spec fn dns_rules(obs: Seq<JVal>, ips: Seq<Seq<char>>, rs: Seq<RuleView>) -> Seq<JVal> {
    let sd = server_domains(obs, ips);
    let us = direct_suffixes(rs);
    let ud = direct_domains(rs);
    (if sd.len() > 0 { seq![dns_rule("domain"@, str_arr(sd), "dns_local"@)] } else { Seq::empty() })
        + seq![dns_rule("domain_suffix"@, str_arr(cn_direct_suffix_list()), "dns_local"@)]
        + (if us.len() > 0 || ud.len() > 0 {
            seq![JVal::Obj(list_member("domain_suffix"@, us) + list_member("domain"@, ud) + seq![("server"@, JVal::Str("dns_local"@))])]
        } else {
            Seq::empty()
        })
        + seq![
            dns_rule("rule_set"@, JVal::Str("geosite-cn"@), "dns_local"@),
            dns_rule("query_type"@, str_arr(seq!["A"@, "AAAA"@]), "dns_fakeip"@),
        ]
}

fn list_contains(ks: &Vec<String>, k: &str) -> (r: bool)
    ensures
        r == strs_view(ks@).contains(k@),
{
    let mut i: usize = 0;
    while i < ks.len()
        invariant
            0 <= i <= ks.len(),
            forall|m: int| 0 <= m < i ==> ks@[m]@ != k@,
        decreases ks.len() - i,
    {
        if crate::json::str_eq(ks[i].as_str(), k) {
            proof {
                assert(strs_view(ks@)[i as int] == k@);
            }
            return true;
        }
        i += 1;
    }
    proof {
        if strs_view(ks@).contains(k@) {
            let m = choose|m: int| 0 <= m < strs_view(ks@).len() && strs_view(ks@)[m] == k@;
            assert(ks@[m]@ == k@);
        }
    }
    false
}

/// The host names among the outbounds' servers.
pub fn collect_server_domains(obs: &Vec<Json>, ips: &Vec<String>) -> (r: Vec<String>)
    ensures
        strs_view(r@) == server_domains(jview_seq(obs@), strs_view(ips@)),
{
    proof {
        lemma_jview_seq(obs@);
    }
    let mut out: Vec<String> = Vec::new();
    let mut i: usize = 0;
    while i < obs.len()
        invariant
            0 <= i <= obs.len(),
            jview_seq(obs@).len() == obs@.len(),
            forall|k: int| 0 <= k < obs@.len() ==> #[trigger] jview_seq(obs@)[k] == obs@[k]@,
            strs_view(out@) == server_domains(jview_seq(obs@).subrange(0, i as int), strs_view(ips@)),
        decreases obs.len() - i,
    {
        proof {
            let t = jview_seq(obs@).subrange(0, i + 1);
            assert(t.drop_last() =~= jview_seq(obs@).subrange(0, i as int));
            assert(t.last() == obs@[i as int]@);
        }
        let ghost before = strs_view(out@);
        match obs[i].get("server") {
            Some(v) => match v.as_str() {
                Some(s) => {
                    if !list_contains(ips, s) {
                        let x = s.to_string();
                        proof {
                            assert(strs_view(out@.push(x)) =~= before + seq![s@]);
                        }
                        out.push(x);
                    } else {
                        proof {
                            assert(before + Seq::<Seq<char>>::empty() =~= before);
                        }
                    }
                },
                None => {
                    proof {
                        assert(before + Seq::<Seq<char>>::empty() =~= before);
                    }
                },
            },
            None => {
                proof {
                    assert(before + Seq::<Seq<char>>::empty() =~= before);
                }
            },
        }
        i += 1;
    }
    proof {
        assert(jview_seq(obs@).subrange(0, i as int) =~= jview_seq(obs@));
    }
    out
}

/// Appends copies of `items` to `out`.
fn append_strings(out: &mut Vec<String>, items: &Vec<String>)
    ensures
        strs_view(final(out)@) == strs_view(old(out)@) + strs_view(items@),
{
    let mut i: usize = 0;
    while i < items.len()
        invariant
            0 <= i <= items.len(),
            strs_view(out@) == strs_view(old(out)@) + strs_view(items@).subrange(0, i as int),
        decreases items.len() - i,
    {
        let x = items[i].clone();
        proof {
            assert(strs_view(out@.push(x)) =~= strs_view(out@).push(x@));
            assert(strs_view(items@).subrange(0, i + 1) =~= strs_view(items@).subrange(0, i as int).push(items@[i as int]@));
        }
        out.push(x);
        i += 1;
    }
    proof {
        assert(strs_view(items@).subrange(0, i as int) =~= strs_view(items@));
    }
}

/// The domain suffixes and exact domains of the enabled direct rules.
pub fn collect_direct_domains(rules: &Vec<RouteRule>) -> (r: (Vec<String>, Vec<String>))
    ensures
        strs_view(r.0@) == direct_suffixes(rules_view(rules@)),
        strs_view(r.1@) == direct_domains(rules_view(rules@)),
{
    let mut sfx: Vec<String> = Vec::new();
    let mut dom: Vec<String> = Vec::new();
    let mut i: usize = 0;
    while i < rules.len()
        invariant
            0 <= i <= rules.len(),
            strs_view(sfx@) == direct_suffixes(rules_view(rules@).subrange(0, i as int)),
            strs_view(dom@) == direct_domains(rules_view(rules@).subrange(0, i as int)),
        decreases rules.len() - i,
    {
        proof {
            let t = rules_view(rules@).subrange(0, i + 1);
            assert(t.drop_last() =~= rules_view(rules@).subrange(0, i as int));
            assert(t.last() == rules@[i as int]@);
        }
        if rules[i].enabled && rules[i].action == RuleAction::Direct {
            append_strings(&mut sfx, &rules[i].domain_suffix);
            append_strings(&mut dom, &rules[i].domain);
        } else {
            proof {
                assert(strs_view(sfx@) + Seq::<Seq<char>>::empty() =~= strs_view(sfx@));
                assert(strs_view(dom@) + Seq::<Seq<char>>::empty() =~= strs_view(dom@));
            }
        }
        i += 1;
    }
    proof {
        assert(rules_view(rules@).subrange(0, i as int) =~= rules_view(rules@));
    }
    (sfx, dom)
}

/// `{ key: value, "server": server }`
fn dns_rule_json(key: &str, value: Json, server: &str) -> (r: Json)
    ensures
        r@ == dns_rule(key@, value@, server@),
{
    let mut b = ObjBuilder::new();
    b.push(key, value);
    b.push("server", Json::string(server));
    proof {
        assert(b.view() =~= seq![(key@, value@), ("server"@, JVal::Str(server@))]);
    }
    b.build()
}

/// The DNS rules of the configuration.
pub fn build_dns_rules(obs: &Vec<Json>, ips: &Vec<String>, rules: &Vec<RouteRule>) -> (r: Vec<Json>)
    ensures
        jview_seq(r@) == dns_rules(jview_seq(obs@), strs_view(ips@), rules_view(rules@)),
{
    let sd = collect_server_domains(obs, ips);
    let (us, ud) = collect_direct_domains(rules);
    let mut out: Vec<Json> = Vec::new();
    if sd.len() > 0 {
        let e = dns_rule_json("domain", string_array(&sd), "dns_local");
        proof {
            lemma_jview_seq_push(out@, e);
        }
        out.push(e);
    }
    let ghost a = jview_seq(out@);
    let cn = cn_direct_suffixes();
    let e = dns_rule_json("domain_suffix", string_array(&cn), "dns_local");
    proof {
        lemma_jview_seq_push(out@, e);
    }
    out.push(e);
    let ghost b0 = jview_seq(out@);
    if us.len() > 0 || ud.len() > 0 {
        let mut b = ObjBuilder::new();
        push_list_member(&mut b, "domain_suffix", &us);
        push_list_member(&mut b, "domain", &ud);
        b.push("server", Json::string("dns_local"));
        proof {
            assert(b.view() =~= list_member("domain_suffix"@, strs_view(us@)) + list_member("domain"@, strs_view(ud@))
                + seq![("server"@, JVal::Str("dns_local"@))]);
        }
        let e = b.build();
        proof {
            lemma_jview_seq_push(out@, e);
            assert(jview_seq(out@.push(e)) =~= b0 + seq![e@]);
        }
        out.push(e);
    } else {
        proof {
            assert(b0 + Seq::<JVal>::empty() =~= b0);
        }
    }
    let ghost c = jview_seq(out@);
    let e1 = dns_rule_json("rule_set", Json::string("geosite-cn"), "dns_local");
    let qt = strings(vec!["A", "AAAA"]);
    let e2 = dns_rule_json("query_type", string_array(&qt), "dns_fakeip");
    proof {
        assert(strs_view(qt@) =~= seq!["A"@, "AAAA"@]);
        lemma_jview_seq_push(out@, e1);
        lemma_jview_seq_push(out@.push(e1), e2);
    }
    out.push(e1);
    out.push(e2);
    proof {
        let sdv = server_domains(jview_seq(obs@), strs_view(ips@));
        let usv = direct_suffixes(rules_view(rules@));
        let udv = direct_domains(rules_view(rules@));
        assert(a =~= (if sdv.len() > 0 { seq![dns_rule("domain"@, str_arr(sdv), "dns_local"@)] } else { Seq::empty() }));
        assert(c =~= b0 + (if usv.len() > 0 || udv.len() > 0 {
            seq![JVal::Obj(list_member("domain_suffix"@, usv) + list_member("domain"@, udv) + seq![("server"@, JVal::Str("dns_local"@))])]
        } else {
            Seq::empty()
        }));
        assert(jview_seq(out@) =~= dns_rules(jview_seq(obs@), strs_view(ips@), rules_view(rules@)));
    }
    out
}

// ─── Route rules ──────────────────────────────────────────────────────

/// The matchers a user rule contributes to the route rules: its exact
/// domains, suffixes, keywords and process names, then its ports.
pub open spec fn user_route_matchers(r: RuleView) -> Seq<(Seq<char>, JVal)> {
    let ports = port_values(r.port);
    list_member("domain"@, r.domain)
        + list_member("domain_suffix"@, r.domain_suffix)
        + list_member("domain_keyword"@, r.domain_keyword)
        + list_member("process_name"@, r.process_name)
        + (if ports.len() > 0 { seq![("port"@, num_arr(ports))] } else { Seq::empty() })
}

/// The route rule of a user rule: none for a disabled rule, a rule with
/// nothing to match, or a DNS rule (DNS is hijacked separately); otherwise its
/// matchers followed by its outbound.
pub open spec fn user_route_entry(r: RuleView) -> Seq<JVal> {
    let ms = user_route_matchers(r);
    if r.enabled && ms.len() > 0 && r.action != RuleAction::Dns {
        seq![JVal::Obj(ms.push(("outbound"@, JVal::Str(r.action.tag()))))]
    } else {
        Seq::empty()
    }
}

/// The route rules of the enabled user rules that match something, in order.
pub open spec fn user_route_entries(rs: Seq<RuleView>) -> Seq<JVal>
    decreases rs.len(),
{
    if rs.len() == 0 {
        Seq::empty()
    } else {
        user_route_entries(rs.drop_last()) + user_route_entry(rs.last())
    }
}

/// The fixed leading route rules: sniffing, DNS hijacking, private addresses
/// direct, the clash-mode overrides, WeChat's processes direct and the CN-core
/// suffixes direct.
pub open spec fn head_route_rules() -> Seq<JVal> {
    seq![
        JVal::Obj(seq![("action"@, JVal::Str("sniff"@))]),
        obj2("protocol"@, str_arr(seq!["dns"@]), "action"@, JVal::Str("hijack-dns"@)),
        obj2("ip_is_private"@, JVal::Bool(true), "outbound"@, JVal::Str("direct"@)),
        obj2("clash_mode"@, JVal::Str("Direct"@), "outbound"@, JVal::Str("direct"@)),
        obj2("clash_mode"@, JVal::Str("Global"@), "outbound"@, JVal::Str("proxy"@)),
        obj2("process_name"@, str_arr(wechat_process_list()), "outbound"@, JVal::Str("direct"@)),
        obj2("domain_suffix"@, str_arr(cn_direct_suffix_list()), "outbound"@, JVal::Str("direct"@)),
    ]
}

/// The trailing catch-alls: everything in `geosite-cn` or `geoip-cn` goes direct.
pub open spec fn tail_route_rules() -> Seq<JVal> {
    seq![
        obj2("rule_set"@, str_arr(seq!["geosite-cn"@]), "outbound"@, JVal::Str("direct"@)),
        obj2("rule_set"@, str_arr(seq!["geoip-cn"@]), "outbound"@, JVal::Str("direct"@)),
    ]
}

/// The `route.rules` array.
pub open spec fn route_rules(rs: Seq<RuleView>) -> Seq<JVal> {
    head_route_rules() + user_route_entries(rs) + tail_route_rules()
}

/// The route rule of a user rule, if it has one.
pub fn user_route_json(r: &RouteRule) -> (res: Option<Json>)
    ensures
        match res {
            Some(j) => user_route_entry(r@) == seq![j@],
            None => user_route_entry(r@) == Seq::<JVal>::empty(),
        },
{
    let mut b = ObjBuilder::new();
    push_list_member(&mut b, "domain", &r.domain);
    push_list_member(&mut b, "domain_suffix", &r.domain_suffix);
    push_list_member(&mut b, "domain_keyword", &r.domain_keyword);
    push_list_member(&mut b, "process_name", &r.process_name);
    let ports = expand_ports(&r.port);
    let ghost before_ports = b.view();
    if ports.len() > 0 {
        b.push("port", port_array(&ports));
    }
    proof {
        let pv = port_values(r@.port);
        assert(b.view() =~= before_ports + (if pv.len() > 0 { seq![("port"@, num_arr(pv))] } else { Seq::empty() }));
        assert(b.view() =~= user_route_matchers(r@));
    }
    if !r.enabled || b.len() == 0 {
        return None;
    }
    let outbound = match r.action {
        RuleAction::Proxy => "proxy",
        RuleAction::Direct => "direct",
        RuleAction::Block => "block",
        RuleAction::Dns => {
            return None;
        },
    };
    b.push("outbound", Json::string(outbound));
    Some(b.build())
}

/// A one-element array holding the string `s`.
fn single_str_array(s: &str) -> (r: Json)
    ensures
        r@ == str_arr(seq![s@]),
{
    let mut v: Vec<Json> = Vec::new();
    let e = Json::string(s);
    proof {
        lemma_jview_seq_push(v@, e);
        assert(jview_seq(v@.push(e)) =~= seq![s@].map_values(|x: Seq<char>| JVal::Str(x)));
    }
    v.push(e);
    Json::Arr(v)
}

/// The `route.rules` array of the configuration.
pub fn build_route_rules(rules: &Vec<RouteRule>) -> (r: Vec<Json>)
    ensures
        jview_seq(r@) == route_rules(rules_view(rules@)),
{
    let mut out: Vec<Json> = Vec::new();
    let mut b = ObjBuilder::new();
    b.push("action", Json::string("sniff"));
    proof {
        assert(b.view() =~= seq![("action"@, JVal::Str("sniff"@))]);
    }
    let e1 = b.build();
    let e2 = obj2_json("protocol", single_str_array("dns"), "action", Json::string("hijack-dns"));
    let e3 = obj2_json("ip_is_private", Json::Bool(true), "outbound", Json::string("direct"));
    let e4 = obj2_json("clash_mode", Json::string("Direct"), "outbound", Json::string("direct"));
    let e5 = obj2_json("clash_mode", Json::string("Global"), "outbound", Json::string("proxy"));
    let wp = wechat_processes();
    let e6 = obj2_json("process_name", string_array(&wp), "outbound", Json::string("direct"));
    let cn = cn_direct_suffixes();
    let e7 = obj2_json("domain_suffix", string_array(&cn), "outbound", Json::string("direct"));
    proof {
        lemma_jview_seq_push(out@, e1);
        lemma_jview_seq_push(out@.push(e1), e2);
        lemma_jview_seq_push(out@.push(e1).push(e2), e3);
        lemma_jview_seq_push(out@.push(e1).push(e2).push(e3), e4);
        lemma_jview_seq_push(out@.push(e1).push(e2).push(e3).push(e4), e5);
        lemma_jview_seq_push(out@.push(e1).push(e2).push(e3).push(e4).push(e5), e6);
        lemma_jview_seq_push(out@.push(e1).push(e2).push(e3).push(e4).push(e5).push(e6), e7);
    }
    out.push(e1);
    out.push(e2);
    out.push(e3);
    out.push(e4);
    out.push(e5);
    out.push(e6);
    out.push(e7);
    proof {
        assert(jview_seq(out@) =~= head_route_rules());
    }
    let ghost head = jview_seq(out@);
    let mut i: usize = 0;
    proof {
        assert(rules_view(rules@).subrange(0, 0) =~= Seq::<RuleView>::empty());
        assert(head + user_route_entries(Seq::<RuleView>::empty()) =~= head);
    }
    while i < rules.len()
        invariant
            0 <= i <= rules.len(),
            head == head_route_rules(),
            jview_seq(out@) == head + user_route_entries(rules_view(rules@).subrange(0, i as int)),
        decreases rules.len() - i,
    {
        let e = user_route_json(&rules[i]);
        proof {
            let t = rules_view(rules@).subrange(0, i + 1);
            assert(t.drop_last() =~= rules_view(rules@).subrange(0, i as int));
            assert(t.last() == rules@[i as int]@);
        }
        let ghost before = jview_seq(out@);
        match e {
            Some(j) => {
                proof {
                    lemma_jview_seq_push(out@, j);
                }
                out.push(j);
            },
            None => {},
        }
        proof {
            assert(jview_seq(out@) =~= before + user_route_entry(rules@[i as int]@));
            assert(head + user_route_entries(rules_view(rules@).subrange(0, i + 1)) =~= head + user_route_entries(rules_view(rules@).subrange(0, i as int)) + user_route_entry(rules@[i as int]@));
        }
        i += 1;
    }
    let ghost mid = jview_seq(out@);
    let t1 = obj2_json("rule_set", single_str_array("geosite-cn"), "outbound", Json::string("direct"));
    let t2 = obj2_json("rule_set", single_str_array("geoip-cn"), "outbound", Json::string("direct"));
    proof {
        lemma_jview_seq_push(out@, t1);
        lemma_jview_seq_push(out@.push(t1), t2);
        assert(rules_view(rules@).subrange(0, i as int) =~= rules_view(rules@));
    }
    out.push(t1);
    out.push(t2);
    proof {
        assert(jview_seq(out@) =~= route_rules(rules_view(rules@)));
    }
    out
}

// ─── Laws of the routing ──────────────────────────────────────────────

/// The CN-core suffixes are one list: the DNS rule that resolves them for
/// real and the route rule that sends them direct both carry exactly it. The
/// proxy servers' host names are resolved first (so the core can reach its
/// nodes), every other A/AAAA query falls to the fake-IP pool last, and the
/// `geosite-cn`/`geoip-cn` catch-alls close the route rules.
pub proof fn lemma_routing_layout(obs: Seq<JVal>, ips: Seq<Seq<char>>, rs: Seq<RuleView>)
    ensures
        dns_rules(obs, ips, rs).contains(dns_rule("domain_suffix"@, str_arr(cn_direct_suffix_list()), "dns_local"@)),
        route_rules(rs).contains(obj2("domain_suffix"@, str_arr(cn_direct_suffix_list()), "outbound"@, JVal::Str("direct"@))),
        dns_rules(obs, ips, rs).last() == dns_rule("query_type"@, str_arr(seq!["A"@, "AAAA"@]), "dns_fakeip"@),
        server_domains(obs, ips).len() > 0 ==> dns_rules(obs, ips, rs)[0] == dns_rule("domain"@, str_arr(server_domains(obs, ips)), "dns_local"@),
        route_rules(rs).subrange(route_rules(rs).len() - 2, route_rules(rs).len() as int) == tail_route_rules(),
        route_rules(rs).subrange(0, 7) == head_route_rules(),
{
    let d = dns_rules(obs, ips, rs);
    let sd = server_domains(obs, ips);
    let a = if sd.len() > 0 { seq![dns_rule("domain"@, str_arr(sd), "dns_local"@)] } else { Seq::<JVal>::empty() };
    let cn = dns_rule("domain_suffix"@, str_arr(cn_direct_suffix_list()), "dns_local"@);
    assert(d[a.len() as int] == cn);
    let r = route_rules(rs);
    assert(r[6] == head_route_rules()[6]);
    assert(r.subrange(r.len() - 2, r.len() as int) =~= tail_route_rules());
    assert(r.subrange(0, 7) =~= head_route_rules());
}

/// What a user rule's route rule holds under the key of one of its lists:
/// the list as a string array when it is not empty, nothing otherwise.
pub open spec fn list_field(items: Seq<Seq<char>>) -> JVal {
    if items.len() > 0 { str_arr(items) } else { JVal::Null }
}

/// An enabled rule that is not a DNS rule and names domains, suffixes,
/// keywords or processes gets a route rule of its own: each of its
/// `domain`, `domain_suffix`, `domain_keyword` and `process_name` members is
/// exactly the rule's list (absent when the list is empty), and it sends
/// matches to the rule's outbound.
pub proof fn lemma_user_route_members(r: RuleView)
    requires
        r.enabled,
        r.action != RuleAction::Dns,
        r.domain.len() > 0 || r.domain_suffix.len() > 0 || r.domain_keyword.len() > 0 || r.process_name.len() > 0,
    ensures
        user_route_entry(r).len() == 1,
        user_route_entry(r)[0].field("domain"@) == list_field(r.domain),
        user_route_entry(r)[0].field("domain_suffix"@) == list_field(r.domain_suffix),
        user_route_entry(r)[0].field("domain_keyword"@) == list_field(r.domain_keyword),
        user_route_entry(r)[0].field("process_name"@) == list_field(r.process_name),
        user_route_entry(r)[0].field("outbound"@) == JVal::Str(r.action.tag()),
{
    reveal_strlit("domain");
    reveal_strlit("domain_suffix");
    reveal_strlit("domain_keyword");
    reveal_strlit("process_name");
    reveal_strlit("port");
    reveal_strlit("outbound");
    assert("domain"@.len() == 6 && "domain_suffix"@.len() == 13 && "domain_keyword"@.len() == 14);
    assert("process_name"@.len() == 12 && "port"@.len() == 4 && "outbound"@.len() == 8);
    let ports = port_values(r.port);
    let m1 = list_member("domain"@, r.domain);
    let m2 = list_member("domain_suffix"@, r.domain_suffix);
    let m3 = list_member("domain_keyword"@, r.domain_keyword);
    let m4 = list_member("process_name"@, r.process_name);
    let pt: Seq<(Seq<char>, JVal)> = if ports.len() > 0 { seq![("port"@, num_arr(ports))] } else { Seq::empty() };
    let last = seq![("outbound"@, JVal::Str(r.action.tag()))];
    let ms = user_route_matchers(r);
    assert(ms.len() > 0);
    let full = ms.push(("outbound"@, JVal::Str(r.action.tag())));
    assert(full =~= m1 + (m2 + (m3 + (m4 + (pt + last)))));
    let t4 = pt + last;
    let t3 = m4 + t4;
    let t2 = m3 + t3;
    let t1 = m2 + t2;
    // the outbound, past every matcher
    lemma_lookup_past(m1, t1, "outbound"@);
    lemma_lookup_past(m2, t2, "outbound"@);
    lemma_lookup_past(m3, t3, "outbound"@);
    lemma_lookup_past(m4, t4, "outbound"@);
    lemma_lookup_past(pt, last, "outbound"@);
    assert(lookup(last, "outbound"@) == Some(JVal::Str(r.action.tag())));
    // each list member, found where it stands or nowhere
    lemma_lookup_past(m1, t1, "process_name"@);
    lemma_lookup_past(m2, t2, "process_name"@);
    lemma_lookup_past(m3, t3, "process_name"@);
    lemma_lookup_past(m1, t1, "domain_keyword"@);
    lemma_lookup_past(m2, t2, "domain_keyword"@);
    lemma_lookup_past(m1, t1, "domain_suffix"@);
    lemma_lookup_concat(m1, t1, "domain"@);
    lemma_lookup_concat(m2, t2, "domain_suffix"@);
    lemma_lookup_concat(m3, t3, "domain_keyword"@);
    lemma_lookup_concat(m4, t4, "process_name"@);
    lemma_lookup_past(m2, t2, "domain"@);
    lemma_lookup_past(m3, t3, "domain"@);
    lemma_lookup_past(m4, t4, "domain"@);
    lemma_lookup_past(m3, t3, "domain_suffix"@);
    lemma_lookup_past(m4, t4, "domain_suffix"@);
    lemma_lookup_past(m4, t4, "domain_keyword"@);
    lemma_lookup_past(pt, last, "domain"@);
    lemma_lookup_past(pt, last, "domain_suffix"@);
    lemma_lookup_past(pt, last, "domain_keyword"@);
    lemma_lookup_past(pt, last, "process_name"@);
    lemma_lookup_has_key(last, "domain"@);
    lemma_lookup_has_key(last, "domain_suffix"@);
    lemma_lookup_has_key(last, "domain_keyword"@);
    lemma_lookup_has_key(last, "process_name"@);
}

/// Every enabled non-DNS user rule that names processes shows up in
/// `route.rules` between the fixed leading rules and the trailing
/// catch-alls, as a rule whose `process_name` member is its list of process
/// names and whose outbound is the rule's.
pub proof fn lemma_route_rules_keep_process_names(rs: Seq<RuleView>, k: int)
    requires
        0 <= k < rs.len(),
        rs[k].enabled,
        rs[k].action != RuleAction::Dns,
        rs[k].process_name.len() > 0,
    ensures
        exists|j: int|
            7 <= j < route_rules(rs).len() - 2 && (#[trigger] route_rules(rs)[j]).field("process_name"@) == str_arr(
                rs[k].process_name,
            ) && route_rules(rs)[j].field("outbound"@) == JVal::Str(rs[k].action.tag()),
{
    lemma_user_route_members(rs[k]);
    let e = user_route_entry(rs[k])[0];
    lemma_user_entries_contain(rs, k);
    let i = choose|i: int| 0 <= i < user_route_entries(rs).len() && user_route_entries(rs)[i] == e;
    let all = route_rules(rs);
    assert(head_route_rules().len() == 7);
    assert(tail_route_rules().len() == 2);
    assert(all[7 + i] == e);
}

/// The entry of each rule that has one is among the user route entries.
proof fn lemma_user_entries_contain(rs: Seq<RuleView>, k: int)
    requires
        0 <= k < rs.len(),
        user_route_entry(rs[k]).len() == 1,
    ensures
        exists|i: int| 0 <= i < user_route_entries(rs).len() && user_route_entries(rs)[i] == user_route_entry(rs[k])[0],
    decreases rs.len(),
{
    let pre = user_route_entries(rs.drop_last());
    let e = user_route_entry(rs[k])[0];
    if k == rs.len() - 1 {
        assert(user_route_entries(rs)[pre.len() as int] == e);
    } else {
        assert(rs.drop_last()[k] == rs[k]);
        lemma_user_entries_contain(rs.drop_last(), k);
        let i = choose|i: int| 0 <= i < pre.len() && pre[i] == e;
        assert(user_route_entries(rs)[i] == e);
    }
}

} // verus!
