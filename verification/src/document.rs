//! Assembly of the complete sing-box `config.json` document.
use vstd::prelude::*;
use crate::json::{Json, JVal, ObjBuilder, jview_seq, lemma_jview_seq_push, strs_view, str_arr, strings, string_array};
use crate::text::{chars_of, slice_range, string_of, concat, decimal, decimal_string};
use crate::types::{AppConfig, ProxyNode, NodeView, nodes_view, ProxyMode};
use crate::rules::{RouteRule, RuleView, rules_view};
use crate::external::{opt_view, new_uuid_simple, is_lower_hex};
use crate::singbox_config::{all_outbounds, sub_groups, subscription_groups, build_all_outbounds, groups_view};
use crate::routing::{
    dns_rules, route_rules, rule_set_entry, geosite_url, geoip_url, str_opt, build_dns_rules,
    build_route_rules, rule_set_json,
};

verus! {

/// What the configuration needs from the host beyond the outbounds, the
/// settings and the nodes.
pub struct ConfigInputs {
    /// The user's routing rules.
    pub user_rules: Vec<RouteRule>,
    /// The outbound servers that are IP addresses rather than host names.
    pub ip_servers: Vec<String>,
    /// Path of the local `geosite-cn.srs`, when that file exists.
    pub geosite_path: Option<String>,
    /// Path of the local `geoip-cn.srs`, when that file exists.
    pub geoip_path: Option<String>,
    /// The secret that guards the Clash API.
    pub api_secret: String,
    /// Whether the core runs on Windows, where every start gets a fresh TUN
    /// interface name.
    pub windows: bool,
}

/// `{ "level": <log level>, "timestamp": true }`
pub open spec fn log_section(config: AppConfig) -> JVal {
    JVal::Obj(seq![("level"@, JVal::Str(config.log_level@)), ("timestamp"@, JVal::Bool(true))])
}

/// The two DNS servers: the local resolver and the fake-IP pool.
pub open spec fn dns_servers() -> Seq<JVal> {
    seq![
        JVal::Obj(seq![
            ("type"@, JVal::Str("udp"@)),
            ("tag"@, JVal::Str("dns_local"@)),
            ("server"@, JVal::Str("223.5.5.5"@)),
        ]),
        JVal::Obj(seq![
            ("type"@, JVal::Str("fakeip"@)),
            ("tag"@, JVal::Str("dns_fakeip"@)),
            ("inet4_range"@, JVal::Str("198.18.0.0/15"@)),
        ]),
    ]
}

/// The `dns` section: the servers, the rules, local resolution as the
/// fallback, IPv4 only, and a separate cache per server.
pub open spec fn dns_section(rules: Seq<JVal>) -> JVal {
    JVal::Obj(seq![
        ("servers"@, JVal::Arr(dns_servers())),
        ("rules"@, JVal::Arr(rules)),
        ("final"@, JVal::Str("dns_local"@)),
        ("strategy"@, JVal::Str("ipv4_only"@)),
        ("independent_cache"@, JVal::Bool(true)),
    ])
}

/// The local mixed (HTTP + SOCKS) inbound.
pub open spec fn mixed_inbound(config: AppConfig) -> JVal {
    JVal::Obj(seq![
        ("type"@, JVal::Str("mixed"@)),
        ("tag"@, JVal::Str("mixed-in"@)),
        ("listen"@, JVal::Str("127.0.0.1"@)),
        ("listen_port"@, JVal::UInt(config.mixed_port as u64)),
        ("set_system_proxy"@, JVal::Bool(false)),
    ])
}

/// The TUN inbound, with an explicit interface name when one is given.
pub open spec fn tun_inbound(name: Option<Seq<char>>) -> JVal {
    let base = seq![
        ("type"@, JVal::Str("tun"@)),
        ("tag"@, JVal::Str("tun-in"@)),
        ("address"@, str_arr(seq!["172.19.0.1/30"@, "fdfe:dcba:9876::1/126"@])),
        ("mtu"@, JVal::UInt(9000)),
        ("auto_route"@, JVal::Bool(true)),
        ("strict_route"@, JVal::Bool(true)),
        ("stack"@, JVal::Str("system"@)),
    ];
    match name {
        Some(n) => JVal::Obj(base.push(("interface_name"@, JVal::Str(n)))),
        None => JVal::Obj(base),
    }
}

/// The mixed inbound, then the TUN inbound when TUN mode is on.
pub open spec fn inbounds(config: AppConfig, tun_name: Option<Seq<char>>) -> Seq<JVal> {
    seq![mixed_inbound(config)] + if config.tun_enabled { seq![tun_inbound(tun_name)] } else { Seq::empty() }
}

/// The `route` section: local resolution of domains, the rules, the CN rule
/// sets, `proxy` as the final outbound, and interface detection.
pub open spec fn route_section(rules: Seq<JVal>, geosite: Option<Seq<char>>, geoip: Option<Seq<char>>) -> JVal {
    JVal::Obj(seq![
        ("default_domain_resolver"@, JVal::Str("dns_local"@)),
        ("rules"@, JVal::Arr(rules)),
        ("rule_set"@, JVal::Arr(seq![
            rule_set_entry("geosite-cn"@, geosite, geosite_url()),
            rule_set_entry("geoip-cn"@, geoip, geoip_url()),
        ])),
        ("final"@, JVal::Str("proxy"@)),
        ("auto_detect_interface"@, JVal::Bool(true)),
    ])
}

/// The Clash API mode a fresh core starts in.
pub open spec fn default_mode(m: ProxyMode) -> Seq<char> {
    match m {
        ProxyMode::Global => "Global"@,
        ProxyMode::Direct => "Direct"@,
        _ => "Rule"@,
    }
}

/// The Clash API (on the configured port, guarded by the secret) and the cache file.
pub open spec fn experimental_section(config: AppConfig, secret: Seq<char>) -> JVal {
    JVal::Obj(seq![
        ("clash_api"@, JVal::Obj(seq![
            ("external_controller"@, JVal::Str("127.0.0.1:"@ + decimal(config.api_port as nat))),
            ("external_ui"@, JVal::Str("ui"@)),
            ("secret"@, JVal::Str(secret)),
            ("default_mode"@, JVal::Str(default_mode(config.proxy_mode))),
        ])),
        ("cache_file"@, JVal::Obj(seq![
            ("enabled"@, JVal::Bool(true)),
            ("store_fakeip"@, JVal::Bool(true)),
        ])),
    ])
}

/// The complete configuration document.
pub open spec fn singbox_document(
    obs: Seq<JVal>,
    config: AppConfig,
    active: Option<Seq<char>>,
    ns: Seq<NodeView>,
    rs: Seq<RuleView>,
    ips: Seq<Seq<char>>,
    geosite: Option<Seq<char>>,
    geoip: Option<Seq<char>>,
    secret: Seq<char>,
    tun_name: Option<Seq<char>>,
) -> JVal {
    JVal::Obj(seq![
        ("log"@, log_section(config)),
        ("dns"@, dns_section(dns_rules(obs, ips, rs))),
        ("inbounds"@, JVal::Arr(inbounds(config, tun_name))),
        ("outbounds"@, JVal::Arr(all_outbounds(obs, sub_groups(ns, obs), active, config))),
        ("route"@, route_section(route_rules(rs), geosite, geoip)),
        ("experimental"@, experimental_section(config, secret)),
    ])
}

/// The document for these inputs, with `tun_name` as the TUN interface name.
pub open spec fn document_of(
    obs: Seq<JVal>,
    config: AppConfig,
    active: Option<Seq<char>>,
    ns: Seq<NodeView>,
    inputs: ConfigInputs,
    tun_name: Option<Seq<char>>,
) -> JVal {
    singbox_document(
        obs,
        config,
        active,
        ns,
        rules_view(inputs.user_rules@),
        strs_view(inputs.ip_servers@),
        opt_view(inputs.geosite_path),
        opt_view(inputs.geoip_path),
        inputs.api_secret@,
        tun_name,
    )
}

fn log_json(config: &AppConfig) -> (r: Json)
    ensures
        r@ == log_section(*config),
{
    let mut b = ObjBuilder::new();
    b.push("level", Json::Str(config.log_level.clone()));
    b.push("timestamp", Json::Bool(true));
    proof {
        assert(b.view() =~= seq![("level"@, JVal::Str(config.log_level@)), ("timestamp"@, JVal::Bool(true))]);
    }
    b.build()
}

/// `{ "type": ty, "tag": tag, key: value }` with string values.
fn three_strings(ty: &str, tag: &str, key: &str, value: &str) -> (r: Json)
    ensures
        r@ == JVal::Obj(seq![("type"@, JVal::Str(ty@)), ("tag"@, JVal::Str(tag@)), (key@, JVal::Str(value@))]),
{
    let mut b = ObjBuilder::new();
    b.push("type", Json::string(ty));
    b.push("tag", Json::string(tag));
    b.push(key, Json::string(value));
    proof {
        assert(b.view() =~= seq![("type"@, JVal::Str(ty@)), ("tag"@, JVal::Str(tag@)), (key@, JVal::Str(value@))]);
    }
    b.build()
}

fn dns_json(rules: Vec<Json>) -> (r: Json)
    ensures
        r@ == dns_section(jview_seq(rules@)),
{
    let mut servers: Vec<Json> = Vec::new();
    let s1 = three_strings("udp", "dns_local", "server", "223.5.5.5");
    let s2 = three_strings("fakeip", "dns_fakeip", "inet4_range", "198.18.0.0/15");
    proof {
        lemma_jview_seq_push(servers@, s1);
        lemma_jview_seq_push(servers@.push(s1), s2);
    }
    servers.push(s1);
    servers.push(s2);
    proof {
        assert(jview_seq(servers@) =~= dns_servers());
    }
    let mut b = ObjBuilder::new();
    b.push("servers", Json::Arr(servers));
    b.push("rules", Json::Arr(rules));
    b.push("final", Json::string("dns_local"));
    b.push("strategy", Json::string("ipv4_only"));
    b.push("independent_cache", Json::Bool(true));
    proof {
        assert(b.view() =~= seq![
            ("servers"@, JVal::Arr(dns_servers())),
            ("rules"@, JVal::Arr(jview_seq(rules@))),
            ("final"@, JVal::Str("dns_local"@)),
            ("strategy"@, JVal::Str("ipv4_only"@)),
            ("independent_cache"@, JVal::Bool(true)),
        ]);
    }
    b.build()
}

fn mixed_inbound_json(config: &AppConfig) -> (r: Json)
    ensures
        r@ == mixed_inbound(*config),
{
    let mut b = ObjBuilder::new();
    b.push("type", Json::string("mixed"));
    b.push("tag", Json::string("mixed-in"));
    b.push("listen", Json::string("127.0.0.1"));
    b.push("listen_port", Json::UInt(config.mixed_port as u64));
    b.push("set_system_proxy", Json::Bool(false));
    proof {
        assert(b.view() =~= seq![
            ("type"@, JVal::Str("mixed"@)),
            ("tag"@, JVal::Str("mixed-in"@)),
            ("listen"@, JVal::Str("127.0.0.1"@)),
            ("listen_port"@, JVal::UInt(config.mixed_port as u64)),
            ("set_system_proxy"@, JVal::Bool(false)),
        ]);
    }
    b.build()
}

fn tun_inbound_json(name: Option<&str>) -> (r: Json)
    ensures
        r@ == tun_inbound(str_opt(name)),
{
    let addrs = strings(vec!["172.19.0.1/30", "fdfe:dcba:9876::1/126"]);
    proof {
        assert(strs_view(addrs@) =~= seq!["172.19.0.1/30"@, "fdfe:dcba:9876::1/126"@]);
    }
    let mut b = ObjBuilder::new();
    b.push("type", Json::string("tun"));
    b.push("tag", Json::string("tun-in"));
    b.push("address", string_array(&addrs));
    b.push("mtu", Json::UInt(9000));
    b.push("auto_route", Json::Bool(true));
    b.push("strict_route", Json::Bool(true));
    b.push("stack", Json::string("system"));
    let ghost base = b.view();
    proof {
        assert(base =~= seq![
            ("type"@, JVal::Str("tun"@)),
            ("tag"@, JVal::Str("tun-in"@)),
            ("address"@, str_arr(seq!["172.19.0.1/30"@, "fdfe:dcba:9876::1/126"@])),
            ("mtu"@, JVal::UInt(9000)),
            ("auto_route"@, JVal::Bool(true)),
            ("strict_route"@, JVal::Bool(true)),
            ("stack"@, JVal::Str("system"@)),
        ]);
    }
    match name {
        Some(n) => {
            b.push("interface_name", Json::string(n));
        },
        None => {},
    }
    b.build()
}

fn route_json(rules: Vec<Json>, geosite: Option<&str>, geoip: Option<&str>) -> (r: Json)
    ensures
        r@ == route_section(jview_seq(rules@), str_opt(geosite), str_opt(geoip)),
{
    let gs = rule_set_json(
        "geosite-cn",
        geosite,
        "https://raw.githubusercontent.com/SagerNet/sing-geosite/rule-set/geosite-cn.srs",
    );
    let gi = rule_set_json(
        "geoip-cn",
        geoip,
        "https://raw.githubusercontent.com/SagerNet/sing-geoip/rule-set/geoip-cn.srs",
    );
    let mut sets: Vec<Json> = Vec::new();
    proof {
        lemma_jview_seq_push(sets@, gs);
        lemma_jview_seq_push(sets@.push(gs), gi);
    }
    sets.push(gs);
    sets.push(gi);
    let mut b = ObjBuilder::new();
    b.push("default_domain_resolver", Json::string("dns_local"));
    b.push("rules", Json::Arr(rules));
    b.push("rule_set", Json::Arr(sets));
    b.push("final", Json::string("proxy"));
    b.push("auto_detect_interface", Json::Bool(true));
    proof {
        assert(jview_seq(sets@) =~= seq![
            rule_set_entry("geosite-cn"@, str_opt(geosite), geosite_url()),
            rule_set_entry("geoip-cn"@, str_opt(geoip), geoip_url()),
        ]);
        assert(b.view() =~= seq![
            ("default_domain_resolver"@, JVal::Str("dns_local"@)),
            ("rules"@, JVal::Arr(jview_seq(rules@))),
            ("rule_set"@, JVal::Arr(seq![
                rule_set_entry("geosite-cn"@, str_opt(geosite), geosite_url()),
                rule_set_entry("geoip-cn"@, str_opt(geoip), geoip_url()),
            ])),
            ("final"@, JVal::Str("proxy"@)),
            ("auto_detect_interface"@, JVal::Bool(true)),
        ]);
    }
    b.build()
}

fn experimental_json(config: &AppConfig, secret: &str) -> (r: Json)
    ensures
        r@ == experimental_section(*config, secret@),
{
    let controller = concat("127.0.0.1:", decimal_string(config.api_port as u64).as_str());
    let mode = match config.proxy_mode {
        ProxyMode::Global => "Global",
        ProxyMode::Direct => "Direct",
        _ => "Rule",
    };
    let mut api = ObjBuilder::new();
    api.push("external_controller", Json::Str(controller));
    api.push("external_ui", Json::string("ui"));
    api.push("secret", Json::string(secret));
    api.push("default_mode", Json::string(mode));
    let mut cache = ObjBuilder::new();
    cache.push("enabled", Json::Bool(true));
    cache.push("store_fakeip", Json::Bool(true));
    proof {
        assert(mode@ == default_mode(config.proxy_mode));
        assert(api.view() =~= seq![
            ("external_controller"@, JVal::Str("127.0.0.1:"@ + decimal(config.api_port as nat))),
            ("external_ui"@, JVal::Str("ui"@)),
            ("secret"@, JVal::Str(secret@)),
            ("default_mode"@, JVal::Str(default_mode(config.proxy_mode))),
        ]);
        assert(cache.view() =~= seq![("enabled"@, JVal::Bool(true)), ("store_fakeip"@, JVal::Bool(true))]);
    }
    let mut b = ObjBuilder::new();
    b.push("clash_api", api.build());
    b.push("cache_file", cache.build());
    proof {
        assert(b.view() =~= seq![
            ("clash_api"@, JVal::Obj(seq![
                ("external_controller"@, JVal::Str("127.0.0.1:"@ + decimal(config.api_port as nat))),
                ("external_ui"@, JVal::Str("ui"@)),
                ("secret"@, JVal::Str(secret@)),
                ("default_mode"@, JVal::Str(default_mode(config.proxy_mode))),
            ])),
            ("cache_file"@, JVal::Obj(seq![("enabled"@, JVal::Bool(true)), ("store_fakeip"@, JVal::Bool(true))])),
        ]);
    }
    b.build()
}

fn opt_as_str(o: &Option<String>) -> (r: Option<&str>)
    ensures
        str_opt(r) == opt_view(*o),
{
    match o {
        Some(s) => Some(s.as_str()),
        None => None,
    }
}

/// The complete configuration, with `tun_name` as the name of the TUN
/// interface (used only when TUN mode is on).
pub fn build_singbox_config_named(
    outbounds: &Vec<Json>,
    config: &AppConfig,
    active_tag: Option<&str>,
    nodes: &Vec<ProxyNode>,
    inputs: &ConfigInputs,
    tun_name: Option<&str>,
) -> (r: Json)
    ensures
        r@ == document_of(jview_seq(outbounds@), *config, str_opt(active_tag), nodes_view(nodes@), *inputs, str_opt(tun_name)),
{
    let groups = subscription_groups(nodes, outbounds);
    let obs = build_all_outbounds(outbounds, &groups, active_tag, config);
    let dns_rules_v = build_dns_rules(outbounds, &inputs.ip_servers, &inputs.user_rules);
    let route_rules_v = build_route_rules(&inputs.user_rules);
    let mut ins: Vec<Json> = Vec::new();
    let m = mixed_inbound_json(config);
    proof {
        lemma_jview_seq_push(ins@, m);
    }
    ins.push(m);
    if config.tun_enabled {
        let t = tun_inbound_json(tun_name);
        proof {
            lemma_jview_seq_push(ins@, t);
        }
        ins.push(t);
    }
    proof {
        assert(jview_seq(ins@) =~= inbounds(*config, str_opt(tun_name)));
    }
    let mut b = ObjBuilder::new();
    b.push("log", log_json(config));
    b.push("dns", dns_json(dns_rules_v));
    b.push("inbounds", Json::Arr(ins));
    b.push("outbounds", Json::Arr(obs));
    b.push("route", route_json(route_rules_v, opt_as_str(&inputs.geosite_path), opt_as_str(&inputs.geoip_path)));
    b.push("experimental", experimental_json(config, inputs.api_secret.as_str()));
    proof {
        assert(b.view() =~= seq![
            ("log"@, log_section(*config)),
            ("dns"@, dns_section(dns_rules(jview_seq(outbounds@), strs_view(inputs.ip_servers@), rules_view(inputs.user_rules@)))),
            ("inbounds"@, JVal::Arr(inbounds(*config, str_opt(tun_name)))),
            ("outbounds"@, JVal::Arr(all_outbounds(jview_seq(outbounds@), sub_groups(nodes_view(nodes@), jview_seq(outbounds@)), str_opt(active_tag), *config))),
            ("route"@, route_section(route_rules(rules_view(inputs.user_rules@)), opt_view(inputs.geosite_path), opt_view(inputs.geoip_path))),
            ("experimental"@, experimental_section(*config, inputs.api_secret@)),
        ]);
    }
    b.build()
}

/// A TUN interface name of the form `sing-box-tun-<6 hex digits>`.
pub open spec fn is_fresh_tun_name(n: Seq<char>) -> bool {
    &&& n.len() == 19
    &&& n.subrange(0, 13) == "sing-box-tun-"@
    &&& forall|i: int| 13 <= i < 19 ==> is_lower_hex(#[trigger] n[i])
}

/// The complete sing-box configuration for the outbounds, settings, selected
/// tag and nodes. With TUN mode on under Windows the TUN interface gets a
/// fresh random name (`sing-box-tun-` and six hex digits) so that an adapter
/// left behind by a crash never blocks the start; elsewhere the system names it.
pub fn build_singbox_config(
    outbounds: &Vec<Json>,
    config: &AppConfig,
    active_tag: Option<&str>,
    nodes: &Vec<ProxyNode>,
    inputs: &ConfigInputs,
) -> (r: Json)
    ensures
        config.tun_enabled && inputs.windows ==> exists|n: Seq<char>|
            is_fresh_tun_name(n) && r@ == document_of(jview_seq(outbounds@), *config, str_opt(active_tag), nodes_view(nodes@), *inputs, Some(n)),
        !(config.tun_enabled && inputs.windows) ==>
            r@ == document_of(jview_seq(outbounds@), *config, str_opt(active_tag), nodes_view(nodes@), *inputs, None),
{
    if config.tun_enabled && inputs.windows {
        let id = chars_of(new_uuid_simple().as_str());
        let suffix = slice_range(id.as_slice(), 0, 6);
        let name = concat("sing-box-tun-", string_of(suffix.as_slice()).as_str());
        proof {
            reveal_strlit("sing-box-tun-");
            assert(name@.subrange(0, 13) =~= "sing-box-tun-"@);
            assert forall|i: int| 13 <= i < 19 implies is_lower_hex(#[trigger] name@[i]) by {
                assert(name@[i] == id@[i - 13]);
            }
        }
        let r = build_singbox_config_named(outbounds, config, active_tag, nodes, inputs, Some(name.as_str()));
        proof {
            assert(is_fresh_tun_name(name@));
        }
        r
    } else {
        build_singbox_config_named(outbounds, config, active_tag, nodes, inputs, None)
    }
}

} // verus!
