//! Routing rules: the rule model, the built-in presets, and their conversion
//! into sing-box `route.rules` entries.
use vstd::prelude::*;
use crate::json::{Json, JVal, ObjBuilder, jview_seq, jview_members, lemma_jview_members, lemma_jview_seq_push, strs_view, str_arr, num_arr, string_array, port_array, strings};
use crate::text::{chars_of, find_char_from, find_from, lemma_find_from, slice_range, parse_unsigned, parse_unsigned_chars};
use crate::external::{opt_view, new_uuid};

verus! {

/// Where traffic that matches a rule goes.
#[derive(Debug, Clone, Copy, PartialEq, Eq, Structural)]
pub enum RuleAction {
    Proxy,
    Direct,
    Block,
    Dns,
}

impl RuleAction {
    /// The outbound tag the action names.
    pub open spec fn tag(self) -> Seq<char> {
        match self {
            RuleAction::Proxy => "proxy"@,
            RuleAction::Direct => "direct"@,
            RuleAction::Block => "block"@,
            RuleAction::Dns => "dns-out"@,
        }
    }

    /// The outbound tag the action names, as text.
    pub fn to_string(&self) -> (r: String)
        ensures
            r@ == self.tag(),
    {
        match self {
            RuleAction::Proxy => "proxy".to_string(),
            RuleAction::Direct => "direct".to_string(),
            RuleAction::Block => "block".to_string(),
            RuleAction::Dns => "dns-out".to_string(),
        }
    }
}

/// A user-editable routing rule.
#[derive(Debug)]
pub struct RouteRule {
    pub id: String,
    pub name: String,
    pub enabled: bool,
    pub action: RuleAction,
    /// Match by domain (exact).
    pub domain: Vec<String>,
    /// Match by domain suffix.
    pub domain_suffix: Vec<String>,
    /// Match by domain keyword.
    pub domain_keyword: Vec<String>,
    /// Match by GeoSite tag (e.g. "cn", "google").
    pub geosite: Vec<String>,
    /// Match by GeoIP country code (e.g. "cn", "private").
    pub geoip: Vec<String>,
    /// Match by CIDR block.
    pub ip_cidr: Vec<String>,
    /// Match by port: single ports ("443") or ranges ("8080-8090").
    pub port: Vec<String>,
    /// Match by protocol (tcp/udp).
    pub network: Option<String>,
    /// Match by process name.
    pub process_name: Vec<String>,
}

/// The model of a [`RouteRule`].
pub struct RuleView {
    pub id: Seq<char>,
    pub name: Seq<char>,
    pub enabled: bool,
    pub action: RuleAction,
    pub domain: Seq<Seq<char>>,
    pub domain_suffix: Seq<Seq<char>>,
    pub domain_keyword: Seq<Seq<char>>,
    pub geosite: Seq<Seq<char>>,
    pub geoip: Seq<Seq<char>>,
    pub ip_cidr: Seq<Seq<char>>,
    pub port: Seq<Seq<char>>,
    pub network: Option<Seq<char>>,
    pub process_name: Seq<Seq<char>>,
}

impl View for RouteRule {
    type V = RuleView;

    open spec fn view(&self) -> RuleView {
        RuleView {
            id: self.id@,
            name: self.name@,
            enabled: self.enabled,
            action: self.action,
            domain: strs_view(self.domain@),
            domain_suffix: strs_view(self.domain_suffix@),
            domain_keyword: strs_view(self.domain_keyword@),
            geosite: strs_view(self.geosite@),
            geoip: strs_view(self.geoip@),
            ip_cidr: strs_view(self.ip_cidr@),
            port: strs_view(self.port@),
            network: opt_view(self.network),
            process_name: strs_view(self.process_name@),
        }
    }
}

/// The models of a list of rules.
pub open spec fn rules_view(v: Seq<RouteRule>) -> Seq<RuleView> {
    v.map_values(|r: RouteRule| r@)
}

impl RuleView {
    /// Equal in every field but the random id.
    pub open spec fn same_but_id(self, other: RuleView) -> bool {
        RuleView { id: other.id, ..self } == other
    }

    /// A rule with only a name and an action (enabled, nothing to match).
    pub open spec fn empty(name: Seq<char>, action: RuleAction) -> RuleView {
        RuleView {
            id: Seq::empty(),
            name,
            enabled: true,
            action,
            domain: Seq::empty(),
            domain_suffix: Seq::empty(),
            domain_keyword: Seq::empty(),
            geosite: Seq::empty(),
            geoip: Seq::empty(),
            ip_cidr: Seq::empty(),
            port: Seq::empty(),
            network: None,
            process_name: Seq::empty(),
        }
    }
}

/// A copy of a list of strings.
pub fn clone_strings(v: &Vec<String>) -> (r: Vec<String>)
    ensures
        strs_view(r@) == strs_view(v@),
{
    let mut out: Vec<String> = Vec::new();
    let mut i: usize = 0;
    while i < v.len()
        invariant
            0 <= i <= v.len(),
            strs_view(out@) == strs_view(v@).subrange(0, i as int),
        decreases v.len() - i,
    {
        let s = v[i].clone();
        proof {
            assert(strs_view(out@.push(s)) =~= strs_view(out@).push(s@));
            assert(strs_view(v@).subrange(0, i + 1) =~= strs_view(v@).subrange(0, i as int).push(v@[i as int]@));
        }
        out.push(s);
        i += 1;
    }
    proof {
        assert(strs_view(v@).subrange(0, i as int) =~= strs_view(v@));
    }
    out
}

impl RouteRule {
    /// A new enabled rule with a fresh random id and nothing to match.
    pub fn new_empty(name: &str, action: RuleAction) -> (r: RouteRule)
        ensures
            r@.same_but_id(RuleView::empty(name@, action)),
            r@.id.len() == 36,
    {
        let r = RouteRule {
            id: new_uuid(),
            name: name.to_string(),
            enabled: true,
            action,
            domain: Vec::new(),
            domain_suffix: Vec::new(),
            domain_keyword: Vec::new(),
            geosite: Vec::new(),
            geoip: Vec::new(),
            ip_cidr: Vec::new(),
            port: Vec::new(),
            network: None,
            process_name: Vec::new(),
        };
        proof {
            assert(strs_view(r.domain@) =~= Seq::<Seq<char>>::empty());
            assert(strs_view(r.domain_suffix@) =~= Seq::<Seq<char>>::empty());
            assert(strs_view(r.domain_keyword@) =~= Seq::<Seq<char>>::empty());
            assert(strs_view(r.geosite@) =~= Seq::<Seq<char>>::empty());
            assert(strs_view(r.geoip@) =~= Seq::<Seq<char>>::empty());
            assert(strs_view(r.ip_cidr@) =~= Seq::<Seq<char>>::empty());
            assert(strs_view(r.port@) =~= Seq::<Seq<char>>::empty());
            assert(strs_view(r.process_name@) =~= Seq::<Seq<char>>::empty());
        }
        r
    }

    /// A copy of `self`.
    pub fn copy(&self) -> (r: RouteRule)
        ensures
            r@ == self@,
    {
        RouteRule {
            id: self.id.clone(),
            name: self.name.clone(),
            enabled: self.enabled,
            action: self.action,
            domain: clone_strings(&self.domain),
            domain_suffix: clone_strings(&self.domain_suffix),
            domain_keyword: clone_strings(&self.domain_keyword),
            geosite: clone_strings(&self.geosite),
            geoip: clone_strings(&self.geoip),
            ip_cidr: clone_strings(&self.ip_cidr),
            port: clone_strings(&self.port),
            network: match &self.network {
                Some(n) => Some(n.clone()),
                None => None,
            },
            process_name: clone_strings(&self.process_name),
        }
    }
}

// ─── Ports ────────────────────────────────────────────────────────────

/// `lo..=hi` (empty when `lo > hi`).
pub open spec fn port_range(lo: u16, hi: u16) -> Seq<u16> {
    Seq::new(if lo <= hi { (hi - lo + 1) as nat } else { 0 }, |i: int| (lo + i) as u16)
}

/// The ports that one port entry stands for: a single port ("443"), a range
/// written with exactly one `-` ("8080-8090", expanded to every port in it), or
/// nothing when the entry does not parse.
pub open spec fn port_entry_values(p: Seq<char>) -> Seq<u16> {
    let k = find_from(p, '-', 0);
    if k < p.len() {
        let a = p.subrange(0, k);
        let b = p.subrange(k + 1, p.len() as int);
        if find_from(b, '-', 0) < b.len() {
            Seq::empty()
        } else {
            match (parse_unsigned(a, 65535), parse_unsigned(b, 65535)) {
                (Some(x), Some(y)) => port_range(x as u16, y as u16),
                _ => Seq::empty(),
            }
        }
    } else {
        match parse_unsigned(p, 65535) {
            Some(n) => seq![n as u16],
            None => Seq::empty(),
        }
    }
}

/// The ports of a list of entries, in order.
pub open spec fn port_values(ps: Seq<Seq<char>>) -> Seq<u16>
    decreases ps.len(),
{
    if ps.len() == 0 {
        Seq::empty()
    } else {
        port_values(ps.drop_last()) + port_entry_values(ps.last())
    }
}

/// Expands one port entry into `out`.
fn push_port_entry(p: &str, out: &mut Vec<u16>)
    ensures
        final(out)@ == old(out)@ + port_entry_values(p@),
{
    let cs = chars_of(p);
    let k = find_char_from(cs.as_slice(), '-', 0);
    proof {
        lemma_find_from(cs@, '-', 0);
    }
    if k < cs.len() {
        let a = slice_range(cs.as_slice(), 0, k);
        let b = slice_range(cs.as_slice(), k + 1, cs.len());
        proof {
            assert(a@ == p@.subrange(0, k as int));
            assert(b@ == p@.subrange(k + 1, p@.len() as int));
        }
        let kb = find_char_from(b.as_slice(), '-', 0);
        if kb < b.len() {
            proof {
                assert(old(out)@ + Seq::<u16>::empty() =~= old(out)@);
            }
            return;
        }
        let x = parse_unsigned_chars(a.as_slice(), 65535);
        let y = parse_unsigned_chars(b.as_slice(), 65535);
        match (x, y) {
            (Some(lo), Some(hi)) => {
                let lo = lo as u16;
                let hi = hi as u16;
                let ghost start = out@;
                if lo <= hi {
                    let mut n: u16 = lo;
                    loop
                        invariant_except_break
                            lo <= n <= hi,
                            out@ == start + port_range(lo, hi).subrange(0, (n - lo) as int),
                        ensures
                            out@ == start + port_range(lo, hi),
                        decreases hi - n,
                    {
                        out.push(n);
                        proof {
                            assert(port_range(lo, hi).subrange(0, (n - lo + 1) as int) =~= port_range(lo, hi).subrange(0, (n - lo) as int).push(n));
                        }
                        if n == hi {
                            proof {
                                assert(port_range(lo, hi).subrange(0, (n - lo + 1) as int) =~= port_range(lo, hi));
                                assert(out@ =~= start + port_range(lo, hi));
                            }
                            break;
                        }
                        n = n + 1;
                    }
                } else {
                    proof {
                        assert(port_range(lo, hi) =~= Seq::<u16>::empty());
                        assert(start + Seq::<u16>::empty() =~= start);
                    }
                }
            },
            _ => {
                proof {
                    assert(old(out)@ + Seq::<u16>::empty() =~= old(out)@);
                }
            },
        }
    } else {
        match parse_unsigned_chars(cs.as_slice(), 65535) {
            Some(n) => {
                out.push(n as u16);
                proof {
                    assert(old(out)@.push(n as u16) =~= old(out)@ + seq![n as u16]);
                }
            },
            None => {
                proof {
                    assert(old(out)@ + Seq::<u16>::empty() =~= old(out)@);
                }
            },
        }
    }
}

/// Every port that the entries stand for, ranges expanded, in order.
pub fn expand_ports(ps: &Vec<String>) -> (r: Vec<u16>)
    ensures
        r@ == port_values(strs_view(ps@)),
{
    let mut out: Vec<u16> = Vec::new();
    let mut i: usize = 0;
    while i < ps.len()
        invariant
            0 <= i <= ps.len(),
            out@ == port_values(strs_view(ps@).subrange(0, i as int)),
        decreases ps.len() - i,
    {
        push_port_entry(ps[i].as_str(), &mut out);
        proof {
            let t = strs_view(ps@).subrange(0, i + 1);
            assert(t.drop_last() =~= strs_view(ps@).subrange(0, i as int));
            assert(t.last() == ps@[i as int]@);
        }
        i += 1;
    }
    proof {
        assert(strs_view(ps@).subrange(0, i as int) =~= strs_view(ps@));
    }
    out
}

// ─── Conversion to sing-box ──────────────────────────────────────────

/// Member `key: [items]` when the list is not empty.
pub open spec fn list_member(key: Seq<char>, items: Seq<Seq<char>>) -> Seq<(Seq<char>, JVal)> {
    if items.len() > 0 { seq![(key, str_arr(items))] } else { Seq::empty() }
}

/// The matcher members of a rule in `route.rules`, in order.
pub open spec fn rule_matchers(r: RuleView) -> Seq<(Seq<char>, JVal)> {
    let ports = port_values(r.port);
    list_member("domain"@, r.domain)
        + list_member("domain_suffix"@, r.domain_suffix)
        + list_member("domain_keyword"@, r.domain_keyword)
        + list_member("geosite"@, r.geosite)
        + list_member("geoip"@, r.geoip)
        + list_member("ip_cidr"@, r.ip_cidr)
        + (if ports.len() > 0 { seq![("port"@, num_arr(ports))] } else { Seq::empty() })
        + (match r.network { Some(n) => seq![("network"@, JVal::Str(n))], None => Seq::empty() })
        + list_member("process_name"@, r.process_name)
}

/// The `route.rules` entry of one rule: none for a disabled rule or one with
/// nothing to match, otherwise its matchers followed by its outbound.
pub open spec fn rule_entry(r: RuleView) -> Seq<JVal> {
    let ms = rule_matchers(r);
    if r.enabled && ms.len() > 0 {
        seq![JVal::Obj(ms.push(("outbound"@, JVal::Str(r.action.tag()))))]
    } else {
        Seq::empty()
    }
}

/// The sing-box entries of the enabled rules that match something, in order.
pub open spec fn rule_entries(rs: Seq<RuleView>) -> Seq<JVal>
    decreases rs.len(),
{
    if rs.len() == 0 {
        Seq::empty()
    } else {
        rule_entries(rs.drop_last()) + rule_entry(rs.last())
    }
}

/// `{ "protocol": "dns", "outbound": "dns-out" }`
pub open spec fn dns_out_rule() -> JVal {
    JVal::Obj(seq![("protocol"@, JVal::Str("dns"@)), ("outbound"@, JVal::Str("dns-out"@))])
}

/// `{ "clash_mode": mode, "outbound": outbound }`
pub open spec fn clash_mode_rule(mode: Seq<char>, outbound: Seq<char>) -> JVal {
    JVal::Obj(seq![("clash_mode"@, JVal::Str(mode)), ("outbound"@, JVal::Str(outbound))])
}

/// The whole `route.rules` array for a rule list: the DNS rule first, then one
/// entry per enabled rule with something to match, then the clash-mode overrides.
pub open spec fn singbox_rules(rs: Seq<RuleView>) -> Seq<JVal> {
    seq![dns_out_rule()] + rule_entries(rs) + seq![
        clash_mode_rule("direct"@, "direct"@),
        clash_mode_rule("global"@, "proxy"@),
    ]
}


/// Appends `key: [items]` when the list is not empty.
pub fn push_list_member(b: &mut ObjBuilder, key: &str, items: &Vec<String>)
    ensures
        final(b).view() == old(b).view() + list_member(key@, strs_view(items@)),
{
    if items.len() > 0 {
        b.push(key, string_array(items));
        proof {
            assert(old(b).view().push((key@, str_arr(strs_view(items@)))) =~= old(b).view() + list_member(key@, strs_view(items@)));
        }
    } else {
        proof {
            assert(old(b).view() + list_member(key@, strs_view(items@)) =~= old(b).view());
        }
    }
}

/// The `route.rules` entry of one rule, if it has one.
pub fn rule_to_singbox(r: &RouteRule) -> (res: Option<Json>)
    ensures
        match res {
            Some(j) => rule_entry(r@) == seq![j@],
            None => rule_entry(r@) == Seq::<JVal>::empty(),
        },
{
    let mut b = ObjBuilder::new();
    push_list_member(&mut b, "domain", &r.domain);
    push_list_member(&mut b, "domain_suffix", &r.domain_suffix);
    push_list_member(&mut b, "domain_keyword", &r.domain_keyword);
    push_list_member(&mut b, "geosite", &r.geosite);
    push_list_member(&mut b, "geoip", &r.geoip);
    push_list_member(&mut b, "ip_cidr", &r.ip_cidr);
    let ports = expand_ports(&r.port);
    let ghost before_ports = b.view();
    if ports.len() > 0 {
        b.push("port", port_array(&ports));
    }
    let ghost before_net = b.view();
    match &r.network {
        Some(n) => {
            b.push("network", Json::Str(n.clone()));
        },
        None => {},
    }
    let ghost before_proc = b.view();
    push_list_member(&mut b, "process_name", &r.process_name);
    proof {
        let pv = port_values(r@.port);
        assert(before_net =~= before_ports + (if pv.len() > 0 { seq![("port"@, num_arr(pv))] } else { Seq::empty() }));
        assert(before_proc =~= before_net + (match r@.network { Some(n) => seq![("network"@, JVal::Str(n))], None => Seq::empty() }));
        assert(b.view() =~= rule_matchers(r@));
    }
    if !r.enabled || b.len() == 0 {
        return None;
    }
    b.push("outbound", Json::Str(r.action.to_string()));
    Some(b.build())
}

/// Converts a rule list into the sing-box `route.rules` array.
pub fn rules_to_singbox(rules: &Vec<RouteRule>) -> (r: Vec<Json>)
    ensures
        jview_seq(r@) == singbox_rules(rules_view(rules@)),
{
    let mut out: Vec<Json> = Vec::new();
    let dns = Json::Obj(vec![
        ("protocol".to_string(), Json::string("dns")),
        ("outbound".to_string(), Json::string("dns-out")),
    ]);
    proof {
        lemma_jview_members(dns->Obj_0@);
        assert(jview_members(dns->Obj_0@) =~= seq![("protocol"@, JVal::Str("dns"@)), ("outbound"@, JVal::Str("dns-out"@))]);
        lemma_jview_seq_push(out@, dns);
    }
    out.push(dns);
    let ghost head = jview_seq(out@);
    proof {
        assert(head =~= seq![dns_out_rule()]);
        assert(rules_view(rules@).subrange(0, 0) =~= Seq::<RuleView>::empty());
        assert(head + rule_entries(Seq::<RuleView>::empty()) =~= head);
    }
    let mut i: usize = 0;
    while i < rules.len()
        invariant
            0 <= i <= rules.len(),
            head == seq![dns_out_rule()],
            jview_seq(out@) == head + rule_entries(rules_view(rules@).subrange(0, i as int)),
        decreases rules.len() - i,
    {
        let e = rule_to_singbox(&rules[i]);
        proof {
            let t = rules_view(rules@).subrange(0, i + 1);
            assert(t.drop_last() =~= rules_view(rules@).subrange(0, i as int));
            assert(t.last() == rules@[i as int]@);
        }
        match e {
            Some(j) => {
                proof {
                    lemma_jview_seq_push(out@, j);
                    assert(head + rule_entries(rules_view(rules@).subrange(0, i as int)) + seq![j@] =~= (head + rule_entries(rules_view(rules@).subrange(0, i as int))).push(j@));
                }
                out.push(j);
            },
            None => {
                proof {
                    assert(rule_entries(rules_view(rules@).subrange(0, i as int)) + Seq::<JVal>::empty() =~= rule_entries(rules_view(rules@).subrange(0, i as int)));
                }
            },
        }
        proof {
            assert(head + rule_entries(rules_view(rules@).subrange(0, i + 1)) =~= head + rule_entries(rules_view(rules@).subrange(0, i as int)) + rule_entry(rules@[i as int]@));
        }
        i += 1;
    }
    let ghost mid = jview_seq(out@);
    let d = Json::Obj(vec![
        ("clash_mode".to_string(), Json::string("direct")),
        ("outbound".to_string(), Json::string("direct")),
    ]);
    let g = Json::Obj(vec![
        ("clash_mode".to_string(), Json::string("global")),
        ("outbound".to_string(), Json::string("proxy")),
    ]);
    proof {
        lemma_jview_members(d->Obj_0@);
        lemma_jview_members(g->Obj_0@);
        assert(jview_members(d->Obj_0@) =~= seq![("clash_mode"@, JVal::Str("direct"@)), ("outbound"@, JVal::Str("direct"@))]);
        assert(jview_members(g->Obj_0@) =~= seq![("clash_mode"@, JVal::Str("global"@)), ("outbound"@, JVal::Str("proxy"@))]);
        lemma_jview_seq_push(out@, d);
        lemma_jview_seq_push(out@.push(d), g);
        assert(rules_view(rules@).subrange(0, i as int) =~= rules_view(rules@));
    }
    out.push(d);
    out.push(g);
    proof {
        assert(jview_seq(out@) =~= singbox_rules(rules_view(rules@)));
    }
    out
}


// ─── Presets ──────────────────────────────────────────────────────────

/// A built-in rule with the given matchers and a fresh random id.
fn preset(
    name: &str,
    action: RuleAction,
    domain: Vec<&str>,
    domain_suffix: Vec<&str>,
    domain_keyword: Vec<&str>,
    geosite: Vec<&str>,
    geoip: Vec<&str>,
    ip_cidr: Vec<&str>,
    port: Vec<&str>,
) -> (r: RouteRule)
    ensures
        r@.same_but_id(RuleView {
            domain: domain@.map_values(|s: &str| s@),
            domain_suffix: domain_suffix@.map_values(|s: &str| s@),
            domain_keyword: domain_keyword@.map_values(|s: &str| s@),
            geosite: geosite@.map_values(|s: &str| s@),
            geoip: geoip@.map_values(|s: &str| s@),
            ip_cidr: ip_cidr@.map_values(|s: &str| s@),
            port: port@.map_values(|s: &str| s@),
            ..RuleView::empty(name@, action)
        }),
        r@.id.len() == 36,
{
    let mut r = RouteRule::new_empty(name, action);
    r.domain = strings(domain);
    r.domain_suffix = strings(domain_suffix);
    r.domain_keyword = strings(domain_keyword);
    r.geosite = strings(geosite);
    r.geoip = strings(geoip);
    r.ip_cidr = strings(ip_cidr);
    r.port = strings(port);
    r
}

/// The built-in rules, ids aside, in order.
pub open spec fn preset_table() -> Seq<RuleView> {
    seq![
        RuleView {
            id: Seq::empty(),
            name: "DNS 流量"@,
            enabled: true,
            action: RuleAction::Dns,
            domain: seq![],
            domain_suffix: seq![],
            domain_keyword: seq![],
            geosite: seq![],
            geoip: seq![],
            ip_cidr: seq![],
            port: seq!["53"@],
            network: None,
            process_name: Seq::empty(),
        },
        RuleView {
            id: Seq::empty(),
            name: "拦截广告"@,
            enabled: true,
            action: RuleAction::Block,
            domain: seq![],
            domain_suffix: seq![],
            domain_keyword: seq![],
            geosite: seq!["category-ads-all"@],
            geoip: seq![],
            ip_cidr: seq![],
            port: seq![],
            network: None,
            process_name: Seq::empty(),
        },
        RuleView {
            id: Seq::empty(),
            name: "私有地址直连"@,
            enabled: true,
            action: RuleAction::Direct,
            domain: seq![],
            domain_suffix: seq![],
            domain_keyword: seq![],
            geosite: seq![],
            geoip: seq!["private"@],
            ip_cidr: seq!["127.0.0.0/8"@, "10.0.0.0/8"@, "172.16.0.0/12"@, "192.168.0.0/16"@, "169.254.0.0/16"@, "::1/128"@, "fc00::/7"@],
            port: seq![],
            network: None,
            process_name: Seq::empty(),
        },
        RuleView {
            id: Seq::empty(),
            name: "Telegram"@,
            enabled: true,
            action: RuleAction::Proxy,
            domain: seq![],
            domain_suffix: seq![],
            domain_keyword: seq![],
            geosite: seq!["telegram"@],
            geoip: seq!["telegram"@],
            ip_cidr: seq![],
            port: seq![],
            network: None,
            process_name: Seq::empty(),
        },
        RuleView {
            id: Seq::empty(),
            name: "AI 服务"@,
            enabled: true,
            action: RuleAction::Proxy,
            domain: seq![],
            domain_suffix: seq!["openai.com"@, "oaistatic.com"@, "oaiusercontent.com"@, "chatgpt.com"@, "anthropic.com"@, "perplexity.ai"@, "gemini.google.com"@],
            domain_keyword: seq!["openai"@],
            geosite: seq![],
            geoip: seq![],
            ip_cidr: seq![],
            port: seq![],
            network: None,
            process_name: Seq::empty(),
        },
        RuleView {
            id: Seq::empty(),
            name: "YouTube"@,
            enabled: true,
            action: RuleAction::Proxy,
            domain: seq![],
            domain_suffix: seq![],
            domain_keyword: seq![],
            geosite: seq!["youtube"@],
            geoip: seq![],
            ip_cidr: seq![],
            port: seq![],
            network: None,
            process_name: Seq::empty(),
        },
        RuleView {
            id: Seq::empty(),
            name: "Google"@,
            enabled: true,
            action: RuleAction::Proxy,
            domain: seq![],
            domain_suffix: seq![],
            domain_keyword: seq![],
            geosite: seq!["google"@],
            geoip: seq!["google"@],
            ip_cidr: seq![],
            port: seq![],
            network: None,
            process_name: Seq::empty(),
        },
        RuleView {
            id: Seq::empty(),
            name: "GitHub"@,
            enabled: true,
            action: RuleAction::Proxy,
            domain: seq![],
            domain_suffix: seq![],
            domain_keyword: seq![],
            geosite: seq!["github"@, "githubusercontent"@],
            geoip: seq![],
            ip_cidr: seq![],
            port: seq![],
            network: None,
            process_name: Seq::empty(),
        },
        RuleView {
            id: Seq::empty(),
            name: "Twitter / X"@,
            enabled: true,
            action: RuleAction::Proxy,
            domain: seq![],
            domain_suffix: seq![],
            domain_keyword: seq![],
            geosite: seq!["twitter"@],
            geoip: seq!["twitter"@],
            ip_cidr: seq![],
            port: seq![],
            network: None,
            process_name: Seq::empty(),
        },
        RuleView {
            id: Seq::empty(),
            name: "Meta (Facebook / Instagram)"@,
            enabled: true,
            action: RuleAction::Proxy,
            domain: seq![],
            domain_suffix: seq![],
            domain_keyword: seq![],
            geosite: seq!["facebook"@, "instagram"@],
            geoip: seq!["facebook"@],
            ip_cidr: seq![],
            port: seq![],
            network: None,
            process_name: Seq::empty(),
        },
        RuleView {
            id: Seq::empty(),
            name: "TikTok"@,
            enabled: true,
            action: RuleAction::Proxy,
            domain: seq![],
            domain_suffix: seq![],
            domain_keyword: seq![],
            geosite: seq!["tiktok"@],
            geoip: seq![],
            ip_cidr: seq![],
            port: seq![],
            network: None,
            process_name: Seq::empty(),
        },
        RuleView {
            id: Seq::empty(),
            name: "Netflix"@,
            enabled: true,
            action: RuleAction::Proxy,
            domain: seq![],
            domain_suffix: seq!["netflix.com"@, "netflix.net"@, "nflximg.net"@],
            domain_keyword: seq![],
            geosite: seq!["netflix"@],
            geoip: seq![],
            ip_cidr: seq![],
            port: seq![],
            network: None,
            process_name: Seq::empty(),
        },
        RuleView {
            id: Seq::empty(),
            name: "国际流媒体"@,
            enabled: true,
            action: RuleAction::Proxy,
            domain: seq![],
            domain_suffix: seq!["disneyplus.com"@, "hulu.com"@, "hbomax.com"@, "max.com"@, "primevideo.com"@, "spotify.com"@, "twitch.tv"@],
            domain_keyword: seq![],
            geosite: seq!["disney"@, "hbo"@],
            geoip: seq![],
            ip_cidr: seq![],
            port: seq![],
            network: None,
            process_name: Seq::empty(),
        },
        RuleView {
            id: Seq::empty(),
            name: "Steam 游戏"@,
            enabled: true,
            action: RuleAction::Proxy,
            domain: seq![],
            domain_suffix: seq!["steampowered.com"@, "steamcommunity.com"@, "steamstatic.com"@, "steamcdn-a.akamaihd.net"@],
            domain_keyword: seq![],
            geosite: seq!["steam"@],
            geoip: seq![],
            ip_cidr: seq![],
            port: seq![],
            network: None,
            process_name: Seq::empty(),
        },
        RuleView {
            id: Seq::empty(),
            name: "Speedtest"@,
            enabled: true,
            action: RuleAction::Proxy,
            domain: seq![],
            domain_suffix: seq!["speedtest.net"@, "fast.com"@],
            domain_keyword: seq![],
            geosite: seq![],
            geoip: seq![],
            ip_cidr: seq![],
            port: seq![],
            network: None,
            process_name: Seq::empty(),
        },
        RuleView {
            id: Seq::empty(),
            name: "苹果服务直连"@,
            enabled: true,
            action: RuleAction::Direct,
            domain: seq![],
            domain_suffix: seq![],
            domain_keyword: seq![],
            geosite: seq!["apple"@],
            geoip: seq![],
            ip_cidr: seq![],
            port: seq![],
            network: None,
            process_name: Seq::empty(),
        },
        RuleView {
            id: Seq::empty(),
            name: "微软服务直连"@,
            enabled: true,
            action: RuleAction::Direct,
            domain: seq![],
            domain_suffix: seq![],
            domain_keyword: seq![],
            geosite: seq!["microsoft"@],
            geoip: seq![],
            ip_cidr: seq![],
            port: seq![],
            network: None,
            process_name: Seq::empty(),
        },
        RuleView {
            id: Seq::empty(),
            name: "哔哩哔哩"@,
            enabled: true,
            action: RuleAction::Direct,
            domain: seq![],
            domain_suffix: seq![],
            domain_keyword: seq![],
            geosite: seq!["bilibili"@],
            geoip: seq![],
            ip_cidr: seq![],
            port: seq![],
            network: None,
            process_name: Seq::empty(),
        },
        RuleView {
            id: Seq::empty(),
            name: "国内流媒体直连"@,
            enabled: true,
            action: RuleAction::Direct,
            domain: seq![],
            domain_suffix: seq!["iqiyi.com"@, "iq.com"@, "youku.com"@, "mgtv.com"@, "migu.cn"@, "douyu.com"@, "huya.com"@],
            domain_keyword: seq![],
            geosite: seq![],
            geoip: seq![],
            ip_cidr: seq![],
            port: seq![],
            network: None,
            process_name: Seq::empty(),
        },
        RuleView {
            id: Seq::empty(),
            name: "百度系直连"@,
            enabled: true,
            action: RuleAction::Direct,
            domain: seq![],
            domain_suffix: seq![],
            domain_keyword: seq![],
            geosite: seq!["baidu"@],
            geoip: seq![],
            ip_cidr: seq![],
            port: seq![],
            network: None,
            process_name: Seq::empty(),
        },
        RuleView {
            id: Seq::empty(),
            name: "腾讯服务直连"@,
            enabled: true,
            action: RuleAction::Direct,
            domain: seq![],
            domain_suffix: seq!["qq.com"@, "weixin.qq.com"@, "wx.qq.com"@, "tencent.com"@, "qcloud.com"@],
            domain_keyword: seq![],
            geosite: seq![],
            geoip: seq![],
            ip_cidr: seq![],
            port: seq![],
            network: None,
            process_name: Seq::empty(),
        },
        RuleView {
            id: Seq::empty(),
            name: "阿里系直连"@,
            enabled: true,
            action: RuleAction::Direct,
            domain: seq![],
            domain_suffix: seq!["alibaba.com"@, "aliyun.com"@, "taobao.com"@, "tmall.com"@, "alipay.com"@, "alicdn.com"@],
            domain_keyword: seq![],
            geosite: seq![],
            geoip: seq![],
            ip_cidr: seq![],
            port: seq![],
            network: None,
            process_name: Seq::empty(),
        },
        RuleView {
            id: Seq::empty(),
            name: "字节跳动直连"@,
            enabled: true,
            action: RuleAction::Direct,
            domain: seq![],
            domain_suffix: seq!["bytedance.com"@, "toutiao.com"@, "douyin.com"@, "feishu.cn"@, "feishu.com"@],
            domain_keyword: seq![],
            geosite: seq![],
            geoip: seq![],
            ip_cidr: seq![],
            port: seq![],
            network: None,
            process_name: Seq::empty(),
        },
        RuleView {
            id: Seq::empty(),
            name: "中国大陆直连"@,
            enabled: true,
            action: RuleAction::Direct,
            domain: seq![],
            domain_suffix: seq![],
            domain_keyword: seq![],
            geosite: seq!["cn"@],
            geoip: seq!["cn"@],
            ip_cidr: seq![],
            port: seq![],
            network: None,
            process_name: Seq::empty(),
        },
    ]
}

/// The built-in rules, each with a fresh random id.
#[verifier::rlimit(50)]
pub fn preset_rules() -> (r: Vec<RouteRule>)
    ensures
        r@.len() == preset_table().len(),
        forall|i: int| 0 <= i < r@.len() ==> #[trigger] r@[i]@.same_but_id(preset_table()[i]) && r@[i]@.id.len() == 36,
{
    let mut v: Vec<RouteRule> = Vec::new();
    {
        let f0: Vec<&str> = vec![];
        let f1: Vec<&str> = vec![];
        let f2: Vec<&str> = vec![];
        let f3: Vec<&str> = vec![];
        let f4: Vec<&str> = vec![];
        let f5: Vec<&str> = vec![];
        let f6: Vec<&str> = vec!["53"];
        proof {
            assert(f0@.map_values(|s: &str| s@) =~= seq![]);
            assert(f1@.map_values(|s: &str| s@) =~= seq![]);
            assert(f2@.map_values(|s: &str| s@) =~= seq![]);
            assert(f3@.map_values(|s: &str| s@) =~= seq![]);
            assert(f4@.map_values(|s: &str| s@) =~= seq![]);
            assert(f5@.map_values(|s: &str| s@) =~= seq![]);
            assert(f6@.map_values(|s: &str| s@) =~= seq!["53"@]);
        }
        let r = preset("DNS 流量", RuleAction::Dns, f0, f1, f2, f3, f4, f5, f6);
        assert(r@.same_but_id(preset_table()[0]));
        v.push(r);
    }
    {
        let f0: Vec<&str> = vec![];
        let f1: Vec<&str> = vec![];
        let f2: Vec<&str> = vec![];
        let f3: Vec<&str> = vec!["category-ads-all"];
        let f4: Vec<&str> = vec![];
        let f5: Vec<&str> = vec![];
        let f6: Vec<&str> = vec![];
        proof {
            assert(f0@.map_values(|s: &str| s@) =~= seq![]);
            assert(f1@.map_values(|s: &str| s@) =~= seq![]);
            assert(f2@.map_values(|s: &str| s@) =~= seq![]);
            assert(f3@.map_values(|s: &str| s@) =~= seq!["category-ads-all"@]);
            assert(f4@.map_values(|s: &str| s@) =~= seq![]);
            assert(f5@.map_values(|s: &str| s@) =~= seq![]);
            assert(f6@.map_values(|s: &str| s@) =~= seq![]);
        }
        let r = preset("拦截广告", RuleAction::Block, f0, f1, f2, f3, f4, f5, f6);
        assert(r@.same_but_id(preset_table()[1]));
        v.push(r);
    }
    {
        let f0: Vec<&str> = vec![];
        let f1: Vec<&str> = vec![];
        let f2: Vec<&str> = vec![];
        let f3: Vec<&str> = vec![];
        let f4: Vec<&str> = vec!["private"];
        let f5: Vec<&str> = vec!["127.0.0.0/8", "10.0.0.0/8", "172.16.0.0/12", "192.168.0.0/16", "169.254.0.0/16", "::1/128", "fc00::/7"];
        let f6: Vec<&str> = vec![];
        proof {
            assert(f0@.map_values(|s: &str| s@) =~= seq![]);
            assert(f1@.map_values(|s: &str| s@) =~= seq![]);
            assert(f2@.map_values(|s: &str| s@) =~= seq![]);
            assert(f3@.map_values(|s: &str| s@) =~= seq![]);
            assert(f4@.map_values(|s: &str| s@) =~= seq!["private"@]);
            assert(f5@.map_values(|s: &str| s@) =~= seq!["127.0.0.0/8"@, "10.0.0.0/8"@, "172.16.0.0/12"@, "192.168.0.0/16"@, "169.254.0.0/16"@, "::1/128"@, "fc00::/7"@]);
            assert(f6@.map_values(|s: &str| s@) =~= seq![]);
        }
        let r = preset("私有地址直连", RuleAction::Direct, f0, f1, f2, f3, f4, f5, f6);
        assert(r@.same_but_id(preset_table()[2]));
        v.push(r);
    }
    {
        let f0: Vec<&str> = vec![];
        let f1: Vec<&str> = vec![];
        let f2: Vec<&str> = vec![];
        let f3: Vec<&str> = vec!["telegram"];
        let f4: Vec<&str> = vec!["telegram"];
        let f5: Vec<&str> = vec![];
        let f6: Vec<&str> = vec![];
        proof {
            assert(f0@.map_values(|s: &str| s@) =~= seq![]);
            assert(f1@.map_values(|s: &str| s@) =~= seq![]);
            assert(f2@.map_values(|s: &str| s@) =~= seq![]);
            assert(f3@.map_values(|s: &str| s@) =~= seq!["telegram"@]);
            assert(f4@.map_values(|s: &str| s@) =~= seq!["telegram"@]);
            assert(f5@.map_values(|s: &str| s@) =~= seq![]);
            assert(f6@.map_values(|s: &str| s@) =~= seq![]);
        }
        let r = preset("Telegram", RuleAction::Proxy, f0, f1, f2, f3, f4, f5, f6);
        assert(r@.same_but_id(preset_table()[3]));
        v.push(r);
    }
    {
        let f0: Vec<&str> = vec![];
        let f1: Vec<&str> = vec!["openai.com", "oaistatic.com", "oaiusercontent.com", "chatgpt.com", "anthropic.com", "perplexity.ai", "gemini.google.com"];
        let f2: Vec<&str> = vec!["openai"];
        let f3: Vec<&str> = vec![];
        let f4: Vec<&str> = vec![];
        let f5: Vec<&str> = vec![];
        let f6: Vec<&str> = vec![];
        proof {
            assert(f0@.map_values(|s: &str| s@) =~= seq![]);
            assert(f1@.map_values(|s: &str| s@) =~= seq!["openai.com"@, "oaistatic.com"@, "oaiusercontent.com"@, "chatgpt.com"@, "anthropic.com"@, "perplexity.ai"@, "gemini.google.com"@]);
            assert(f2@.map_values(|s: &str| s@) =~= seq!["openai"@]);
            assert(f3@.map_values(|s: &str| s@) =~= seq![]);
            assert(f4@.map_values(|s: &str| s@) =~= seq![]);
            assert(f5@.map_values(|s: &str| s@) =~= seq![]);
            assert(f6@.map_values(|s: &str| s@) =~= seq![]);
        }
        let r = preset("AI 服务", RuleAction::Proxy, f0, f1, f2, f3, f4, f5, f6);
        assert(r@.same_but_id(preset_table()[4]));
        v.push(r);
    }
    {
        let f0: Vec<&str> = vec![];
        let f1: Vec<&str> = vec![];
        let f2: Vec<&str> = vec![];
        let f3: Vec<&str> = vec!["youtube"];
        let f4: Vec<&str> = vec![];
        let f5: Vec<&str> = vec![];
        let f6: Vec<&str> = vec![];
        proof {
            assert(f0@.map_values(|s: &str| s@) =~= seq![]);
            assert(f1@.map_values(|s: &str| s@) =~= seq![]);
            assert(f2@.map_values(|s: &str| s@) =~= seq![]);
            assert(f3@.map_values(|s: &str| s@) =~= seq!["youtube"@]);
            assert(f4@.map_values(|s: &str| s@) =~= seq![]);
            assert(f5@.map_values(|s: &str| s@) =~= seq![]);
            assert(f6@.map_values(|s: &str| s@) =~= seq![]);
        }
        let r = preset("YouTube", RuleAction::Proxy, f0, f1, f2, f3, f4, f5, f6);
        assert(r@.same_but_id(preset_table()[5]));
        v.push(r);
    }
    {
        let f0: Vec<&str> = vec![];
        let f1: Vec<&str> = vec![];
        let f2: Vec<&str> = vec![];
        let f3: Vec<&str> = vec!["google"];
        let f4: Vec<&str> = vec!["google"];
        let f5: Vec<&str> = vec![];
        let f6: Vec<&str> = vec![];
        proof {
            assert(f0@.map_values(|s: &str| s@) =~= seq![]);
            assert(f1@.map_values(|s: &str| s@) =~= seq![]);
            assert(f2@.map_values(|s: &str| s@) =~= seq![]);
            assert(f3@.map_values(|s: &str| s@) =~= seq!["google"@]);
            assert(f4@.map_values(|s: &str| s@) =~= seq!["google"@]);
            assert(f5@.map_values(|s: &str| s@) =~= seq![]);
            assert(f6@.map_values(|s: &str| s@) =~= seq![]);
        }
        let r = preset("Google", RuleAction::Proxy, f0, f1, f2, f3, f4, f5, f6);
        assert(r@.same_but_id(preset_table()[6]));
        v.push(r);
    }
    {
        let f0: Vec<&str> = vec![];
        let f1: Vec<&str> = vec![];
        let f2: Vec<&str> = vec![];
        let f3: Vec<&str> = vec!["github", "githubusercontent"];
        let f4: Vec<&str> = vec![];
        let f5: Vec<&str> = vec![];
        let f6: Vec<&str> = vec![];
        proof {
            assert(f0@.map_values(|s: &str| s@) =~= seq![]);
            assert(f1@.map_values(|s: &str| s@) =~= seq![]);
            assert(f2@.map_values(|s: &str| s@) =~= seq![]);
            assert(f3@.map_values(|s: &str| s@) =~= seq!["github"@, "githubusercontent"@]);
            assert(f4@.map_values(|s: &str| s@) =~= seq![]);
            assert(f5@.map_values(|s: &str| s@) =~= seq![]);
            assert(f6@.map_values(|s: &str| s@) =~= seq![]);
        }
        let r = preset("GitHub", RuleAction::Proxy, f0, f1, f2, f3, f4, f5, f6);
        assert(r@.same_but_id(preset_table()[7]));
        v.push(r);
    }
    {
        let f0: Vec<&str> = vec![];
        let f1: Vec<&str> = vec![];
        let f2: Vec<&str> = vec![];
        let f3: Vec<&str> = vec!["twitter"];
        let f4: Vec<&str> = vec!["twitter"];
        let f5: Vec<&str> = vec![];
        let f6: Vec<&str> = vec![];
        proof {
            assert(f0@.map_values(|s: &str| s@) =~= seq![]);
            assert(f1@.map_values(|s: &str| s@) =~= seq![]);
            assert(f2@.map_values(|s: &str| s@) =~= seq![]);
            assert(f3@.map_values(|s: &str| s@) =~= seq!["twitter"@]);
            assert(f4@.map_values(|s: &str| s@) =~= seq!["twitter"@]);
            assert(f5@.map_values(|s: &str| s@) =~= seq![]);
            assert(f6@.map_values(|s: &str| s@) =~= seq![]);
        }
        let r = preset("Twitter / X", RuleAction::Proxy, f0, f1, f2, f3, f4, f5, f6);
        assert(r@.same_but_id(preset_table()[8]));
        v.push(r);
    }
    {
        let f0: Vec<&str> = vec![];
        let f1: Vec<&str> = vec![];
        let f2: Vec<&str> = vec![];
        let f3: Vec<&str> = vec!["facebook", "instagram"];
        let f4: Vec<&str> = vec!["facebook"];
        let f5: Vec<&str> = vec![];
        let f6: Vec<&str> = vec![];
        proof {
            assert(f0@.map_values(|s: &str| s@) =~= seq![]);
            assert(f1@.map_values(|s: &str| s@) =~= seq![]);
            assert(f2@.map_values(|s: &str| s@) =~= seq![]);
            assert(f3@.map_values(|s: &str| s@) =~= seq!["facebook"@, "instagram"@]);
            assert(f4@.map_values(|s: &str| s@) =~= seq!["facebook"@]);
            assert(f5@.map_values(|s: &str| s@) =~= seq![]);
            assert(f6@.map_values(|s: &str| s@) =~= seq![]);
        }
        let r = preset("Meta (Facebook / Instagram)", RuleAction::Proxy, f0, f1, f2, f3, f4, f5, f6);
        assert(r@.same_but_id(preset_table()[9]));
        v.push(r);
    }
    {
        let f0: Vec<&str> = vec![];
        let f1: Vec<&str> = vec![];
        let f2: Vec<&str> = vec![];
        let f3: Vec<&str> = vec!["tiktok"];
        let f4: Vec<&str> = vec![];
        let f5: Vec<&str> = vec![];
        let f6: Vec<&str> = vec![];
        proof {
            assert(f0@.map_values(|s: &str| s@) =~= seq![]);
            assert(f1@.map_values(|s: &str| s@) =~= seq![]);
            assert(f2@.map_values(|s: &str| s@) =~= seq![]);
            assert(f3@.map_values(|s: &str| s@) =~= seq!["tiktok"@]);
            assert(f4@.map_values(|s: &str| s@) =~= seq![]);
            assert(f5@.map_values(|s: &str| s@) =~= seq![]);
            assert(f6@.map_values(|s: &str| s@) =~= seq![]);
        }
        let r = preset("TikTok", RuleAction::Proxy, f0, f1, f2, f3, f4, f5, f6);
        assert(r@.same_but_id(preset_table()[10]));
        v.push(r);
    }
    {
        let f0: Vec<&str> = vec![];
        let f1: Vec<&str> = vec!["netflix.com", "netflix.net", "nflximg.net"];
        let f2: Vec<&str> = vec![];
        let f3: Vec<&str> = vec!["netflix"];
        let f4: Vec<&str> = vec![];
        let f5: Vec<&str> = vec![];
        let f6: Vec<&str> = vec![];
        proof {
            assert(f0@.map_values(|s: &str| s@) =~= seq![]);
            assert(f1@.map_values(|s: &str| s@) =~= seq!["netflix.com"@, "netflix.net"@, "nflximg.net"@]);
            assert(f2@.map_values(|s: &str| s@) =~= seq![]);
            assert(f3@.map_values(|s: &str| s@) =~= seq!["netflix"@]);
            assert(f4@.map_values(|s: &str| s@) =~= seq![]);
            assert(f5@.map_values(|s: &str| s@) =~= seq![]);
            assert(f6@.map_values(|s: &str| s@) =~= seq![]);
        }
        let r = preset("Netflix", RuleAction::Proxy, f0, f1, f2, f3, f4, f5, f6);
        assert(r@.same_but_id(preset_table()[11]));
        v.push(r);
    }
    {
        let f0: Vec<&str> = vec![];
        let f1: Vec<&str> = vec!["disneyplus.com", "hulu.com", "hbomax.com", "max.com", "primevideo.com", "spotify.com", "twitch.tv"];
        let f2: Vec<&str> = vec![];
        let f3: Vec<&str> = vec!["disney", "hbo"];
        let f4: Vec<&str> = vec![];
        let f5: Vec<&str> = vec![];
        let f6: Vec<&str> = vec![];
        proof {
            assert(f0@.map_values(|s: &str| s@) =~= seq![]);
            assert(f1@.map_values(|s: &str| s@) =~= seq!["disneyplus.com"@, "hulu.com"@, "hbomax.com"@, "max.com"@, "primevideo.com"@, "spotify.com"@, "twitch.tv"@]);
            assert(f2@.map_values(|s: &str| s@) =~= seq![]);
            assert(f3@.map_values(|s: &str| s@) =~= seq!["disney"@, "hbo"@]);
            assert(f4@.map_values(|s: &str| s@) =~= seq![]);
            assert(f5@.map_values(|s: &str| s@) =~= seq![]);
            assert(f6@.map_values(|s: &str| s@) =~= seq![]);
        }
        let r = preset("国际流媒体", RuleAction::Proxy, f0, f1, f2, f3, f4, f5, f6);
        assert(r@.same_but_id(preset_table()[12]));
        v.push(r);
    }
    {
        let f0: Vec<&str> = vec![];
        let f1: Vec<&str> = vec!["steampowered.com", "steamcommunity.com", "steamstatic.com", "steamcdn-a.akamaihd.net"];
        let f2: Vec<&str> = vec![];
        let f3: Vec<&str> = vec!["steam"];
        let f4: Vec<&str> = vec![];
        let f5: Vec<&str> = vec![];
        let f6: Vec<&str> = vec![];
        proof {
            assert(f0@.map_values(|s: &str| s@) =~= seq![]);
            assert(f1@.map_values(|s: &str| s@) =~= seq!["steampowered.com"@, "steamcommunity.com"@, "steamstatic.com"@, "steamcdn-a.akamaihd.net"@]);
            assert(f2@.map_values(|s: &str| s@) =~= seq![]);
            assert(f3@.map_values(|s: &str| s@) =~= seq!["steam"@]);
            assert(f4@.map_values(|s: &str| s@) =~= seq![]);
            assert(f5@.map_values(|s: &str| s@) =~= seq![]);
            assert(f6@.map_values(|s: &str| s@) =~= seq![]);
        }
        let r = preset("Steam 游戏", RuleAction::Proxy, f0, f1, f2, f3, f4, f5, f6);
        assert(r@.same_but_id(preset_table()[13]));
        v.push(r);
    }
    {
        let f0: Vec<&str> = vec![];
        let f1: Vec<&str> = vec!["speedtest.net", "fast.com"];
        let f2: Vec<&str> = vec![];
        let f3: Vec<&str> = vec![];
        let f4: Vec<&str> = vec![];
        let f5: Vec<&str> = vec![];
        let f6: Vec<&str> = vec![];
        proof {
            assert(f0@.map_values(|s: &str| s@) =~= seq![]);
            assert(f1@.map_values(|s: &str| s@) =~= seq!["speedtest.net"@, "fast.com"@]);
            assert(f2@.map_values(|s: &str| s@) =~= seq![]);
            assert(f3@.map_values(|s: &str| s@) =~= seq![]);
            assert(f4@.map_values(|s: &str| s@) =~= seq![]);
            assert(f5@.map_values(|s: &str| s@) =~= seq![]);
            assert(f6@.map_values(|s: &str| s@) =~= seq![]);
        }
        let r = preset("Speedtest", RuleAction::Proxy, f0, f1, f2, f3, f4, f5, f6);
        assert(r@.same_but_id(preset_table()[14]));
        v.push(r);
    }
    {
        let f0: Vec<&str> = vec![];
        let f1: Vec<&str> = vec![];
        let f2: Vec<&str> = vec![];
        let f3: Vec<&str> = vec!["apple"];
        let f4: Vec<&str> = vec![];
        let f5: Vec<&str> = vec![];
        let f6: Vec<&str> = vec![];
        proof {
            assert(f0@.map_values(|s: &str| s@) =~= seq![]);
            assert(f1@.map_values(|s: &str| s@) =~= seq![]);
            assert(f2@.map_values(|s: &str| s@) =~= seq![]);
            assert(f3@.map_values(|s: &str| s@) =~= seq!["apple"@]);
            assert(f4@.map_values(|s: &str| s@) =~= seq![]);
            assert(f5@.map_values(|s: &str| s@) =~= seq![]);
            assert(f6@.map_values(|s: &str| s@) =~= seq![]);
        }
        let r = preset("苹果服务直连", RuleAction::Direct, f0, f1, f2, f3, f4, f5, f6);
        assert(r@.same_but_id(preset_table()[15]));
        v.push(r);
    }
    {
        let f0: Vec<&str> = vec![];
        let f1: Vec<&str> = vec![];
        let f2: Vec<&str> = vec![];
        let f3: Vec<&str> = vec!["microsoft"];
        let f4: Vec<&str> = vec![];
        let f5: Vec<&str> = vec![];
        let f6: Vec<&str> = vec![];
        proof {
            assert(f0@.map_values(|s: &str| s@) =~= seq![]);
            assert(f1@.map_values(|s: &str| s@) =~= seq![]);
            assert(f2@.map_values(|s: &str| s@) =~= seq![]);
            assert(f3@.map_values(|s: &str| s@) =~= seq!["microsoft"@]);
            assert(f4@.map_values(|s: &str| s@) =~= seq![]);
            assert(f5@.map_values(|s: &str| s@) =~= seq![]);
            assert(f6@.map_values(|s: &str| s@) =~= seq![]);
        }
        let r = preset("微软服务直连", RuleAction::Direct, f0, f1, f2, f3, f4, f5, f6);
        assert(r@.same_but_id(preset_table()[16]));
        v.push(r);
    }
    {
        let f0: Vec<&str> = vec![];
        let f1: Vec<&str> = vec![];
        let f2: Vec<&str> = vec![];
        let f3: Vec<&str> = vec!["bilibili"];
        let f4: Vec<&str> = vec![];
        let f5: Vec<&str> = vec![];
        let f6: Vec<&str> = vec![];
        proof {
            assert(f0@.map_values(|s: &str| s@) =~= seq![]);
            assert(f1@.map_values(|s: &str| s@) =~= seq![]);
            assert(f2@.map_values(|s: &str| s@) =~= seq![]);
            assert(f3@.map_values(|s: &str| s@) =~= seq!["bilibili"@]);
            assert(f4@.map_values(|s: &str| s@) =~= seq![]);
            assert(f5@.map_values(|s: &str| s@) =~= seq![]);
            assert(f6@.map_values(|s: &str| s@) =~= seq![]);
        }
        let r = preset("哔哩哔哩", RuleAction::Direct, f0, f1, f2, f3, f4, f5, f6);
        assert(r@.same_but_id(preset_table()[17]));
        v.push(r);
    }
    {
        let f0: Vec<&str> = vec![];
        let f1: Vec<&str> = vec!["iqiyi.com", "iq.com", "youku.com", "mgtv.com", "migu.cn", "douyu.com", "huya.com"];
        let f2: Vec<&str> = vec![];
        let f3: Vec<&str> = vec![];
        let f4: Vec<&str> = vec![];
        let f5: Vec<&str> = vec![];
        let f6: Vec<&str> = vec![];
        proof {
            assert(f0@.map_values(|s: &str| s@) =~= seq![]);
            assert(f1@.map_values(|s: &str| s@) =~= seq!["iqiyi.com"@, "iq.com"@, "youku.com"@, "mgtv.com"@, "migu.cn"@, "douyu.com"@, "huya.com"@]);
            assert(f2@.map_values(|s: &str| s@) =~= seq![]);
            assert(f3@.map_values(|s: &str| s@) =~= seq![]);
            assert(f4@.map_values(|s: &str| s@) =~= seq![]);
            assert(f5@.map_values(|s: &str| s@) =~= seq![]);
            assert(f6@.map_values(|s: &str| s@) =~= seq![]);
        }
        let r = preset("国内流媒体直连", RuleAction::Direct, f0, f1, f2, f3, f4, f5, f6);
        assert(r@.same_but_id(preset_table()[18]));
        v.push(r);
    }
    {
        let f0: Vec<&str> = vec![];
        let f1: Vec<&str> = vec![];
        let f2: Vec<&str> = vec![];
        let f3: Vec<&str> = vec!["baidu"];
        let f4: Vec<&str> = vec![];
        let f5: Vec<&str> = vec![];
        let f6: Vec<&str> = vec![];
        proof {
            assert(f0@.map_values(|s: &str| s@) =~= seq![]);
            assert(f1@.map_values(|s: &str| s@) =~= seq![]);
            assert(f2@.map_values(|s: &str| s@) =~= seq![]);
            assert(f3@.map_values(|s: &str| s@) =~= seq!["baidu"@]);
            assert(f4@.map_values(|s: &str| s@) =~= seq![]);
            assert(f5@.map_values(|s: &str| s@) =~= seq![]);
            assert(f6@.map_values(|s: &str| s@) =~= seq![]);
        }
        let r = preset("百度系直连", RuleAction::Direct, f0, f1, f2, f3, f4, f5, f6);
        assert(r@.same_but_id(preset_table()[19]));
        v.push(r);
    }
    {
        let f0: Vec<&str> = vec![];
        let f1: Vec<&str> = vec!["qq.com", "weixin.qq.com", "wx.qq.com", "tencent.com", "qcloud.com"];
        let f2: Vec<&str> = vec![];
        let f3: Vec<&str> = vec![];
        let f4: Vec<&str> = vec![];
        let f5: Vec<&str> = vec![];
        let f6: Vec<&str> = vec![];
        proof {
            assert(f0@.map_values(|s: &str| s@) =~= seq![]);
            assert(f1@.map_values(|s: &str| s@) =~= seq!["qq.com"@, "weixin.qq.com"@, "wx.qq.com"@, "tencent.com"@, "qcloud.com"@]);
            assert(f2@.map_values(|s: &str| s@) =~= seq![]);
            assert(f3@.map_values(|s: &str| s@) =~= seq![]);
            assert(f4@.map_values(|s: &str| s@) =~= seq![]);
            assert(f5@.map_values(|s: &str| s@) =~= seq![]);
            assert(f6@.map_values(|s: &str| s@) =~= seq![]);
        }
        let r = preset("腾讯服务直连", RuleAction::Direct, f0, f1, f2, f3, f4, f5, f6);
        assert(r@.same_but_id(preset_table()[20]));
        v.push(r);
    }
    {
        let f0: Vec<&str> = vec![];
        let f1: Vec<&str> = vec!["alibaba.com", "aliyun.com", "taobao.com", "tmall.com", "alipay.com", "alicdn.com"];
        let f2: Vec<&str> = vec![];
        let f3: Vec<&str> = vec![];
        let f4: Vec<&str> = vec![];
        let f5: Vec<&str> = vec![];
        let f6: Vec<&str> = vec![];
        proof {
            assert(f0@.map_values(|s: &str| s@) =~= seq![]);
            assert(f1@.map_values(|s: &str| s@) =~= seq!["alibaba.com"@, "aliyun.com"@, "taobao.com"@, "tmall.com"@, "alipay.com"@, "alicdn.com"@]);
            assert(f2@.map_values(|s: &str| s@) =~= seq![]);
            assert(f3@.map_values(|s: &str| s@) =~= seq![]);
            assert(f4@.map_values(|s: &str| s@) =~= seq![]);
            assert(f5@.map_values(|s: &str| s@) =~= seq![]);
            assert(f6@.map_values(|s: &str| s@) =~= seq![]);
        }
        let r = preset("阿里系直连", RuleAction::Direct, f0, f1, f2, f3, f4, f5, f6);
        assert(r@.same_but_id(preset_table()[21]));
        v.push(r);
    }
    {
        let f0: Vec<&str> = vec![];
        let f1: Vec<&str> = vec!["bytedance.com", "toutiao.com", "douyin.com", "feishu.cn", "feishu.com"];
        let f2: Vec<&str> = vec![];
        let f3: Vec<&str> = vec![];
        let f4: Vec<&str> = vec![];
        let f5: Vec<&str> = vec![];
        let f6: Vec<&str> = vec![];
        proof {
            assert(f0@.map_values(|s: &str| s@) =~= seq![]);
            assert(f1@.map_values(|s: &str| s@) =~= seq!["bytedance.com"@, "toutiao.com"@, "douyin.com"@, "feishu.cn"@, "feishu.com"@]);
            assert(f2@.map_values(|s: &str| s@) =~= seq![]);
            assert(f3@.map_values(|s: &str| s@) =~= seq![]);
            assert(f4@.map_values(|s: &str| s@) =~= seq![]);
            assert(f5@.map_values(|s: &str| s@) =~= seq![]);
            assert(f6@.map_values(|s: &str| s@) =~= seq![]);
        }
        let r = preset("字节跳动直连", RuleAction::Direct, f0, f1, f2, f3, f4, f5, f6);
        assert(r@.same_but_id(preset_table()[22]));
        v.push(r);
    }
    {
        let f0: Vec<&str> = vec![];
        let f1: Vec<&str> = vec![];
        let f2: Vec<&str> = vec![];
        let f3: Vec<&str> = vec!["cn"];
        let f4: Vec<&str> = vec!["cn"];
        let f5: Vec<&str> = vec![];
        let f6: Vec<&str> = vec![];
        proof {
            assert(f0@.map_values(|s: &str| s@) =~= seq![]);
            assert(f1@.map_values(|s: &str| s@) =~= seq![]);
            assert(f2@.map_values(|s: &str| s@) =~= seq![]);
            assert(f3@.map_values(|s: &str| s@) =~= seq!["cn"@]);
            assert(f4@.map_values(|s: &str| s@) =~= seq!["cn"@]);
            assert(f5@.map_values(|s: &str| s@) =~= seq![]);
            assert(f6@.map_values(|s: &str| s@) =~= seq![]);
        }
        let r = preset("中国大陆直连", RuleAction::Direct, f0, f1, f2, f3, f4, f5, f6);
        assert(r@.same_but_id(preset_table()[23]));
        v.push(r);
    }
    proof {
        assert forall|i: int| 0 <= i < v@.len() implies #[trigger] v@[i]@.same_but_id(preset_table()[i]) && v@[i]@.id.len() == 36 by {}
    }
    v
}

// ─── Editing the rule list ────────────────────────────────────────────

/// Index of the first rule with id `id`, or the length.
pub open spec fn first_rule(rs: Seq<RuleView>, id: Seq<char>) -> int
    decreases rs.len(),
{
    if rs.len() == 0 {
        0
    } else if rs[0].id == id {
        0
    } else {
        1 + first_rule(rs.drop_first(), id)
    }
}

/// The position of the first rule with an id: within the list, holding the
/// id when it is not the end, and no earlier rule has the id.
pub proof fn lemma_first_rule(rs: Seq<RuleView>, id: Seq<char>)
    ensures
        0 <= first_rule(rs, id) <= rs.len(),
        first_rule(rs, id) < rs.len() ==> rs[first_rule(rs, id)].id == id,
        forall|k: int| 0 <= k < first_rule(rs, id) ==> rs[k].id != id,
    decreases rs.len(),
{
    if rs.len() > 0 && rs[0].id != id {
        lemma_first_rule(rs.drop_first(), id);
        assert forall|k: int| 0 <= k < first_rule(rs, id) implies rs[k].id != id by {
            if k > 0 {
                assert(rs[k] == rs.drop_first()[k - 1]);
            }
        }
    }
}

/// The rule list with the first rule of id `id` switched on or off.
pub open spec fn toggled(rs: Seq<RuleView>, id: Seq<char>) -> Seq<RuleView> {
    let k = first_rule(rs, id);
    if k < rs.len() {
        rs.update(k, RuleView { enabled: !rs[k].enabled, ..rs[k] })
    } else {
        rs
    }
}

/// The rules whose id is not `id`, in order.
pub open spec fn rules_without(rs: Seq<RuleView>, id: Seq<char>) -> Seq<RuleView>
    decreases rs.len(),
{
    if rs.len() == 0 {
        Seq::empty()
    } else {
        rules_without(rs.drop_last(), id) + if rs.last().id == id { Seq::empty() } else { seq![rs.last()] }
    }
}

/// Position of the first rule with id `id`.
fn find_rule(rules: &Vec<RouteRule>, id: &str) -> (r: usize)
    ensures
        r == first_rule(rules_view(rules@), id@),
        r <= rules@.len(),
{
    proof {
        lemma_first_rule(rules_view(rules@), id@);
    }
    let mut i: usize = 0;
    while i < rules.len()
        invariant
            0 <= i <= rules.len(),
            forall|k: int| 0 <= k < i ==> rules@[k].id@ != id@,
            0 <= first_rule(rules_view(rules@), id@) <= rules@.len(),
            first_rule(rules_view(rules@), id@) < rules@.len() ==> rules@[first_rule(rules_view(rules@), id@)].id@ == id@,
            forall|k: int| 0 <= k < first_rule(rules_view(rules@), id@) ==> rules_view(rules@)[k].id != id@,
        decreases rules.len() - i,
    {
        if crate::json::str_eq(rules[i].id.as_str(), id) {
            proof {
                let f = first_rule(rules_view(rules@), id@);
                if f < i {
                    assert(rules@[f].id@ == id@);
                }
                if f > i {
                    assert(rules_view(rules@)[i as int].id == id@);
                }
            }
            return i;
        }
        i += 1;
    }
    proof {
        let f = first_rule(rules_view(rules@), id@);
        if f < rules@.len() {
            assert(rules@[f].id@ == id@);
        }
    }
    i
}

/// Switches the first rule with id `id` on or off (nothing changes when
/// there is none).
pub fn toggle_rule(rules: &mut Vec<RouteRule>, id: &str)
    ensures
        rules_view(final(rules)@) == toggled(rules_view(old(rules)@), id@),
{
    let k = find_rule(rules, id);
    if k < rules.len() {
        let mut r = rules[k].copy();
        r.enabled = !r.enabled;
        let ghost rv = r@;
        let ghost before = rules@;
        rules.set(k, r);
        proof {
            assert(rules_view(rules@) =~= rules_view(before).update(k as int, rv));
        }
    }
}

/// Removes every rule with id `id`.
pub fn delete_rule(rules: &mut Vec<RouteRule>, id: &str)
    ensures
        rules_view(final(rules)@) == rules_without(rules_view(old(rules)@), id@),
{
    let mut kept: Vec<RouteRule> = Vec::new();
    let mut i: usize = 0;
    while i < rules.len()
        invariant
            0 <= i <= rules.len(),
            rules@ == old(rules)@,
            rules_view(kept@) == rules_without(rules_view(rules@).subrange(0, i as int), id@),
        decreases rules.len() - i,
    {
        proof {
            let t = rules_view(rules@).subrange(0, i + 1);
            assert(t.drop_last() =~= rules_view(rules@).subrange(0, i as int));
            assert(t.last() == rules@[i as int]@);
        }
        if !crate::json::str_eq(rules[i].id.as_str(), id) {
            let c = rules[i].copy();
            proof {
                assert(rules_view(kept@.push(c)) =~= rules_view(kept@) + seq![c@]);
            }
            kept.push(c);
        } else {
            proof {
                assert(rules_view(kept@) + Seq::<RuleView>::empty() =~= rules_view(kept@));
            }
        }
        i += 1;
    }
    proof {
        assert(rules_view(rules@).subrange(0, i as int) =~= rules_view(rules@));
    }
    *rules = kept;
}

/// Appends a rule.
pub fn add_rule(rules: &mut Vec<RouteRule>, rule: RouteRule)
    ensures
        rules_view(final(rules)@) == rules_view(old(rules)@).push(rule@),
{
    let ghost before = rules@;
    rules.push(rule);
    proof {
        assert(rules_view(rules@) =~= rules_view(before).push(rule@));
    }
}

/// Toggling a rule twice gives back the rule list.
pub proof fn lemma_toggle_twice(rs: Seq<RuleView>, id: Seq<char>)
    ensures
        toggled(toggled(rs, id), id) == rs,
{
    lemma_first_rule(rs, id);
    let k = first_rule(rs, id);
    if k < rs.len() {
        let t = toggled(rs, id);
        lemma_first_rule(t, id);
        let k2 = first_rule(t, id);
        assert(t[k].id == id);
        if k2 < k {
            assert(t[k2] == rs[k2]);
        }
        assert(k2 == k);
        assert(toggled(t, id) =~= rs);
    }
}

/// After deleting a rule id, no rule with it remains, and every remaining
/// rule was in the list.
pub proof fn lemma_delete_removes(rs: Seq<RuleView>, id: Seq<char>)
    ensures
        forall|i: int| 0 <= i < rules_without(rs, id).len() ==> #[trigger] rules_without(rs, id)[i].id != id,
        forall|i: int| 0 <= i < rules_without(rs, id).len() ==> rs.contains(#[trigger] rules_without(rs, id)[i]),
        rules_without(rs, id).len() <= rs.len(),
    decreases rs.len(),
{
    if rs.len() > 0 {
        lemma_delete_removes(rs.drop_last(), id);
        let prev = rules_without(rs.drop_last(), id);
        assert forall|i: int| 0 <= i < rules_without(rs, id).len() implies rs.contains(#[trigger] rules_without(rs, id)[i]) by {
            if i < prev.len() {
                let x = prev[i];
                assert(rs.drop_last().contains(x));
                let j = choose|j: int| 0 <= j < rs.drop_last().len() && rs.drop_last()[j] == x;
                assert(rs[j] == x);
            } else {
                assert(rs[rs.len() - 1] == rs.last());
            }
        }
    }
}

} // verus!
