//! Generation of the complete sing-box configuration from the parsed
//! outbounds, the settings, the nodes and the user's routing rules.
use vstd::prelude::*;
use crate::json::{
    Json, JVal, ObjBuilder, jview_seq, jview_members, lemma_jview_seq, lemma_jview_seq_push,
    lemma_jview_members, strs_view, str_arr, num_arr, string_array, port_array,
};
use crate::text::{chars_of, lex_lt, lex_less, lemma_lex_total, lemma_lex_trans, concat, decimal, decimal_string, trim, trim_chars, string_of};
use crate::types::{AppConfig, ProxyNode, NodeView, nodes_view, ProxyMode};
use crate::rules::{RouteRule, RuleView, RuleAction, rules_view, port_values, list_member, expand_ports, push_list_member, clone_strings};
use crate::cn_direct::{cn_direct_suffix_list, cn_direct_suffixes, wechat_process_list, wechat_processes};
use crate::external::{opt_view, new_uuid_simple};

verus! {

// ─── Outbound tags and per-subscription groups ─────────────────────────

/// `ob["tag"]` as text, or empty.
pub open spec fn tag_or_empty(ob: JVal) -> Seq<char> {
    match ob.field("tag"@).as_str() {
        Some(t) => t,
        None => Seq::empty(),
    }
}

/// One tag value per outbound, in order.
pub open spec fn node_tags(obs: Seq<JVal>) -> Seq<JVal> {
    obs.map_values(|ob: JVal| JVal::Str(tag_or_empty(ob)))
}

/// Some outbound has the text tag `t`.
pub open spec fn has_tag(obs: Seq<JVal>, t: Seq<char>) -> bool {
    exists|i: int| 0 <= i < obs.len() && #[trigger] obs[i].field("tag"@).as_str() == Some(t)
}

/// A node counts toward its subscription's group when it names a subscription
/// and some outbound carries its name as tag.
pub open spec fn qualifies(n: NodeView, obs: Seq<JVal>) -> bool {
    n.subscription_id is Some && has_tag(obs, n.name)
}

/// `ks` (ordered) with `k` inserted before the first key not below it.
pub open spec fn insert_sorted(ks: Seq<Seq<char>>, k: Seq<char>) -> Seq<Seq<char>>
    decreases ks.len(),
{
    if ks.len() == 0 {
        seq![k]
    } else if lex_lt(ks[0], k) {
        seq![ks[0]] + insert_sorted(ks.drop_first(), k)
    } else {
        seq![k] + ks
    }
}

/// The distinct subscription ids of the qualifying nodes, in `String` order
/// (the key order of a `BTreeMap`).
pub open spec fn group_keys(ns: Seq<NodeView>, obs: Seq<JVal>) -> Seq<Seq<char>>
    decreases ns.len(),
{
    if ns.len() == 0 {
        Seq::empty()
    } else {
        let ks = group_keys(ns.drop_last(), obs);
        let n = ns.last();
        if qualifies(n, obs) && !ks.contains(n.subscription_id->0) {
            insert_sorted(ks, n.subscription_id->0)
        } else {
            ks
        }
    }
}

/// The names of the qualifying nodes of subscription `sid`, in node order.
pub open spec fn group_members(ns: Seq<NodeView>, obs: Seq<JVal>, sid: Seq<char>) -> Seq<Seq<char>>
    decreases ns.len(),
{
    if ns.len() == 0 {
        Seq::empty()
    } else {
        let n = ns.last();
        group_members(ns.drop_last(), obs, sid) + if qualifies(n, obs) && n.subscription_id == Some(sid) {
            seq![n.name]
        } else {
            Seq::empty()
        }
    }
}

/// `(auto-<sid>, members)` for every subscription, in key order, that has at
/// least two qualifying nodes.
pub open spec fn auto_groups_of(keys: Seq<Seq<char>>, ns: Seq<NodeView>, obs: Seq<JVal>) -> Seq<(Seq<char>, Seq<Seq<char>>)>
    decreases keys.len(),
{
    if keys.len() == 0 {
        Seq::empty()
    } else {
        let k = keys.last();
        let ms = group_members(ns, obs, k);
        auto_groups_of(keys.drop_last(), ns, obs) + if ms.len() >= 2 {
            seq![("auto-"@ + k, ms)]
        } else {
            Seq::empty()
        }
    }
}

/// The automatic group of each subscription: its tag and member tags.
pub open spec fn sub_groups(ns: Seq<NodeView>, obs: Seq<JVal>) -> Seq<(Seq<char>, Seq<Seq<char>>)> {
    auto_groups_of(group_keys(ns, obs), ns, obs)
}

/// The selector's options: `auto` when there are nodes, then the
/// per-subscription groups, then every node; `direct` alone when that is empty.
pub open spec fn selector_options(obs: Seq<JVal>, groups: Seq<(Seq<char>, Seq<Seq<char>>)>) -> Seq<JVal> {
    let base = (if obs.len() > 0 { seq![JVal::Str("auto"@)] } else { Seq::empty() })
        + groups.map_values(|g: (Seq<char>, Seq<Seq<char>>)| JVal::Str(g.0))
        + node_tags(obs);
    if base.len() == 0 {
        seq![JVal::Str("direct"@)]
    } else {
        base
    }
}

/// The selector's default: the requested tag when it is a non-empty option,
/// otherwise `auto` when there are nodes and `direct` when there are none.
pub open spec fn selected_option(active: Option<Seq<char>>, has_nodes: bool, options: Seq<JVal>) -> Seq<char> {
    let first = match active {
        Some(t) => if t.len() > 0 {
            t
        } else if has_nodes {
            "auto"@
        } else {
            match options[0].as_str() {
                Some(s) => s,
                None => Seq::empty(),
            }
        },
        None => if has_nodes {
            "auto"@
        } else {
            match options[0].as_str() {
                Some(s) => s,
                None => Seq::empty(),
            }
        },
    };
    if options.contains(JVal::Str(first)) {
        first
    } else if has_nodes {
        "auto"@
    } else {
        "direct"@
    }
}

/// An outbound without an explicit `tcp` transport (the default, which must be
/// absent rather than spelled out).
pub open spec fn clean_outbound(ob: JVal) -> JVal {
    if ob.field("transport"@).field("type"@).as_str() == Some("tcp"@) {
        ob.without("transport"@)
    } else {
        ob
    }
}

proof fn lemma_node_tags_push(obs: Seq<JVal>, ob: JVal)
    ensures
        node_tags(obs.push(ob)) == node_tags(obs).push(JVal::Str(tag_or_empty(ob))),
{
    assert(node_tags(obs.push(ob)) =~= node_tags(obs).push(JVal::Str(tag_or_empty(ob))));
}

/// The text tag of an outbound, or empty.
fn outbound_tag(ob: &Json) -> (r: String)
    ensures
        r@ == tag_or_empty(ob@),
{
    match ob.get("tag") {
        Some(t) => match t.as_str() {
            Some(s) => s.to_string(),
            None => String::new(),
        },
        None => String::new(),
    }
}

/// The tag value of every outbound, in order.
pub fn outbound_tags(obs: &Vec<Json>) -> (r: Vec<Json>)
    ensures
        jview_seq(r@) == node_tags(jview_seq(obs@)),
{
    proof {
        lemma_jview_seq(obs@);
    }
    let mut out: Vec<Json> = Vec::new();
    let mut i: usize = 0;
    while i < obs.len()
        invariant
            0 <= i <= obs.len(),
            jview_seq(obs@).len() == obs@.len(),
            forall|k: int| 0 <= k < obs@.len() ==> #[trigger] jview_seq(obs@)[k] == obs@[k]@,
            jview_seq(out@) == node_tags(jview_seq(obs@).subrange(0, i as int)),
        decreases obs.len() - i,
    {
        let t = Json::Str(outbound_tag(&obs[i]));
        proof {
            lemma_jview_seq_push(out@, t);
            assert(jview_seq(obs@).subrange(0, i + 1) =~= jview_seq(obs@).subrange(0, i as int).push(obs@[i as int]@));
            lemma_node_tags_push(jview_seq(obs@).subrange(0, i as int), obs@[i as int]@);
        }
        out.push(t);
        i += 1;
    }
    proof {
        assert(jview_seq(obs@).subrange(0, i as int) =~= jview_seq(obs@));
    }
    out
}

/// Whether some outbound has the text tag `t`.
pub fn outbounds_have_tag(obs: &Vec<Json>, t: &str) -> (r: bool)
    ensures
        r == has_tag(jview_seq(obs@), t@),
{
    proof {
        lemma_jview_seq(obs@);
    }
    let mut i: usize = 0;
    while i < obs.len()
        invariant
            0 <= i <= obs.len(),
            jview_seq(obs@).len() == obs@.len(),
            forall|k: int| 0 <= k < obs@.len() ==> #[trigger] jview_seq(obs@)[k] == obs@[k]@,
            forall|k: int| 0 <= k < i ==> (#[trigger] jview_seq(obs@)[k]).field("tag"@).as_str() != Some(t@),
        decreases obs.len() - i,
    {
        match obs[i].get("tag") {
            Some(v) => match v.as_str() {
                Some(s) => {
                    if crate::json::str_eq(s, t) {
                        proof {
                            assert(jview_seq(obs@)[i as int].field("tag"@).as_str() == Some(t@));
                        }
                        return true;
                    }
                },
                None => {},
            },
            None => {},
        }
        i += 1;
    }
    false
}

/// Inserts `k` into the ordered key list.
fn insert_key(ks: &mut Vec<String>, k: String)
    ensures
        strs_view(final(ks)@) == insert_sorted(strs_view(old(ks)@), k@),
{
    let kc = chars_of(k.as_str());
    let mut i: usize = 0;
    let ghost ov = strs_view(ks@);
    proof {
        assert(ov.subrange(0, ov.len() as int) =~= ov);
    }
    while i < ks.len()
        invariant
            0 <= i <= ks.len(),
            ov == strs_view(ks@),
            kc@ == k@,
            insert_sorted(ov, k@) == ov.subrange(0, i as int) + insert_sorted(ov.subrange(i as int, ov.len() as int), k@),
        ensures
            0 <= i <= ks.len(),
            insert_sorted(ov, k@) == ov.subrange(0, i as int) + insert_sorted(ov.subrange(i as int, ov.len() as int), k@),
            i < ks.len() ==> !lex_lt(ov[i as int], k@),
        decreases ks.len() - i,
    {
        let c = chars_of(ks[i].as_str());
        if !lex_less(c.as_slice(), kc.as_slice()) {
            break;
        }
        proof {
            let rest = ov.subrange(i as int, ov.len() as int);
            assert(rest[0] == ks@[i as int]@);
            assert(rest.drop_first() =~= ov.subrange(i + 1, ov.len() as int));
            assert(ov.subrange(0, i + 1) =~= ov.subrange(0, i as int) + seq![rest[0]]);
        }
        i += 1;
    }
    proof {
        let rest = ov.subrange(i as int, ov.len() as int);
        if i < ks.len() {
            assert(rest[0] == ks@[i as int]@);
        }
        assert(insert_sorted(rest, k@) =~= seq![k@] + rest);
    }
    ks.insert(i, k);
    proof {
        assert(strs_view(ks@) =~= ov.subrange(0, i as int) + (seq![k@] + ov.subrange(i as int, ov.len() as int)));
    }
}

fn seq_contains_str(ks: &Vec<String>, k: &str) -> (r: bool)
    ensures
        r == strs_view(ks@).contains(k@),
{
    let mut i: usize = 0;
    while i < ks.len()
        invariant
            0 <= i <= ks.len(),
            forall|m: int| 0 <= m < i ==> ks@[m]@ != k@,
        decreases ks.len() - i,
    {
        if crate::json::str_eq(ks[i].as_str(), k) {
            proof {
                assert(strs_view(ks@)[i as int] == k@);
            }
            return true;
        }
        i += 1;
    }
    proof {
        if strs_view(ks@).contains(k@) {
            let m = choose|m: int| 0 <= m < strs_view(ks@).len() && strs_view(ks@)[m] == k@;
            assert(ks@[m]@ == k@);
        }
    }
    false
}

/// Whether node `n` counts toward its subscription's group.
fn node_qualifies(n: &ProxyNode, obs: &Vec<Json>) -> (r: bool)
    ensures
        r == qualifies(n@, jview_seq(obs@)),
{
    match &n.subscription_id {
        Some(_) => outbounds_have_tag(obs, n.name.as_str()),
        None => false,
    }
}

/// The group keys of the nodes.
fn collect_group_keys(nodes: &Vec<ProxyNode>, obs: &Vec<Json>) -> (r: Vec<String>)
    ensures
        strs_view(r@) == group_keys(nodes_view(nodes@), jview_seq(obs@)),
{
    let mut ks: Vec<String> = Vec::new();
    let mut i: usize = 0;
    while i < nodes.len()
        invariant
            0 <= i <= nodes.len(),
            strs_view(ks@) == group_keys(nodes_view(nodes@).subrange(0, i as int), jview_seq(obs@)),
        decreases nodes.len() - i,
    {
        proof {
            let t = nodes_view(nodes@).subrange(0, i + 1);
            assert(t.drop_last() =~= nodes_view(nodes@).subrange(0, i as int));
            assert(t.last() == nodes@[i as int]@);
        }
        if node_qualifies(&nodes[i], obs) {
            match &nodes[i].subscription_id {
                Some(sid) => {
                    if !seq_contains_str(&ks, sid.as_str()) {
                        insert_key(&mut ks, sid.clone());
                    }
                },
                None => {},
            }
        }
        i += 1;
    }
    proof {
        assert(nodes_view(nodes@).subrange(0, i as int) =~= nodes_view(nodes@));
    }
    ks
}

/// The member names of subscription `sid`'s group.
fn collect_group_members(nodes: &Vec<ProxyNode>, obs: &Vec<Json>, sid: &str) -> (r: Vec<String>)
    ensures
        strs_view(r@) == group_members(nodes_view(nodes@), jview_seq(obs@), sid@),
{
    let mut ms: Vec<String> = Vec::new();
    let mut i: usize = 0;
    while i < nodes.len()
        invariant
            0 <= i <= nodes.len(),
            strs_view(ms@) == group_members(nodes_view(nodes@).subrange(0, i as int), jview_seq(obs@), sid@),
        decreases nodes.len() - i,
    {
        proof {
            let t = nodes_view(nodes@).subrange(0, i + 1);
            assert(t.drop_last() =~= nodes_view(nodes@).subrange(0, i as int));
            assert(t.last() == nodes@[i as int]@);
        }
        let q = node_qualifies(&nodes[i], obs);
        let same = match &nodes[i].subscription_id {
            Some(s) => crate::json::str_eq(s.as_str(), sid),
            None => false,
        };
        if q && same {
            let nm = nodes[i].name.clone();
            proof {
                assert(strs_view(ms@.push(nm)) =~= strs_view(ms@) + seq![nm@]);
            }
            ms.push(nm);
        } else {
            proof {
                assert(strs_view(ms@) + Seq::<Seq<char>>::empty() =~= strs_view(ms@));
            }
        }
        i += 1;
    }
    proof {
        assert(nodes_view(nodes@).subrange(0, i as int) =~= nodes_view(nodes@));
    }
    ms
}

/// The texts of a list of (tag, members) groups.
pub open spec fn groups_view(v: Seq<(String, Vec<String>)>) -> Seq<(Seq<char>, Seq<Seq<char>>)> {
    v.map_values(|g: (String, Vec<String>)| (g.0@, strs_view(g.1@)))
}

/// The per-subscription auto groups, in subscription-id order.
pub fn subscription_groups(nodes: &Vec<ProxyNode>, obs: &Vec<Json>) -> (r: Vec<(String, Vec<String>)>)
    ensures
        groups_view(r@) == sub_groups(nodes_view(nodes@), jview_seq(obs@)),
{
    let keys = collect_group_keys(nodes, obs);
    let mut out: Vec<(String, Vec<String>)> = Vec::new();
    let mut i: usize = 0;
    while i < keys.len()
        invariant
            0 <= i <= keys.len(),
            groups_view(out@) == auto_groups_of(strs_view(keys@).subrange(0, i as int), nodes_view(nodes@), jview_seq(obs@)),
        decreases keys.len() - i,
    {
        let ms = collect_group_members(nodes, obs, keys[i].as_str());
        proof {
            let t = strs_view(keys@).subrange(0, i + 1);
            assert(t.drop_last() =~= strs_view(keys@).subrange(0, i as int));
            assert(t.last() == keys@[i as int]@);
        }
        if ms.len() >= 2 {
            let tag = concat("auto-", keys[i].as_str());
            proof {
                assert(groups_view(out@.push((tag, ms))) =~= groups_view(out@) + seq![(tag@, strs_view(ms@))]);
            }
            out.push((tag, ms));
        } else {
            proof {
                assert(groups_view(out@) + Seq::<(Seq<char>, Seq<Seq<char>>)>::empty() =~= groups_view(out@));
            }
        }
        i += 1;
    }
    proof {
        assert(strs_view(keys@).subrange(0, i as int) =~= strs_view(keys@));
    }
    out
}


// ─── Outbounds ────────────────────────────────────────────────────────

/// A two-member object.
pub open spec fn obj2(k1: Seq<char>, v1: JVal, k2: Seq<char>, v2: JVal) -> JVal {
    JVal::Obj(seq![(k1, v1), (k2, v2)])
}

/// The `proxy` selector over the options, defaulting to `selected`.
pub open spec fn selector_outbound(options: Seq<JVal>, selected: Seq<char>) -> JVal {
    JVal::Obj(seq![
        ("type"@, JVal::Str("selector"@)),
        ("tag"@, JVal::Str("proxy"@)),
        ("outbounds"@, JVal::Arr(options)),
        ("default"@, JVal::Str(selected)),
    ])
}

/// The default probe URL of the auto-select groups.
pub open spec fn default_test_url() -> Seq<char> {
    "https://www.gstatic.com/generate_204"@
}

/// The configured probe URL, trimmed, or the default when blank.
pub open spec fn test_url(config: AppConfig) -> Seq<char> {
    if trim(config.auto_test_url@).len() == 0 {
        default_test_url()
    } else {
        trim(config.auto_test_url@)
    }
}

/// The URL that latency probes fetch: the configured one (trimmed), or the
/// built-in one when it is blank.
pub fn latency_test_url(config: &AppConfig) -> (r: String)
    ensures
        r@ == test_url(*config),
{
    let trimmed = trim_chars(chars_of(config.auto_test_url.as_str()).as_slice());
    if trimmed.len() == 0 {
        proof {
            reveal_strlit("https://www.gstatic.com/generate_204");
        }
        "https://www.gstatic.com/generate_204".to_string()
    } else {
        string_of(trimmed.as_slice())
    }
}

/// The probe interval in minutes (at least one), as `"<n>m"`.
pub open spec fn test_interval(config: AppConfig) -> Seq<char> {
    decimal(if config.auto_test_interval >= 1 { config.auto_test_interval as nat } else { 1 }) + "m"@
}

/// A URLTest group over `members`.
pub open spec fn urltest_group(tag: Seq<char>, members: Seq<JVal>, config: AppConfig) -> JVal {
    JVal::Obj(seq![
        ("type"@, JVal::Str("urltest"@)),
        ("tag"@, JVal::Str(tag)),
        ("outbounds"@, JVal::Arr(members)),
        ("url"@, JVal::Str(test_url(config))),
        ("interval"@, JVal::Str(test_interval(config))),
        ("tolerance"@, JVal::UInt(config.auto_tolerance as u64)),
        ("idle_timeout"@, JVal::Str("30m"@)),
    ])
}

/// The `urltest` outbounds of the automatic subscription groups.
pub open spec fn group_outbounds(groups: Seq<(Seq<char>, Seq<Seq<char>>)>, config: AppConfig) -> Seq<JVal> {
    groups.map_values(|g: (Seq<char>, Seq<Seq<char>>)| urltest_group(g.0, g.1.map_values(|x: Seq<char>| JVal::Str(x)), config))
}

/// Every outbound of the configuration, in order: the selector, `direct`,
/// `block`, the global `auto` group (when there are nodes), the
/// per-subscription groups, then every node outbound without a `tcp` transport.
pub open spec fn all_outbounds(
    obs: Seq<JVal>,
    groups: Seq<(Seq<char>, Seq<Seq<char>>)>,
    active: Option<Seq<char>>,
    config: AppConfig,
) -> Seq<JVal> {
    let options = selector_options(obs, groups);
    let selected = selected_option(active, obs.len() > 0, options);
    seq![
        selector_outbound(options, selected),
        obj2("type"@, JVal::Str("direct"@), "tag"@, JVal::Str("direct"@)),
        obj2("type"@, JVal::Str("block"@), "tag"@, JVal::Str("block"@)),
    ] + (if obs.len() > 0 { seq![urltest_group("auto"@, node_tags(obs), config)] } else { Seq::empty() })
        + group_outbounds(groups, config) + obs.map_values(|ob: JVal| clean_outbound(ob))
}

/// A two-member object.
pub fn obj2_json(k1: &str, v1: Json, k2: &str, v2: Json) -> (r: Json)
    ensures
        r@ == obj2(k1@, v1@, k2@, v2@),
{
    let mut b = ObjBuilder::new();
    b.push(k1, v1);
    b.push(k2, v2);
    proof {
        assert(b.view() =~= seq![(k1@, v1@), (k2@, v2@)]);
    }
    b.build()
}

/// The selector's options.
fn build_selector_options(obs: &Vec<Json>, groups: &Vec<(String, Vec<String>)>) -> (r: Vec<Json>)
    ensures
        jview_seq(r@) == selector_options(jview_seq(obs@), groups_view(groups@)),
{
    proof {
        lemma_jview_seq(obs@);
    }
    let mut out: Vec<Json> = Vec::new();
    if obs.len() > 0 {
        let a = Json::string("auto");
        proof {
            lemma_jview_seq_push(out@, a);
        }
        out.push(a);
    }
    let ghost head = jview_seq(out@);
    let mut i: usize = 0;
    while i < groups.len()
        invariant
            0 <= i <= groups.len(),
            jview_seq(out@) == head + groups_view(groups@).subrange(0, i as int).map_values(|g: (Seq<char>, Seq<Seq<char>>)| JVal::Str(g.0)),
        decreases groups.len() - i,
    {
        let t = Json::Str(groups[i].0.clone());
        proof {
            lemma_jview_seq_push(out@, t);
            assert(groups_view(groups@).subrange(0, i + 1).map_values(|g: (Seq<char>, Seq<Seq<char>>)| JVal::Str(g.0)) =~= groups_view(groups@).subrange(0, i as int).map_values(|g: (Seq<char>, Seq<Seq<char>>)| JVal::Str(g.0)).push(JVal::Str(groups@[i as int].0@)));
        }
        out.push(t);
        i += 1;
    }
    proof {
        assert(groups_view(groups@).subrange(0, i as int) =~= groups_view(groups@));
    }
    let ghost mid = jview_seq(out@);
    let tags = outbound_tags(obs);
    proof {
        lemma_jview_seq(tags@);
    }
    let mut j: usize = 0;
    while j < tags.len()
        invariant
            0 <= j <= tags.len(),
            jview_seq(tags@).len() == tags@.len(),
            forall|k: int| 0 <= k < tags@.len() ==> #[trigger] jview_seq(tags@)[k] == tags@[k]@,
            jview_seq(out@) == mid + jview_seq(tags@).subrange(0, j as int),
        decreases tags.len() - j,
    {
        let t = tags[j].deep_clone();
        proof {
            lemma_jview_seq_push(out@, t);
            assert(jview_seq(tags@).subrange(0, j + 1) =~= jview_seq(tags@).subrange(0, j as int).push(tags@[j as int]@));
        }
        out.push(t);
        j += 1;
    }
    proof {
        assert(jview_seq(tags@).subrange(0, j as int) =~= jview_seq(tags@));
        assert(jview_seq(out@) =~= (if jview_seq(obs@).len() > 0 { seq![JVal::Str("auto"@)] } else { Seq::empty() })
            + groups_view(groups@).map_values(|g: (Seq<char>, Seq<Seq<char>>)| JVal::Str(g.0)) + node_tags(jview_seq(obs@)));
    }
    if out.len() == 0 {
        let d = Json::string("direct");
        proof {
            lemma_jview_seq_push(out@, d);
            assert(jview_seq(out@.push(d)) =~= seq![JVal::Str("direct"@)]);
        }
        out.push(d);
    } else {
        proof {
            lemma_jview_seq(out@);
        }
    }
    out
}

/// Whether some option is the string `t`.
fn options_contain(options: &Vec<Json>, t: &str) -> (r: bool)
    ensures
        r == jview_seq(options@).contains(JVal::Str(t@)),
{
    proof {
        lemma_jview_seq(options@);
    }
    let mut i: usize = 0;
    while i < options.len()
        invariant
            0 <= i <= options.len(),
            jview_seq(options@).len() == options@.len(),
            forall|k: int| 0 <= k < options@.len() ==> #[trigger] jview_seq(options@)[k] == options@[k]@,
            forall|k: int| 0 <= k < i ==> jview_seq(options@)[k] != JVal::Str(t@),
        decreases options.len() - i,
    {
        match options[i].as_str() {
            Some(s) => {
                if crate::json::str_eq(s, t) {
                    proof {
                        assert(jview_seq(options@)[i as int] == JVal::Str(t@));
                    }
                    return true;
                }
            },
            None => {},
        }
        i += 1;
    }
    false
}

/// The selector's default.
fn choose_selected(active: Option<&str>, has_nodes: bool, options: &Vec<Json>) -> (r: String)
    requires
        options@.len() > 0,
    ensures
        r@ == selected_option(
            match active { Some(a) => Some(a@), None => None },
            has_nodes,
            jview_seq(options@),
        ),
{
    proof {
        lemma_jview_seq(options@);
    }
    let fallback = if has_nodes {
        "auto".to_string()
    } else {
        match options[0].as_str() {
            Some(s) => s.to_string(),
            None => String::new(),
        }
    };
    let first = match active {
        Some(t) => if !t.is_empty() {
            t.to_string()
        } else {
            fallback
        },
        None => fallback,
    };
    if options_contain(options, first.as_str()) {
        first
    } else if has_nodes {
        "auto".to_string()
    } else {
        "direct".to_string()
    }
}

/// A node outbound without an explicit `tcp` transport.
fn clean_outbound_json(ob: &Json) -> (r: Json)
    ensures
        r@ == clean_outbound(ob@),
{
    let is_tcp = match ob.get("transport") {
        Some(t) => match t.get("type") {
            Some(ty) => match ty.as_str() {
                Some(s) => crate::json::str_eq(s, "tcp"),
                None => false,
            },
            None => false,
        },
        None => false,
    };
    if is_tcp {
        ob.without_key("transport")
    } else {
        ob.deep_clone()
    }
}

/// A URLTest group over `members`.
fn urltest_json(tag: &str, members: Vec<Json>, url: &str, interval: &str, tolerance: u32) -> (r: Json)
    ensures
        r@ == JVal::Obj(seq![
            ("type"@, JVal::Str("urltest"@)),
            ("tag"@, JVal::Str(tag@)),
            ("outbounds"@, JVal::Arr(jview_seq(members@))),
            ("url"@, JVal::Str(url@)),
            ("interval"@, JVal::Str(interval@)),
            ("tolerance"@, JVal::UInt(tolerance as u64)),
            ("idle_timeout"@, JVal::Str("30m"@)),
        ]),
{
    let mut b = ObjBuilder::new();
    b.push("type", Json::string("urltest"));
    b.push("tag", Json::string(tag));
    b.push("outbounds", Json::Arr(members));
    b.push("url", Json::string(url));
    b.push("interval", Json::string(interval));
    b.push("tolerance", Json::UInt(tolerance as u64));
    b.push("idle_timeout", Json::string("30m"));
    proof {
        assert(b.view() =~= seq![
            ("type"@, JVal::Str("urltest"@)),
            ("tag"@, JVal::Str(tag@)),
            ("outbounds"@, JVal::Arr(jview_seq(members@))),
            ("url"@, JVal::Str(url@)),
            ("interval"@, JVal::Str(interval@)),
            ("tolerance"@, JVal::UInt(tolerance as u64)),
            ("idle_timeout"@, JVal::Str("30m"@)),
        ]);
    }
    b.build()
}

/// String values of a list of texts.
fn str_values(v: &Vec<String>) -> (r: Vec<Json>)
    ensures
        jview_seq(r@) == strs_view(v@).map_values(|x: Seq<char>| JVal::Str(x)),
{
    let a = string_array(v);
    match a {
        Json::Arr(items) => items,
        _ => Vec::new(),
    }
}

/// Every outbound of the configuration.
pub fn build_all_outbounds(
    obs: &Vec<Json>,
    groups: &Vec<(String, Vec<String>)>,
    active: Option<&str>,
    config: &AppConfig,
) -> (r: Vec<Json>)
    ensures
        jview_seq(r@) == all_outbounds(
            jview_seq(obs@),
            groups_view(groups@),
            match active { Some(a) => Some(a@), None => None },
            *config,
        ),
{
    proof {
        lemma_jview_seq(obs@);
    }
    let options = build_selector_options(obs, groups);
    proof {
        lemma_jview_seq(options@);
    }
    let selected = choose_selected(active, obs.len() > 0, &options);
    let mut sel = ObjBuilder::new();
    sel.push("type", Json::string("selector"));
    sel.push("tag", Json::string("proxy"));
    sel.push("outbounds", Json::Arr(options));
    sel.push("default", Json::Str(selected));
    proof {
        assert(sel.view() =~= seq![
            ("type"@, JVal::Str("selector"@)),
            ("tag"@, JVal::Str("proxy"@)),
            ("outbounds"@, JVal::Arr(selector_options(jview_seq(obs@), groups_view(groups@)))),
            ("default"@, JVal::Str(selected@)),
        ]);
    }
    let mut out: Vec<Json> = Vec::new();
    let s0 = sel.build();
    let d = obj2_json("type", Json::string("direct"), "tag", Json::string("direct"));
    let k = obj2_json("type", Json::string("block"), "tag", Json::string("block"));
    proof {
        lemma_jview_seq_push(out@, s0);
        lemma_jview_seq_push(out@.push(s0), d);
        lemma_jview_seq_push(out@.push(s0).push(d), k);
    }
    out.push(s0);
    out.push(d);
    out.push(k);
    let url = latency_test_url(config);
    let minutes: u32 = if config.auto_test_interval >= 1 { config.auto_test_interval } else { 1 };
    let interval = concat(decimal_string(minutes as u64).as_str(), "m");
    proof {
        assert(url@ == test_url(*config));
        assert(interval@ == test_interval(*config));
    }
    let ghost head = jview_seq(out@);
    if obs.len() > 0 {
        let tags = outbound_tags(obs);
        let g = urltest_json("auto", tags, url.as_str(), interval.as_str(), config.auto_tolerance);
        proof {
            lemma_jview_seq_push(out@, g);
        }
        out.push(g);
    }
    proof {
        assert(jview_seq(out@) =~= head + (if jview_seq(obs@).len() > 0 { seq![urltest_group("auto"@, node_tags(jview_seq(obs@)), *config)] } else { Seq::empty() }));
    }
    let ghost head2 = jview_seq(out@);
    let mut i: usize = 0;
    while i < groups.len()
        invariant
            0 <= i <= groups.len(),
            url@ == test_url(*config),
            interval@ == test_interval(*config),
            jview_seq(out@) == head2 + group_outbounds(groups_view(groups@).subrange(0, i as int), *config),
        decreases groups.len() - i,
    {
        let members = str_values(&groups[i].1);
        let g = urltest_json(groups[i].0.as_str(), members, url.as_str(), interval.as_str(), config.auto_tolerance);
        proof {
            lemma_jview_seq_push(out@, g);
            assert(group_outbounds(groups_view(groups@).subrange(0, i + 1), *config) =~= group_outbounds(groups_view(groups@).subrange(0, i as int), *config).push(g@));
        }
        out.push(g);
        i += 1;
    }
    proof {
        assert(groups_view(groups@).subrange(0, i as int) =~= groups_view(groups@));
    }
    let ghost head3 = jview_seq(out@);
    let mut j: usize = 0;
    while j < obs.len()
        invariant
            0 <= j <= obs.len(),
            jview_seq(obs@).len() == obs@.len(),
            forall|k: int| 0 <= k < obs@.len() ==> #[trigger] jview_seq(obs@)[k] == obs@[k]@,
            jview_seq(out@) == head3 + jview_seq(obs@).subrange(0, j as int).map_values(|ob: JVal| clean_outbound(ob)),
        decreases obs.len() - j,
    {
        let c = clean_outbound_json(&obs[j]);
        proof {
            lemma_jview_seq_push(out@, c);
            assert(jview_seq(obs@).subrange(0, j + 1).map_values(|ob: JVal| clean_outbound(ob)) =~= jview_seq(obs@).subrange(0, j as int).map_values(|ob: JVal| clean_outbound(ob)).push(clean_outbound(obs@[j as int]@)));
        }
        out.push(c);
        j += 1;
    }
    proof {
        assert(jview_seq(obs@).subrange(0, j as int) =~= jview_seq(obs@));
        assert(jview_seq(out@) =~= all_outbounds(
            jview_seq(obs@),
            groups_view(groups@),
            match active { Some(a) => Some(a@), None => None },
            *config,
        ));
    }
    out
}

// ─── Laws of the outbounds ────────────────────────────────────────────

proof fn lemma_no_keys_without_outbounds(ns: Seq<NodeView>, obs: Seq<JVal>)
    requires
        obs.len() == 0,
    ensures
        group_keys(ns, obs).len() == 0,
    decreases ns.len(),
{
    if ns.len() > 0 {
        lemma_no_keys_without_outbounds(ns.drop_last(), obs);
    }
}

proof fn lemma_auto_groups_len(keys: Seq<Seq<char>>, ns: Seq<NodeView>, obs: Seq<JVal>)
    ensures
        auto_groups_of(keys, ns, obs).len() <= keys.len(),
    decreases keys.len(),
{
    if keys.len() > 0 {
        lemma_auto_groups_len(keys.drop_last(), ns, obs);
    }
}

/// The selector is never empty, and its default is always one of its
/// options, whatever tag was requested (a stale one included), so the core
/// never sees an unknown default; with no nodes it offers `direct` alone.
pub proof fn lemma_selected_is_option(obs: Seq<JVal>, ns: Seq<NodeView>, active: Option<Seq<char>>)
    ensures
        ({
            let options = selector_options(obs, sub_groups(ns, obs));
            &&& options.len() > 0
            &&& options.contains(JVal::Str(selected_option(active, obs.len() > 0, options)))
            &&& obs.len() == 0 ==> options == seq![JVal::Str("direct"@)]
            &&& obs.len() > 0 ==> options[0] == JVal::Str("auto"@)
        }),
{
    let groups = sub_groups(ns, obs);
    let options = selector_options(obs, groups);
    if obs.len() == 0 {
        lemma_no_keys_without_outbounds(ns, obs);
        lemma_auto_groups_len(group_keys(ns, obs), ns, obs);
        assert(groups.len() == 0);
        let base = (if obs.len() > 0 { seq![JVal::Str("auto"@)] } else { Seq::empty() })
            + groups.map_values(|g: (Seq<char>, Seq<Seq<char>>)| JVal::Str(g.0))
            + node_tags(obs);
        assert(base.len() == 0);
        assert(options =~= seq![JVal::Str("direct"@)]);
        assert(options[0] == JVal::Str("direct"@));
    } else {
        assert(options[0] == JVal::Str("auto"@));
    }
    let sel = selected_option(active, obs.len() > 0, options);
    if !options.contains(JVal::Str(sel)) {
        if obs.len() > 0 {
            assert(sel == "auto"@);
        } else {
            assert(sel == "direct"@);
        }
        assert(options[0] == JVal::Str(sel));
    }
}

/// Inserting a key into a list adds exactly that key and one entry.
proof fn lemma_insert_sorted_contains(ks: Seq<Seq<char>>, k: Seq<char>, x: Seq<char>)
    ensures
        insert_sorted(ks, k).contains(x) <==> (ks.contains(x) || x == k),
        insert_sorted(ks, k).len() == ks.len() + 1,
    decreases ks.len(),
{
    if ks.len() == 0 {
        assert(insert_sorted(ks, k) =~= seq![k]);
        if insert_sorted(ks, k).contains(x) {
            assert(insert_sorted(ks, k)[0] == k);
        }
        if x == k {
            assert(insert_sorted(ks, k)[0] == x);
        }
    } else if lex_lt(ks[0], k) {
        lemma_insert_sorted_contains(ks.drop_first(), k, x);
        let r = insert_sorted(ks, k);
        let t = insert_sorted(ks.drop_first(), k);
        assert(r =~= seq![ks[0]] + t);
        if r.contains(x) {
            let i = choose|i: int| 0 <= i < r.len() && r[i] == x;
            if i == 0 {
                assert(ks[0] == x);
            } else {
                assert(t[i - 1] == x);
                if ks.drop_first().contains(x) {
                    let j = choose|j: int| 0 <= j < ks.drop_first().len() && ks.drop_first()[j] == x;
                    assert(ks[j + 1] == x);
                }
            }
        }
        if ks.contains(x) {
            let j = choose|j: int| 0 <= j < ks.len() && ks[j] == x;
            if j == 0 {
                assert(r[0] == x);
            } else {
                assert(ks.drop_first()[j - 1] == x);
                let i = choose|i: int| 0 <= i < t.len() && t[i] == x;
                assert(r[i + 1] == x);
            }
        }
        if x == k {
            let i = choose|i: int| 0 <= i < t.len() && t[i] == x;
            assert(r[i + 1] == x);
        }
    } else {
        let r = insert_sorted(ks, k);
        assert(r =~= seq![k] + ks);
        if r.contains(x) {
            let i = choose|i: int| 0 <= i < r.len() && r[i] == x;
            if i > 0 {
                assert(ks[i - 1] == x);
            }
        }
        if ks.contains(x) {
            let j = choose|j: int| 0 <= j < ks.len() && ks[j] == x;
            assert(r[j + 1] == x);
        }
        if x == k {
            assert(r[0] == x);
        }
    }
}

proof fn lemma_insert_sorted_no_dup(ks: Seq<Seq<char>>, k: Seq<char>)
    requires
        ks.no_duplicates(),
        !ks.contains(k),
    ensures
        insert_sorted(ks, k).no_duplicates(),
    decreases ks.len(),
{
    if ks.len() == 0 {
        assert(insert_sorted(ks, k) =~= seq![k]);
    } else if lex_lt(ks[0], k) {
        let rest = ks.drop_first();
        assert forall|i: int, j: int| 0 <= i < j < rest.len() implies rest[i] != rest[j] by {
            assert(rest[i] == ks[i + 1] && rest[j] == ks[j + 1]);
        }
        if rest.contains(k) {
            let j = choose|j: int| 0 <= j < rest.len() && rest[j] == k;
            assert(ks[j + 1] == k);
        }
        lemma_insert_sorted_no_dup(rest, k);
        let t = insert_sorted(rest, k);
        let r = insert_sorted(ks, k);
        assert(r =~= seq![ks[0]] + t);
        lemma_insert_sorted_contains(rest, k, ks[0]);
        if rest.contains(ks[0]) {
            let j = choose|j: int| 0 <= j < rest.len() && rest[j] == ks[0];
            assert(ks[j + 1] == ks[0]);
        }
        assert(ks[0] != k);
        assert(!t.contains(ks[0]));
        assert forall|i: int, j: int| 0 <= i < j < r.len() implies r[i] != r[j] by {
            if i == 0 {
                assert(r[j] == t[j - 1]);
                if r[j] == ks[0] {
                    assert(t.contains(ks[0]));
                }
            } else {
                assert(r[i] == t[i - 1] && r[j] == t[j - 1]);
            }
        }
    } else {
        let r = insert_sorted(ks, k);
        assert(r =~= seq![k] + ks);
        assert forall|i: int, j: int| 0 <= i < j < r.len() implies r[i] != r[j] by {
            if i == 0 {
                assert(r[j] == ks[j - 1]);
            } else {
                assert(r[i] == ks[i - 1] && r[j] == ks[j - 1]);
            }
        }
    }
}

/// The group keys are distinct subscription ids of qualifying nodes.
pub proof fn lemma_group_keys_distinct(ns: Seq<NodeView>, obs: Seq<JVal>)
    ensures
        group_keys(ns, obs).no_duplicates(),
        forall|k: Seq<char>| group_keys(ns, obs).contains(k) ==> exists|i: int| 0 <= i < ns.len()
            && #[trigger] ns[i].subscription_id == Some(k) && qualifies(ns[i], obs),
    decreases ns.len(),
{
    if ns.len() > 0 {
        let prev = ns.drop_last();
        lemma_group_keys_distinct(prev, obs);
        let ks = group_keys(prev, obs);
        let n = ns.last();
        if qualifies(n, obs) && !ks.contains(n.subscription_id->0) {
            lemma_insert_sorted_no_dup(ks, n.subscription_id->0);
            assert forall|k: Seq<char>| group_keys(ns, obs).contains(k) implies exists|i: int| 0 <= i < ns.len()
                && #[trigger] ns[i].subscription_id == Some(k) && qualifies(ns[i], obs) by {
                lemma_insert_sorted_contains(ks, n.subscription_id->0, k);
                if ks.contains(k) {
                    let i = choose|i: int| 0 <= i < prev.len() && #[trigger] prev[i].subscription_id == Some(k) && qualifies(prev[i], obs);
                    assert(ns[i] == prev[i]);
                } else {
                    assert(ns[ns.len() - 1] == n);
                }
            }
        } else {
            assert forall|k: Seq<char>| group_keys(ns, obs).contains(k) implies exists|i: int| 0 <= i < ns.len()
                && #[trigger] ns[i].subscription_id == Some(k) && qualifies(ns[i], obs) by {
                let i = choose|i: int| 0 <= i < prev.len() && #[trigger] prev[i].subscription_id == Some(k) && qualifies(prev[i], obs);
                assert(ns[i] == prev[i]);
            }
        }
    }
}

/// Each key comes before every later one in `String` order.
pub open spec fn strictly_sorted(ks: Seq<Seq<char>>) -> bool {
    forall|i: int, j: int| 0 <= i < j < ks.len() ==> lex_lt(#[trigger] ks[i], #[trigger] ks[j])
}

proof fn lemma_insert_sorted_sorted(ks: Seq<Seq<char>>, k: Seq<char>)
    requires
        strictly_sorted(ks),
        !ks.contains(k),
    ensures
        strictly_sorted(insert_sorted(ks, k)),
    decreases ks.len(),
{
    if ks.len() == 0 {
        assert(insert_sorted(ks, k) =~= seq![k]);
    } else if lex_lt(ks[0], k) {
        let rest = ks.drop_first();
        assert forall|i: int, j: int| 0 <= i < j < rest.len() implies lex_lt(#[trigger] rest[i], #[trigger] rest[j]) by {
            assert(rest[i] == ks[i + 1] && rest[j] == ks[j + 1]);
        }
        assert(!rest.contains(k)) by {
            if rest.contains(k) {
                let m = choose|m: int| 0 <= m < rest.len() && rest[m] == k;
                assert(ks[m + 1] == k);
            }
        }
        lemma_insert_sorted_sorted(rest, k);
        let r = insert_sorted(rest, k);
        let t = insert_sorted(ks, k);
        assert(t =~= seq![ks[0]] + r);
        assert forall|j: int| 0 <= j < r.len() implies lex_lt(ks[0], #[trigger] r[j]) by {
            lemma_insert_sorted_contains(rest, k, r[j]);
            assert(r.contains(r[j]));
            if r[j] != k {
                let m = choose|m: int| 0 <= m < rest.len() && rest[m] == r[j];
                assert(ks[m + 1] == r[j]);
            }
        }
        assert forall|i: int, j: int| 0 <= i < j < t.len() implies lex_lt(#[trigger] t[i], #[trigger] t[j]) by {
            if i == 0 {
                assert(t[j] == r[j - 1]);
            } else {
                assert(t[i] == r[i - 1] && t[j] == r[j - 1]);
            }
        }
    } else {
        assert(ks[0] != k);
        lemma_lex_total(ks[0], k);
        let t = insert_sorted(ks, k);
        assert(t =~= seq![k] + ks);
        assert forall|j: int| 0 <= j < ks.len() implies lex_lt(k, #[trigger] ks[j]) by {
            if j > 0 {
                lemma_lex_trans(k, ks[0], ks[j]);
            }
        }
        assert forall|i: int, j: int| 0 <= i < j < t.len() implies lex_lt(#[trigger] t[i], #[trigger] t[j]) by {
            if i == 0 {
                assert(t[j] == ks[j - 1]);
            } else {
                assert(t[i] == ks[i - 1] && t[j] == ks[j - 1]);
            }
        }
    }
}

/// The automatic groups come in `String` order of their subscription ids,
/// as the keys of the `BTreeMap` they are collected in.
pub proof fn lemma_group_keys_sorted(ns: Seq<NodeView>, obs: Seq<JVal>)
    ensures
        strictly_sorted(group_keys(ns, obs)),
    decreases ns.len(),
{
    if ns.len() > 0 {
        lemma_group_keys_sorted(ns.drop_last(), obs);
        let ks = group_keys(ns.drop_last(), obs);
        let n = ns.last();
        if qualifies(n, obs) && !ks.contains(n.subscription_id->0) {
            lemma_insert_sorted_sorted(ks, n.subscription_id->0);
        }
    }
}

proof fn lemma_auto_groups_shape(keys: Seq<Seq<char>>, ns: Seq<NodeView>, obs: Seq<JVal>)
    ensures
        forall|i: int| 0 <= i < auto_groups_of(keys, ns, obs).len() ==> {
            let g = #[trigger] auto_groups_of(keys, ns, obs)[i];
            &&& g.1.len() >= 2
            &&& exists|k: int| 0 <= k < keys.len() && g.0 == "auto-"@ + keys[k] && g.1 == group_members(ns, obs, keys[k])
        },
    decreases keys.len(),
{
    if keys.len() > 0 {
        let prev = keys.drop_last();
        lemma_auto_groups_shape(prev, ns, obs);
        let gs = auto_groups_of(keys, ns, obs);
        let pg = auto_groups_of(prev, ns, obs);
        assert forall|i: int| 0 <= i < gs.len() implies {
            let g = #[trigger] gs[i];
            &&& g.1.len() >= 2
            &&& exists|k: int| 0 <= k < keys.len() && g.0 == "auto-"@ + keys[k] && g.1 == group_members(ns, obs, keys[k])
        } by {
            if i < pg.len() {
                assert(gs[i] == pg[i]);
                let k = choose|k: int| 0 <= k < prev.len() && pg[i].0 == "auto-"@ + prev[k] && pg[i].1 == group_members(ns, obs, prev[k]);
                assert(keys[k] == prev[k]);
            } else {
                assert(gs[i].0 == "auto-"@ + keys[keys.len() - 1]);
            }
        }
    }
}

/// Only subscriptions with at least two nodes that exist as outbounds get a
/// dedicated `auto-<id>` group, listing those nodes' names; each group's
/// subscription is one of the nodes' subscriptions, and no subscription gets
/// two groups.
pub proof fn lemma_sub_groups_shape(ns: Seq<NodeView>, obs: Seq<JVal>)
    ensures
        forall|i: int| 0 <= i < sub_groups(ns, obs).len() ==> {
            let g = #[trigger] sub_groups(ns, obs)[i];
            &&& g.1.len() >= 2
            &&& exists|k: int| 0 <= k < group_keys(ns, obs).len() && g.0 == "auto-"@ + group_keys(ns, obs)[k]
                && g.1 == group_members(ns, obs, group_keys(ns, obs)[k])
        },
        group_keys(ns, obs).no_duplicates(),
        forall|m: int, sid: Seq<char>| 0 <= m < group_members(ns, obs, sid).len() ==> has_tag(obs, #[trigger] group_members(ns, obs, sid)[m]),
{
    lemma_auto_groups_shape(group_keys(ns, obs), ns, obs);
    lemma_group_keys_distinct(ns, obs);
    assert forall|m: int, sid: Seq<char>| 0 <= m < group_members(ns, obs, sid).len() implies has_tag(obs, #[trigger] group_members(ns, obs, sid)[m]) by {
        lemma_members_tagged(ns, obs, sid, m);
    }
}

proof fn lemma_members_tagged(ns: Seq<NodeView>, obs: Seq<JVal>, sid: Seq<char>, m: int)
    requires
        0 <= m < group_members(ns, obs, sid).len(),
    ensures
        has_tag(obs, group_members(ns, obs, sid)[m]),
    decreases ns.len(),
{
    if ns.len() > 0 {
        let prev = group_members(ns.drop_last(), obs, sid);
        if m < prev.len() {
            lemma_members_tagged(ns.drop_last(), obs, sid, m);
        }
    }
}

} // verus!
