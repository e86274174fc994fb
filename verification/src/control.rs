//! The decisions behind the client's commands: node tests and selection,
//! the active proxy chain, routing modes and the system proxy.
use vstd::prelude::*;
use crate::json::{Json, JVal};
use crate::text::{starts_with, trim, chars_of, trim_chars, string_of, str_starts_with};
use crate::types::{ProxyNode, NodeView, nodes_view, lemma_nodes_view_update, AppConfig, ProxyMode, TrafficTotal, ConnectionInfo};
use crate::json::{jview_seq, lemma_jview_seq, strs_view};
use crate::clash::str_or;

verus! {

// ─── Nodes ────────────────────────────────────────────────────────────

/// Index of the first node with id `id`, or the length.
pub open spec fn first_node(ns: Seq<NodeView>, id: Seq<char>) -> int
    decreases ns.len(),
{
    if ns.len() == 0 {
        0
    } else if ns[0].id == id {
        0
    } else {
        1 + first_node(ns.drop_first(), id)
    }
}

proof fn lemma_first_node(ns: Seq<NodeView>, id: Seq<char>)
    ensures
        0 <= first_node(ns, id) <= ns.len(),
        first_node(ns, id) < ns.len() ==> ns[first_node(ns, id)].id == id,
        forall|k: int| 0 <= k < first_node(ns, id) ==> ns[k].id != id,
    decreases ns.len(),
{
    if ns.len() > 0 && ns[0].id != id {
        lemma_first_node(ns.drop_first(), id);
        assert forall|k: int| 0 <= k < first_node(ns, id) implies ns[k].id != id by {
            if k > 0 {
                assert(ns[k] == ns.drop_first()[k - 1]);
            }
        }
    }
}

/// Position of the first node with id `id`.
pub fn find_node(nodes: &Vec<ProxyNode>, id: &str) -> (r: usize)
    ensures
        r == first_node(nodes_view(nodes@), id@),
        r <= nodes@.len(),
{
    proof {
        lemma_first_node(nodes_view(nodes@), id@);
    }
    let mut i: usize = 0;
    while i < nodes.len()
        invariant
            0 <= i <= nodes.len(),
            forall|k: int| 0 <= k < i ==> nodes@[k].id@ != id@,
            0 <= first_node(nodes_view(nodes@), id@) <= nodes@.len(),
            first_node(nodes_view(nodes@), id@) < nodes@.len() ==> nodes@[first_node(nodes_view(nodes@), id@)].id@ == id@,
            forall|k: int| 0 <= k < first_node(nodes_view(nodes@), id@) ==> nodes_view(nodes@)[k].id != id@,
        decreases nodes.len() - i,
    {
        if crate::json::str_eq(nodes[i].id.as_str(), id) {
            proof {
                let f = first_node(nodes_view(nodes@), id@);
                if f < i {
                    assert(nodes@[f].id@ == id@);
                }
                if f > i {
                    assert(nodes_view(nodes@)[i as int].id == id@);
                }
            }
            return i;
        }
        i += 1;
    }
    proof {
        let f = first_node(nodes_view(nodes@), id@);
        if f < nodes@.len() {
            assert(nodes@[f].id@ == id@);
        }
    }
    i
}

/// The server and port of the first node with id `id`.
pub fn node_endpoint(nodes: &Vec<ProxyNode>, id: &str) -> (r: Option<(String, u16)>)
    ensures
        ({
            let k = first_node(nodes_view(nodes@), id@);
            match r {
                Some((s, p)) => k < nodes@.len() && s@ == nodes@[k].server@ && p == nodes@[k].port,
                None => k == nodes@.len(),
            }
        }),
{
    let k = find_node(nodes, id);
    if k < nodes.len() {
        Some((nodes[k].server.clone(), nodes[k].port))
    } else {
        None
    }
}

/// The node with a new test result.
pub open spec fn with_test(n: NodeView, latency: Option<u32>, speed: Option<u32>) -> NodeView {
    NodeView { latency, download_speed: speed, ..n }
}

/// Records a test result on the first node with id `id` (nothing changes
/// when there is none); `speed` is `None` to keep the node's speed.
pub fn record_test(nodes: &mut Vec<ProxyNode>, id: &str, latency: Option<u32>, speed: Option<Option<u32>>)
    ensures
        ({
            let k = first_node(nodes_view(old(nodes)@), id@);
            if k < old(nodes)@.len() {
                let n = old(nodes)@[k]@;
                nodes_view(final(nodes)@) == nodes_view(old(nodes)@).update(k, with_test(
                    n,
                    latency,
                    match speed { Some(s) => s, None => n.download_speed },
                ))
            } else {
                nodes_view(final(nodes)@) == nodes_view(old(nodes)@)
            }
        }),
{
    let k = find_node(nodes, id);
    if k < nodes.len() {
        let mut n = nodes[k].copy();
        n.latency = latency;
        match speed {
            Some(s) => {
                n.download_speed = s;
            },
            None => {},
        }
        let ghost nv = n@;
        let ghost before = nodes@;
        nodes.set(k, n);
        proof {
            assert(nodes_view(nodes@) =~= nodes_view(before).update(k as int, nv));
        }
    }
}

/// Latency measured through the proxy: the elapsed milliseconds (kept
/// modulo 2^32), at least 1.
pub fn proxy_latency_ms(elapsed_ms: u64) -> (r: u32)
    ensures
        r == (if elapsed_ms % 0x1_0000_0000 == 0 { 1 } else { elapsed_ms % 0x1_0000_0000 }),
{
    let ms = (elapsed_ms % 0x1_0000_0000) as u32;
    if ms < 1 { 1 } else { ms }
}

/// Latency of a direct TCP connect: the elapsed microseconds (kept modulo
/// 2^32) in whole milliseconds, at least 1.
pub fn tcp_latency_ms(elapsed_us: u64) -> (r: u32)
    ensures
        r == (if (elapsed_us % 0x1_0000_0000) / 1000 == 0 { 1 } else { (elapsed_us % 0x1_0000_0000) / 1000 }),
{
    let us = (elapsed_us % 0x1_0000_0000) as u32;
    let ms = us / 1000;
    if ms < 1 { 1 } else { ms }
}

/// Download speed in KB/s: `bytes` over `ms` milliseconds, as whole bytes
/// per second divided by 1024 (kept modulo 2^32); none for an empty download
/// or no elapsed time.
pub fn download_kbps(bytes: u64, ms: u64) -> (r: Option<u32>)
    requires
        bytes * 1000 <= u64::MAX,
    ensures
        ms == 0 || bytes == 0 ==> r is None,
        ms > 0 && bytes > 0 ==> r == Some(((((bytes * 1000) as nat) / (ms as nat) / 1024) % 0x1_0000_0000) as u32),
{
    if ms == 0 || bytes == 0 {
        return None;
    }
    let kbps = (bytes * 1000 / ms) / 1024;
    Some((kbps % 0x1_0000_0000) as u32)
}

// ─── Auto groups and the active node ──────────────────────────────────

/// The names of the nodes.
pub open spec fn node_names(ns: Seq<NodeView>) -> Seq<Seq<char>> {
    ns.map_values(|n: NodeView| n.name)
}

/// The names of the nodes of subscription `sid`, in order.
pub open spec fn names_of_sub(ns: Seq<NodeView>, sid: Seq<char>) -> Seq<Seq<char>>
    decreases ns.len(),
{
    if ns.len() == 0 {
        Seq::empty()
    } else {
        names_of_sub(ns.drop_last(), sid) + if ns.last().subscription_id == Some(sid) { seq![ns.last().name] } else { Seq::empty() }
    }
}

/// The members of a group whose delay is re-tested: every node for `auto`,
/// the nodes of subscription `<id>` for `auto-<id>`, otherwise the group itself.
pub open spec fn delay_members(ns: Seq<NodeView>, group: Seq<char>) -> Seq<Seq<char>> {
    if group == "auto"@ {
        node_names(ns)
    } else if starts_with(group, "auto-"@) {
        names_of_sub(ns, group.subrange(5, group.len() as int))
    } else {
        seq![group]
    }
}

/// The members of a group whose delay is re-tested.
pub fn delay_test_members(nodes: &Vec<ProxyNode>, group: &str) -> (r: Vec<String>)
    ensures
        crate::json::strs_view(r@) == delay_members(nodes_view(nodes@), group@),
{
    proof {
        reveal_strlit("auto");
        reveal_strlit("auto-");
    }
    let mut out: Vec<String> = Vec::new();
    if crate::json::str_eq(group, "auto") {
        let mut i: usize = 0;
        while i < nodes.len()
            invariant
                0 <= i <= nodes.len(),
                crate::json::strs_view(out@) == node_names(nodes_view(nodes@)).subrange(0, i as int),
            decreases nodes.len() - i,
        {
            let x = nodes[i].name.clone();
            proof {
                assert(crate::json::strs_view(out@.push(x)) =~= crate::json::strs_view(out@).push(x@));
                assert(node_names(nodes_view(nodes@)).subrange(0, i + 1) =~= node_names(nodes_view(nodes@)).subrange(0, i as int).push(nodes@[i as int].name@));
            }
            out.push(x);
            i += 1;
        }
        proof {
            assert(node_names(nodes_view(nodes@)).subrange(0, i as int) =~= node_names(nodes_view(nodes@)));
        }
        out
    } else if str_starts_with(group, "auto-") {
        let gc = chars_of(group);
        let sid = string_of(crate::text::slice_range(gc.as_slice(), 5, gc.len()).as_slice());
        let mut i: usize = 0;
        while i < nodes.len()
            invariant
                0 <= i <= nodes.len(),
                crate::json::strs_view(out@) == names_of_sub(nodes_view(nodes@).subrange(0, i as int), sid@),
            decreases nodes.len() - i,
        {
            proof {
                let t = nodes_view(nodes@).subrange(0, i + 1);
                assert(t.drop_last() =~= nodes_view(nodes@).subrange(0, i as int));
                assert(t.last() == nodes@[i as int]@);
            }
            let hit = match &nodes[i].subscription_id {
                Some(s) => crate::json::str_eq(s.as_str(), sid.as_str()),
                None => false,
            };
            if hit {
                let x = nodes[i].name.clone();
                proof {
                    assert(crate::json::strs_view(out@.push(x)) =~= crate::json::strs_view(out@) + seq![x@]);
                }
                out.push(x);
            } else {
                proof {
                    assert(crate::json::strs_view(out@) + Seq::<Seq<char>>::empty() =~= crate::json::strs_view(out@));
                }
            }
            i += 1;
        }
        proof {
            assert(nodes_view(nodes@).subrange(0, i as int) =~= nodes_view(nodes@));
        }
        out
    } else {
        out.push(group.to_string());
        proof {
            assert(crate::json::strs_view(out@) =~= seq![group@]);
        }
        out
    }
}

/// Why a group delay test cannot run.
#[derive(Debug, Clone, Copy, PartialEq, Eq, Structural)]
pub enum DelayTestError {
    /// The core is not running.
    NotRunning,
    /// The group has no node to test.
    NoMembers,
}

/// A delay test needs a running core and at least one member.
pub fn check_delay_test(running: bool, members: usize) -> (r: Result<(), DelayTestError>)
    ensures
        !running ==> r == Err::<(), DelayTestError>(DelayTestError::NotRunning),
        running && members == 0 ==> r == Err::<(), DelayTestError>(DelayTestError::NoMembers),
        running && members > 0 ==> r is Ok,
{
    if !running {
        Err(DelayTestError::NotRunning)
    } else if members == 0 {
        Err(DelayTestError::NoMembers)
    } else {
        Ok(())
    }
}

/// The node with its active flag set to `b`.
pub open spec fn with_active(n: NodeView, b: bool) -> NodeView {
    NodeView { is_active: b, ..n }
}

/// The nodes after choosing node `id`: it (every node with that id) is the
/// active one, no other is.
pub open spec fn activated(ns: Seq<NodeView>, id: Seq<char>) -> Seq<NodeView> {
    ns.map_values(|n: NodeView| with_active(n, n.id == id))
}

/// Index of the last node with id `id`, or -1.
pub open spec fn last_node(ns: Seq<NodeView>, id: Seq<char>) -> int
    decreases ns.len(),
{
    if ns.len() == 0 {
        -1
    } else if ns.last().id == id {
        ns.len() - 1
    } else {
        last_node(ns.drop_last(), id)
    }
}

proof fn lemma_last_node(ns: Seq<NodeView>, id: Seq<char>)
    ensures
        -1 <= last_node(ns, id) < ns.len(),
        last_node(ns, id) >= 0 ==> ns[last_node(ns, id)].id == id,
    decreases ns.len(),
{
    if ns.len() > 0 && ns.last().id != id {
        lemma_last_node(ns.drop_last(), id);
    }
}

/// Makes node `id` the active one and returns its name (that of the last
/// node with the id); `None` when no node has it, all nodes then inactive.
pub fn activate_node(nodes: &mut Vec<ProxyNode>, id: &str) -> (r: Option<String>)
    ensures
        nodes_view(final(nodes)@) == activated(nodes_view(old(nodes)@), id@),
        ({
            let k = last_node(nodes_view(old(nodes)@), id@);
            match r {
                Some(name) => 0 <= k && name@ == old(nodes)@[k].name@,
                None => k == -1,
            }
        }),
{
    let ghost ov = nodes_view(nodes@);
    let mut found: Option<String> = None;
    let mut i: usize = 0;
    while i < nodes.len()
        invariant
            0 <= i <= nodes.len(),
            nodes@.len() == ov.len(),
            ov == nodes_view(old(nodes)@),
            forall|k: int| 0 <= k < i ==> #[trigger] nodes_view(nodes@)[k] == activated(ov, id@)[k],
            forall|k: int| i <= k < nodes@.len() ==> #[trigger] nodes_view(nodes@)[k] == ov[k],
            ({
                let k = last_node(ov.subrange(0, i as int), id@);
                match found {
                    Some(name) => 0 <= k && name@ == ov[k].name,
                    None => k == -1,
                }
            }),
        decreases nodes.len() - i,
    {
        let mut n = nodes[i].copy();
        let hit = crate::json::str_eq(n.id.as_str(), id);
        n.is_active = hit;
        if hit {
            found = Some(n.name.clone());
        }
        proof {
            let t = ov.subrange(0, i + 1);
            assert(t.drop_last() =~= ov.subrange(0, i as int));
            assert(t.last() == ov[i as int]);
            lemma_nodes_view_update(nodes@, i as int, n);
            assert(nodes_view(nodes@)[i as int] == ov[i as int]);
            assert(n@ == activated(ov, id@)[i as int]);
        }
        nodes.set(i, n);
        i += 1;
    }
    proof {
        assert(nodes_view(nodes@) =~= activated(ov, id@));
        assert(ov.subrange(0, i as int) =~= ov);
        let k = last_node(ov, id@);
        lemma_last_node(ov, id@);
        if 0 <= k {
            assert(ov[k] == old(nodes)@[k]@);
        }
    }
    found
}

/// Marks every node inactive.
pub fn deactivate_all(nodes: &mut Vec<ProxyNode>)
    ensures
        nodes_view(final(nodes)@) == nodes_view(old(nodes)@).map_values(|n: NodeView| with_active(n, false)),
{
    let ghost ov = nodes_view(nodes@);
    let mut i: usize = 0;
    while i < nodes.len()
        invariant
            0 <= i <= nodes.len(),
            nodes@.len() == ov.len(),
            ov == nodes_view(old(nodes)@),
            forall|k: int| 0 <= k < i ==> #[trigger] nodes_view(nodes@)[k] == with_active(ov[k], false),
            forall|k: int| i <= k < nodes@.len() ==> #[trigger] nodes_view(nodes@)[k] == ov[k],
        decreases nodes.len() - i,
    {
        let mut n = nodes[i].copy();
        n.is_active = false;
        proof {
            lemma_nodes_view_update(nodes@, i as int, n);
            assert(nodes_view(nodes@)[i as int] == ov[i as int]);
        }
        nodes.set(i, n);
        i += 1;
    }
    proof {
        assert(nodes_view(nodes@) =~= ov.map_values(|n: NodeView| with_active(n, false)));
    }
}

/// The nodes after a restart: a node is active exactly when its name is the
/// saved selection (none when nothing is saved, all left as they are).
pub fn restore_active_flags(nodes: &mut Vec<ProxyNode>, active_tag: Option<&str>)
    ensures
        match active_tag {
            Some(t) => nodes_view(final(nodes)@) == nodes_view(old(nodes)@).map_values(|n: NodeView| with_active(n, n.name == t@)),
            None => nodes_view(final(nodes)@) == nodes_view(old(nodes)@),
        },
{
    let t = match active_tag {
        Some(t) => t,
        None => {
            return;
        },
    };
    let ghost ov = nodes_view(nodes@);
    let mut i: usize = 0;
    while i < nodes.len()
        invariant
            0 <= i <= nodes.len(),
            nodes@.len() == ov.len(),
            ov == nodes_view(old(nodes)@),
            forall|k: int| 0 <= k < i ==> #[trigger] nodes_view(nodes@)[k] == with_active(ov[k], ov[k].name == t@),
            forall|k: int| i <= k < nodes@.len() ==> #[trigger] nodes_view(nodes@)[k] == ov[k],
        decreases nodes.len() - i,
    {
        let mut n = nodes[i].copy();
        n.is_active = crate::json::str_eq(n.name.as_str(), t);
        proof {
            lemma_nodes_view_update(nodes@, i as int, n);
            assert(nodes_view(nodes@)[i as int] == ov[i as int]);
        }
        nodes.set(i, n);
        i += 1;
    }
    proof {
        assert(nodes_view(nodes@) =~= ov.map_values(|n: NodeView| with_active(n, n.name == t@)));
    }
}

// ─── The saved selection ──────────────────────────────────────────────

/// The value saved for `key` (the first pair with it).
pub open spec fn pair_get(ps: Seq<(Seq<char>, Seq<char>)>, key: Seq<char>) -> Option<Seq<char>>
    decreases ps.len(),
{
    if ps.len() == 0 {
        None
    } else if ps[0].0 == key {
        Some(ps[0].1)
    } else {
        pair_get(ps.drop_first(), key)
    }
}

/// `ps` with `key` set to `value`: the first pair with the key replaced,
/// otherwise a pair appended.
pub open spec fn pair_set(ps: Seq<(Seq<char>, Seq<char>)>, key: Seq<char>, value: Seq<char>) -> Seq<(Seq<char>, Seq<char>)>
    decreases ps.len(),
{
    if ps.len() == 0 {
        seq![(key, value)]
    } else if ps[0].0 == key {
        seq![(key, value)] + ps.drop_first()
    } else {
        seq![ps[0]] + pair_set(ps.drop_first(), key, value)
    }
}

/// What is saved for a selector reads back: after setting `key` to
/// `value`, `key` reads `value` and every other selector reads what it read
/// before.
pub proof fn lemma_selection_roundtrip(ps: Seq<(Seq<char>, Seq<char>)>, key: Seq<char>, value: Seq<char>, other: Seq<char>)
    ensures
        pair_get(pair_set(ps, key, value), key) == Some(value),
        other != key ==> pair_get(pair_set(ps, key, value), other) == pair_get(ps, other),
    decreases ps.len(),
{
    if ps.len() > 0 {
        let t = pair_set(ps, key, value);
        if ps[0].0 == key {
            assert(t[0] == (key, value));
            assert(t.drop_first() =~= ps.drop_first());
            if other != key {
                assert(pair_get(t, other) == pair_get(t.drop_first(), other));
            }
        } else {
            lemma_selection_roundtrip(ps.drop_first(), key, value, other);
            assert(t[0] == ps[0]);
            assert(t.drop_first() =~= pair_set(ps.drop_first(), key, value));
            if other != key && ps[0].0 != other {
                assert(pair_get(t, other) == pair_get(t.drop_first(), other));
            }
        }
    } else {
        let t = pair_set(ps, key, value);
        assert(t.drop_first() =~= Seq::<(Seq<char>, Seq<char>)>::empty());
        if other != key {
            assert(pair_get(t, other) == pair_get(t.drop_first(), other));
        }
    }
}

/// The saved selector choices as (selector, outbound) texts.
pub open spec fn selections_view(v: Seq<(String, String)>) -> Seq<(Seq<char>, Seq<char>)> {
    v.map_values(|p: (String, String)| (p.0@, p.1@))
}

/// The outbound chosen for the `proxy` selector, if any.
pub fn active_tag(config: &AppConfig) -> (r: Option<String>)
    ensures
        crate::external::opt_view(r) == pair_get(selections_view(config.active_nodes@), "proxy"@),
{
    let ps = &config.active_nodes;
    let ghost pv = selections_view(ps@);
    let mut i: usize = 0;
    proof {
        assert(pv.subrange(0, pv.len() as int) =~= pv);
    }
    while i < ps.len()
        invariant
            0 <= i <= ps.len(),
            pv == selections_view(ps@),
            ps@ == config.active_nodes@,
            pair_get(pv, "proxy"@) == pair_get(pv.subrange(i as int, pv.len() as int), "proxy"@),
        decreases ps.len() - i,
    {
        let ghost rest = pv.subrange(i as int, pv.len() as int);
        proof {
            assert(rest[0] == (ps@[i as int].0@, ps@[i as int].1@));
            assert(rest.drop_first() =~= pv.subrange(i + 1, pv.len() as int));
        }
        if crate::json::str_eq(ps[i].0.as_str(), "proxy") {
            let v = ps[i].1.clone();
            proof {
                assert(rest[0].0 == "proxy"@);
                assert(pair_get(rest, "proxy"@) == Some(rest[0].1));
                assert(pair_get(pv, "proxy"@) == Some(v@));
                assert(pv == selections_view(config.active_nodes@));
            }
            return Some(v);
        }
        i += 1;
    }
    None
}

/// Sets `key` to `value` in a list of distinct-keyed pairs.
fn set_pair(ps: &mut Vec<(String, String)>, key: &str, value: &str)
    ensures
        selections_view(final(ps)@) == pair_set(selections_view(old(ps)@), key@, value@),
{
    let ghost pv = selections_view(ps@);
    let mut i: usize = 0;
    proof {
        assert(pv.subrange(0, pv.len() as int) =~= pv);
        assert(pv.subrange(0, 0) + pair_set(pv.subrange(0, pv.len() as int), key@, value@) =~= pair_set(pv, key@, value@));
    }
    while i < ps.len()
        invariant
            0 <= i <= ps.len(),
            ps@ == old(ps)@,
            pv == selections_view(ps@),
            pair_set(pv, key@, value@) == pv.subrange(0, i as int) + pair_set(pv.subrange(i as int, pv.len() as int), key@, value@),
        decreases ps.len() - i,
    {
        let ghost rest = pv.subrange(i as int, pv.len() as int);
        proof {
            assert(rest[0] == (ps@[i as int].0@, ps@[i as int].1@));
            assert(rest.drop_first() =~= pv.subrange(i + 1, pv.len() as int));
        }
        if crate::json::str_eq(ps[i].0.as_str(), key) {
            let ghost before = ps@;
            ps.set(i, (key.to_string(), value.to_string()));
            proof {
                assert(selections_view(ps@) =~= pv.subrange(0, i as int) + (seq![(key@, value@)] + rest.drop_first()));
            }
            return;
        }
        proof {
            assert(pv.subrange(0, i + 1) =~= pv.subrange(0, i as int) + seq![rest[0]]);
        }
        i += 1;
    }
    ps.push((key.to_string(), value.to_string()));
    proof {
        assert(pv.subrange(i as int, pv.len() as int) =~= Seq::<(Seq<char>, Seq<char>)>::empty());
        assert(selections_view(ps@) =~= pv + seq![(key@, value@)]);
        assert(pv.subrange(0, i as int) =~= pv);
    }
}

/// Saves `tag` as the outbound chosen for the `proxy` selector.
pub fn set_active_tag(config: &mut AppConfig, tag: &str)
    ensures
        selections_view(final(config).active_nodes@) == pair_set(selections_view(old(config).active_nodes@), "proxy"@, tag@),
        final(config).proxy_mode == old(config).proxy_mode,
        final(config).tun_enabled == old(config).tun_enabled,
        final(config).api_port == old(config).api_port,
        final(config).mixed_port == old(config).mixed_port,
{
    set_pair(&mut config.active_nodes, "proxy", tag);
}

// ─── The active proxy chain ───────────────────────────────────────────

/// Following the chain from `cur` through Selector and URLTest groups (their
/// `now` member), at most `hops` links: the key of the first entry that is
/// not such a group; `None` when the chain cannot be resolved, that is when
/// it reaches a missing entry, a group whose `now` is missing or empty, or a
/// group after the last link allowed.
pub open spec fn walk_chain(proxies: JVal, cur: Seq<char>, hops: nat) -> Option<Seq<char>>
    decreases hops,
{
    if !proxies.has(cur) {
        None
    } else {
        let node = proxies.field(cur);
        let typ = crate::clash::str_or(node.field("type"@), Seq::empty());
        if typ == "Selector"@ || typ == "URLTest"@ {
            if hops == 0 {
                None
            } else {
                match node.field("now"@).as_str() {
                    Some(now) => if now.len() > 0 { walk_chain(proxies, now, (hops - 1) as nat) } else { None },
                    None => None,
                }
            }
        } else {
            Some(cur)
        }
    }
}

/// The concrete proxy that the `proxy` selector routes through, from the
/// Clash API's `/proxies` reply: the chain from `proxy` followed for at most
/// six links; `None` without a `proxies` member or when the chain cannot be
/// resolved.
pub open spec fn active_proxy(body: JVal) -> Option<Seq<char>> {
    if body.has("proxies"@) {
        walk_chain(body.field("proxies"@), "proxy"@, 6)
    } else {
        None
    }
}

/// The concrete proxy that the `proxy` selector routes through.
pub fn active_proxy_of(body: &Json) -> (r: Option<String>)
    ensures
        crate::external::opt_view(r) == active_proxy(body@),
{
    proof {
        reveal_strlit("");
        assert(""@ =~= Seq::<char>::empty());
    }
    let proxies = match body.get("proxies") {
        Some(p) => p,
        None => {
            return None;
        },
    };
    let mut cur = "proxy".to_string();
    let mut hops: u64 = 6;
    loop
        invariant
            hops <= 6,
            body@.has("proxies"@),
            proxies@ == body@.field("proxies"@),
            walk_chain(proxies@, cur@, hops as nat) == walk_chain(proxies@, "proxy"@, 6),
            ""@ == Seq::<char>::empty(),
        decreases hops,
    {
        let node = match proxies.get(cur.as_str()) {
            Some(n) => n,
            None => {
                return None;
            },
        };
        let typ = node.str_at_or("type", "");
        if crate::json::str_eq(typ.as_str(), "Selector") || crate::json::str_eq(typ.as_str(), "URLTest") {
            if hops == 0 {
                return None;
            }
            match node.str_at("now") {
                Some(now) => {
                    if now.as_str().is_empty() {
                        return None;
                    }
                    cur = now;
                },
                None => {
                    return None;
                },
            }
            hops -= 1;
        } else {
            return Some(cur);
        }
    }
}

// ─── Modes and switches ───────────────────────────────────────────────

/// The routing mode named by `mode` (`rule`, `global`, `direct`, `tun`).
pub open spec fn proxy_mode_named(mode: Seq<char>) -> Option<ProxyMode> {
    if mode == "rule"@ {
        Some(ProxyMode::Rule)
    } else if mode == "global"@ {
        Some(ProxyMode::Global)
    } else if mode == "direct"@ {
        Some(ProxyMode::Direct)
    } else if mode == "tun"@ {
        Some(ProxyMode::Tun)
    } else {
        None
    }
}

/// Parses a routing mode name; `None` for an unknown one.
pub fn parse_proxy_mode(mode: &str) -> (r: Option<ProxyMode>)
    ensures
        r == proxy_mode_named(mode@),
{
    if crate::json::str_eq(mode, "rule") {
        Some(ProxyMode::Rule)
    } else if crate::json::str_eq(mode, "global") {
        Some(ProxyMode::Global)
    } else if crate::json::str_eq(mode, "direct") {
        Some(ProxyMode::Direct)
    } else if crate::json::str_eq(mode, "tun") {
        Some(ProxyMode::Tun)
    } else {
        None
    }
}

/// The cumulative traffic from the Clash API's `/connections` reply:
/// `uploadTotal` and `downloadTotal`, each 0 when missing.
pub fn traffic_total_from(body: &Json) -> (r: TrafficTotal)
    ensures
        r.upload == match body@.field("uploadTotal"@).as_u64() { Some(n) => n, None => 0 },
        r.download == match body@.field("downloadTotal"@).as_u64() { Some(n) => n, None => 0 },
{
    TrafficTotal {
        upload: match body.u64_at("uploadTotal") {
            Some(n) => n,
            None => 0,
        },
        download: match body.u64_at("downloadTotal") {
            Some(n) => n,
            None => 0,
        },
    }
}

/// Why the system proxy cannot be turned on.
#[derive(Debug, Clone, Copy, PartialEq, Eq, Structural)]
pub enum SystemProxyError {
    /// The core is not running.
    CoreNotRunning,
    /// TUN mode already captures all traffic.
    TunActive,
}

/// The port the system proxy is set to: the mixed port when turning it on
/// (which needs a running core without TUN), 0 when turning it off.
pub fn system_proxy_port(enabled: bool, running: bool, tun_enabled: bool, mixed_port: u16) -> (r: Result<u16, SystemProxyError>)
    ensures
        !enabled ==> r == Ok::<u16, SystemProxyError>(0),
        enabled && !running ==> r == Err::<u16, SystemProxyError>(SystemProxyError::CoreNotRunning),
        enabled && running && tun_enabled ==> r == Err::<u16, SystemProxyError>(SystemProxyError::TunActive),
        enabled && running && !tun_enabled ==> r == Ok::<u16, SystemProxyError>(mixed_port),
{
    if enabled {
        if !running {
            return Err(SystemProxyError::CoreNotRunning);
        }
        if tun_enabled {
            return Err(SystemProxyError::TunActive);
        }
        Ok(mixed_port)
    } else {
        Ok(0)
    }
}

/// Before a start in TUN mode: the process must be elevated, and on Windows
/// the WinTun driver must be present.
pub fn check_tun_start(tun_enabled: bool, elevated: bool, windows: bool, wintun_present: bool) -> (r: Result<(), crate::core_state::StartError>)
    ensures
        !tun_enabled ==> r is Ok,
        tun_enabled && !elevated ==> r == Err::<(), crate::core_state::StartError>(crate::core_state::StartError::NotElevated),
        tun_enabled && elevated && windows && !wintun_present ==> r == Err::<(), crate::core_state::StartError>(crate::core_state::StartError::WintunMissing),
        tun_enabled && elevated && !(windows && !wintun_present) ==> r is Ok,
{
    if tun_enabled {
        if !elevated {
            return Err(crate::core_state::StartError::NotElevated);
        }
        if windows && !wintun_present {
            return Err(crate::core_state::StartError::WintunMissing);
        }
    }
    Ok(())
}

/// The system proxy and TUN are exclusive: the system proxy is used only
/// when neither TUN is on nor the mode is `tun`.
pub fn wants_system_proxy(config: &AppConfig) -> (r: bool)
    ensures
        r == (!config.tun_enabled && config.proxy_mode != ProxyMode::Tun),
{
    !config.tun_enabled && config.proxy_mode != ProxyMode::Tun
}

/// Remembers the proxy state for restoring it at the next launch.
pub fn record_proxy_state(config: &mut AppConfig, running: bool, system_proxy: bool)
    ensures
        final(config).last_proxy_running == running,
        final(config).last_system_proxy == system_proxy,
        final(config).tun_enabled == old(config).tun_enabled,
        final(config).proxy_mode == old(config).proxy_mode,
        final(config).restore_proxy_on_startup == old(config).restore_proxy_on_startup,
{
    config.last_proxy_running = running;
    config.last_system_proxy = system_proxy;
}

/// The connection modes of the tray and the dashboard.
#[derive(Debug, Clone, Copy, PartialEq, Eq, Structural)]
pub enum ConnMode {
    Off,
    System,
    Tun,
}

/// `off` and `tun` name themselves; anything else means the system proxy.
pub fn parse_connection_mode(mode: &str) -> (r: ConnMode)
    ensures
        mode@ == "off"@ ==> r == ConnMode::Off,
        mode@ == "tun"@ ==> r == ConnMode::Tun,
        mode@ != "off"@ && mode@ != "tun"@ ==> r == ConnMode::System,
{
    proof {
        reveal_strlit("off");
        reveal_strlit("tun");
        assert("off"@[0] != "tun"@[0]);
    }
    if crate::json::str_eq(mode, "off") {
        ConnMode::Off
    } else if crate::json::str_eq(mode, "tun") {
        ConnMode::Tun
    } else {
        ConnMode::System
    }
}

/// Starts a switch to `mode` (not `Off`): TUN is turned on exactly for
/// `Tun`; the previous flag is returned so that a failed start can put it back.
pub fn begin_mode_switch(config: &mut AppConfig, mode: ConnMode) -> (prev: bool)
    ensures
        prev == old(config).tun_enabled,
        final(config).tun_enabled == (mode == ConnMode::Tun),
        final(config).proxy_mode == old(config).proxy_mode,
        final(config).last_proxy_running == old(config).last_proxy_running,
        final(config).last_system_proxy == old(config).last_system_proxy,
{
    let prev = config.tun_enabled;
    config.tun_enabled = match mode {
        ConnMode::Tun => true,
        _ => false,
    };
    prev
}

/// The mode to restore at launch: none unless restoring is on and the proxy
/// ran last time; the system proxy when it was on, else TUN when that is on,
/// else the system proxy.
pub fn restore_mode(config: &AppConfig) -> (r: Option<ConnMode>)
    ensures
        !(config.restore_proxy_on_startup && config.last_proxy_running) ==> r is None,
        config.restore_proxy_on_startup && config.last_proxy_running ==> r == Some(
            if config.last_system_proxy { ConnMode::System } else if config.tun_enabled { ConnMode::Tun } else { ConnMode::System },
        ),
{
    if !(config.restore_proxy_on_startup && config.last_proxy_running) {
        None
    } else if config.last_system_proxy {
        Some(ConnMode::System)
    } else if config.tun_enabled {
        Some(ConnMode::Tun)
    } else {
        Some(ConnMode::System)
    }
}

/// The launch follows an upgrade when the version that last ran is not the
/// running one (also when none was recorded).
pub fn is_just_upgraded(last_app_version: &str, current: &str) -> (r: bool)
    ensures
        r == (last_app_version@ != current@),
{
    !crate::json::str_eq(last_app_version, current)
}

/// How many attempts restoring a mode at launch gets before the client falls
/// back to an idle core: a TUN restore is tried five times right after an
/// upgrade and three times otherwise; any other mode once.
pub fn restore_attempts(mode: ConnMode, just_upgraded: bool) -> (n: u32)
    ensures
        n == (if mode == ConnMode::Tun { if just_upgraded { 5u32 } else { 3u32 } } else { 1u32 }),
        n >= 1,
{
    match mode {
        ConnMode::Tun => if just_upgraded { 5 } else { 3 },
        _ => 1,
    }
}

/// The settings to keep when a whole settings record comes in from outside
/// (the dashboard or an imported profile): the incoming one, except that the
/// fields the backend owns (whether the proxy ran, whether the system proxy
/// was on, the version that last ran) keep their current values.
pub fn merge_runtime_fields(incoming: AppConfig, current: &AppConfig) -> (r: AppConfig)
    ensures
        r == (AppConfig {
            last_proxy_running: current.last_proxy_running,
            last_system_proxy: current.last_system_proxy,
            last_app_version: r.last_app_version,
            ..incoming
        }),
        r.last_app_version@ == current.last_app_version@,
{
    let mut r = incoming;
    r.last_proxy_running = current.last_proxy_running;
    r.last_system_proxy = current.last_system_proxy;
    r.last_app_version = current.last_app_version.clone();
    r
}

// ─── Connections ──────────────────────────────────────────────────────

/// The model of a [`ConnectionInfo`].
pub open spec fn conn_view(c: ConnectionInfo) -> (Seq<Seq<char>>, Seq<Seq<char>>, u64, u64) {
    (
        seq![c.id@, c.network@, c.conn_type@, c.source@, c.destination@, c.host@, c.rule@, c.rule_payload@, c.start@],
        strs_view(c.chains@),
        c.upload,
        c.download,
    )
}

/// The text chains of a connection (the string elements of `chains`).
pub open spec fn text_items(items: Seq<JVal>) -> Seq<Seq<char>>
    decreases items.len(),
{
    if items.len() == 0 {
        Seq::empty()
    } else {
        text_items(items.drop_last()) + match items.last().as_str() { Some(s) => seq![s], None => Seq::empty() }
    }
}

/// A connection as the Clash API describes it: id, network, type, source
/// and destination (`ip:port`), host, rule, rule payload and start as text
/// (empty when missing), the text chain, and the byte counters (0 when missing).
pub open spec fn connection_of(c: JVal) -> (Seq<Seq<char>>, Seq<Seq<char>>, u64, u64) {
    let m = c.field("metadata"@);
    (
        seq![
            str_or(c.field("id"@), Seq::empty()),
            str_or(m.field("network"@), Seq::empty()),
            str_or(m.field("type"@), Seq::empty()),
            str_or(m.field("sourceIP"@), Seq::empty()) + ":"@ + str_or(m.field("sourcePort"@), Seq::empty()),
            str_or(m.field("destinationIP"@), Seq::empty()) + ":"@ + str_or(m.field("destinationPort"@), Seq::empty()),
            str_or(m.field("host"@), Seq::empty()),
            str_or(c.field("rule"@), Seq::empty()),
            str_or(c.field("rulePayload"@), Seq::empty()),
            str_or(c.field("start"@), Seq::empty()),
        ],
        match c.field("chains"@).as_arr() { Some(a) => text_items(a), None => Seq::empty() },
        match c.field("upload"@).as_u64() { Some(n) => n, None => 0 },
        match c.field("download"@).as_u64() { Some(n) => n, None => 0 },
    )
}

/// The connections of a `/connections` reply (none when it lists none).
pub open spec fn connections_of(body: JVal) -> Seq<(Seq<Seq<char>>, Seq<Seq<char>>, u64, u64)> {
    match body.field("connections"@).as_arr() {
        Some(cs) => cs.map_values(|c: JVal| connection_of(c)),
        None => Seq::empty(),
    }
}

fn text_items_of(items: &Vec<Json>) -> (r: Vec<String>)
    ensures
        strs_view(r@) == text_items(jview_seq(items@)),
{
    proof {
        lemma_jview_seq(items@);
    }
    let mut out: Vec<String> = Vec::new();
    let mut i: usize = 0;
    while i < items.len()
        invariant
            0 <= i <= items.len(),
            jview_seq(items@).len() == items@.len(),
            forall|k: int| 0 <= k < items@.len() ==> #[trigger] jview_seq(items@)[k] == items@[k]@,
            strs_view(out@) == text_items(jview_seq(items@).subrange(0, i as int)),
        decreases items.len() - i,
    {
        proof {
            let t = jview_seq(items@).subrange(0, i + 1);
            assert(t.drop_last() =~= jview_seq(items@).subrange(0, i as int));
            assert(t.last() == items@[i as int]@);
        }
        match items[i].as_str() {
            Some(s) => {
                let x = s.to_string();
                proof {
                    assert(strs_view(out@.push(x)) =~= strs_view(out@) + seq![x@]);
                }
                out.push(x);
            },
            None => {
                proof {
                    assert(strs_view(out@) + Seq::<Seq<char>>::empty() =~= strs_view(out@));
                }
            },
        }
        i += 1;
    }
    proof {
        assert(jview_seq(items@).subrange(0, i as int) =~= jview_seq(items@));
    }
    out
}

fn text_at(j: &Json, key: &str) -> (r: String)
    ensures
        r@ == str_or(j@.field(key@), Seq::empty()),
{
    proof {
        reveal_strlit("");
        assert(""@ =~= Seq::<char>::empty());
    }
    j.str_at_or(key, "")
}

/// One connection of a `/connections` reply.
pub fn connection_from(c: &Json) -> (r: ConnectionInfo)
    ensures
        conn_view(r) == connection_of(c@),
{
    let null = Json::Null;
    let m = match c.get("metadata") {
        Some(m) => m,
        None => &null,
    };
    let mut source = text_at(m, "sourceIP");
    push_str_char(&mut source, ':');
    let sp = text_at(m, "sourcePort");
    crate::text::push_str(&mut source, sp.as_str());
    let mut destination = text_at(m, "destinationIP");
    push_str_char(&mut destination, ':');
    let dp = text_at(m, "destinationPort");
    crate::text::push_str(&mut destination, dp.as_str());
    let chains = match c.get("chains") {
        Some(Json::Arr(a)) => text_items_of(a),
        _ => Vec::new(),
    };
    proof {
        reveal_strlit(":");
        assert(":"@ =~= seq![':']);
        match c@.field("chains"@) {
            JVal::Arr(a) => {},
            _ => {
                assert(strs_view(chains@) =~= Seq::<Seq<char>>::empty());
            },
        }
    }
    let r = ConnectionInfo {
        id: text_at(c, "id"),
        network: text_at(m, "network"),
        conn_type: text_at(m, "type"),
        source,
        destination,
        host: text_at(m, "host"),
        rule: text_at(c, "rule"),
        rule_payload: text_at(c, "rulePayload"),
        chains,
        upload: match c.u64_at("upload") {
            Some(n) => n,
            None => 0,
        },
        download: match c.u64_at("download") {
            Some(n) => n,
            None => 0,
        },
        start: text_at(c, "start"),
    };
    proof {
        assert(conn_view(r).0 =~= connection_of(c@).0);
    }
    r
}

fn push_str_char(s: &mut String, c: char)
    ensures
        final(s)@ == old(s)@ + seq![c],
{
    s.push(c);
    proof {
        assert(old(s)@.push(c) =~= old(s)@ + seq![c]);
    }
}

/// The connections of a `/connections` reply.
pub fn connections_from(body: &Json) -> (r: Vec<ConnectionInfo>)
    ensures
        r@.map_values(|c: ConnectionInfo| conn_view(c)) == connections_of(body@),
{
    let cs = match body.get("connections") {
        Some(Json::Arr(cs)) => cs,
        _ => {
            let out: Vec<ConnectionInfo> = Vec::new();
            proof {
                assert(out@.map_values(|c: ConnectionInfo| conn_view(c)) =~= Seq::<(Seq<Seq<char>>, Seq<Seq<char>>, u64, u64)>::empty());
            }
            return out;
        },
    };
    proof {
        lemma_jview_seq(cs@);
        assert(body@.field("connections"@).as_arr() == Some(jview_seq(cs@)));
    }
    let mut out: Vec<ConnectionInfo> = Vec::new();
    let mut i: usize = 0;
    while i < cs.len()
        invariant
            0 <= i <= cs.len(),
            jview_seq(cs@).len() == cs@.len(),
            forall|k: int| 0 <= k < cs@.len() ==> #[trigger] jview_seq(cs@)[k] == cs@[k]@,
            out@.map_values(|c: ConnectionInfo| conn_view(c)) == jview_seq(cs@).subrange(0, i as int).map_values(|c: JVal| connection_of(c)),
        decreases cs.len() - i,
    {
        let c = connection_from(&cs[i]);
        proof {
            assert(out@.push(c).map_values(|c: ConnectionInfo| conn_view(c)) =~= out@.map_values(|c: ConnectionInfo| conn_view(c)).push(conn_view(c)));
            assert(jview_seq(cs@).subrange(0, i + 1).map_values(|c: JVal| connection_of(c)) =~= jview_seq(cs@).subrange(0, i as int).map_values(|c: JVal| connection_of(c)).push(connection_of(cs@[i as int]@)));
        }
        out.push(c);
        i += 1;
    }
    proof {
        assert(jview_seq(cs@).subrange(0, i as int) =~= jview_seq(cs@));
    }
    out
}

} // verus!
