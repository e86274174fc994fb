//! The client's bookkeeping of subscriptions, nodes and outbounds: what
//! adding, refreshing and deleting a subscription does to them.
use vstd::prelude::*;
use crate::json::{Json, JVal, jview_seq, lemma_jview_seq, lemma_jview_seq_push, json_eq};
use crate::types::{ProxyNode, NodeView, nodes_view, Subscription, SubscriptionView, subs_view, SubType, UtcTime};
use crate::external::opt_view;

verus! {

// ─── Nodes ────────────────────────────────────────────────────────────

/// The nodes that do not belong to subscription `id`, in order.
pub open spec fn other_nodes(ns: Seq<NodeView>, id: Seq<char>) -> Seq<NodeView>
    decreases ns.len(),
{
    if ns.len() == 0 {
        Seq::empty()
    } else {
        other_nodes(ns.drop_last(), id) + if ns.last().subscription_id == Some(id) { Seq::empty() } else { seq![ns.last()] }
    }
}

/// Whether the node belongs to subscription `id`.
fn belongs_to(n: &ProxyNode, id: &str) -> (r: bool)
    ensures
        r == (n@.subscription_id == Some(id@)),
{
    match &n.subscription_id {
        Some(s) => crate::json::str_eq(s.as_str(), id),
        None => false,
    }
}

/// Removes the nodes of subscription `id`.
pub fn remove_subscription_nodes(nodes: &mut Vec<ProxyNode>, id: &str)
    ensures
        nodes_view(final(nodes)@) == other_nodes(nodes_view(old(nodes)@), id@),
{
    let mut kept: Vec<ProxyNode> = Vec::new();
    let mut i: usize = 0;
    while i < nodes.len()
        invariant
            0 <= i <= nodes.len(),
            nodes@ == old(nodes)@,
            nodes_view(kept@) == other_nodes(nodes_view(nodes@).subrange(0, i as int), id@),
        decreases nodes.len() - i,
    {
        proof {
            let t = nodes_view(nodes@).subrange(0, i + 1);
            assert(t.drop_last() =~= nodes_view(nodes@).subrange(0, i as int));
            assert(t.last() == nodes@[i as int]@);
        }
        if !belongs_to(&nodes[i], id) {
            let c = nodes[i].copy();
            proof {
                assert(nodes_view(kept@.push(c)) =~= nodes_view(kept@) + seq![c@]);
            }
            kept.push(c);
        } else {
            proof {
                assert(nodes_view(kept@) + Seq::<NodeView>::empty() =~= nodes_view(kept@));
            }
        }
        i += 1;
    }
    proof {
        assert(nodes_view(nodes@).subrange(0, i as int) =~= nodes_view(nodes@));
    }
    *nodes = kept;
}

/// Replaces the nodes of subscription `id` with `fresh`: the other
/// subscriptions' nodes stay, in order, and `fresh` follows them.
pub fn replace_subscription_nodes(nodes: &mut Vec<ProxyNode>, id: &str, fresh: Vec<ProxyNode>)
    ensures
        nodes_view(final(nodes)@) == other_nodes(nodes_view(old(nodes)@), id@) + nodes_view(fresh@),
{
    remove_subscription_nodes(nodes, id);
    let mut f = fresh;
    let ghost before = nodes@;
    let ghost fv = f@;
    nodes.append(&mut f);
    proof {
        assert(nodes_view(before + fv) =~= nodes_view(before) + nodes_view(fv));
    }
}

// ─── Outbounds ────────────────────────────────────────────────────────

/// Some fresh outbound has the same `tag` value as `ob` (compared as values,
/// so two outbounds without a tag count as the same).
pub open spec fn same_tag_value(fresh: Seq<JVal>, ob: JVal) -> bool {
    exists|i: int| 0 <= i < fresh.len() && #[trigger] fresh[i].field("tag"@) == ob.field("tag"@)
}

/// `ob` has a text tag that some fresh outbound also has.
pub open spec fn same_text_tag(fresh: Seq<JVal>, ob: JVal) -> bool {
    match ob.field("tag"@).as_str() {
        Some(t) => exists|i: int| 0 <= i < fresh.len() && #[trigger] fresh[i].field("tag"@).as_str() == Some(t),
        None => false,
    }
}

/// The outbounds for which `drop` does not hold, in order.
pub open spec fn kept_outbounds(obs: Seq<JVal>, fresh: Seq<JVal>, by_value: bool) -> Seq<JVal>
    decreases obs.len(),
{
    if obs.len() == 0 {
        Seq::empty()
    } else {
        let ob = obs.last();
        let dropped = if by_value { same_tag_value(fresh, ob) } else { same_text_tag(fresh, ob) };
        kept_outbounds(obs.drop_last(), fresh, by_value) + if dropped { Seq::empty() } else { seq![ob] }
    }
}

/// Whether some fresh outbound has the tag value of `ob` (or, `by_value`
/// false, the text tag of `ob`).
fn tag_clash(fresh: &Vec<Json>, ob: &Json, by_value: bool) -> (r: bool)
    ensures
        r == (if by_value { same_tag_value(jview_seq(fresh@), ob@) } else { same_text_tag(jview_seq(fresh@), ob@) }),
{
    proof {
        lemma_jview_seq(fresh@);
    }
    let null = Json::Null;
    let t = match ob.get("tag") {
        Some(t) => t,
        None => &null,
    };
    let ts = t.as_str();
    if !by_value && ts.is_none() {
        return false;
    }
    proof {
        assert(t@ == ob@.field("tag"@));
    }
    let mut i: usize = 0;
    while i < fresh.len()
        invariant
            0 <= i <= fresh.len(),
            t@ == ob@.field("tag"@),
            null@ == JVal::Null,
            !by_value ==> t@.as_str() is Some,
            jview_seq(fresh@).len() == fresh@.len(),
            forall|k: int| 0 <= k < fresh@.len() ==> #[trigger] jview_seq(fresh@)[k] == fresh@[k]@,
            forall|k: int| 0 <= k < i ==> (if by_value {
                (#[trigger] jview_seq(fresh@)[k]).field("tag"@) != ob@.field("tag"@)
            } else {
                jview_seq(fresh@)[k].field("tag"@).as_str() != ob@.field("tag"@).as_str()
            }),
        decreases fresh.len() - i,
    {
        let ft = match fresh[i].get("tag") {
            Some(x) => x,
            None => &null,
        };
        proof {
            assert(jview_seq(fresh@)[i as int] == fresh@[i as int]@);
            assert(ft@ == jview_seq(fresh@)[i as int].field("tag"@));
        }
        let hit = if by_value {
            json_eq(ft, t)
        } else {
            match (ft.as_str(), t.as_str()) {
                (Some(a), Some(b)) => crate::json::str_eq(a, b),
                _ => false,
            }
        };
        if hit {
            proof {
                if by_value {
                    assert(jview_seq(fresh@)[i as int].field("tag"@) == ob@.field("tag"@));
                } else {
                    assert(jview_seq(fresh@)[i as int].field("tag"@).as_str() == ob@.field("tag"@).as_str());
                }
            }
            return true;
        }
        i += 1;
    }
    false
}

/// Merges freshly parsed outbounds in: the old ones whose tag the fresh ones
/// take are dropped (by tag value when `by_value`, else by text tag), the
/// rest stay in order, and the fresh ones follow.
pub fn merge_outbounds(obs: &mut Vec<Json>, fresh: Vec<Json>, by_value: bool)
    ensures
        jview_seq(final(obs)@) == kept_outbounds(jview_seq(old(obs)@), jview_seq(fresh@), by_value) + jview_seq(fresh@),
{
    proof {
        lemma_jview_seq(obs@);
    }
    let mut kept: Vec<Json> = Vec::new();
    let mut i: usize = 0;
    while i < obs.len()
        invariant
            0 <= i <= obs.len(),
            obs@ == old(obs)@,
            jview_seq(obs@).len() == obs@.len(),
            forall|k: int| 0 <= k < obs@.len() ==> #[trigger] jview_seq(obs@)[k] == obs@[k]@,
            jview_seq(kept@) == kept_outbounds(jview_seq(obs@).subrange(0, i as int), jview_seq(fresh@), by_value),
        decreases obs.len() - i,
    {
        proof {
            let t = jview_seq(obs@).subrange(0, i + 1);
            assert(t.drop_last() =~= jview_seq(obs@).subrange(0, i as int));
            assert(t.last() == obs@[i as int]@);
        }
        if !tag_clash(&fresh, &obs[i], by_value) {
            let c = obs[i].deep_clone();
            proof {
                lemma_jview_seq_push(kept@, c);
                assert(jview_seq(kept@).push(c@) =~= jview_seq(kept@) + seq![c@]);
            }
            kept.push(c);
        } else {
            proof {
                assert(jview_seq(kept@) + Seq::<JVal>::empty() =~= jview_seq(kept@));
            }
        }
        i += 1;
    }
    proof {
        assert(jview_seq(obs@).subrange(0, i as int) =~= jview_seq(obs@));
        lemma_jview_seq(kept@);
        lemma_jview_seq(fresh@);
        lemma_jview_seq(kept@ + fresh@);
        assert(jview_seq(kept@ + fresh@) =~= jview_seq(kept@) + jview_seq(fresh@));
    }
    let mut f = fresh;
    kept.append(&mut f);
    *obs = kept;
}

/// The outbounds whose `subscription_id` is not the text `id`, in order.
pub open spec fn outbounds_not_of(obs: Seq<JVal>, id: Seq<char>) -> Seq<JVal>
    decreases obs.len(),
{
    if obs.len() == 0 {
        Seq::empty()
    } else {
        outbounds_not_of(obs.drop_last(), id)
            + if obs.last().field("subscription_id"@).as_str() == Some(id) { Seq::empty() } else { seq![obs.last()] }
    }
}

/// Removes the outbounds marked with subscription `id`.
pub fn remove_subscription_outbounds(obs: &mut Vec<Json>, id: &str)
    ensures
        jview_seq(final(obs)@) == outbounds_not_of(jview_seq(old(obs)@), id@),
{
    proof {
        lemma_jview_seq(obs@);
    }
    let mut kept: Vec<Json> = Vec::new();
    let mut i: usize = 0;
    while i < obs.len()
        invariant
            0 <= i <= obs.len(),
            obs@ == old(obs)@,
            jview_seq(obs@).len() == obs@.len(),
            forall|k: int| 0 <= k < obs@.len() ==> #[trigger] jview_seq(obs@)[k] == obs@[k]@,
            jview_seq(kept@) == outbounds_not_of(jview_seq(obs@).subrange(0, i as int), id@),
        decreases obs.len() - i,
    {
        proof {
            let t = jview_seq(obs@).subrange(0, i + 1);
            assert(t.drop_last() =~= jview_seq(obs@).subrange(0, i as int));
            assert(t.last() == obs@[i as int]@);
        }
        let marked = match obs[i].str_at("subscription_id") {
            Some(s) => crate::json::str_eq(s.as_str(), id),
            None => false,
        };
        if !marked {
            let c = obs[i].deep_clone();
            proof {
                lemma_jview_seq_push(kept@, c);
                assert(jview_seq(kept@).push(c@) =~= jview_seq(kept@) + seq![c@]);
            }
            kept.push(c);
        } else {
            proof {
                assert(jview_seq(kept@) + Seq::<JVal>::empty() =~= jview_seq(kept@));
            }
        }
        i += 1;
    }
    proof {
        assert(jview_seq(obs@).subrange(0, i as int) =~= jview_seq(obs@));
    }
    *obs = kept;
}

// ─── Subscriptions ────────────────────────────────────────────────────

/// Index of the first subscription with id `id`, or the length.
pub open spec fn first_sub(subs: Seq<SubscriptionView>, id: Seq<char>) -> int
    decreases subs.len(),
{
    if subs.len() == 0 {
        0
    } else if subs[0].id == id {
        0
    } else {
        1 + first_sub(subs.drop_first(), id)
    }
}

proof fn lemma_first_sub(subs: Seq<SubscriptionView>, id: Seq<char>)
    ensures
        0 <= first_sub(subs, id) <= subs.len(),
        first_sub(subs, id) < subs.len() ==> subs[first_sub(subs, id)].id == id,
        forall|k: int| 0 <= k < first_sub(subs, id) ==> subs[k].id != id,
    decreases subs.len(),
{
    if subs.len() > 0 && subs[0].id != id {
        lemma_first_sub(subs.drop_first(), id);
        assert forall|k: int| 0 <= k < first_sub(subs, id) implies subs[k].id != id by {
            if k > 0 {
                assert(subs[k] == subs.drop_first()[k - 1]);
            }
        }
    }
}

/// Position of the first subscription with id `id`.
fn find_sub(subs: &Vec<Subscription>, id: &str) -> (r: usize)
    ensures
        r == first_sub(subs_view(subs@), id@),
        r <= subs@.len(),
{
    proof {
        lemma_first_sub(subs_view(subs@), id@);
    }
    let mut i: usize = 0;
    while i < subs.len()
        invariant
            0 <= i <= subs.len(),
            forall|k: int| 0 <= k < i ==> subs@[k].id@ != id@,
            0 <= first_sub(subs_view(subs@), id@) <= subs@.len(),
            first_sub(subs_view(subs@), id@) < subs@.len() ==> subs@[first_sub(subs_view(subs@), id@)].id@ == id@,
            forall|k: int| 0 <= k < first_sub(subs_view(subs@), id@) ==> subs_view(subs@)[k].id != id@,
        decreases subs.len() - i,
    {
        if crate::json::str_eq(subs[i].id.as_str(), id) {
            proof {
                let f = first_sub(subs_view(subs@), id@);
                if f < i {
                    assert(subs@[f].id@ == id@);
                }
                if f > i {
                    assert(subs_view(subs@)[i as int].id == id@);
                }
            }
            return i;
        }
        i += 1;
    }
    proof {
        let f = first_sub(subs_view(subs@), id@);
        if f < subs@.len() {
            assert(subs@[f].id@ == id@);
        }
    }
    i
}

/// The URL of the first subscription with id `id`.
pub fn subscription_url(subs: &Vec<Subscription>, id: &str) -> (r: Option<String>)
    ensures
        match r {
            Some(u) => first_sub(subs_view(subs@), id@) < subs@.len() && u@ == subs@[first_sub(subs_view(subs@), id@)].url@,
            None => first_sub(subs_view(subs@), id@) == subs@.len(),
        },
{
    let k = find_sub(subs, id);
    if k < subs.len() {
        Some(subs[k].url.clone())
    } else {
        None
    }
}

/// A subscription just added: it refreshes itself automatically every 24
/// hours, and was fetched at `now`.
pub fn new_subscription(id: String, name: String, url: String, sub_type: SubType, node_count: usize, now: UtcTime) -> (r: Subscription)
    ensures
        r@ == (SubscriptionView {
            id: id@,
            name: name@,
            url: url@,
            sub_type,
            node_count,
            last_update: Some(now),
            auto_update: true,
            update_interval: 24,
        }),
{
    Subscription { id, name, url, sub_type, node_count, last_update: Some(now), auto_update: true, update_interval: 24 }
}

/// The subscription after a refresh: new format, node count and time.
pub open spec fn refreshed(s: SubscriptionView, sub_type: SubType, node_count: usize, now: UtcTime) -> SubscriptionView {
    SubscriptionView { sub_type, node_count, last_update: Some(now), ..s }
}

/// Records a refresh of the first subscription with id `id` and returns it;
/// `None`, with nothing changed, when there is none.
pub fn record_refresh(subs: &mut Vec<Subscription>, id: &str, sub_type: SubType, node_count: usize, now: UtcTime) -> (r: Option<Subscription>)
    ensures
        ({
            let k = first_sub(subs_view(old(subs)@), id@);
            if k < old(subs)@.len() {
                &&& subs_view(final(subs)@) == subs_view(old(subs)@).update(k, refreshed(old(subs)@[k]@, sub_type, node_count, now))
                &&& r matches Some(s) && s@ == refreshed(old(subs)@[k]@, sub_type, node_count, now)
            } else {
                &&& subs_view(final(subs)@) == subs_view(old(subs)@)
                &&& r is None
            }
        }),
{
    let k = find_sub(subs, id);
    if k < subs.len() {
        let mut s = subs[k].copy();
        s.sub_type = sub_type;
        s.node_count = node_count;
        s.last_update = Some(now);
        let out = s.copy();
        let ghost before = subs@;
        subs.set(k, s);
        proof {
            assert(subs_view(subs@) =~= subs_view(before).update(k as int, out@));
        }
        Some(out)
    } else {
        None
    }
}

/// The subscription with new auto-update settings.
pub open spec fn with_settings(s: SubscriptionView, auto_update: bool, update_interval: u32) -> SubscriptionView {
    SubscriptionView { auto_update, update_interval, ..s }
}

/// Sets the auto-update settings of the first subscription with id `id`;
/// `false`, with nothing changed, when there is none.
pub fn save_subscription_settings(subs: &mut Vec<Subscription>, id: &str, auto_update: bool, update_interval: u32) -> (r: bool)
    ensures
        ({
            let k = first_sub(subs_view(old(subs)@), id@);
            &&& r == (k < old(subs)@.len())
            &&& r ==> subs_view(final(subs)@) == subs_view(old(subs)@).update(k, with_settings(old(subs)@[k]@, auto_update, update_interval))
            &&& !r ==> subs_view(final(subs)@) == subs_view(old(subs)@)
        }),
{
    let k = find_sub(subs, id);
    if k < subs.len() {
        let mut s = subs[k].copy();
        s.auto_update = auto_update;
        s.update_interval = update_interval;
        let ghost sv = s@;
        let ghost before = subs@;
        subs.set(k, s);
        proof {
            assert(subs_view(subs@) =~= subs_view(before).update(k as int, sv));
        }
        true
    } else {
        false
    }
}

/// The subscriptions whose id is not `id`, in order.
pub open spec fn subs_without(subs: Seq<SubscriptionView>, id: Seq<char>) -> Seq<SubscriptionView>
    decreases subs.len(),
{
    if subs.len() == 0 {
        Seq::empty()
    } else {
        subs_without(subs.drop_last(), id) + if subs.last().id == id { Seq::empty() } else { seq![subs.last()] }
    }
}

/// Removes every subscription with id `id`.
pub fn remove_subscription(subs: &mut Vec<Subscription>, id: &str)
    ensures
        subs_view(final(subs)@) == subs_without(subs_view(old(subs)@), id@),
{
    let mut kept: Vec<Subscription> = Vec::new();
    let mut i: usize = 0;
    while i < subs.len()
        invariant
            0 <= i <= subs.len(),
            subs@ == old(subs)@,
            subs_view(kept@) == subs_without(subs_view(subs@).subrange(0, i as int), id@),
        decreases subs.len() - i,
    {
        proof {
            let t = subs_view(subs@).subrange(0, i + 1);
            assert(t.drop_last() =~= subs_view(subs@).subrange(0, i as int));
            assert(t.last() == subs@[i as int]@);
        }
        if !crate::json::str_eq(subs[i].id.as_str(), id) {
            let c = subs[i].copy();
            proof {
                assert(subs_view(kept@.push(c)) =~= subs_view(kept@) + seq![c@]);
            }
            kept.push(c);
        } else {
            proof {
                assert(subs_view(kept@) + Seq::<SubscriptionView>::empty() =~= subs_view(kept@));
            }
        }
        i += 1;
    }
    proof {
        assert(subs_view(subs@).subrange(0, i as int) =~= subs_view(subs@));
    }
    *subs = kept;
}

// ─── Laws of the bookkeeping ──────────────────────────────────────────

/// The nodes of subscription `sid`, in order.
pub open spec fn nodes_of(ns: Seq<NodeView>, sid: Seq<char>) -> Seq<NodeView>
    decreases ns.len(),
{
    if ns.len() == 0 {
        Seq::empty()
    } else {
        nodes_of(ns.drop_last(), sid) + if ns.last().subscription_id == Some(sid) { seq![ns.last()] } else { Seq::empty() }
    }
}

proof fn lemma_nodes_of_concat(a: Seq<NodeView>, b: Seq<NodeView>, sid: Seq<char>)
    ensures
        nodes_of(a + b, sid) == nodes_of(a, sid) + nodes_of(b, sid),
    decreases b.len(),
{
    if b.len() == 0 {
        assert(a + b =~= a);
        assert(nodes_of(a, sid) + nodes_of(b, sid) =~= nodes_of(a, sid));
    } else {
        lemma_nodes_of_concat(a, b.drop_last(), sid);
        assert((a + b).drop_last() =~= a + b.drop_last());
        assert((a + b).last() == b.last());
        let tail = if b.last().subscription_id == Some(sid) { seq![b.last()] } else { Seq::<NodeView>::empty() };
        assert(nodes_of(a, sid) + nodes_of(b.drop_last(), sid) + tail =~= nodes_of(a, sid) + (nodes_of(b.drop_last(), sid) + tail));
    }
}

proof fn lemma_nodes_of_single(n: NodeView, sid: Seq<char>)
    ensures
        nodes_of(seq![n], sid) == (if n.subscription_id == Some(sid) { seq![n] } else { Seq::<NodeView>::empty() }),
{
    assert(seq![n].drop_last() =~= Seq::<NodeView>::empty());
    assert(seq![n].last() == n);
    assert(nodes_of(Seq::<NodeView>::empty(), sid) == Seq::<NodeView>::empty());
    assert(Seq::<NodeView>::empty() + (if n.subscription_id == Some(sid) { seq![n] } else { Seq::<NodeView>::empty() })
        =~= (if n.subscription_id == Some(sid) { seq![n] } else { Seq::<NodeView>::empty() }));
}

proof fn lemma_nodes_of_others(ns: Seq<NodeView>, id: Seq<char>, sid: Seq<char>)
    ensures
        sid != id ==> nodes_of(other_nodes(ns, id), sid) == nodes_of(ns, sid),
        nodes_of(other_nodes(ns, id), id) == Seq::<NodeView>::empty(),
    decreases ns.len(),
{
    if ns.len() > 0 {
        lemma_nodes_of_others(ns.drop_last(), id, sid);
        let rest = other_nodes(ns.drop_last(), id);
        let n = ns.last();
        if n.subscription_id == Some(id) {
            assert(other_nodes(ns, id) =~= rest);
            assert(nodes_of(ns, id) == nodes_of(ns.drop_last(), id) + seq![n]);
            if sid != id {
                assert(nodes_of(ns, sid) =~= nodes_of(ns.drop_last(), sid));
            }
        } else {
            assert(other_nodes(ns, id) =~= rest + seq![n]);
            lemma_nodes_of_concat(rest, seq![n], sid);
            lemma_nodes_of_concat(rest, seq![n], id);
            lemma_nodes_of_single(n, sid);
            lemma_nodes_of_single(n, id);
            assert(nodes_of(rest, id) + Seq::<NodeView>::empty() =~= Seq::<NodeView>::empty());
        }
    }
}

proof fn lemma_nodes_of_fresh(fresh: Seq<NodeView>, id: Seq<char>, sid: Seq<char>)
    requires
        forall|i: int| 0 <= i < fresh.len() ==> #[trigger] fresh[i].subscription_id == Some(id),
    ensures
        sid != id ==> nodes_of(fresh, sid) == Seq::<NodeView>::empty(),
        nodes_of(fresh, id) == fresh,
    decreases fresh.len(),
{
    if fresh.len() > 0 {
        let p = fresh.drop_last();
        assert forall|i: int| 0 <= i < p.len() implies #[trigger] p[i].subscription_id == Some(id) by {
            assert(p[i] == fresh[i]);
        }
        lemma_nodes_of_fresh(p, id, sid);
        assert(fresh.last() == fresh[fresh.len() - 1]);
        assert(p + seq![fresh.last()] =~= fresh);
    }
}

/// Refreshing subscription `id` with nodes that all belong to it leaves
/// every other subscription's nodes exactly as they were, and the
/// subscription's own nodes are then exactly the fresh ones.
pub proof fn lemma_refresh_keeps_others(ns: Seq<NodeView>, id: Seq<char>, fresh: Seq<NodeView>, sid: Seq<char>)
    requires
        forall|i: int| 0 <= i < fresh.len() ==> #[trigger] fresh[i].subscription_id == Some(id),
    ensures
        sid != id ==> nodes_of(other_nodes(ns, id) + fresh, sid) == nodes_of(ns, sid),
        nodes_of(other_nodes(ns, id) + fresh, id) == fresh,
{
    lemma_nodes_of_concat(other_nodes(ns, id), fresh, sid);
    lemma_nodes_of_concat(other_nodes(ns, id), fresh, id);
    lemma_nodes_of_others(ns, id, sid);
    lemma_nodes_of_fresh(fresh, id, sid);
    assert(Seq::<NodeView>::empty() + fresh =~= fresh);
    if sid != id {
        assert(nodes_of(ns, sid) + Seq::<NodeView>::empty() =~= nodes_of(ns, sid));
    }
}

/// Whether a fresh outbound takes the place of `ob` in a merge.
pub open spec fn retagged(fresh: Seq<JVal>, ob: JVal, by_value: bool) -> bool {
    if by_value { same_tag_value(fresh, ob) } else { same_text_tag(fresh, ob) }
}

/// After a merge, no earlier outbound keeps a tag that a fresh one has (by
/// value, or by text): every kept outbound was there before and no fresh
/// outbound takes its place, and every earlier outbound that no fresh one
/// takes the place of is kept.
pub proof fn lemma_merge_drops_retagged(obs: Seq<JVal>, fresh: Seq<JVal>, by_value: bool)
    ensures
        forall|i: int| 0 <= i < kept_outbounds(obs, fresh, by_value).len() ==> {
            &&& !retagged(fresh, #[trigger] kept_outbounds(obs, fresh, by_value)[i], by_value)
            &&& obs.contains(kept_outbounds(obs, fresh, by_value)[i])
        },
        forall|j: int| 0 <= j < obs.len() && !retagged(fresh, #[trigger] obs[j], by_value)
            ==> kept_outbounds(obs, fresh, by_value).contains(obs[j]),
    decreases obs.len(),
{
    if obs.len() > 0 {
        lemma_merge_drops_retagged(obs.drop_last(), fresh, by_value);
        let prev = kept_outbounds(obs.drop_last(), fresh, by_value);
        let cur = kept_outbounds(obs, fresh, by_value);
        assert forall|i: int| 0 <= i < cur.len() implies {
            &&& !retagged(fresh, #[trigger] cur[i], by_value)
            &&& obs.contains(cur[i])
        } by {
            if i < prev.len() {
                assert(cur[i] == prev[i]);
                let j = choose|j: int| 0 <= j < obs.drop_last().len() && obs.drop_last()[j] == prev[i];
                assert(obs[j] == prev[i]);
            } else {
                assert(cur[i] == obs.last());
                assert(obs[obs.len() - 1] == obs.last());
            }
        }
        assert forall|j: int| 0 <= j < obs.len() && !retagged(fresh, #[trigger] obs[j], by_value)
            implies cur.contains(obs[j]) by {
            if j < obs.len() - 1 {
                assert(obs.drop_last()[j] == obs[j]);
                let k = choose|k: int| 0 <= k < prev.len() && prev[k] == obs[j];
                assert(cur[k] == prev[k]);
            } else {
                assert(cur[cur.len() - 1] == obs.last());
            }
        }
    }
}

} // verus!
