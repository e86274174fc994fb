//! When subscriptions refresh themselves, and when a newer core or client
//! is worth announcing.
use vstd::prelude::*;
use crate::types::{Subscription, SubscriptionView, subs_view, UtcTime};
use crate::text::{trim_start_matches, lines};

verus! {

/// `a / b` rounded toward zero (the division of `i64`), for `b > 0`.
pub open spec fn div_toward_zero(a: int, b: int) -> int {
    if a >= 0 { a / b } else { -((-a) / b) }
}

/// The whole hours from `last` to `now` (negative when `last` is later),
/// as a difference of UTC instants counts them: the exact difference in
/// whole seconds, then in whole hours, each rounded toward zero.
pub open spec fn whole_hours_between(now: UtcTime, last: UtcTime) -> int {
    let d = (now.secs - last.secs) * 1_000_000_000 + (now.nanos - last.nanos);
    div_toward_zero(div_toward_zero(d, 1_000_000_000), 3600)
}

/// The whole hours from `last` to `now`.
pub fn whole_hours(now: UtcTime, last: UtcTime) -> (r: i64)
    ensures
        r == whole_hours_between(now, last),
{
    let d: i128 = (now.secs as i128 - last.secs as i128) * 1_000_000_000 + (now.nanos as i128 - last.nanos as i128);
    if d >= 0 {
        let m = d as u128;
        let h = m / 1_000_000_000 / 3600;
        proof {
            assert(m < 0x8000_0000_0000_0000_0000_0000);
            assert(m / 1_000_000_000 < 0x8000_0000_0000_0000_0000);
        }
        h as i64
    } else {
        let m = (-d) as u128;
        let h = m / 1_000_000_000 / 3600;
        proof {
            assert(m < 0x8000_0000_0000_0000_0000_0000);
            assert(m / 1_000_000_000 < 0x8000_0000_0000_0000_0000);
        }
        -(h as i64)
    }
}

/// A subscription is due for an automatic refresh when it auto-updates with
/// a non-zero interval and was never fetched, or at least that many whole
/// hours have passed since.
pub open spec fn is_due(s: SubscriptionView, now: UtcTime) -> bool {
    s.auto_update && s.update_interval > 0 && match s.last_update {
        None => true,
        Some(last) => whole_hours_between(now, last) >= s.update_interval,
    }
}

/// The (id, url) of every due subscription, in order.
pub open spec fn due_list(subs: Seq<SubscriptionView>, now: UtcTime) -> Seq<(Seq<char>, Seq<char>)>
    decreases subs.len(),
{
    if subs.len() == 0 {
        Seq::empty()
    } else {
        due_list(subs.drop_last(), now) + if is_due(subs.last(), now) { seq![(subs.last().id, subs.last().url)] } else { Seq::empty() }
    }
}

/// The texts of a list of (id, URL) pairs.
pub open spec fn id_urls_view(v: Seq<(String, String)>) -> Seq<(Seq<char>, Seq<char>)> {
    v.map_values(|p: (String, String)| (p.0@, p.1@))
}

/// The subscriptions due for an automatic refresh at `now`.
pub fn due_subscriptions(subs: &Vec<Subscription>, now: UtcTime) -> (r: Vec<(String, String)>)
    ensures
        id_urls_view(r@) == due_list(subs_view(subs@), now),
{
    let mut out: Vec<(String, String)> = Vec::new();
    let mut i: usize = 0;
    while i < subs.len()
        invariant
            0 <= i <= subs.len(),
            id_urls_view(out@) == due_list(subs_view(subs@).subrange(0, i as int), now),
        decreases subs.len() - i,
    {
        proof {
            let t = subs_view(subs@).subrange(0, i + 1);
            assert(t.drop_last() =~= subs_view(subs@).subrange(0, i as int));
            assert(t.last() == subs@[i as int]@);
        }
        let s = &subs[i];
        let due = s.auto_update && s.update_interval > 0 && match s.last_update {
            None => true,
            Some(last) => whole_hours(now, last) >= s.update_interval as i64,
        };
        if due {
            let p = (s.id.clone(), s.url.clone());
            proof {
                assert(id_urls_view(out@.push(p)) =~= id_urls_view(out@) + seq![(s.id@, s.url@)]);
            }
            out.push(p);
        } else {
            proof {
                assert(id_urls_view(out@) + Seq::<(Seq<char>, Seq<char>)>::empty() =~= id_urls_view(out@));
            }
        }
        i += 1;
    }
    proof {
        assert(subs_view(subs@).subrange(0, i as int) =~= subs_view(subs@));
    }
    out
}

/// `div_toward_zero` keeps order for a positive divisor.
proof fn lemma_div_toward_zero_ordered(x: int, y: int, k: int)
    requires
        x <= y,
        0 < k,
    ensures
        div_toward_zero(x, k) <= div_toward_zero(y, k),
{
    if x >= 0 {
        vstd::arithmetic::div_mod::lemma_div_is_ordered(x, y, k);
    } else if y >= 0 {
        vstd::arithmetic::div_mod::lemma_div_pos_is_pos(-x, k);
        vstd::arithmetic::div_mod::lemma_div_pos_is_pos(y, k);
    } else {
        vstd::arithmetic::div_mod::lemma_div_is_ordered(-y, -x, k);
    }
}

/// An instant as nanoseconds since the epoch.
pub open spec fn instant_nanos(t: UtcTime) -> int {
    t.secs * 1_000_000_000 + t.nanos
}

/// Refreshing is what makes a subscription wait: one refreshed at `now` is
/// not due at `now`; and a subscription due at one instant is due at every
/// later one (a later refresh check never skips it).
pub proof fn lemma_due_in_time(s: SubscriptionView, now: UtcTime, later: UtcTime, sub_type: crate::types::SubType, node_count: usize)
    ensures
        !is_due(crate::client::refreshed(s, sub_type, node_count, now), now),
        instant_nanos(now) <= instant_nanos(later) && is_due(s, now) ==> is_due(s, later),
{
    if instant_nanos(now) <= instant_nanos(later) {
        match s.last_update {
            Some(last) => {
                let a = (now.secs - last.secs) * 1_000_000_000 + (now.nanos - last.nanos);
                let b = (later.secs - last.secs) * 1_000_000_000 + (later.nanos - last.nanos);
                assert(a <= b) by (nonlinear_arith)
                    requires
                        now.secs * 1_000_000_000 + now.nanos <= later.secs * 1_000_000_000 + later.nanos,
                        a == (now.secs - last.secs) * 1_000_000_000 + (now.nanos - last.nanos),
                        b == (later.secs - last.secs) * 1_000_000_000 + (later.nanos - last.nanos);
                lemma_div_toward_zero_ordered(a, b, 1_000_000_000);
                lemma_div_toward_zero_ordered(div_toward_zero(a, 1_000_000_000), div_toward_zero(b, 1_000_000_000), 3600);
            },
            None => {},
        }
    }
}

// ─── Update notices ───────────────────────────────────────────────────

/// The last whitespace-separated word of `s` (the version in
/// `sing-box version 1.10.0`), or empty.
pub open spec fn last_word(s: Seq<char>) -> Seq<char>
    decreases s.len(),
{
    let t = crate::text::trim_end(s);
    if t.len() == 0 {
        Seq::empty()
    } else {
        word_before(t, t.len() as int)
    }
}

/// The word that ends at `end` in `s`: the characters after the last
/// whitespace before `end`.
pub open spec fn word_before(s: Seq<char>, end: int) -> Seq<char>
    decreases end,
{
    if end <= 0 {
        s.subrange(0, end)
    } else if crate::text::is_whitespace(s[end - 1]) {
        Seq::empty()
    } else {
        word_before(s, end - 1).push(s[end - 1])
    }
}

/// What a check for a newer core finds.
#[derive(Debug, Clone, Copy, PartialEq, Eq, Structural)]
pub enum CoreNotice {
    /// No core is installed.
    NotInstalled,
    /// The installed core differs from the latest release.
    UpdateAvailable,
    /// The installed core is the latest.
    UpToDate,
}

/// The notice for the installed core's `version` line (none when no core
/// is installed) against the latest release tag (a leading `v` ignored).
pub open spec fn core_notice(installed: Option<Seq<char>>, latest_tag: Seq<char>) -> CoreNotice {
    let v = match installed { Some(s) => last_word(s), None => Seq::empty() };
    if v.len() == 0 {
        CoreNotice::NotInstalled
    } else if v != trim_start_matches(latest_tag, seq!['v']) {
        CoreNotice::UpdateAvailable
    } else {
        CoreNotice::UpToDate
    }
}

/// The last whitespace-separated word of `s`.
pub fn last_word_of(s: &str) -> (r: String)
    ensures
        r@ == last_word(s@),
{
    let cs = crate::text::chars_of(s);
    let mut b: usize = cs.len();
    while b > 0 && crate::text::is_whitespace_char(cs[b - 1])
        invariant
            0 <= b <= cs@.len(),
            cs@ == s@,
            forall|k: int| b <= k < s@.len() ==> crate::text::is_whitespace(#[trigger] s@[k]),
        decreases b,
    {
        b -= 1;
    }
    let ghost t = crate::text::trim_end(s@);
    proof {
        crate::text::lemma_trim_end_sub(s@, b as int);
        let u = s@.subrange(0, b as int);
        if u.len() > 0 {
            assert(u.last() == s@[b - 1]);
        }
        assert(crate::text::trim_end(u) == u);
        assert(t == u);
    }
    if b == 0 {
        return String::new();
    }
    let mut start: usize = b;
    while start > 0 && !crate::text::is_whitespace_char(cs[start - 1])
        invariant
            0 <= start <= b,
            b <= cs@.len(),
            cs@ == s@,
            t == s@.subrange(0, b as int),
            word_before(t, b as int) == word_before(t, start as int) + s@.subrange(start as int, b as int),
        decreases start,
    {
        proof {
            assert(t[start - 1] == s@[start - 1]);
            assert(s@.subrange(start - 1, b as int) =~= seq![s@[start - 1]] + s@.subrange(start as int, b as int));
            assert(word_before(t, start as int) == word_before(t, start - 1).push(s@[start - 1]));
            assert(word_before(t, start - 1).push(s@[start - 1]) + s@.subrange(start as int, b as int) =~= word_before(t, start - 1) + s@.subrange(start - 1, b as int));
        }
        start -= 1;
    }
    proof {
        if start > 0 {
            assert(t[start - 1] == s@[start - 1]);
        }
        assert(word_before(t, start as int) =~= Seq::<char>::empty());
        assert(Seq::<char>::empty() + s@.subrange(start as int, b as int) =~= s@.subrange(start as int, b as int));
    }
    let w = crate::text::slice_range(cs.as_slice(), start, b);
    crate::text::string_of(w.as_slice())
}

/// The notice for a check for a newer core.
pub fn core_update_notice(installed: Option<&str>, latest_tag: &str) -> (r: CoreNotice)
    ensures
        r == core_notice(crate::routing::str_opt(installed), latest_tag@),
{
    let v = match installed {
        Some(s) => last_word_of(s),
        None => String::new(),
    };
    let latest = crate::text::trim_start_matches_str(latest_tag, "v");
    proof {
        reveal_strlit("v");
        assert("v"@ =~= seq!['v']);
    }
    if v.as_str().is_empty() {
        CoreNotice::NotInstalled
    } else if !crate::json::str_eq(v.as_str(), latest.as_str()) {
        CoreNotice::UpdateAvailable
    } else {
        CoreNotice::UpToDate
    }
}

/// A client release is announced when its tag (a leading `v` ignored)
/// differs from the running version.
pub fn app_update_available(release_tag: &str, current: &str) -> (r: bool)
    ensures
        r == (trim_start_matches(release_tag@, seq!['v']) != current@),
{
    let latest = crate::text::trim_start_matches_str(release_tag, "v");
    proof {
        reveal_strlit("v");
        assert("v"@ =~= seq!['v']);
    }
    !crate::json::str_eq(latest.as_str(), current)
}

} // verus!
