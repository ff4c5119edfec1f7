//! What holds of the cookie jar across stores and queries.
use vstd::prelude::*;
use crate::cookie::CookieView;
use crate::cookie_container::{
    after_query, cookies_sent, domain_match, evicted_on_arrival, has_key, header_values, is_expired,
    keys_unique, kept, normalized, pair_text, rejects_http_only, removes, same_key, stored_all,
    stored_one, target_domain, target_path, unexpired, upsert, EntryView, JarView,
};
use crate::request_url::UrlView;
use crate::text::{lemma_lower_idempotent, lower_seq};

verus! {

/// Every entry that `kept` keeps is one that `keep` accepts.
pub proof fn lemma_kept_all(s: Seq<EntryView>, keep: spec_fn(EntryView) -> bool)
    ensures
        forall|k: int| 0 <= k < kept(s, keep).len() ==> keep(#[trigger] kept(s, keep)[k]),
    decreases s.len(),
{
    if s.len() > 0 {
        lemma_kept_all(s.drop_last(), keep);
        let r = kept(s.drop_last(), keep);
        assert forall|k: int| 0 <= k < kept(s, keep).len() implies keep(#[trigger] kept(s, keep)[k]) by {
            if k < r.len() {
                assert(kept(s, keep)[k] == r[k]);
            }
        }
    }
}

/// Upsert keeps the keys unique, and the new entry is in the result.
pub proof fn lemma_upsert(s: Seq<EntryView>, e: EntryView)
    requires
        keys_unique(s),
    ensures
        keys_unique(upsert(s, e)),
        exists|i: int| 0 <= i < upsert(s, e).len() && upsert(s, e)[i] == e,
{
    let t = upsert(s, e);
    if has_key(s, e) {
        let i = choose|i: int| 0 <= i < s.len() && same_key(#[trigger] s[i], e);
        assert(t[i] == e);
        assert forall|a: int, b: int| 0 <= a < t.len() && 0 <= b < t.len() && a != b implies !same_key(#[trigger] t[a], #[trigger] t[b]) by {
            if a == i {
                assert(!same_key(s[b], s[i]));
            } else if b == i {
                assert(!same_key(s[a], s[i]));
            } else {
                assert(!same_key(s[a], s[b]));
            }
        }
    } else {
        assert(t[s.len() as int] == e);
        assert forall|a: int, b: int| 0 <= a < t.len() && 0 <= b < t.len() && a != b implies !same_key(#[trigger] t[a], #[trigger] t[b]) by {
            if a < s.len() && b < s.len() {
                assert(!same_key(s[a], s[b]));
            } else if a < s.len() {
                assert(!same_key(s[a], e));
            } else {
                assert(!same_key(s[b], e));
            }
        }
    }
}

/// The entry that storing `c` from a response of `u` at `now` writes, where
/// it writes one.
pub open spec fn entry_for(match_domain_only: bool, no_expire_check: bool, c: CookieView, u: UrlView, now: i64) -> EntryView {
    EntryView {
        domain: lower_seq(target_domain(c, u)->Some_0),
        path: target_path(match_domain_only, c, u),
        cookie: if no_expire_check { c } else { normalized(c, now) },
    }
}

/// Storing two cookies with the same domain, path and name, in two stores
/// one after the other (at `now1`, then at `now2`), leaves exactly one
/// entry under that key, holding the value of the later one, and the
/// second store does not change the number of entries.
pub proof fn lemma_store_twice_keeps_latest(
    s: Seq<EntryView>,
    match_domain_only: bool,
    no_expire_check: bool,
    c1: CookieView,
    c2: CookieView,
    u: UrlView,
    now1: i64,
    now2: i64,
)
    requires
        keys_unique(s),
        c1.name == c2.name,
        c1.domain == c2.domain,
        c1.path == c2.path,
        target_domain(c1, u) is Some,
        !rejects_http_only(c1, u),
        !rejects_http_only(c2, u),
        no_expire_check || (!evicted_on_arrival(c1, now1) && !evicted_on_arrival(c2, now2)),
    ensures
        ({
            let r1 = stored_all(s, match_domain_only, no_expire_check, seq![c1], u, now1);
            let r = stored_all(r1, match_domain_only, no_expire_check, seq![c2], u, now2);
            let e = entry_for(match_domain_only, no_expire_check, c2, u, now2);
            &&& keys_unique(r)
            &&& exists|i: int| 0 <= i < r.len() && r[i] == e
            &&& e.cookie.value == c2.value
            &&& forall|i: int, j: int| 0 <= i < r.len() && 0 <= j < r.len() && same_key(#[trigger] r[i], e) && same_key(#[trigger] r[j], e) ==> i == j
            &&& r.len() == r1.len()
        }),
{
    assert(seq![c1].len() == 1 && seq![c1].last() == c1);
    assert(seq![c1].drop_last() =~= Seq::<CookieView>::empty());
    assert(seq![c2].len() == 1 && seq![c2].last() == c2);
    assert(seq![c2].drop_last() =~= Seq::<CookieView>::empty());
    let e1 = entry_for(match_domain_only, no_expire_check, c1, u, now1);
    let e2 = entry_for(match_domain_only, no_expire_check, c2, u, now2);
    assert(stored_all(s, match_domain_only, no_expire_check, Seq::<CookieView>::empty(), u, now1) == s);
    let s1 = stored_all(s, match_domain_only, no_expire_check, seq![c1], u, now1);
    assert(s1 == stored_one(s, match_domain_only, no_expire_check, c1, u, now1));
    assert(s1 == upsert(s, e1));
    lemma_upsert(s, e1);
    assert(stored_all(s1, match_domain_only, no_expire_check, Seq::<CookieView>::empty(), u, now2) == s1);
    let r = stored_all(s1, match_domain_only, no_expire_check, seq![c2], u, now2);
    assert(r == stored_one(s1, match_domain_only, no_expire_check, c2, u, now2));
    assert(r == upsert(s1, e2));
    lemma_upsert(s1, e2);
    let k = choose|k: int| 0 <= k < s1.len() && s1[k] == e1;
    assert(same_key(s1[k], e2));
    assert(has_key(s1, e2));
    assert forall|i: int, j: int| 0 <= i < r.len() && 0 <= j < r.len() && same_key(#[trigger] r[i], e2) && same_key(#[trigger] r[j], e2) implies i == j by {
        if i != j {
            assert(!same_key(r[i], r[j]));
        }
    }
}

/// Storing a cookie that is already gone (`Max-Age` of zero or less, or a
/// past expiry) leaves no entry under its domain, path and name.
pub proof fn lemma_expired_cookie_not_stored(s: Seq<EntryView>, match_domain_only: bool, c: CookieView, u: UrlView, now: i64)
    requires
        evicted_on_arrival(c, now),
        !rejects_http_only(c, u),
        target_domain(c, u) is Some,
    ensures
        ({
            let r = stored_one(s, match_domain_only, false, c, u, now);
            forall|i: int| 0 <= i < r.len() ==> !(#[trigger] r[i].domain == lower_seq(target_domain(c, u)->Some_0)
                && r[i].path == target_path(match_domain_only, c, u) && r[i].cookie.name == c.name)
        }),
{
    let d = target_domain(c, u)->Some_0;
    let p = target_path(match_domain_only, c, u);
    let keep = |e: EntryView| !removes(e, d, p, c.name);
    lemma_kept_all(s, keep);
    lemma_lower_idempotent(d);
    let r = stored_one(s, match_domain_only, false, c, u, now);
    assert(r == kept(s, keep));
    assert forall|i: int| 0 <= i < r.len() implies !(#[trigger] r[i].domain == lower_seq(d) && r[i].path == p && r[i].cookie.name == c.name) by {
        assert(keep(r[i]));
        if r[i].domain == lower_seq(d) {
            assert(domain_match(r[i].domain, d));
        }
    }
}

/// Every text of `header_values` is `name=value` of one of the entries.
proof fn lemma_header_values_from(s: Seq<EntryView>, j: JarView, u: UrlView, h: Seq<char>)
    ensures
        forall|k: int| 0 <= k < header_values(s, j, u, h).len() ==> exists|i: int| 0 <= i < s.len() && #[trigger] header_values(s, j, u, h)[k] == pair_text(s[i].cookie),
    decreases s.len(),
{
    if s.len() > 0 {
        let init = s.drop_last();
        lemma_header_values_from(init, j, u, h);
        let r = header_values(init, j, u, h);
        assert forall|k: int| 0 <= k < header_values(s, j, u, h).len() implies exists|i: int| 0 <= i < s.len() && #[trigger] header_values(s, j, u, h)[k] == pair_text(s[i].cookie) by {
            if k < r.len() {
                assert(header_values(s, j, u, h)[k] == r[k]);
                let i = choose|i: int| 0 <= i < init.len() && r[k] == pair_text(init[i].cookie);
                assert(init[i] == s[i]);
            } else {
                assert(header_values(s, j, u, h)[k] == pair_text(s[s.len() - 1].cookie));
            }
        }
    }
}

/// With expiry checks on, a query at `t` for a URL with a host
/// leaves no cookie that has expired at `t`, and every text it returns is
/// `name=value` of a cookie that is left.
pub proof fn lemma_query_drops_expired(j: JarView, q: UrlView, t: i64)
    requires
        !j.no_expire_check,
        q.host is Some,
    ensures
        forall|i: int| 0 <= i < after_query(j, q, t).entries.len() ==> !is_expired(#[trigger] after_query(j, q, t).entries[i].cookie, t),
        forall|k: int| 0 <= k < cookies_sent(j, q, t).len() ==> exists|i: int| 0 <= i < after_query(j, q, t).entries.len()
            && #[trigger] cookies_sent(j, q, t)[k] == pair_text(after_query(j, q, t).entries[i].cookie),
{
    let keep = |e: EntryView| !is_expired(e.cookie, t);
    lemma_kept_all(j.entries, keep);
    let a = after_query(j, q, t).entries;
    assert(a == kept(j.entries, keep));
    assert forall|i: int| 0 <= i < a.len() implies !is_expired(#[trigger] a[i].cookie, t) by {
        assert(keep(a[i]));
    }
    lemma_header_values_from(a, j, q, q.host->Some_0);
}

/// The texts that a query returns for the cookies `cs` when each of them
/// goes with the request: all of them in order, but for `Secure` ones on a
/// scheme other than `https` unless `Secure` is ignored.
pub open spec fn expected_pairs(cs: Seq<CookieView>, ignore_secure: bool, https: bool) -> Seq<Seq<char>>
    decreases cs.len(),
{
    if cs.len() == 0 {
        Seq::empty()
    } else {
        let rest = expected_pairs(cs.drop_last(), ignore_secure, https);
        if ignore_secure || cs.last().secure != Some(true) || https {
            rest.push(pair_text(cs.last()))
        } else {
            rest
        }
    }
}

/// The cookies can be stored side by side and are sent with a query for
/// `q` at `t`: each is accepted, is not gone on arrival and still lives at
/// `t` (unless expiry checks are off), has a domain to go under, and is
/// stored under a key of its own where `q` finds it.
pub open spec fn round_trip_ready(
    match_domain_only: bool,
    no_expire_check: bool,
    cs: Seq<CookieView>,
    u: UrlView,
    now: i64,
    q: UrlView,
    t: i64,
) -> bool {
    &&& q.host is Some
    &&& forall|i: int| 0 <= i < cs.len() ==> {
        &&& !rejects_http_only(#[trigger] cs[i], u)
        &&& target_domain(cs[i], u) is Some
        &&& (no_expire_check || (!evicted_on_arrival(cs[i], now)
            && !is_expired(entry_for(match_domain_only, no_expire_check, cs[i], u, now).cookie, t)))
        &&& domain_match(entry_for(match_domain_only, no_expire_check, cs[i], u, now).domain, q.host->Some_0)
        &&& entry_for(match_domain_only, no_expire_check, cs[i], u, now).path == (if match_domain_only { Seq::<char>::empty() } else { q.path })
    }
    &&& forall|i: int, k: int| 0 <= i < cs.len() && 0 <= k < cs.len() && i != k ==> !same_key(
        entry_for(match_domain_only, no_expire_check, #[trigger] cs[i], u, now),
        entry_for(match_domain_only, no_expire_check, #[trigger] cs[k], u, now),
    )
}

proof fn lemma_round_trip_ready_prefix(
    match_domain_only: bool,
    no_expire_check: bool,
    cs: Seq<CookieView>,
    u: UrlView,
    now: i64,
    q: UrlView,
    t: i64,
)
    requires
        cs.len() > 0,
        round_trip_ready(match_domain_only, no_expire_check, cs, u, now, q, t),
    ensures
        round_trip_ready(match_domain_only, no_expire_check, cs.drop_last(), u, now, q, t),
{
    let init = cs.drop_last();
    assert forall|i: int| 0 <= i < init.len() implies init[i] == cs[i] by {}
    assert forall|i: int, k: int| 0 <= i < init.len() && 0 <= k < init.len() && i != k implies !same_key(
        entry_for(match_domain_only, no_expire_check, #[trigger] init[i], u, now),
        entry_for(match_domain_only, no_expire_check, #[trigger] init[k], u, now),
    ) by {
        assert(init[i] == cs[i] && init[k] == cs[k]);
    }
}

proof fn lemma_stored_side_by_side(
    match_domain_only: bool,
    no_expire_check: bool,
    cs: Seq<CookieView>,
    u: UrlView,
    now: i64,
    q: UrlView,
    t: i64,
)
    requires
        round_trip_ready(match_domain_only, no_expire_check, cs, u, now, q, t),
    ensures
        stored_all(Seq::empty(), match_domain_only, no_expire_check, cs, u, now)
            == cs.map_values(|c: CookieView| entry_for(match_domain_only, no_expire_check, c, u, now)),
    decreases cs.len(),
{
    let f = |c: CookieView| entry_for(match_domain_only, no_expire_check, c, u, now);
    if cs.len() == 0 {
        assert(cs.map_values(f) =~= Seq::<EntryView>::empty());
    } else {
        let init = cs.drop_last();
        lemma_round_trip_ready_prefix(match_domain_only, no_expire_check, cs, u, now, q, t);
        lemma_stored_side_by_side(match_domain_only, no_expire_check, init, u, now, q, t);
        let s = init.map_values(f);
        let c = cs.last();
        let e = f(c);
        assert(c == cs[cs.len() - 1]);
        assert(no_expire_check || !evicted_on_arrival(c, now));
        assert(!has_key(s, e)) by {
            if has_key(s, e) {
                let i = choose|i: int| 0 <= i < s.len() && same_key(#[trigger] s[i], e);
                assert(s[i] == f(cs[i]));
                assert(!same_key(f(cs[i]), f(cs[cs.len() - 1])));
            }
        }
        assert(cs.map_values(f) =~= s.push(e));
    }
}

proof fn lemma_all_unexpired(s: Seq<EntryView>, t: i64)
    requires
        forall|i: int| 0 <= i < s.len() ==> !is_expired(#[trigger] s[i].cookie, t),
    ensures
        unexpired(s, t) == s,
    decreases s.len(),
{
    if s.len() > 0 {
        let init = s.drop_last();
        assert forall|i: int| 0 <= i < init.len() implies !is_expired(#[trigger] init[i].cookie, t) by {
            assert(init[i] == s[i]);
        }
        lemma_all_unexpired(init, t);
        assert(!is_expired(s[s.len() - 1].cookie, t));
        assert(init.push(s.last()) =~= s);
    }
}

proof fn lemma_sent_in_order(
    j: JarView,
    cs: Seq<CookieView>,
    u: UrlView,
    now: i64,
    q: UrlView,
    t: i64,
)
    requires
        round_trip_ready(j.match_domain_only, j.no_expire_check, cs, u, now, q, t),
    ensures
        header_values(
            cs.map_values(|c: CookieView| entry_for(j.match_domain_only, j.no_expire_check, c, u, now)),
            j,
            q,
            q.host->Some_0,
        ) == expected_pairs(cs, j.ignore_secure, q.scheme == "https"@),
    decreases cs.len(),
{
    let f = |c: CookieView| entry_for(j.match_domain_only, j.no_expire_check, c, u, now);
    if cs.len() > 0 {
        let init = cs.drop_last();
        lemma_round_trip_ready_prefix(j.match_domain_only, j.no_expire_check, cs, u, now, q, t);
        lemma_sent_in_order(j, init, u, now, q, t);
        assert(cs.map_values(f).drop_last() =~= init.map_values(f));
        let c = cs.last();
        assert(c == cs[cs.len() - 1]);
        assert(cs.map_values(f).last() == f(c));
        assert(pair_text(f(c).cookie) == pair_text(c));
    } else {
        assert(cs.map_values(f) =~= Seq::<EntryView>::empty());
    }
}

/// An empty jar that stores cookies with keys of
/// their own, all of which go with a request to `q`, answers a query for
/// `q` with their `name=value` texts, each once and in the order stored,
/// without the `Secure` ones when the scheme of `q` is not `https` (unless
/// `Secure` is ignored).
pub proof fn lemma_round_trip(
    match_domain_only: bool,
    no_expire_check: bool,
    ignore_secure: bool,
    cs: Seq<CookieView>,
    u: UrlView,
    now: i64,
    q: UrlView,
    t: i64,
)
    requires
        round_trip_ready(match_domain_only, no_expire_check, cs, u, now, q, t),
    ensures
        ({
            let j = JarView {
                entries: stored_all(Seq::empty(), match_domain_only, no_expire_check, cs, u, now),
                match_domain_only,
                no_expire_check,
                ignore_secure,
            };
            cookies_sent(j, q, t) == expected_pairs(cs, ignore_secure, q.scheme == "https"@)
        }),
{
    let f = |c: CookieView| entry_for(match_domain_only, no_expire_check, c, u, now);
    lemma_stored_side_by_side(match_domain_only, no_expire_check, cs, u, now, q, t);
    let s = cs.map_values(f);
    let j = JarView { entries: s, match_domain_only, no_expire_check, ignore_secure };
    if !no_expire_check {
        assert forall|i: int| 0 <= i < s.len() implies !is_expired(#[trigger] s[i].cookie, t) by {
            assert(s[i] == f(cs[i]));
        }
        lemma_all_unexpired(s, t);
    }
    lemma_sent_in_order(j, cs, u, now, q, t);
}

} // verus!
