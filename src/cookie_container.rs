//! The cookie jar: cookies keyed by (domain, path, name), with domain
//! matching, expiry and the `Cookie` header values for a request.
use vstd::prelude::*;
use vstd::string::StrSliceExecFns;
use crate::cookie::{Cookie, CookieView, cookie_views, string_views};
use crate::request_url::{RequestUrl, UrlView, parsed_url};
use vstd::string::StringExecFns;
use crate::text::{
    ends_with, ends_with_dot_label, ends_with_from, lemma_ends_with_concat, lower_seq, same_text,
    to_ascii_lowercase, trim_text, trimmed,
};

verus! {

/// Domain match on lower-case names: the request host `h` is the cookie
/// domain `d`, or `d` leads with a dot and `h` ends with the rest of `d`, or
/// `h` ends with `"." + d`.
pub open spec fn lower_domain_match(d: Seq<char>, h: Seq<char>) -> bool {
    h == d || (d.len() > 0 && d[0] == '.' && ends_with(h, d.subrange(1, d.len() as int)))
        || ends_with(h, seq!['.'] + d)
}

/// Domain match of a cookie domain and a request host, ignoring ASCII case.
pub open spec fn domain_match(cookie_domain: Seq<char>, request_host: Seq<char>) -> bool {
    lower_domain_match(lower_seq(cookie_domain), lower_seq(request_host))
}

/// An `http_only` cookie that comes from a URL whose scheme is neither
/// `http` nor `https` is refused.
pub open spec fn rejects_http_only(c: CookieView, u: UrlView) -> bool {
    c.http_only == Some(true) && u.scheme != "http"@ && u.scheme != "https"@
}

/// The cookie is already gone when it arrives: `Max-Age` of zero or less,
/// or an expiry time that is not after `now`.
pub open spec fn evicted_on_arrival(c: CookieView, now: i64) -> bool {
    (c.max_age matches Some(a) && a <= 0) || (c.expires matches Some(e) && now >= e)
}

/// `now + age`, held at `i64::MAX`.
pub open spec fn expiry_after(now: i64, age: i64) -> i64 {
    if now + age > i64::MAX {
        i64::MAX
    } else if now + age < i64::MIN {
        i64::MIN
    } else {
        (now + age) as i64
    }
}

/// A positive `Max-Age` becomes the absolute expiry `now + max_age`, and
/// `Max-Age` is cleared.
pub open spec fn normalized(c: CookieView, now: i64) -> CookieView {
    match c.max_age {
        Some(a) => CookieView {
            name: c.name,
            value: c.value,
            domain: c.domain,
            path: c.path,
            expires: Some(expiry_after(now, a)),
            max_age: None,
            secure: c.secure,
            http_only: c.http_only,
            same_site: c.same_site,
        },
        None => c,
    }
}

/// The domain a cookie belongs to: its own, else the request host, without
/// surrounding white space.
pub open spec fn target_domain(c: CookieView, u: UrlView) -> Option<Seq<char>> {
    match c.domain {
        Some(d) => Some(trimmed(d)),
        None => match u.host {
            Some(h) => Some(trimmed(h)),
            None => None,
        },
    }
}

/// The path a cookie is stored under: empty when paths are not matched,
/// else its own, else the request path.
pub open spec fn target_path(match_domain_only: bool, c: CookieView, u: UrlView) -> Seq<char> {
    if match_domain_only {
        Seq::empty()
    } else {
        match c.path {
            Some(p) => p,
            None => u.path,
        }
    }
}

/// The entry is one that a removal for domain `d`, path `p` and name `n`
/// takes out.
pub open spec fn removes(e: EntryView, d: Seq<char>, p: Seq<char>, n: Seq<char>) -> bool {
    domain_match(e.domain, d) && e.path == p && e.cookie.name == n
}

/// The entries of `s` that `keep` accepts, in order.
pub open spec fn kept(s: Seq<EntryView>, keep: spec_fn(EntryView) -> bool) -> Seq<EntryView>
    decreases s.len(),
{
    if s.len() == 0 {
        s
    } else {
        let rest = kept(s.drop_last(), keep);
        if keep(s.last()) {
            rest.push(s.last())
        } else {
            rest
        }
    }
}

/// The entries that a removal for domain `d`, path `p` and name `n` keeps.
pub open spec fn without(s: Seq<EntryView>, d: Seq<char>, p: Seq<char>, n: Seq<char>) -> Seq<EntryView> {
    kept(s, |e: EntryView| !removes(e, d, p, n))
}

/// The cookie has an expiry time that is not after `now`.
pub open spec fn is_expired(c: CookieView, now: i64) -> bool {
    match c.expires {
        Some(e) => now >= e,
        None => false,
    }
}

/// The entries that have not expired at `now`.
pub open spec fn unexpired(s: Seq<EntryView>, now: i64) -> Seq<EntryView> {
    kept(s, |e: EntryView| !is_expired(e.cookie, now))
}

/// Removal of a cookie: under every stored domain that matches its target
/// domain, the entries of its path and name go.
pub open spec fn removed(s: Seq<EntryView>, match_domain_only: bool, c: CookieView, u: UrlView) -> Seq<EntryView> {
    match target_domain(c, u) {
        Some(d) => without(s, d, target_path(match_domain_only, c, u), c.name),
        None => s,
    }
}

pub open spec fn has_key(s: Seq<EntryView>, e: EntryView) -> bool {
    exists|i: int| 0 <= i < s.len() && same_key(#[trigger] s[i], e)
}

/// Insert or replace: an entry with the same key is replaced in place,
/// else the entry goes at the end.
pub open spec fn upsert(s: Seq<EntryView>, e: EntryView) -> Seq<EntryView> {
    if has_key(s, e) {
        let i = choose|i: int| 0 <= i < s.len() && same_key(#[trigger] s[i], e);
        s.update(i, e)
    } else {
        s.push(e)
    }
}

/// The entries after one cookie from a response of `u` is stored at `now`.
pub open spec fn stored_one(
    s: Seq<EntryView>,
    match_domain_only: bool,
    no_expire_check: bool,
    c: CookieView,
    u: UrlView,
    now: i64,
) -> Seq<EntryView> {
    if rejects_http_only(c, u) {
        s
    } else if !no_expire_check && evicted_on_arrival(c, now) {
        removed(s, match_domain_only, c, u)
    } else {
        match target_domain(c, u) {
            Some(d) => upsert(
                s,
                EntryView {
                    domain: lower_seq(d),
                    path: target_path(match_domain_only, c, u),
                    cookie: if no_expire_check { c } else { normalized(c, now) },
                },
            ),
            None => s,
        }
    }
}

/// The entries after the cookies `cs` from a response of `u` are stored in
/// order at `now`.
pub open spec fn stored_all(
    s: Seq<EntryView>,
    match_domain_only: bool,
    no_expire_check: bool,
    cs: Seq<CookieView>,
    u: UrlView,
    now: i64,
) -> Seq<EntryView>
    decreases cs.len(),
{
    if cs.len() == 0 {
        s
    } else {
        stored_one(
            stored_all(s, match_domain_only, no_expire_check, cs.drop_last(), u, now),
            match_domain_only,
            no_expire_check,
            cs.last(),
            u,
            now,
        )
    }
}

/// The entries that `kept` keeps come from `s`, and keep its keys unique.
pub proof fn lemma_kept_unique(s: Seq<EntryView>, keep: spec_fn(EntryView) -> bool)
    requires
        keys_unique(s),
    ensures
        keys_unique(kept(s, keep)),
        forall|k: int| 0 <= k < kept(s, keep).len() ==> exists|i: int| 0 <= i < s.len() && #[trigger] kept(s, keep)[k] == s[i],
    decreases s.len(),
{
    if s.len() > 0 {
        let init = s.drop_last();
        assert(keys_unique(init)) by {
            assert forall|i: int, j: int| 0 <= i < init.len() && 0 <= j < init.len() && i != j implies !same_key(#[trigger] init[i], #[trigger] init[j]) by {
                assert(init[i] == s[i] && init[j] == s[j]);
            }
        }
        lemma_kept_unique(init, keep);
        let r = kept(init, keep);
        let w = kept(s, keep);
        assert forall|k: int| 0 <= k < r.len() implies exists|i: int| 0 <= i < s.len() && #[trigger] r[k] == s[i] by {
            let i = choose|i: int| 0 <= i < init.len() && r[k] == init[i];
            assert(init[i] == s[i]);
        }
        if keep(s.last()) {
            assert forall|i: int, j: int| 0 <= i < w.len() && 0 <= j < w.len() && i != j implies !same_key(#[trigger] w[i], #[trigger] w[j]) by {
                if i < r.len() && j < r.len() {
                    assert(w[i] == r[i] && w[j] == r[j]);
                } else if i < r.len() {
                    let a = choose|a: int| 0 <= a < s.len() && #[trigger] r[i] == s[a];
                    assert(w[i] == r[i]);
                    let a = choose|a: int| 0 <= a < init.len() && r[i] == init[a];
                    assert(init[a] == s[a]);
                    assert(!same_key(s[a], s[s.len() - 1]));
                } else {
                    let b = choose|b: int| 0 <= b < init.len() && r[j] == init[b];
                    assert(w[j] == r[j]);
                    assert(init[b] == s[b]);
                    assert(!same_key(s[s.len() - 1], s[b]));
                }
            }
            assert forall|k: int| 0 <= k < w.len() implies exists|i: int| 0 <= i < s.len() && #[trigger] w[k] == s[i] by {
                if k < r.len() {
                    assert(w[k] == r[k]);
                } else {
                    assert(w[k] == s[s.len() - 1]);
                }
            }
        }
    }
}

/// The stored entry goes with a request to `u` whose host is `host`: its
/// domain matches the host, its path is the request path (or both are empty
/// when only domains are matched), and it is not a `Secure` cookie on a
/// scheme other than `https` unless `Secure` is ignored.
pub open spec fn sends(j: JarView, e: EntryView, u: UrlView, host: Seq<char>) -> bool {
    &&& domain_match(e.domain, host)
    &&& e.path == (if j.match_domain_only { Seq::<char>::empty() } else { u.path })
    &&& (j.ignore_secure || e.cookie.secure != Some(true) || u.scheme == "https"@)
}

/// What the cookie crate writes for a cookie stripped of its attributes
/// and percent-encoded: `name=value` with both parts encoded.
pub uninterp spec fn encoded_pair(name: Seq<char>, value: Seq<char>) -> Seq<char>;

/// Relies on `cookie::Cookie::encoded` and `Display::stripped` of the
/// cookie crate: the `name=value` text of a cookie with name and value
/// percent-encoded; the result depends on the two texts alone.
#[verifier::external_body]
fn encode_pair(name: &str, value: &str) -> (r: String)
    ensures
        r@ == encoded_pair(name@, value@),
{
    cookie::Cookie::new(name, value).encoded().stripped().to_string()
}

/// The `Cookie` header text of a cookie: `name=value`, percent-encoded.
pub open spec fn pair_text(c: CookieView) -> Seq<char> {
    encoded_pair(c.name, c.value)
}

/// The `name=value` texts of the entries of `s` that go with a request to
/// `u`, in order.
pub open spec fn header_values(s: Seq<EntryView>, j: JarView, u: UrlView, host: Seq<char>) -> Seq<Seq<char>>
    decreases s.len(),
{
    if s.len() == 0 {
        Seq::empty()
    } else {
        let rest = header_values(s.drop_last(), j, u, host);
        if sends(j, s.last(), u, host) {
            rest.push(pair_text(s.last().cookie))
        } else {
            rest
        }
    }
}

/// The entries left after the sweep before a query at `now`.
pub open spec fn swept(j: JarView, now: i64) -> Seq<EntryView> {
    if j.no_expire_check {
        j.entries
    } else {
        unexpired(j.entries, now)
    }
}

/// What a query for a request to `u` at `now` returns: nothing for a URL
/// without a host, else the `name=value` texts of the cookies that are left
/// after the sweep and go with the request.
pub open spec fn cookies_sent(j: JarView, u: UrlView, now: i64) -> Seq<Seq<char>> {
    match u.host {
        Some(h) => header_values(swept(j, now), j, u, h),
        None => Seq::empty(),
    }
}

/// The jar after a query for a request to `u` at `now`.
pub open spec fn after_query(j: JarView, u: UrlView, now: i64) -> JarView {
    match u.host {
        Some(h) => with_entries(j, swept(j, now)),
        None => j,
    }
}

/// The URL a stored cookie is taken to come from: `https` for a `Secure`
/// cookie, else `http`, then `://`, its domain and its path.
pub open spec fn origin_text(e: EntryView) -> Seq<char> {
    (if e.cookie.secure == Some(true) { "https"@ } else { "http"@ }) + "://"@ + e.domain + e.path
}

pub open spec fn serialized(s: Seq<EntryView>) -> Seq<(CookieView, Seq<char>)> {
    s.map_values(|e: EntryView| (e.cookie, origin_text(e)))
}

pub open spec fn pair_views(s: Seq<(Cookie, String)>) -> Seq<(CookieView, Seq<char>)> {
    s.map_values(|p: (Cookie, String)| (p.0@, p.1@))
}

/// Relies on `std::time::SystemTime::now` and `duration_since` from
/// `UNIX_EPOCH`: the whole seconds since the Unix epoch, `None` where the
/// clock reads before the epoch or the seconds do not fit an `i64`. Nothing
/// else is known of the value.
#[verifier::external_body]
fn unix_now() -> (r: Option<i64>) {
    let d = std::time::SystemTime::now().duration_since(std::time::UNIX_EPOCH).ok()?;
    i64::try_from(d.as_secs()).ok()
}

/// A jar with the entries `s` and the switches of `j`.
pub open spec fn with_entries(j: JarView, s: Seq<EntryView>) -> JarView {
    JarView { entries: s, ..j }
}

/// One stored cookie, with the domain and path it is stored under.
pub struct StoredCookie {
    pub domain: String,
    pub path: String,
    pub cookie: Cookie,
}

pub struct EntryView {
    pub domain: Seq<char>,
    pub path: Seq<char>,
    pub cookie: CookieView,
}

impl View for StoredCookie {
    type V = EntryView;

    open spec fn view(&self) -> EntryView {
        EntryView { domain: self.domain@, path: self.path@, cookie: self.cookie@ }
    }
}

impl StoredCookie {
    /// A copy with the same contents.
    pub fn copy(&self) -> (r: StoredCookie)
        ensures
            r@ == self@,
    {
        StoredCookie { domain: self.domain.clone(), path: self.path.clone(), cookie: self.cookie.copy() }
    }
}

pub open spec fn entry_views(s: Seq<StoredCookie>) -> Seq<EntryView> {
    s.map_values(|e: StoredCookie| e@)
}

/// Two entries share the key (domain, path, name).
pub open spec fn same_key(a: EntryView, b: EntryView) -> bool {
    a.domain == b.domain && a.path == b.path && a.cookie.name == b.cookie.name
}

/// At most one entry for each key.
pub open spec fn keys_unique(s: Seq<EntryView>) -> bool {
    forall|i: int, j: int| 0 <= i < s.len() && 0 <= j < s.len() && i != j ==> !same_key(#[trigger] s[i], #[trigger] s[j])
}

/// The contents of a jar and the switches it was made with.
pub struct JarView {
    pub entries: Seq<EntryView>,
    pub match_domain_only: bool,
    pub no_expire_check: bool,
    pub ignore_secure: bool,
}

/// The default cookie jar.
///
/// `match_domain_only` stores every cookie under the empty path and matches
/// on domain alone; `no_expire_check` keeps expired cookies; `ignore_secure`
/// sends `Secure` cookies over any scheme.
pub struct ErgoCookieContainer {
    store: Vec<StoredCookie>,
    match_domain_only: bool,
    no_expire_check: bool,
    ignore_secure: bool,
}

impl View for ErgoCookieContainer {
    type V = JarView;

    closed spec fn view(&self) -> JarView {
        JarView {
            entries: entry_views(self.store@),
            match_domain_only: self.match_domain_only,
            no_expire_check: self.no_expire_check,
            ignore_secure: self.ignore_secure,
        }
    }
}

impl ErgoCookieContainer {
    /// The jar is well formed: one entry per key.
    pub open spec fn wf(&self) -> bool {
        keys_unique(self@.entries)
    }

    /// An empty jar with the given switches.
    pub fn new(match_domain_only: bool, no_expire_check: bool, ignore_secure: bool) -> (r: Self)
        ensures
            r.wf(),
            r@ == (JarView { entries: Seq::empty(), match_domain_only, no_expire_check, ignore_secure }),
    {
        let r = ErgoCookieContainer { store: Vec::new(), match_domain_only, no_expire_check, ignore_secure };
        proof {
            assert(entry_views(r.store@) =~= Seq::<EntryView>::empty());
        }
        r
    }

    /// An empty jar that matches paths, checks expiry and keeps `Secure`
    /// cookies to `https`.
    pub fn new_secure() -> (r: Self)
        ensures
            r.wf(),
            r@ == (JarView { entries: Seq::empty(), match_domain_only: false, no_expire_check: false, ignore_secure: false }),
    {
        Self::new(false, false, false)
    }

    /// The number of stored cookies.
    pub fn len(&self) -> (r: usize)
        ensures
            r == self@.entries.len(),
    {
        self.store.len()
    }

    /// Whether a cookie domain matches a request host, ignoring ASCII case:
    /// the two are equal, or the domain leads with a dot and the host ends
    /// with the rest of it, or the host ends with a dot and the domain.
    pub fn is_domain_match(cookie_domain: &str, request_domain: &str) -> (r: bool)
        ensures
            r == domain_match(cookie_domain@, request_domain@),
    {
        let d = to_ascii_lowercase(cookie_domain);
        let h = to_ascii_lowercase(request_domain);
        let ds = d.as_str();
        let hs = h.as_str();
        if same_text(ds, hs) {
            return true;
        }
        if ds.unicode_len() > 0 && ds.get_char(0) == '.' {
            let r = ends_with_from(hs, ds, 1);
            proof {
                if ends_with(hs@, seq!['.'] + ds@) {
                    let w = seq!['.'] + ds@;
                    assert(w =~= seq!['.', '.'] + ds@.subrange(1, ds@.len() as int));
                    lemma_ends_with_concat(hs@, seq!['.', '.'], ds@.subrange(1, ds@.len() as int));
                }
            }
            r
        } else {
            ends_with_dot_label(hs, ds)
        }
    }
    /// The path a cookie from `url` is stored under.
    fn target_path(&self, c: &Cookie, url: &RequestUrl) -> (r: String)
        ensures
            r@ == target_path(self@.match_domain_only, c@, url@),
    {
        if self.match_domain_only {
            String::new()
        } else {
            match &c.path {
                Some(p) => p.clone(),
                None => url.path.clone(),
            }
        }
    }

    /// Takes out every entry that a removal for domain `d`, path `p` and
    /// name `n` takes out.
    fn remove_matching(&mut self, d: &str, p: &str, n: &str)
        requires
            old(self).wf(),
        ensures
            final(self).wf(),
            final(self)@ == with_entries(old(self)@, without(old(self)@.entries, d@, p@, n@)),
    {
        let mut out: Vec<StoredCookie> = Vec::new();
        let mut i: usize = 0;
        while i < self.store.len()
            invariant
                i <= self.store@.len(),
                self@ == old(self)@,
                self.wf(),
                entry_views(out@) == without(entry_views(self.store@).subrange(0, i as int), d@, p@, n@),
            decreases self.store@.len() - i,
        {
            let e = &self.store[i];
            let hit = Self::is_domain_match(e.domain.as_str(), d) && same_text(e.path.as_str(), p)
                && same_text(e.cookie.name.as_str(), n);
            let ghost before = out@;
            proof {
                let pre = entry_views(self.store@).subrange(0, i as int + 1);
                assert(pre.drop_last() =~= entry_views(self.store@).subrange(0, i as int));
                assert(pre.last() == self.store@[i as int]@);
            }
            if !hit {
                out.push(e.copy());
                proof {
                    assert(entry_views(out@) =~= entry_views(before).push(self.store@[i as int]@));
                }
            }
            i = i + 1;
        }
        proof {
            assert(entry_views(self.store@).subrange(0, self.store@.len() as int) =~= entry_views(self.store@));
            lemma_kept_unique(old(self)@.entries, |e: EntryView| !removes(e, d@, p@, n@));
        }
        self.store = out;
    }

    /// Removes a cookie that came with a response of `url`: under every
    /// stored domain that matches its domain (or, without one, the host of
    /// `url`), the entries of its path (empty when only domains are matched;
    /// else its own, else the path of `url`) and name go.
    pub fn remove_target_cookie(&mut self, c: &Cookie, url: &RequestUrl)
        requires
            old(self).wf(),
        ensures
            final(self).wf(),
            final(self)@ == with_entries(old(self)@, removed(old(self)@.entries, old(self)@.match_domain_only, c@, url@)),
    {
        let d = match &c.domain {
            Some(d) => d,
            None => match &url.host {
                Some(h) => h,
                None => return,
            },
        };
        let p = self.target_path(c, url);
        self.remove_matching(trim_text(d.as_str()), p.as_str(), c.name.as_str());
    }

    /// Inserts an entry, replacing the one with the same key in place.
    fn upsert(&mut self, e: StoredCookie)
        requires
            old(self).wf(),
        ensures
            final(self).wf(),
            final(self)@ == with_entries(old(self)@, upsert(old(self)@.entries, e@)),
    {
        let ghost s = old(self)@.entries;
        let mut i: usize = 0;
        while i < self.store.len()
            invariant
                i <= self.store@.len(),
                self@ == old(self)@,
                s == self@.entries,
                keys_unique(s),
                forall|j: int| 0 <= j < i ==> !same_key(#[trigger] s[j], e@),
            decreases self.store@.len() - i,
        {
            let hit = same_text(self.store[i].domain.as_str(), e.domain.as_str())
                && same_text(self.store[i].path.as_str(), e.path.as_str())
                && same_text(self.store[i].cookie.name.as_str(), e.cookie.name.as_str());
            proof {
                assert(s[i as int] == self.store@[i as int]@);
            }
            if hit {
                proof {
                    assert(has_key(s, e@));
                    let k = choose|k: int| 0 <= k < s.len() && same_key(#[trigger] s[k], e@);
                    assert(same_key(s[k], s[i as int]));
                    assert(k == i);
                    let t = s.update(i as int, e@);
                    assert forall|a: int, b: int| 0 <= a < t.len() && 0 <= b < t.len() && a != b implies !same_key(#[trigger] t[a], #[trigger] t[b]) by {
                        if a == i {
                            assert(!same_key(s[b], s[i as int]));
                        } else if b == i {
                            assert(!same_key(s[a], s[i as int]));
                        } else {
                            assert(!same_key(s[a], s[b]));
                        }
                    }
                }
                self.store.set(i, e);
                proof {
                    assert(entry_views(self.store@) =~= s.update(i as int, e@));
                }
                return;
            }
            i = i + 1;
        }
        proof {
            assert(!has_key(s, e@));
            let t = s.push(e@);
            assert forall|a: int, b: int| 0 <= a < t.len() && 0 <= b < t.len() && a != b implies !same_key(#[trigger] t[a], #[trigger] t[b]) by {
                if a < s.len() && b < s.len() {
                    assert(!same_key(s[a], s[b]));
                } else if a < s.len() {
                    assert(!same_key(s[a], e@));
                } else {
                    assert(!same_key(s[b], e@));
                }
            }
        }
        self.store.push(e);
        proof {
            assert(entry_views(self.store@) =~= s.push(e@));
        }
    }

    /// Stores one cookie that came with a response of `url`, at `now`.
    fn store_one(&mut self, c: &Cookie, url: &RequestUrl, now: i64)
        requires
            old(self).wf(),
        ensures
            final(self).wf(),
            final(self)@ == with_entries(
                old(self)@,
                stored_one(old(self)@.entries, old(self)@.match_domain_only, old(self)@.no_expire_check, c@, url@, now),
            ),
    {
        proof {
            assert(with_entries(self@, self@.entries) == self@);
        }
        let http_only = match c.http_only {
            Some(b) => b,
            None => false,
        };
        if http_only && !same_text(url.scheme.as_str(), "http") && !same_text(url.scheme.as_str(), "https") {
            return;
        }
        let mut cookie = c.copy();
        if !self.no_expire_check {
            let aged_out = match c.max_age {
                Some(a) => a <= 0,
                None => false,
            };
            let past = match c.expires {
                Some(e) => now >= e,
                None => false,
            };
            if aged_out || past {
                self.remove_target_cookie(c, url);
                return;
            }
            match c.max_age {
                Some(a) => {
                    let at = match now.checked_add(a) {
                        Some(v) => v,
                        None => i64::MAX,
                    };
                    cookie.expires = Some(at);
                    cookie.max_age = None;
                },
                None => {},
            }
        }
        let domain = match &c.domain {
            Some(d) => to_ascii_lowercase(trim_text(d.as_str())),
            None => match &url.host {
                Some(h) => to_ascii_lowercase(trim_text(h.as_str())),
                None => return,
            },
        };
        let path = self.target_path(c, url);
        self.upsert(StoredCookie { domain, path, cookie });
    }

    /// Stores the cookies of a response of `url`, in order, at the Unix
    /// time `now` (seconds).
    ///
    /// Each cookie is refused if it is `http_only` and the scheme of `url` is
    /// neither `http` nor `https`. Unless expiry checks are off, a cookie
    /// with `Max-Age` of zero or less, or with a past expiry, removes the
    /// stored cookie of its domain, path and name instead; a positive
    /// `Max-Age` becomes an absolute expiry. Otherwise it is stored under
    /// its domain (else the host of `url`), trimmed and in lower case, and its path (else
    /// the path of `url`; empty when only domains are matched), replacing
    /// the cookie of the same name there.
    pub fn store_from_response_at(&mut self, cookies: Vec<Cookie>, url: &RequestUrl, now: i64)
        requires
            old(self).wf(),
        ensures
            final(self).wf(),
            final(self)@ == with_entries(
                old(self)@,
                stored_all(
                    old(self)@.entries,
                    old(self)@.match_domain_only,
                    old(self)@.no_expire_check,
                    cookie_views(cookies@),
                    url@,
                    now,
                ),
            ),
    {
        let mut i: usize = 0;
        while i < cookies.len()
            invariant
                i <= cookies@.len(),
                self.wf(),
                self@ == with_entries(
                    old(self)@,
                    stored_all(
                        old(self)@.entries,
                        old(self)@.match_domain_only,
                        old(self)@.no_expire_check,
                        cookie_views(cookies@).subrange(0, i as int),
                        url@,
                        now,
                    ),
                ),
            decreases cookies@.len() - i,
        {
            proof {
                let pre = cookie_views(cookies@).subrange(0, i as int + 1);
                assert(pre.drop_last() =~= cookie_views(cookies@).subrange(0, i as int));
                assert(pre.last() == cookies@[i as int]@);
            }
            self.store_one(&cookies[i], url, now);
            i = i + 1;
        }
        proof {
            assert(cookie_views(cookies@).subrange(0, cookies@.len() as int) =~= cookie_views(cookies@));
        }
    }
    /// Removes every cookie whose expiry time is not after `now`.
    pub fn remove_all_expired_cookies_at(&mut self, now: i64)
        requires
            old(self).wf(),
        ensures
            final(self).wf(),
            final(self)@ == with_entries(old(self)@, unexpired(old(self)@.entries, now)),
    {
        let mut out: Vec<StoredCookie> = Vec::new();
        let mut i: usize = 0;
        while i < self.store.len()
            invariant
                i <= self.store@.len(),
                self@ == old(self)@,
                self.wf(),
                entry_views(out@) == unexpired(entry_views(self.store@).subrange(0, i as int), now),
            decreases self.store@.len() - i,
        {
            let e = &self.store[i];
            let expired = match e.cookie.expires {
                Some(at) => now >= at,
                None => false,
            };
            let ghost before = out@;
            proof {
                let pre = entry_views(self.store@).subrange(0, i as int + 1);
                assert(pre.drop_last() =~= entry_views(self.store@).subrange(0, i as int));
                assert(pre.last() == self.store@[i as int]@);
            }
            if !expired {
                out.push(e.copy());
                proof {
                    assert(entry_views(out@) =~= entry_views(before).push(self.store@[i as int]@));
                }
            }
            i = i + 1;
        }
        proof {
            assert(entry_views(self.store@).subrange(0, self.store@.len() as int) =~= entry_views(self.store@));
            lemma_kept_unique(old(self)@.entries, |e: EntryView| !is_expired(e.cookie, now));
        }
        self.store = out;
    }

    /// The `Cookie` header values for a request to `url` at the Unix time
    /// `now` (seconds): `name=value` of each stored cookie whose domain
    /// matches the host, whose path is the request path (any, when only
    /// domains are matched), and which is not `Secure` on a scheme other
    /// than `https` (unless `Secure` is ignored). Unless expiry checks are
    /// off, expired cookies are removed first. A URL without a host gets
    /// nothing and leaves the jar as it is.
    pub fn to_header_value_at(&mut self, url: &RequestUrl, now: i64) -> (r: Vec<String>)
        requires
            old(self).wf(),
        ensures
            final(self).wf(),
            final(self)@ == after_query(old(self)@, url@, now),
            string_views(r@) == cookies_sent(old(self)@, url@, now),
    {
        let host = match &url.host {
            Some(h) => h,
            None => {
                let none: Vec<String> = Vec::new();
                proof {
                    assert(string_views(none@) =~= Seq::<Seq<char>>::empty());
                }
                return none;
            },
        };
        if !self.no_expire_check {
            self.remove_all_expired_cookies_at(now);
        }
        proof {
            assert(self@.entries == swept(old(self)@, now));
        }
        let https = same_text(url.scheme.as_str(), "https");
        let mut out: Vec<String> = Vec::new();
        let mut i: usize = 0;
        while i < self.store.len()
            invariant
                i <= self.store@.len(),
                self.wf(),
                self@ == after_query(old(self)@, url@, now),
                self@.entries == swept(old(self)@, now),
                url@.host == Some(host@),
                https == (url@.scheme == "https"@),
                string_views(out@) == header_values(
                    entry_views(self.store@).subrange(0, i as int),
                    old(self)@,
                    url@,
                    host@,
                ),
            decreases self.store@.len() - i,
        {
            let e = &self.store[i];
            let path_ok = if self.match_domain_only {
                e.path.unicode_len() == 0
            } else {
                same_text(e.path.as_str(), url.path.as_str())
            };
            let secure = match e.cookie.secure {
                Some(b) => b,
                None => false,
            };
            let goes = Self::is_domain_match(e.domain.as_str(), host.as_str()) && path_ok
                && (self.ignore_secure || !secure || https);
            let ghost before = out@;
            proof {
                let pre = entry_views(self.store@).subrange(0, i as int + 1);
                assert(pre.drop_last() =~= entry_views(self.store@).subrange(0, i as int));
                assert(pre.last() == self.store@[i as int]@);
                if self.match_domain_only {
                    assert(path_ok == (e.path@ =~= Seq::<char>::empty()));
                }
                assert(goes == sends(old(self)@, self.store@[i as int]@, url@, host@));
            }
            if goes {
                let t = encode_pair(e.cookie.name.as_str(), e.cookie.value.as_str());
                out.push(t);
                proof {
                    assert(string_views(out@) =~= string_views(before).push(t@));
                }
            }
            i = i + 1;
        }
        proof {
            assert(entry_views(self.store@).subrange(0, self.store@.len() as int) =~= entry_views(self.store@));
        }
        out
    }
    /// Stores the cookies of a response of `url` at the current time, as
    /// [`Self::store_from_response_at`] does. Where the clock cannot be read
    /// (it is before the Unix epoch) nothing is stored and `false` comes back.
    pub fn store_from_response(&mut self, cookies: Vec<Cookie>, url: &RequestUrl) -> (r: bool)
        requires
            old(self).wf(),
        ensures
            final(self).wf(),
            !r ==> final(self)@ == old(self)@,
            r ==> exists|now: i64| final(self)@ == with_entries(
                old(self)@,
                stored_all(
                    old(self)@.entries,
                    old(self)@.match_domain_only,
                    old(self)@.no_expire_check,
                    cookie_views(cookies@),
                    url@,
                    now,
                ),
            ),
    {
        match unix_now() {
            Some(now) => {
                self.store_from_response_at(cookies, url, now);
                true
            },
            None => false,
        }
    }

    /// The `Cookie` header values for a request to `url` at the current
    /// time, as [`Self::to_header_value_at`] gives them; `None`, with the jar
    /// left as it is, where the clock cannot be read.
    pub fn to_header_value(&mut self, url: &RequestUrl) -> (r: Option<Vec<String>>)
        requires
            old(self).wf(),
        ensures
            final(self).wf(),
            r is None ==> final(self)@ == old(self)@,
            r matches Some(v) ==> exists|now: i64| final(self)@ == after_query(old(self)@, url@, now)
                && string_views(v@) == cookies_sent(old(self)@, url@, now),
    {
        match unix_now() {
            Some(now) => Some(self.to_header_value_at(url, now)),
            None => None,
        }
    }

    /// Removes every cookie that has expired at the current time; `false`,
    /// with the jar left as it is, where the clock cannot be read.
    pub fn remove_all_expired_cookies(&mut self) -> (r: bool)
        requires
            old(self).wf(),
        ensures
            final(self).wf(),
            !r ==> final(self)@ == old(self)@,
            r ==> exists|now: i64| final(self)@ == with_entries(old(self)@, unexpired(old(self)@.entries, now)),
    {
        match unix_now() {
            Some(now) => {
                self.remove_all_expired_cookies_at(now);
                true
            },
            None => false,
        }
    }

    /// Stores cookies as if they came with a response of `origin_url`, at
    /// the current time; fails where `origin_url` does not parse, and gives
    /// `Ok(false)` (nothing stored) where the clock cannot be read.
    pub fn set_cookie(&mut self, cookie: Vec<Cookie>, origin_url: &str) -> (r: Result<bool, url::ParseError>)
        requires
            old(self).wf(),
        ensures
            final(self).wf(),
            r is Err <==> parsed_url(origin_url@) is None,
            r is Err || r == Ok::<bool, url::ParseError>(false) ==> final(self)@ == old(self)@,
            r == Ok::<bool, url::ParseError>(true) ==> exists|u: UrlView, now: i64| parsed_url(origin_url@) == Some(u)
                && final(self)@ == with_entries(
                old(self)@,
                stored_all(
                    old(self)@.entries,
                    old(self)@.match_domain_only,
                    old(self)@.no_expire_check,
                    cookie_views(cookie@),
                    u,
                    now,
                ),
            ),
    {
        let url = RequestUrl::parse(origin_url)?;
        Ok(self.store_from_response(cookie, &url))
    }

    /// Every stored cookie with the URL it is taken to come from: `https`
    /// for a `Secure` cookie, else `http`, then its domain and its path.
    pub fn serialize_cookies(&self) -> (r: Vec<(Cookie, String)>)
        ensures
            pair_views(r@) == serialized(self@.entries),
    {
        let mut out: Vec<(Cookie, String)> = Vec::new();
        let mut i: usize = 0;
        while i < self.store.len()
            invariant
                i <= self.store@.len(),
                pair_views(out@) == serialized(entry_views(self.store@).subrange(0, i as int)),
            decreases self.store@.len() - i,
        {
            let e = &self.store[i];
            let secure = match e.cookie.secure {
                Some(b) => b,
                None => false,
            };
            let mut t = if secure { String::from_str("https") } else { String::from_str("http") };
            t.append("://");
            t.append(e.domain.as_str());
            t.append(e.path.as_str());
            proof {
                assert(t@ =~= origin_text(e@));
            }
            let ghost before = out@;
            out.push((e.cookie.copy(), t));
            proof {
                assert(entry_views(self.store@).subrange(0, i as int + 1) =~= entry_views(self.store@).subrange(0, i as int).push(e@));
                assert(pair_views(out@) =~= pair_views(before).push((e@.cookie, origin_text(e@))));
            }
            i = i + 1;
        }
        proof {
            assert(entry_views(self.store@).subrange(0, self.store@.len() as int) =~= entry_views(self.store@));
        }
        out
    }
}

impl Default for ErgoCookieContainer {
    /// The same as [`ErgoCookieContainer::new_secure`].
    fn default() -> (r: Self)
        ensures
            r.wf(),
            r@ == (JarView { entries: Seq::empty(), match_domain_only: false, no_expire_check: false, ignore_secure: false }),
    {
        Self::new(false, false, false)
    }
}

} // verus!
