//! The redirect decisions: from a response status and its `Location` to the
//! next request, the end of the loop, or an error.
use vstd::prelude::*;
use vstd::string::{StrSliceExecFns, StringExecFns};
use crate::error::ErgoError;

verus! {

/// A status of the redirection class, 300 to 399.
pub open spec fn is_redirection(status: u16) -> bool {
    300 <= status && status <= 399
}

/// 307 and 308 keep the method and the body; every other redirect becomes
/// a `GET` without body.
pub open spec fn keeps_method(status: u16) -> bool {
    status == 307 || status == 308
}

pub open spec fn follow_method(status: u16, method: Seq<char>) -> Seq<char> {
    if keeps_method(status) {
        method
    } else {
        "GET"@
    }
}

pub open spec fn follow_body(status: u16, body: Option<Seq<u8>>) -> Seq<u8> {
    if keeps_method(status) {
        match body {
            Some(b) => b,
            None => Seq::empty(),
        }
    } else {
        Seq::empty()
    }
}

/// What the `http` crate's URI builder makes of a scheme, an authority and
/// a path with query: the URI text, or `None` where it refuses them.
pub uninterp spec fn built_uri(scheme: Seq<char>, authority: Seq<char>, path_and_query: Seq<char>) -> Option<Seq<char>>;

/// Relies on `http::Uri::builder` with `scheme`, `authority`,
/// `path_and_query` and `build`, and on `Display` of `http::Uri`; the result
/// depends on the three texts alone.
#[verifier::external_body]
fn build_uri(scheme: &str, authority: &str, path_and_query: &str) -> (r: Result<String, http::Error>)
    ensures
        r is Ok <==> built_uri(scheme@, authority@, path_and_query@) is Some,
        r matches Ok(u) ==> built_uri(scheme@, authority@, path_and_query@) == Some(u@),
{
    let u = http::Uri::builder().scheme(scheme).authority(authority).path_and_query(path_and_query).build()?;
    Ok(u.to_string())
}

/// The view of the URI built for a `Location` without host: `None` where
/// none was built, `Some(None)` where the builder refused it.
pub open spec fn built_view(o: Option<Result<String, http::Error>>) -> Option<Option<Seq<char>>> {
    match o {
        Some(Ok(u)) => Some(Some(u@)),
        Some(Err(_)) => Some(None),
        None => None,
    }
}

/// The `Location` text `l` leads somewhere from a first request with
/// `origin`: it is a URI that names a host, or one without host that the
/// URI builder joins to the scheme and authority of the first request.
pub open spec fn follows_to(origin: OriginView, l: Seq<char>) -> bool {
    match uri_host(l) {
        Some(Some(_)) => true,
        Some(None) => built_uri(origin.scheme, origin.authority, l) is Some,
        None => false,
    }
}

pub open spec fn opt_host_view(o: Option<Option<String>>) -> Option<Option<Seq<char>>> {
    match o {
        Some(Some(h)) => Some(Some(h@)),
        Some(None) => Some(None),
        None => None,
    }
}

/// What `http::Uri` parsing makes of a `Location` value: `None` where it
/// refuses the text, else the host that the URI names, if any.
pub uninterp spec fn uri_host(s: Seq<char>) -> Option<Option<Seq<char>>>;

/// Relies on `<http::Uri as FromStr>::from_str` and `http::Uri::host`; the
/// result depends on the text alone.
#[verifier::external_body]
fn parse_uri_host(s: &str) -> (r: Option<Option<String>>)
    ensures
        opt_host_view(r) == uri_host(s@),
{
    let u = s.parse::<http::Uri>().ok()?;
    Some(u.host().map(|h| h.to_string()))
}

/// What the redirect loop keeps of the first request.
pub struct RedirectOrigin {
    pub method: String,
    /// The body, where it could be read as bytes.
    pub body: Option<Vec<u8>>,
    pub scheme: String,
    /// Host and port, as the URL gives them.
    pub authority: String,
}

/// How far the redirect loop has come: the redirects followed, and the URL
/// of the last request sent.
pub struct RedirectState {
    pub count: u64,
    pub url: String,
}

/// The `Location` header of a response.
pub enum LocationHeader {
    Missing,
    NotText,
    Text(String),
}

/// A request to send straight through the transport, with the headers of
/// the first request.
pub struct RedirectRequest {
    pub url: String,
    pub method: String,
    pub body: Vec<u8>,
}

/// What to do with a response.
pub enum RedirectStep {
    /// Hand the response back.
    Done,
    /// Send this request and look at its response.
    Follow(RedirectRequest),
    /// Fail with this error.
    Fail(ErgoError),
}

pub open spec fn opt_bytes_view(o: Option<Vec<u8>>) -> Option<Seq<u8>> {
    match o {
        Some(b) => Some(b@),
        None => None,
    }
}

pub struct OriginView {
    pub method: Seq<char>,
    pub body: Option<Seq<u8>>,
    pub scheme: Seq<char>,
    pub authority: Seq<char>,
}

impl View for RedirectOrigin {
    type V = OriginView;

    open spec fn view(&self) -> OriginView {
        OriginView {
            method: self.method@,
            body: opt_bytes_view(self.body),
            scheme: self.scheme@,
            authority: self.authority@,
        }
    }
}

pub struct StateView {
    pub count: u64,
    pub url: Seq<char>,
}

impl View for RedirectState {
    type V = StateView;

    open spec fn view(&self) -> StateView {
        StateView { count: self.count, url: self.url@ }
    }
}

pub enum LocationView {
    Missing,
    NotText,
    Text(Seq<char>),
}

impl View for LocationHeader {
    type V = LocationView;

    open spec fn view(&self) -> LocationView {
        match self {
            LocationHeader::Missing => LocationView::Missing,
            LocationHeader::NotText => LocationView::NotText,
            LocationHeader::Text(s) => LocationView::Text(s@),
        }
    }
}

/// A [`RedirectStep`] with its strings as character sequences; errors that
/// the redirect loop does not raise are `Other`.
pub enum StepView {
    Done,
    Follow { url: Seq<char>, method: Seq<char>, body: Seq<u8> },
    TooMany { url: Seq<char>, count: u64 },
    LocationEmpty,
    LocationInvalid,
    InvalidUrl(Seq<char>),
    Other,
}

impl View for RedirectStep {
    type V = StepView;

    open spec fn view(&self) -> StepView {
        match self {
            RedirectStep::Done => StepView::Done,
            RedirectStep::Follow(req) => StepView::Follow { url: req.url@, method: req.method@, body: req.body@ },
            RedirectStep::Fail(ErgoError::TooManyRedirect(u, n)) => StepView::TooMany { url: u@, count: *n },
            RedirectStep::Fail(ErgoError::RedirectLocationEmpty) => StepView::LocationEmpty,
            RedirectStep::Fail(ErgoError::RedirectLocationInvalid) => StepView::LocationInvalid,
            RedirectStep::Fail(ErgoError::InvalidRedirectUrl(s)) => StepView::InvalidUrl(s@),
            RedirectStep::Fail(_) => StepView::Other,
        }
    }
}

/// One decision of the redirect loop, and the state after it.
///
/// A status outside 300..=399 ends the loop with that response. After the
/// most redirects allowed, a redirect fails with the last URL and the count.
/// A redirect without `Location`, with a `Location` that is not text, or
/// with one that is not a URI fails. Where the `Location` names no host,
/// `built` is what the URI builder made of it after the scheme and authority
/// of the first request: where none was built it fails as not a URI, where
/// the builder refused it it fails with the builder's error. Otherwise the
/// next request goes to the `Location` (or the URI built) with the method and
/// body that the status calls for; the count goes up by one and the URL
/// becomes the new one.
pub open spec fn redirect_step_with(
    max: u64,
    origin: OriginView,
    st: StateView,
    status: u16,
    loc: LocationView,
    parsed: Option<Option<Seq<char>>>,
    built: Option<Option<Seq<char>>>,
) -> (StepView, StateView) {
    if !is_redirection(status) {
        (StepView::Done, st)
    } else if st.count >= max {
        (StepView::TooMany { url: st.url, count: st.count }, st)
    } else {
        match loc {
            LocationView::Missing => (StepView::LocationEmpty, st),
            LocationView::NotText => (StepView::LocationInvalid, st),
            LocationView::Text(l) => match parsed {
                None => (StepView::InvalidUrl(l), st),
                Some(host) => {
                    let target = match host {
                        Some(_) => Some(Some(l)),
                        None => built,
                    };
                    match target {
                        None => (StepView::InvalidUrl(l), st),
                        Some(None) => (StepView::Other, st),
                        Some(Some(url)) => (
                            StepView::Follow { url, method: follow_method(status, origin.method), body: follow_body(status, origin.body) },
                            StateView { count: (st.count + 1) as u64, url },
                        ),
                    }
                },
            },
        }
    }
}

/// [`redirect_step_with`], where a `Location` text is parsed as a URI and,
/// without host, joined to the first request by the URI builder.
pub open spec fn redirect_step(max: u64, origin: OriginView, st: StateView, status: u16, loc: LocationView) -> (StepView, StateView) {
    match loc {
        LocationView::Text(l) => redirect_step_with(
            max,
            origin,
            st,
            status,
            loc,
            uri_host(l),
            Some(built_uri(origin.scheme, origin.authority, l)),
        ),
        _ => redirect_step_with(max, origin, st, status, loc, None, None),
    }
}

/// The redirect loop over the responses `rs`, one for each request sent,
/// from the state `st`: the last decision, the state after it, and how many
/// responses it read. Where the responses run out while it still follows,
/// the last decision is a `Follow`.
pub open spec fn redirect_run(max: u64, origin: OriginView, st: StateView, rs: Seq<(u16, LocationView)>) -> (StepView, StateView, nat)
    decreases rs.len(),
{
    if rs.len() == 0 {
        (StepView::Follow { url: st.url, method: origin.method, body: Seq::empty() }, st, 0)
    } else {
        let (step, next) = redirect_step(max, origin, st, rs[0].0, rs[0].1);
        if step is Follow && rs.len() > 1 {
            let (end, last, n) = redirect_run(max, origin, next, rs.drop_first());
            (end, last, n + 1)
        } else {
            (step, next, 1)
        }
    }
}

/// The decision is a failure for too many redirects, with count `c`.
pub open spec fn too_many_with(step: StepView, c: u64) -> bool {
    match step {
        StepView::TooMany { url, count } => count == c,
        _ => false,
    }
}

/// `k` redirects whose `Location` is a URI, then a response that is no
/// redirect.
pub open spec fn redirect_chain(origin: OriginView, rs: Seq<(u16, LocationView)>, k: nat) -> bool {
    &&& rs.len() == k + 1
    &&& forall|i: int| 0 <= i < k ==> is_redirection(#[trigger] rs[i].0) && (rs[i].1 matches LocationView::Text(l) && follows_to(origin, l))
    &&& !is_redirection(rs[k as int].0)
}

proof fn lemma_redirect_bound_from(max: u64, origin: OriginView, st: StateView, rs: Seq<(u16, LocationView)>, k: nat)
    requires
        st.count <= max,
        redirect_chain(origin, rs, k),
    ensures
        ({
            let (end, last, n) = redirect_run(max, origin, st, rs);
            &&& k + st.count <= max ==> end is Done && n == k + 1
            &&& k + st.count > max ==> too_many_with(end, max) && n == max - st.count + 1
        }),
    decreases k,
{
    if k > 0 {
        assert(is_redirection(rs[0].0));
        if st.count < max {
            let (step, next) = redirect_step(max, origin, st, rs[0].0, rs[0].1);
            assert(step is Follow);
            let rest = rs.drop_first();
            assert forall|i: int| 0 <= i < k - 1 implies is_redirection(#[trigger] rest[i].0) && (rest[i].1 matches LocationView::Text(l) && follows_to(origin, l)) by {
                assert(rest[i] == rs[i + 1]);
            }
            assert(rest[k - 1] == rs[k as int]);
            lemma_redirect_bound_from(max, origin, next, rest, (k - 1) as nat);
        }
    }
}

/// With at most `max` redirects allowed, a chain of
/// `k` redirects ending in a response that is no redirect ends with that
/// response after `k + 1` requests when `k <= max`, and otherwise fails for
/// too many redirects with count `max` after `max + 1` requests.
pub proof fn lemma_redirect_bound(max: u64, origin: OriginView, url: Seq<char>, rs: Seq<(u16, LocationView)>, k: nat)
    requires
        redirect_chain(origin, rs, k),
    ensures
        ({
            let (end, last, n) = redirect_run(max, origin, StateView { count: 0, url }, rs);
            &&& k <= max ==> end is Done && n == k + 1
            &&& k > max ==> too_many_with(end, max) && n == max + 1
        }),
{
    lemma_redirect_bound_from(max, origin, StateView { count: 0, url }, rs, k);
}

/// A transport that always redirects: every response is a redirect whose
/// `Location` is a URI.
pub open spec fn always_redirects(origin: OriginView, rs: Seq<(u16, LocationView)>) -> bool {
    forall|i: int| 0 <= i < rs.len() ==> is_redirection(#[trigger] rs[i].0) && (rs[i].1 matches LocationView::Text(l) && follows_to(origin, l))
}

/// Against a transport that always redirects, the loop fails for too many
/// redirects with count `max` after `max + 1` requests.
pub proof fn lemma_always_redirects(max: u64, origin: OriginView, st: StateView, rs: Seq<(u16, LocationView)>)
    requires
        st.count <= max,
        always_redirects(origin, rs),
        rs.len() > max - st.count,
    ensures
        ({
            let (end, last, n) = redirect_run(max, origin, st, rs);
            too_many_with(end, max) && n == max - st.count + 1
        }),
    decreases rs.len(),
{
    assert(is_redirection(rs[0].0));
    if st.count < max {
        let (step, next) = redirect_step(max, origin, st, rs[0].0, rs[0].1);
        let rest = rs.drop_first();
        assert forall|i: int| 0 <= i < rest.len() implies is_redirection(#[trigger] rest[i].0) && (rest[i].1 matches LocationView::Text(l) && follows_to(origin, l)) by {
            assert(rest[i] == rs[i + 1]);
        }
        lemma_always_redirects(max, origin, next, rest);
    }
}

/// A followed 307 or 308 keeps the method and the body of
/// the first request; a followed 302 (as every other redirect) is a `GET`
/// with an empty body.
pub proof fn lemma_method_rewrite(max: u64, origin: OriginView, st: StateView, status: u16, loc: Seq<char>)
    requires
        is_redirection(status),
        st.count < max,
        follows_to(origin, loc),
    ensures
        ({
            let (step, next) = redirect_step(max, origin, st, status, LocationView::Text(loc));
            &&& step is Follow
            &&& (status == 307 || status == 308) ==> step->Follow_method == origin.method
                && step->Follow_body == (match origin.body { Some(b) => b, None => Seq::empty() })
            &&& status == 302 ==> step->Follow_method == "GET"@ && step->Follow_body.len() == 0
        }),
{
}

/// Follows redirects, up to a number of them.
pub struct AutoRedirectMiddleware(u64);

impl AutoRedirectMiddleware {
    /// Follows at most `max_redirect_count` redirects.
    pub fn new(max_redirect_count: u64) -> (r: Self)
        ensures
            r.max() == max_redirect_count,
    {
        AutoRedirectMiddleware(max_redirect_count)
    }

    pub closed spec fn max(&self) -> u64 {
        self.0
    }

    /// The most redirects followed.
    pub fn max_redirect_count(&self) -> (r: u64)
        ensures
            r == self.max(),
    {
        self.0
    }

    /// The state before the first response: nothing followed, and the URL
    /// of the first request.
    pub fn start(url: String) -> (r: RedirectState)
        ensures
            r.count == 0,
            r.url == url,
    {
        RedirectState { count: 0, url }
    }

    /// Decides on a response with status `status` and `Location` header
    /// `location`, where `parsed` is what parsing a `Location` text as a URI
    /// gave (`None`: not a URI; else the host it names, if any), and `built`
    /// what the URI builder made of a `Location` without host joined to the
    /// scheme and authority of the first request.
    ///
    /// A status outside 300..=399 ends the loop with that response. After
    /// the most redirects allowed, a redirect fails with
    /// [`ErgoError::TooManyRedirect`] carrying the last URL and the count. A
    /// redirect without `Location` fails with
    /// [`ErgoError::RedirectLocationEmpty`], one whose `Location` is not text
    /// with [`ErgoError::RedirectLocationInvalid`], one whose `Location` is
    /// not a URI (or, without host, has no built URI) with
    /// [`ErgoError::InvalidRedirectUrl`], one whose built URI the builder
    /// refused with [`ErgoError::Http`]. Otherwise the next request goes to
    /// the `Location`, or to the built URI where it names no host; 307 and
    /// 308 keep the method and body of the first request, every other status
    /// sends `GET` without body. Only a followed redirect changes the state:
    /// the count goes up by one and the URL becomes the new one.
    pub fn step_parsed(
        &self,
        origin: &RedirectOrigin,
        state: &mut RedirectState,
        status: u16,
        location: &LocationHeader,
        parsed: Option<Option<String>>,
        built: Option<Result<String, http::Error>>,
    ) -> (r: RedirectStep)
        ensures
            (r@, final(state)@) == redirect_step_with(
                self.max(),
                origin@,
                old(state)@,
                status,
                location@,
                opt_host_view(parsed),
                built_view(built),
            ),
    {
        if status < 300 || status > 399 {
            return RedirectStep::Done;
        }
        if state.count >= self.0 {
            return RedirectStep::Fail(ErgoError::TooManyRedirect(state.url.clone(), state.count));
        }
        let loc = match location {
            LocationHeader::Missing => return RedirectStep::Fail(ErgoError::RedirectLocationEmpty),
            LocationHeader::NotText => return RedirectStep::Fail(ErgoError::RedirectLocationInvalid),
            LocationHeader::Text(loc) => loc,
        };
        let url = match parsed {
            None => return RedirectStep::Fail(ErgoError::InvalidRedirectUrl(loc.clone())),
            Some(Some(_)) => loc.clone(),
            Some(None) => match built {
                None => return RedirectStep::Fail(ErgoError::InvalidRedirectUrl(loc.clone())),
                Some(Err(e)) => return RedirectStep::Fail(ErgoError::Http(e)),
                Some(Ok(u)) => u,
            },
        };
        let keep = status == 307 || status == 308;
        let method = if keep {
            origin.method.clone()
        } else {
            String::from_str("GET")
        };
        let body: Vec<u8> = if keep {
            match &origin.body {
                Some(b) => {
                    let c = b.clone();
                    proof {
                        assert(c@ =~= b@);
                    }
                    c
                },
                None => Vec::new(),
            }
        } else {
            Vec::new()
        };
        state.count = state.count + 1;
        state.url = url.clone();
        RedirectStep::Follow(RedirectRequest { url, method, body })
    }

    /// Decides on a response as [`Self::step_parsed`] does, parsing a
    /// `Location` text as a URI with the `http` crate and, where it names no
    /// host, joining it to the scheme and authority of the first request
    /// with the crate's URI builder.
    pub fn step(&self, origin: &RedirectOrigin, state: &mut RedirectState, status: u16, location: &LocationHeader) -> (r: RedirectStep)
        ensures
            (r@, final(state)@) == redirect_step(self.max(), origin@, old(state)@, status, location@),
    {
        match location {
            LocationHeader::Text(loc) => {
                let parsed = parse_uri_host(loc.as_str());
                let built = match parsed {
                    Some(None) => Some(build_uri(origin.scheme.as_str(), origin.authority.as_str(), loc.as_str())),
                    _ => None,
                };
                self.step_parsed(origin, state, status, location, parsed, built)
            },
            _ => self.step_parsed(origin, state, status, location, None, None),
        }
    }
}

} // verus!
