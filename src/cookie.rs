//! The cookie record, the request URL as the jar reads it, and the parser of
//! `Set-Cookie` header values.
use vstd::prelude::*;

verus! {

/// One cookie as a `Set-Cookie` header gives it.
///
/// Times are whole seconds: `expires` since the Unix epoch, `max_age` from
/// the moment the cookie is stored.
pub struct Cookie {
    pub name: String,
    pub value: String,
    pub domain: Option<String>,
    pub path: Option<String>,
    pub expires: Option<i64>,
    pub max_age: Option<i64>,
    pub secure: Option<bool>,
    pub http_only: Option<bool>,
    pub same_site: Option<String>,
}

/// What a [`Cookie`] holds, with strings as character sequences.
pub struct CookieView {
    pub name: Seq<char>,
    pub value: Seq<char>,
    pub domain: Option<Seq<char>>,
    pub path: Option<Seq<char>>,
    pub expires: Option<i64>,
    pub max_age: Option<i64>,
    pub secure: Option<bool>,
    pub http_only: Option<bool>,
    pub same_site: Option<Seq<char>>,
}

pub open spec fn opt_str_view(o: Option<String>) -> Option<Seq<char>> {
    match o {
        Some(s) => Some(s@),
        None => None,
    }
}

impl View for Cookie {
    type V = CookieView;

    open spec fn view(&self) -> CookieView {
        CookieView {
            name: self.name@,
            value: self.value@,
            domain: opt_str_view(self.domain),
            path: opt_str_view(self.path),
            expires: self.expires,
            max_age: self.max_age,
            secure: self.secure,
            http_only: self.http_only,
            same_site: opt_str_view(self.same_site),
        }
    }
}

pub fn copy_opt_str(o: &Option<String>) -> (r: Option<String>)
    ensures
        opt_str_view(r) == opt_str_view(*o),
{
    match o {
        Some(s) => Some(s.clone()),
        None => None,
    }
}

impl Cookie {
    /// A cookie with a name and a value and no attribute.
    pub fn new(name: &str, value: &str) -> (r: Cookie)
        ensures
            r@ == (CookieView {
                name: name@,
                value: value@,
                domain: None,
                path: None,
                expires: None,
                max_age: None,
                secure: None,
                http_only: None,
                same_site: None,
            }),
    {
        Cookie {
            name: name.to_string(),
            value: value.to_string(),
            domain: None,
            path: None,
            expires: None,
            max_age: None,
            secure: None,
            http_only: None,
            same_site: None,
        }
    }

    /// A copy with the same contents.
    pub fn copy(&self) -> (r: Cookie)
        ensures
            r@ == self@,
    {
        Cookie {
            name: self.name.clone(),
            value: self.value.clone(),
            domain: copy_opt_str(&self.domain),
            path: copy_opt_str(&self.path),
            expires: self.expires,
            max_age: self.max_age,
            secure: self.secure,
            http_only: self.http_only,
            same_site: copy_opt_str(&self.same_site),
        }
    }
}

pub open spec fn opt_cookie_view(o: Option<Cookie>) -> Option<CookieView> {
    match o {
        Some(c) => Some(c@),
        None => None,
    }
}

/// What `Cookie::parse_encoded` of the cookie crate makes of one header
/// value: `None` where it refuses the text.
pub uninterp spec fn parsed_cookie(header: Seq<char>) -> Option<CookieView>;

/// Relies on `cookie::Cookie::parse_encoded`: parses one `Set-Cookie` value,
/// percent-decoding name and value; the result depends on the text alone.
#[verifier::external_body]
fn parse_encoded(header: &str) -> (r: Option<Cookie>)
    ensures
        opt_cookie_view(r) == parsed_cookie(header@),
{
    let c = cookie::Cookie::parse_encoded(header).ok()?;
    Some(Cookie {
        name: c.name().to_string(),
        value: c.value().to_string(),
        domain: c.domain().map(|d| d.to_string()),
        path: c.path().map(|p| p.to_string()),
        expires: c.expires_datetime().map(|t| t.unix_timestamp()),
        max_age: c.max_age().map(|a| a.whole_seconds()),
        secure: c.secure(),
        http_only: c.http_only(),
        same_site: c.same_site().map(|s| s.to_string()),
    })
}

/// The cookies among parse results, in order; the failures are left out.
pub open spec fn kept_cookies(results: Seq<Option<CookieView>>) -> Seq<CookieView>
    decreases results.len(),
{
    if results.len() == 0 {
        Seq::empty()
    } else {
        let rest = kept_cookies(results.drop_last());
        match results.last() {
            Some(c) => rest.push(c),
            None => rest,
        }
    }
}

/// The cookies that a list of header values parse to, in order; the values
/// that do not parse are left out.
pub open spec fn parsed_cookies(headers: Seq<Seq<char>>) -> Seq<CookieView> {
    kept_cookies(headers.map_values(|h: Seq<char>| parsed_cookie(h)))
}

pub open spec fn opt_cookie_views(os: Seq<Option<Cookie>>) -> Seq<Option<CookieView>> {
    os.map_values(|o: Option<Cookie>| opt_cookie_view(o))
}

pub open spec fn cookie_views(cs: Seq<Cookie>) -> Seq<CookieView> {
    cs.map_values(|c: Cookie| c@)
}

pub open spec fn string_views(ss: Seq<String>) -> Seq<Seq<char>> {
    ss.map_values(|s: String| s@)
}

/// Parser of `Set-Cookie` header values.
pub struct ErgoCookieParser;

impl ErgoCookieParser {
    /// The cookies among the parse results of `Set-Cookie` values, in
    /// order; the values that did not parse are left out.
    pub fn collect_parsed(results: &Vec<Option<Cookie>>) -> (r: Vec<Cookie>)
        ensures
            cookie_views(r@) == kept_cookies(opt_cookie_views(results@)),
    {
        let mut out: Vec<Cookie> = Vec::new();
        let mut i: usize = 0;
        while i < results.len()
            invariant
                i <= results@.len(),
                cookie_views(out@) == kept_cookies(opt_cookie_views(results@).subrange(0, i as int)),
            decreases results@.len() - i,
        {
            proof {
                let pre = opt_cookie_views(results@).subrange(0, i as int + 1);
                assert(pre.drop_last() =~= opt_cookie_views(results@).subrange(0, i as int));
                assert(pre.last() == opt_cookie_view(results@[i as int]));
            }
            let ghost before = out@;
            match &results[i] {
                Some(c) => {
                    out.push(c.copy());
                    proof {
                        assert(cookie_views(out@) =~= cookie_views(before).push(c@));
                    }
                },
                None => {},
            }
            i = i + 1;
        }
        proof {
            assert(opt_cookie_views(results@).subrange(0, results@.len() as int) =~= opt_cookie_views(results@));
        }
        out
    }

    /// Parses every `Set-Cookie` value; a value that does not parse is
    /// ignored.
    pub fn parse_set_cookie_header(headers: &Vec<String>) -> (r: Vec<Cookie>)
        ensures
            cookie_views(r@) == parsed_cookies(string_views(headers@)),
    {
        let mut results: Vec<Option<Cookie>> = Vec::new();
        let mut i: usize = 0;
        while i < headers.len()
            invariant
                i <= headers@.len(),
                opt_cookie_views(results@) == string_views(headers@).subrange(0, i as int).map_values(
                    |h: Seq<char>| parsed_cookie(h),
                ),
            decreases headers@.len() - i,
        {
            let parsed = parse_encoded(headers[i].as_str());
            let ghost before = results@;
            results.push(parsed);
            proof {
                assert(opt_cookie_views(results@) =~= opt_cookie_views(before).push(parsed_cookie(headers@[i as int]@)));
                assert(string_views(headers@).subrange(0, i as int + 1).map_values(|h: Seq<char>| parsed_cookie(h))
                    =~= string_views(headers@).subrange(0, i as int).map_values(|h: Seq<char>| parsed_cookie(h)).push(
                    parsed_cookie(headers@[i as int]@),
                ));
            }
            i = i + 1;
        }
        proof {
            assert(string_views(headers@).subrange(0, headers@.len() as int) =~= string_views(headers@));
        }
        Self::collect_parsed(&results)
    }
}

} // verus!
