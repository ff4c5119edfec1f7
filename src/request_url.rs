//! The parts of a request URL that cookie handling reads.
use vstd::prelude::*;
use crate::cookie::opt_str_view;

verus! {

/// The error of `url::Url::parse`, carried as it is.
#[verifier::external_type_specification]
#[verifier::external_body]
pub struct ExUrlParseError(url::ParseError);

/// Scheme, host and path of a URL, as the `url` crate gives them: the scheme
/// and a domain host in lower case, the path `"/"` at least where the scheme
/// has hosts.
pub struct RequestUrl {
    pub scheme: String,
    pub host: Option<String>,
    pub path: String,
}

pub struct UrlView {
    pub scheme: Seq<char>,
    pub host: Option<Seq<char>>,
    pub path: Seq<char>,
}

impl View for RequestUrl {
    type V = UrlView;

    open spec fn view(&self) -> UrlView {
        UrlView { scheme: self.scheme@, host: opt_str_view(self.host), path: self.path@ }
    }
}

/// What `url::Url::parse` makes of a text: `None` where it refuses it.
pub uninterp spec fn parsed_url(s: Seq<char>) -> Option<UrlView>;

/// Relies on `url::Url::parse`, and on its `scheme`, `host_str` and `path`
/// accessors; the result depends on the text alone.
#[verifier::external_body]
fn parse_url(s: &str) -> (r: Result<RequestUrl, url::ParseError>)
    ensures
        r is Ok <==> parsed_url(s@) is Some,
        r is Ok ==> parsed_url(s@) == Some(r->Ok_0@),
{
    let u = url::Url::parse(s)?;
    Ok(RequestUrl {
        scheme: u.scheme().to_string(),
        host: u.host_str().map(|h| h.to_string()),
        path: u.path().to_string(),
    })
}

impl RequestUrl {
    /// Parses an absolute URL.
    pub fn parse(s: &str) -> (r: Result<RequestUrl, url::ParseError>)
        ensures
            r is Ok <==> parsed_url(s@) is Some,
            r is Ok ==> parsed_url(s@) == Some(r->Ok_0@),
    {
        parse_url(s)
    }

    /// A copy with the same parts.
    pub fn copy(&self) -> (r: RequestUrl)
        ensures
            r@ == self@,
    {
        RequestUrl {
            scheme: self.scheme.clone(),
            host: crate::cookie::copy_opt_str(&self.host),
            path: self.path.clone(),
        }
    }
}

} // verus!
