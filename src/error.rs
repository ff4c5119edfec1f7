//! The errors of a request.
use vstd::prelude::*;

verus! {

/// The error of a `reqwest` transport call, carried as it is.
#[verifier::external_type_specification]
#[verifier::external_body]
pub struct ExReqwestError(reqwest::Error);

/// The error of building an `http` request, carried as it is.
#[verifier::external_type_specification]
#[verifier::external_body]
pub struct ExHttpError(http::Error);

/// A failure of a caller's middleware, carried as it is.
#[verifier::external_type_specification]
#[verifier::external_body]
pub struct ExAnyhowError(anyhow::Error);

/// Why a request failed.
pub enum ErgoError {
    /// The transport failed.
    Reqwest(reqwest::Error),
    /// Still redirected after the most redirects allowed: the last URL and
    /// the number of redirects followed.
    TooManyRedirect(String, u64),
    /// A request could not be built.
    Http(http::Error),
    /// A failure raised by a middleware of the caller.
    Custom(anyhow::Error),
    /// A redirect response without a `Location` header.
    RedirectLocationEmpty,
    /// A `Location` header that is not text.
    RedirectLocationInvalid,
    /// A `Location` header that is not a URI.
    InvalidRedirectUrl(String),
    /// A fault of this library.
    Internal(String),
}

impl ErgoError {
    /// Whether the error is [`ErgoError::TooManyRedirect`].
    pub fn is_too_many_redirects(&self) -> (r: bool)
        ensures
            r == (self is TooManyRedirect),
    {
        match self {
            ErgoError::TooManyRedirect(_, _) => true,
            _ => false,
        }
    }
}

impl From<reqwest::Error> for ErgoError {
    fn from(value: reqwest::Error) -> (r: Self) {
        ErgoError::Reqwest(value)
    }
}

impl vstd::std_specs::convert::FromSpecImpl<reqwest::Error> for ErgoError {
    open spec fn obeys_from_spec() -> bool {
        true
    }

    open spec fn from_spec(v: reqwest::Error) -> ErgoError {
        ErgoError::Reqwest(v)
    }
}

impl From<http::Error> for ErgoError {
    fn from(value: http::Error) -> (r: Self) {
        ErgoError::Http(value)
    }
}

impl vstd::std_specs::convert::FromSpecImpl<http::Error> for ErgoError {
    open spec fn obeys_from_spec() -> bool {
        true
    }

    open spec fn from_spec(v: http::Error) -> ErgoError {
        ErgoError::Http(v)
    }
}

impl From<anyhow::Error> for ErgoError {
    fn from(value: anyhow::Error) -> (r: Self) {
        ErgoError::Custom(value)
    }
}

impl vstd::std_specs::convert::FromSpecImpl<anyhow::Error> for ErgoError {
    open spec fn obeys_from_spec() -> bool {
        true
    }

    open spec fn from_spec(v: anyhow::Error) -> ErgoError {
        ErgoError::Custom(v)
    }
}

} // verus!
