//! Request-processing core of an HTTP client layer: a cookie jar with
//! domain/path matching and expiry, the redirect and retry decision
//! machines, and the ordering of the middleware chain around a transport.
pub mod chain;
pub mod cookie;
pub mod cookie_container;
pub mod cookie_laws;
pub mod error;
pub mod redirect;
pub mod request_url;
pub mod retry;
pub mod text;
pub mod url_builder;

pub use crate::cookie::{Cookie, ErgoCookieParser};
pub use crate::cookie_container::ErgoCookieContainer;
pub use crate::error::ErgoError;
pub use crate::redirect::AutoRedirectMiddleware;
pub use crate::request_url::RequestUrl;
pub use crate::url_builder::StringUrlBuilderTrait;
