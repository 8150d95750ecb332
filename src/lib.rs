//! An in-memory HTTP cookie jar following the storage and retrieval rules of RFC 6265:
//! cookies are filed by domain, path and name, insertion follows the storage model, and a
//! request is sent the unexpired cookies whose domain, path and flags suit it.
use vstd::prelude::*;

pub mod cookie;
pub mod cookie_domain;
pub mod cookie_expiration;
pub mod cookie_path;
pub mod cookie_store;
pub mod serialization;
pub mod utils;

pub use crate::cookie::{Cookie, CookieError, RawCookie};
pub use crate::cookie_domain::CookieDomain;
pub use crate::cookie_expiration::{CookieExpiration, SerializableTm};
pub use crate::cookie_path::CookiePath;
pub use crate::cookie_store::{CookieStore, InsertResult, StoreAction};
pub use crate::serialization::CookieStoreSerialized;
pub use crate::utils::{is_host_name, is_http_scheme, is_secure, HostKind, RequestUrl, UrlHost};

verus! {

} // verus!
