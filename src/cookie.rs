//! A cookie as the store keeps it, and how one is made from a received Set-Cookie.
use vstd::prelude::*;
use crate::cookie_domain::{domain_to_ascii_of, host_text, suffix_match, suffix_of_ascii, CookieDomain};
use crate::cookie_expiration::{max_age_expiration, utc_now, clamp_utc, tm_at, CookieExpiration, SerializableTm, MIN_UTC_SECONDS};
use crate::cookie_path::{default_path_of, CookiePath};
use crate::utils::{is_http_scheme, is_http_scheme_spec, is_secure, is_secure_spec, RequestUrl};

verus! {

/// Why a cookie was not made or not stored.
#[derive(PartialEq, Eq, Structural, Clone, Copy, Debug)]
pub enum CookieError {
    /// An HttpOnly cookie, or one replacing an HttpOnly cookie, came from a non-HTTP API.
    NonHttpScheme,
    /// The request URL has no host (a non-hierarchical scheme such as `data:`).
    NonRelativeScheme,
    /// The cookie's domain does not cover the request host.
    DomainMismatch,
    /// The cookie is expired and replaces nothing.
    Expired,
    /// The cookie could not be made: an empty name, or a Domain attribute that is no
    /// valid domain.
    Parse,
    /// The cookie's domain is a public suffix other than the request host.
    PublicSuffix,
    /// The cookie's domain is empty.
    UnspecifiedDomain,
}

/// A Set-Cookie header as a cookie parser hands it over.
#[derive(Clone, Debug)]
pub struct RawCookie {
    /// The header text as received.
    pub raw: String,
    pub name: String,
    pub value: String,
    /// The Domain attribute, if present.
    pub domain: Option<String>,
    /// The Path attribute, if present.
    pub path: Option<String>,
    /// The Max-Age attribute in seconds, if present.
    pub max_age: Option<i64>,
    /// The Expires attribute, if present.
    pub expires: Option<SerializableTm>,
    pub secure: bool,
    pub http_only: bool,
}

/// A stored cookie.
#[derive(Clone, Debug)]
pub struct Cookie {
    /// The Set-Cookie text it came from, kept for persistence.
    pub raw_cookie: String,
    pub name: String,
    pub value: String,
    pub secure: bool,
    pub http_only: bool,
    pub path: CookiePath,
    pub domain: CookieDomain,
    pub expires: CookieExpiration,
}

/// The expiration a raw cookie received at `now` gets: Max-Age first, then Expires, else the
/// end of the session.
pub open spec fn raw_expiration(raw: RawCookie, now: int) -> CookieExpiration {
    match raw.max_age {
        Some(m) => max_age_expiration(m as int, now),
        None => match raw.expires {
            Some(e) => CookieExpiration::AtUtc(tm_at(clamp_utc(e.unix_seconds as int))),
            None => CookieExpiration::SessionEnd,
        },
    }
}

/// The path a raw cookie received from `url` gets: its Path attribute where that starts with
/// `/`, else the default path of the request.
pub open spec fn raw_path(raw: RawCookie, url: RequestUrl) -> (Seq<char>, bool) {
    match raw.path {
        Some(p) => if p@.len() > 0 && p@[0] == '/' {
            (p@, false)
        } else {
            (default_path_of(url.path@), true)
        },
        None => (default_path_of(url.path@), true),
    }
}

/// The domain a raw cookie from `url` gets, as (host-only, text): the suffix that its
/// Domain attribute names where that is not empty and covers the request host, else the
/// request host; or why none.
pub open spec fn resolved_domain(raw: RawCookie, url: RequestUrl) -> Result<(bool, Seq<char>), CookieError> {
    let attr: Result<Option<Seq<char>>, CookieError> = match raw.domain {
        Some(d) => match domain_to_ascii_of(d@) {
            None => Err(CookieError::Parse),
            Some(a) => Ok(suffix_of_ascii(a)),
        },
        None => Ok(None),
    };
    match attr {
        Err(e) => Err(e),
        Ok(Some(s)) => if (match host_text(url) {
            Some(h) => suffix_match(s, h),
            None => false,
        }) {
            Ok((false, s))
        } else {
            Err(CookieError::DomainMismatch)
        },
        Ok(None) => match host_text(url) {
            Some(h) => Ok((true, h)),
            None => Err(CookieError::NonRelativeScheme),
        },
    }
}

/// `d` is host-only exactly when `host_only` holds, and its text is `text`.
pub open spec fn domain_is(d: CookieDomain, host_only: bool, text: Seq<char>) -> bool {
    (d is HostOnly) == host_only && d.text() == text
}

/// `c` carries the name, value, flags and text of `raw`, and the path and expiration that
/// `raw` gets when received from `url` at `now`.
pub open spec fn made_from(c: Cookie, raw: RawCookie, url: RequestUrl, now: int) -> bool {
    &&& c.name@ == raw.name@
    &&& c.value@ == raw.value@
    &&& c.raw_cookie@ == raw.raw@
    &&& c.secure == raw.secure
    &&& c.http_only == raw.http_only
    &&& (c.path.path@, c.path.is_default) == raw_path(raw, url)
    &&& c.expires == raw_expiration(raw, now)
}

/// What making a cookie from `raw`, received from `url` at `now`, gives.
pub open spec fn raw_cookie_outcome(raw: RawCookie, url: RequestUrl, now: int, r: Result<Cookie, CookieError>) -> bool {
    if raw.name@.len() == 0 {
        r == Err::<Cookie, CookieError>(CookieError::Parse)
    } else {
        match resolved_domain(raw, url) {
            Err(e) => r == Err::<Cookie, CookieError>(e),
            Ok((host_only, text)) => r matches Ok(c) && domain_is(c.domain, host_only, text)
                && made_from(c, raw, url, now),
        }
    }
}

impl Cookie {
    /// The cookie may be sent with a request to `url`: domain and path cover it, and its
    /// Secure and HttpOnly flags suit the request.
    pub open spec fn matches_spec(self, url: RequestUrl) -> bool {
        &&& self.domain.matches_spec(url)
        &&& self.path.matches_spec(url)
        &&& (self.secure ==> is_secure_spec(url))
        &&& (self.http_only ==> is_http_scheme_spec(url))
    }

    /// The key the store files the cookie under: domain, path and name.
    pub open spec fn key(self) -> (Seq<char>, Seq<char>, Seq<char>) {
        (self.domain.text(), self.path.path@, self.name@)
    }

    /// Expired as of time `t`.
    pub open spec fn expired_at(self, t: int) -> bool {
        self.expires.expires_by_spec(t)
    }

    /// Makes the cookie that `raw`, received from `request_url` at `now`, gives.
    pub fn try_from_raw_cookie_at(raw: &RawCookie, request_url: &RequestUrl, now: SerializableTm) -> (r: Result<Cookie, CookieError>)
        ensures
            raw_cookie_outcome(*raw, *request_url, now.unix_seconds as int, r),
    {
        if raw.name.as_str().is_empty() {
            return Err(CookieError::Parse);
        }
        let domain = match &raw.domain {
            Some(d) => match CookieDomain::try_from_attr(d.as_str()) {
                Err(e) => {
                    return Err(e);
                },
                Ok(Some(sd)) => {
                    if !sd.matches(request_url) {
                        return Err(CookieError::DomainMismatch);
                    }
                    sd
                },
                Ok(None) => match CookieDomain::host_only(request_url) {
                    Ok(h) => h,
                    Err(e) => {
                        return Err(e);
                    },
                },
            },
            None => match CookieDomain::host_only(request_url) {
                Ok(h) => h,
                Err(e) => {
                    return Err(e);
                },
            },
        };
        let path = match &raw.path {
            Some(p) => match CookiePath::parse(p.as_str()) {
                Some(cp) => cp,
                None => CookiePath::default_path(request_url),
            },
            None => CookiePath::default_path(request_url),
        };
        let expires = match raw.max_age {
            Some(m) => CookieExpiration::from_max_age_at(m, now),
            None => match raw.expires {
                Some(e) => CookieExpiration::from_utc(e),
                None => CookieExpiration::SessionEnd,
            },
        };
        Ok(Cookie {
            raw_cookie: raw.raw.clone(),
            name: raw.name.clone(),
            value: raw.value.clone(),
            secure: raw.secure,
            http_only: raw.http_only,
            path,
            domain,
            expires,
        })
    }

    /// Makes the cookie that `raw`, received from `request_url` now, gives.
    pub fn try_from_raw_cookie(raw: &RawCookie, request_url: &RequestUrl) -> (r: Result<Cookie, CookieError>)
        ensures
            exists|t: SerializableTm| t.in_range() && #[trigger] raw_cookie_outcome(*raw, *request_url, t.unix_seconds as int, r),
    {
        let now = utc_now();
        Cookie::try_from_raw_cookie_at(raw, request_url, now)
    }

    /// A copy of this cookie.
    pub fn cloned(&self) -> (r: Cookie)
        ensures
            r == *self,
    {
        Cookie {
            raw_cookie: self.raw_cookie.clone(),
            name: self.name.clone(),
            value: self.value.clone(),
            secure: self.secure,
            http_only: self.http_only,
            path: self.path.cloned(),
            domain: self.domain.cloned(),
            expires: self.expires,
        }
    }

    /// The cookie's name.
    pub fn name(&self) -> (r: &str)
        ensures
            r@ == self.name@,
    {
        self.name.as_str()
    }

    /// The cookie's value.
    pub fn value(&self) -> (r: &str)
        ensures
            r@ == self.value@,
    {
        self.value.as_str()
    }

    /// The cookie's name and value.
    pub fn name_value(&self) -> (r: (&str, &str))
        ensures
            r.0@ == self.name@,
            r.1@ == self.value@,
    {
        (self.name.as_str(), self.value.as_str())
    }

    /// Whether the cookie carries the Secure attribute.
    pub fn secure(&self) -> (r: bool)
        ensures
            r == self.secure,
    {
        self.secure
    }

    /// Whether the cookie carries the HttpOnly attribute.
    pub fn http_only(&self) -> (r: bool)
        ensures
            r == self.http_only,
    {
        self.http_only
    }

    /// Whether the cookie may be sent with a request to `request_url`.
    pub fn matches(&self, request_url: &RequestUrl) -> (r: bool)
        ensures
            r == self.matches_spec(*request_url),
    {
        self.domain.matches(request_url) && self.path.matches(request_url) && (!self.secure
            || is_secure(request_url)) && (!self.http_only || is_http_scheme(request_url))
    }

    /// Whether the cookie expires as of `utc_tm`.
    pub fn expires_by(&self, utc_tm: &SerializableTm) -> (r: bool)
        ensures
            r == self.expired_at(utc_tm.unix_seconds as int),
    {
        self.expires.expires_by(utc_tm)
    }

    /// Whether the cookie is expired as of now.
    pub fn is_expired(&self) -> (r: bool)
        ensures
            exists|t: SerializableTm| t.in_range() && r == #[trigger] self.expired_at(t.unix_seconds as int),
            self.expires is SessionEnd ==> !r,
    {
        let now = utc_now();
        self.expires_by(&now)
    }

    /// Whether the cookie has an absolute expiration, and so outlives the session.
    pub fn is_persistent(&self) -> (r: bool)
        ensures
            r == self.expires.is_persistent_spec(),
    {
        self.expires.is_persistent()
    }

    /// Expires the cookie: its expiration becomes the earliest representable time.
    pub fn expire(&mut self)
        ensures
            final(self).expires == CookieExpiration::AtUtc(tm_at(MIN_UTC_SECONDS as int)),
            final(self).key() == old(self).key(),
            final(self).name == old(self).name,
            final(self).value == old(self).value,
            final(self).secure == old(self).secure,
            final(self).http_only == old(self).http_only,
            final(self).raw_cookie == old(self).raw_cookie,
            final(self).domain == old(self).domain,
            final(self).path == old(self).path,
    {
        self.expires = CookieExpiration::expired();
    }
}

} // verus!
