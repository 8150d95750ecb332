//! The domain scope of a cookie.
use vstd::prelude::*;
use publicsuffix::Psl;
use crate::cookie::CookieError;
use crate::utils::{chars_of, chars_end_with, is_suffix, same_text, string_from_chars, RequestUrl};

verus! {

#[verifier::external_type_specification]
#[verifier::external_body]
pub struct ExList(publicsuffix::List);

#[verifier::external_type_specification]
#[verifier::external_body]
pub struct ExIdnaErrors(idna::Errors);

/// What `idna::domain_to_ascii` gives for a domain: its ASCII form, or none where the
/// domain is refused.
pub uninterp spec fn domain_to_ascii_of(domain: Seq<char>) -> Option<Seq<char>>;

/// Relies on `idna::domain_to_ascii`: the ASCII (punycode, lower case) form of a domain, a
/// function of the domain alone; an error where it cannot be converted.
#[verifier::external_body]
fn domain_to_ascii(domain: &str) -> (r: Result<String, idna::Errors>)
    ensures
        r matches Ok(a) ==> domain_to_ascii_of(domain@) == Some(a@),
        r is Err ==> domain_to_ascii_of(domain@) is None,
{
    idna::domain_to_ascii(domain)
}

/// Relies on `publicsuffix::Psl::suffix` for `publicsuffix::List`: the public suffix of
/// `name` by `list`, given as the number of bytes it takes at the end of `name`, and
/// whether the list names that suffix explicitly.
#[verifier::external_body]
fn public_suffix_of(list: &publicsuffix::List, name: &str) -> (r: Option<(usize, bool)>) {
    list.suffix(name.as_bytes()).map(|s| (s.as_bytes().len(), s.is_known()))
}

/// Whether a public suffix lookup result, given as (bytes it takes at the end of the
/// domain, named explicitly by the list), covers the whole of a domain of `domain_len`
/// bytes with a listed suffix.
pub fn suffix_is_whole_domain(suffix: Option<(usize, bool)>, domain_len: usize) -> (r: bool)
    ensures
        r == (suffix matches Some((n, known)) && known && n == domain_len),
{
    match suffix {
        Some((n, known)) => known && n == domain_len,
        None => false,
    }
}

/// The domain scope of a cookie.
#[derive(Clone, Debug)]
pub enum CookieDomain {
    /// Set without a Domain attribute: only the exact host that set it.
    HostOnly(String),
    /// Set with a Domain attribute: that domain and every subdomain of it.
    Suffix(String),
}

/// `s` without one leading `.`.
pub open spec fn strip_leading_dot(s: Seq<char>) -> Seq<char> {
    if s.len() > 0 && s[0] == '.' {
        s.drop_first()
    } else {
        s
    }
}

/// `host` is `suffix` or a subdomain of it.
pub open spec fn suffix_match(suffix: Seq<char>, host: Seq<char>) -> bool {
    suffix == host || is_suffix(seq!['.'] + suffix, host)
}

/// Domain-match of a cookie domain against a request host.
pub open spec fn domain_match(d: CookieDomain, host: Seq<char>) -> bool {
    match d {
        CookieDomain::HostOnly(h) => h@ == host,
        CookieDomain::Suffix(s) => suffix_match(s@, host),
    }
}

/// The host of a request URL as text, if it has one.
pub open spec fn host_text(url: RequestUrl) -> Option<Seq<char>> {
    match url.host {
        Some(h) => Some(h.name@),
        None => None,
    }
}

/// What a Domain attribute resolves to, from the ASCII form of its text: none for an empty
/// attribute (the cookie is then host-only), else the suffix without a leading dot.
pub open spec fn suffix_of_ascii(ascii: Seq<char>) -> Option<Seq<char>> {
    if ascii.len() == 0 || ascii == seq!['.'] {
        None
    } else {
        Some(strip_leading_dot(ascii))
    }
}

impl CookieDomain {
    /// The domain as text.
    pub open spec fn text(self) -> Seq<char> {
        match self {
            CookieDomain::HostOnly(h) => h@,
            CookieDomain::Suffix(s) => s@,
        }
    }

    /// Whether the domain scope covers the host of `url`.
    pub open spec fn matches_spec(self, url: RequestUrl) -> bool {
        match host_text(url) {
            Some(h) => domain_match(self, h),
            None => false,
        }
    }

    /// Whether the domain's text is the host of `url`.
    pub open spec fn host_is_identical_spec(self, url: RequestUrl) -> bool {
        host_text(url) == Some(self.text())
    }

    /// The host-only domain of the host of `request_url`.
    pub fn host_only(request_url: &RequestUrl) -> (r: Result<CookieDomain, CookieError>)
        ensures
            match host_text(*request_url) {
                Some(h) => r matches Ok(CookieDomain::HostOnly(s)) && s@ == h && s
                    == request_url.host->Some_0.name,
                None => r == Err::<CookieDomain, CookieError>(CookieError::NonRelativeScheme),
            },
    {
        match &request_url.host {
            Some(h) => Ok(CookieDomain::HostOnly(h.name.clone())),
            None => Err(CookieError::NonRelativeScheme),
        }
    }

    /// Whether this domain scope covers the host of `request_url`.
    pub fn matches(&self, request_url: &RequestUrl) -> (r: bool)
        ensures
            r == self.matches_spec(*request_url),
    {
        match &request_url.host {
            None => false,
            Some(h) => match self {
                CookieDomain::HostOnly(d) => same_text(d.as_str(), h.name.as_str()),
                CookieDomain::Suffix(d) => {
                    if same_text(d.as_str(), h.name.as_str()) {
                        return true;
                    }
                    let mut dotted: Vec<char> = vec!['.'];
                    let mut dv = chars_of(d.as_str());
                    dotted.append(&mut dv);
                    assert(dotted@ =~= seq!['.'] + d@);
                    chars_end_with(&chars_of(h.name.as_str()), &dotted)
                },
            },
        }
    }

    /// Whether the domain's text is exactly the host of `request_url`.
    pub fn host_is_identical(&self, request_url: &RequestUrl) -> (r: bool)
        ensures
            r == self.host_is_identical_spec(*request_url),
    {
        match &request_url.host {
            None => false,
            Some(h) => same_text(self.as_str(), h.name.as_str()),
        }
    }

    /// Whether `psl` lists this domain, as a whole, as a public suffix.
    pub fn is_public_suffix(&self, psl: &publicsuffix::List) -> (r: bool) {
        let d = self.as_str();
        suffix_is_whole_domain(public_suffix_of(psl, d), d.len())
    }

    /// A copy of this domain.
    pub fn cloned(&self) -> (r: CookieDomain)
        ensures
            r == *self,
    {
        match self {
            CookieDomain::HostOnly(s) => CookieDomain::HostOnly(s.clone()),
            CookieDomain::Suffix(s) => CookieDomain::Suffix(s.clone()),
        }
    }

    /// The domain as text.
    pub fn as_str(&self) -> (r: &str)
        ensures
            r@ == self.text(),
    {
        match self {
            CookieDomain::HostOnly(s) => s.as_str(),
            CookieDomain::Suffix(s) => s.as_str(),
        }
    }

    /// The suffix domain that the Domain attribute `value` names: none where the attribute
    /// is empty (the cookie is then host-only), an error where it is not a valid domain.
    pub fn try_from_attr(value: &str) -> (r: Result<Option<CookieDomain>, CookieError>)
        ensures
            match domain_to_ascii_of(value@) {
                None => r == Err::<Option<CookieDomain>, CookieError>(CookieError::Parse),
                Some(a) => match suffix_of_ascii(a) {
                    None => r matches Ok(None),
                    Some(s) => r matches Ok(Some(CookieDomain::Suffix(t))) && t@ == s,
                },
            },
    {
        match domain_to_ascii(value) {
            Err(_) => Err(CookieError::Parse),
            Ok(ascii) => {
                let mut v = chars_of(ascii.as_str());
                if v.len() == 0 || (v.len() == 1 && v[0] == '.') {
                    proof {
                        if v.len() == 1 {
                            assert(v@ =~= seq!['.']);
                        }
                    }
                    Ok(None)
                } else {
                    proof {
                        if v@ == seq!['.'] {
                            assert(v@.len() == 1);
                        }
                    }
                    if v[0] == '.' {
                        let rest = v.split_off(1);
                        assert(rest@ =~= ascii@.drop_first());
                        Ok(Some(CookieDomain::Suffix(string_from_chars(&rest))))
                    } else {
                        Ok(Some(CookieDomain::Suffix(string_from_chars(&v))))
                    }
                }
            },
        }
    }
}

} // verus!
