//! Request URLs as plain values, and the text helpers that the matching rules use.
use vstd::prelude::*;

verus! {

/// What kind of host a request URL names.
#[derive(PartialEq, Eq, Structural, Clone, Copy, Debug)]
pub enum HostKind {
    /// A registered name such as `example.com`.
    Domain,
    /// An IPv4 address, octet by octet.
    Ipv4(u8, u8, u8, u8),
    /// An IPv6 address, segment by segment.
    Ipv6(u16, u16, u16, u16, u16, u16, u16, u16),
}

/// The host of a request URL: its canonical text (`example.com`, `127.0.0.1`, `[::1]`)
/// and its kind.
#[derive(Clone, Debug)]
pub struct UrlHost {
    pub name: String,
    pub kind: HostKind,
}

/// A parsed request URL, reduced to what cookie matching reads.
#[derive(Clone, Debug)]
pub struct RequestUrl {
    /// The scheme, lower case (`http`, `https`, `ftp`, `data`).
    pub scheme: String,
    /// The host; absent for URLs without an authority (`data:...`).
    pub host: Option<UrlHost>,
    /// The normalized path (`/foo/bar`).
    pub path: String,
}

/// `p` is a prefix of `s`.
pub open spec fn is_prefix(p: Seq<char>, s: Seq<char>) -> bool {
    p.len() <= s.len() && s.subrange(0, p.len() as int) == p
}

/// `p` is a suffix of `s`.
pub open spec fn is_suffix(p: Seq<char>, s: Seq<char>) -> bool {
    p.len() <= s.len() && s.subrange(s.len() - p.len(), s.len() as int) == p
}

/// The characters of `s`, one by one.
pub fn chars_of(s: &str) -> (r: Vec<char>)
    ensures
        r@ == s@,
{
    let mut r: Vec<char> = Vec::new();
    for c in it: s.chars()
        invariant
            r@ == it.seq().take(it.index() as int),
    {
        r.push(c);
    }
    r
}


/// Relies on std's `FromIterator<&char> for String`: the string holds the characters given, in order.
#[verifier::external_body]
pub(crate) fn string_from_chars(v: &Vec<char>) -> (r: String)
    ensures
        r@ == v@,
{
    v.iter().collect()
}

/// Whether `p` is a prefix of `s`, character by character.
pub fn chars_start_with(s: &Vec<char>, p: &Vec<char>) -> (r: bool)
    ensures
        r == is_prefix(p@, s@),
{
    if p.len() > s.len() {
        return false;
    }
    let mut i: usize = 0;
    while i < p.len()
        invariant
            i <= p.len() <= s.len(),
            forall|j: int| 0 <= j < i ==> s@[j] == p@[j],
        decreases p.len() - i,
    {
        if s[i] != p[i] {
            assert(s@.subrange(0, p.len() as int)[i as int] != p@[i as int]);
            return false;
        }
        i += 1;
    }
    assert(s@.subrange(0, p.len() as int) =~= p@);
    true
}

/// Whether `p` is a suffix of `s`, character by character.
pub fn chars_end_with(s: &Vec<char>, p: &Vec<char>) -> (r: bool)
    ensures
        r == is_suffix(p@, s@),
{
    if p.len() > s.len() {
        return false;
    }
    let off: usize = s.len() - p.len();
    let mut i: usize = 0;
    while i < p.len()
        invariant
            i <= p.len() <= s.len(),
            off == s.len() - p.len(),
            forall|j: int| 0 <= j < i ==> s@[off + j] == p@[j],
        decreases p.len() - i,
    {
        if s[off + i] != p[i] {
            assert(s@.subrange(off as int, s.len() as int)[i as int] != p@[i as int]);
            return false;
        }
        i += 1;
    }
    assert(s@.subrange(off as int, s.len() as int) =~= p@);
    true
}

/// Whether `p` is a prefix of `s`.
pub fn starts_with(s: &str, p: &str) -> (r: bool)
    ensures
        r == is_prefix(p@, s@),
{
    chars_start_with(&chars_of(s), &chars_of(p))
}

/// Whether `p` is a suffix of `s`.
pub fn ends_with(s: &str, p: &str) -> (r: bool)
    ensures
        r == is_suffix(p@, s@),
{
    chars_end_with(&chars_of(s), &chars_of(p))
}

/// Whether `a` and `b` hold the same text.
pub fn same_text(a: &str, b: &str) -> (r: bool)
    ensures
        r == (a@ == b@),
{
    let va = chars_of(a);
    let vb = chars_of(b);
    let r = va.len() == vb.len() && chars_start_with(&va, &vb);
    assert(va@.subrange(0, va@.len() as int) =~= va@);
    r
}

/// The scheme belongs to the HTTP family (`http`, `https`).
pub open spec fn is_http_scheme_spec(url: RequestUrl) -> bool {
    is_prefix("http"@, url.scheme@)
}

/// The host is the local machine: `localhost`, an address in 127.0.0.0/8, or `::1`.
pub open spec fn is_loopback_host(h: UrlHost) -> bool {
    match h.kind {
        HostKind::Domain => h.name@ == "localhost"@,
        HostKind::Ipv4(a, _, _, _) => a == 127,
        HostKind::Ipv6(a, b, c, d, e, f, g, k) => a == 0 && b == 0 && c == 0 && d == 0 && e == 0
            && f == 0 && g == 0 && k == 1,
    }
}

/// The request comes from a secure context: `https`, or a loopback host.
pub open spec fn is_secure_spec(url: RequestUrl) -> bool {
    url.scheme@ == "https"@ || match url.host {
        Some(h) => is_loopback_host(h),
        None => false,
    }
}

/// Whether the request URL's scheme is `http` or another of its family.
pub fn is_http_scheme(url: &RequestUrl) -> (r: bool)
    ensures
        r == is_http_scheme_spec(*url),
{
    starts_with(url.scheme.as_str(), "http")
}

/// Whether the host is a registered name rather than an IP address.
pub fn is_host_name(host: &UrlHost) -> (r: bool)
    ensures
        r == (host.kind == HostKind::Domain),
{
    match host.kind {
        HostKind::Domain => true,
        _ => false,
    }
}

/// Whether the request comes from a secure context: `https`, or a loopback host even
/// without TLS.
pub fn is_secure(url: &RequestUrl) -> (r: bool)
    ensures
        r == is_secure_spec(*url),
{
    if same_text(url.scheme.as_str(), "https") {
        return true;
    }
    match &url.host {
        Some(h) => match h.kind {
            HostKind::Domain => same_text(h.name.as_str(), "localhost"),
            HostKind::Ipv4(a, _, _, _) => a == 127,
            HostKind::Ipv6(a, b, c, d, e, f, g, k) => a == 0 && b == 0 && c == 0 && d == 0 && e
                == 0 && f == 0 && g == 0 && k == 1,
        },
        None => false,
    }
}

} // verus!
