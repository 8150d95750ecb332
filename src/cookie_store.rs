//! The cookie store: cookies filed by domain, path and name, the insertion rules of the
//! RFC 6265 storage model, and the query for the cookies a request may carry.
use vstd::prelude::*;
use crate::cookie::{Cookie, CookieError, RawCookie, raw_cookie_outcome};
use crate::cookie_domain::{host_text, CookieDomain};
use crate::cookie_path::path_match;
use crate::cookie_expiration::{tm_at, utc_now, CookieExpiration, SerializableTm, MAX_UTC_SECONDS, MIN_UTC_SECONDS};
use crate::utils::{chars_of, is_suffix, is_http_scheme, is_http_scheme_spec, is_secure_spec, same_text, string_from_chars, RequestUrl};

verus! {

/// What an insertion did.
#[derive(PartialEq, Eq, Structural, Clone, Copy, Debug)]
pub enum StoreAction {
    /// The cookie was added to the store.
    Inserted,
    /// The cookie expired a cookie already in the store.
    ExpiredExisting,
    /// The cookie was added to the store, replacing an entry.
    UpdatedExisting,
}

/// The outcome of an insertion.
pub type InsertResult = Result<StoreAction, CookieError>;

/// A store of cookies, each filed under its key (domain, path, name), with an optional
/// public suffix list that insertion consults.
///
/// The cookies are kept in one sequence, in the order their keys were first filed; no two
/// share a key. A removal takes the cookie out of the sequence, so no empty domain or path
/// level is ever left behind.
#[derive(Debug)]
pub struct CookieStore {
    cookies: Vec<Cookie>,
    public_suffix_list: Option<publicsuffix::List>,
}

/// No two cookies share a key.
pub open spec fn keys_unique(s: Seq<Cookie>) -> bool {
    forall|i: int, j: int|
        0 <= i < s.len() && 0 <= j < s.len() && i != j ==> #[trigger] s[i].key() != #[trigger] s[j].key()
}

/// Some cookie is filed under `k`.
pub open spec fn has_key(s: Seq<Cookie>, k: (Seq<char>, Seq<char>, Seq<char>)) -> bool {
    exists|i: int| 0 <= i < s.len() && #[trigger] s[i].key() == k
}

/// The position of the cookie filed under `k`.
pub open spec fn key_index(s: Seq<Cookie>, k: (Seq<char>, Seq<char>, Seq<char>)) -> int {
    choose|i: int| 0 <= i < s.len() && #[trigger] s[i].key() == k
}

/// The cookie filed under `k`, expired or not.
pub open spec fn lookup_any(s: Seq<Cookie>, k: (Seq<char>, Seq<char>, Seq<char>)) -> Option<Cookie> {
    if has_key(s, k) {
        Some(s[key_index(s, k)])
    } else {
        None
    }
}

/// The cookie filed under `k`, if it is not expired at time `t`.
pub open spec fn lookup(s: Seq<Cookie>, k: (Seq<char>, Seq<char>, Seq<char>), t: int) -> Option<Cookie> {
    match lookup_any(s, k) {
        Some(c) => if c.expired_at(t) {
            None
        } else {
            Some(c)
        },
        None => None,
    }
}

/// `r` refers to the cookie that `e` holds, or is none where `e` is.
pub open spec fn refers_to(r: Option<&Cookie>, e: Option<Cookie>) -> bool {
    match r {
        Some(c) => e == Some(*c),
        None => e is None,
    }
}

/// The cookies behind a sequence of references.
pub open spec fn derefs(v: Seq<&Cookie>) -> Seq<Cookie> {
    v.map_values(|c: &Cookie| *c)
}

/// The cookies of `s` that are not expired at time `t`.
pub open spec fn unexpired(s: Seq<Cookie>, t: int) -> Seq<Cookie> {
    s.filter(unexpired_pred(t))
}

/// The test that [`unexpired`] applies.
pub open spec fn unexpired_pred(t: int) -> spec_fn(Cookie) -> bool {
    |c: Cookie| !c.expired_at(t)
}

/// The test that [`matching`] applies.
pub open spec fn sendable(url: RequestUrl, t: int) -> spec_fn(Cookie) -> bool {
    |c: Cookie| !c.expired_at(t) && c.matches_spec(url)
}

/// The cookies of `s` that are not expired at time `t` and may be sent to `url`.
pub open spec fn matching(s: Seq<Cookie>, url: RequestUrl, t: int) -> Seq<Cookie> {
    s.filter(sendable(url, t))
}

/// A suffix list's verdict `ps` is possible: without a list, nothing is listed.
pub open spec fn verdict_allowed(has_list: bool, ps: bool) -> bool {
    has_list || !ps
}

/// `s` with `c` filed under its key: in place of the cookie there, else at the end.
pub open spec fn put(s: Seq<Cookie>, c: Cookie) -> Seq<Cookie> {
    if has_key(s, c.key()) {
        s.update(key_index(s, c.key()), c)
    } else {
        s.push(c)
    }
}

/// The cookies that filing `v` in order into an empty store gives, leaving out those
/// expired at `t` unless `include_expired` holds.
pub open spec fn rebuilt(v: Seq<Cookie>, include_expired: bool, t: int) -> Seq<Cookie>
    decreases v.len(),
{
    if v.len() == 0 {
        Seq::empty()
    } else {
        let s = rebuilt(v.drop_last(), include_expired, t);
        if include_expired || !v.last().expired_at(t) {
            put(s, v.last())
        } else {
            s
        }
    }
}

/// The cookies of a sequence of results that are all `Ok`.
pub open spec fn oks<E>(v: Seq<Result<Cookie, E>>) -> Seq<Cookie> {
    v.map_values(|x: Result<Cookie, E>| x->Ok_0)
}

/// `name=value` of a cookie.
pub open spec fn pair_text(c: Cookie) -> Seq<char> {
    c.name@ + seq!['='] + c.value@
}

/// The Cookie header text for cookies `m`: their `name=value` pairs joined by `; `.
pub open spec fn header_text(m: Seq<Cookie>) -> Seq<char>
    decreases m.len(),
{
    if m.len() == 0 {
        Seq::empty()
    } else if m.len() == 1 {
        pair_text(m[0])
    } else {
        header_text(m.drop_last()) + seq![';', ' '] + pair_text(m.last())
    }
}

/// The store `s2` is what `s1` can become when `raw`, received from `url`, is made into a
/// cookie and inserted, at some time and under some possible suffix list verdict.
pub open spec fn raw_insert_step(s1: Seq<Cookie>, s2: Seq<Cookie>, raw: RawCookie, url: RequestUrl, has_list: bool) -> bool {
    exists|made: Result<Cookie, CookieError>, t: int, ps: bool|
        MIN_UTC_SECONDS <= t <= MAX_UTC_SECONDS && #[trigger] raw_cookie_outcome(raw, url, t, made) && #[trigger] verdict_allowed(has_list, ps) && match made {
            Err(_) => s2 == s1,
            Ok(c) => s2 == insert_outcome(s1, c, url, t, ps).0,
        }
}

/// `c` with its expiration forced to the earliest representable time.
pub open spec fn expired_copy(c: Cookie) -> Cookie {
    Cookie { expires: CookieExpiration::AtUtc(tm_at(MIN_UTC_SECONDS as int)), ..c }
}

/// `c` with its domain made host-only on the host of `url`.
pub open spec fn host_only_copy(c: Cookie, url: RequestUrl) -> Cookie {
    Cookie { domain: CookieDomain::HostOnly(url.host->Some_0.name), ..c }
}

/// The cookies after the insertion of `c`, received from `url` at time `t`, into `s`, and
/// the outcome; `public_suffix` says whether a configured suffix list names `c`'s domain.
pub open spec fn insert_outcome(s: Seq<Cookie>, c: Cookie, url: RequestUrl, t: int, public_suffix: bool) -> (Seq<Cookie>, InsertResult) {
    if c.http_only && !is_http_scheme_spec(url) {
        (s, Err(CookieError::NonHttpScheme))
    } else if public_suffix && !c.domain.host_is_identical_spec(url) {
        (s, Err(CookieError::PublicSuffix))
    } else {
        let c2 = if public_suffix {
            host_only_copy(c, url)
        } else {
            c
        };
        let k = c2.key();
        let live_old = has_key(s, k) && !s[key_index(s, k)].expired_at(t);
        if !c2.domain.matches_spec(url) {
            (s, Err(CookieError::DomainMismatch))
        } else if c2.domain.text().len() == 0 {
            (s, Err(CookieError::UnspecifiedDomain))
        } else if live_old && s[key_index(s, k)].http_only && !is_http_scheme_spec(url) {
            (s, Err(CookieError::NonHttpScheme))
        } else if live_old && c2.expired_at(t) {
            (s.update(key_index(s, k), expired_copy(s[key_index(s, k)])), Ok(StoreAction::ExpiredExisting))
        } else if c2.expired_at(t) {
            (s, Err(CookieError::Expired))
        } else if has_key(s, k) {
            (s.update(key_index(s, k), c2), Ok(StoreAction::UpdatedExisting))
        } else {
            (s.push(c2), Ok(StoreAction::Inserted))
        }
    }
}

/// Replacing a cookie by one with the same key keeps keys unique.
proof fn lemma_unique_after_update(s: Seq<Cookie>, i: int, c: Cookie)
    requires
        keys_unique(s),
        0 <= i < s.len(),
        c.key() == s[i].key(),
    ensures
        keys_unique(s.update(i, c)),
{
    let t = s.update(i, c);
    assert forall|a: int, b: int| 0 <= a < t.len() && 0 <= b < t.len() && a != b implies #[trigger] t[a].key() != #[trigger] t[b].key() by {
        assert(t[a].key() == s[a].key());
        assert(t[b].key() == s[b].key());
    }
}

/// Adding a cookie under a key not yet filed keeps keys unique.
proof fn lemma_unique_after_push(s: Seq<Cookie>, c: Cookie)
    requires
        keys_unique(s),
        !has_key(s, c.key()),
    ensures
        keys_unique(s.push(c)),
{
    let t = s.push(c);
    let n = s.len() as int;
    assert forall|a: int, b: int| 0 <= a < t.len() && 0 <= b < t.len() && a != b implies #[trigger] t[a].key() != #[trigger] t[b].key() by {
        if a == n {
            assert(s[b].key() != c.key());
        } else if b == n {
            assert(s[a].key() != c.key());
        } else {
            assert(t[a] == s[a] && t[b] == s[b]);
        }
    }
}

proof fn lemma_matching_step(s: Seq<Cookie>, i: int, url: RequestUrl, t: int)
    requires
        0 <= i < s.len(),
    ensures
        matching(s.take(i + 1), url, t) == if !s[i].expired_at(t) && s[i].matches_spec(url) {
            matching(s.take(i), url, t).push(s[i])
        } else {
            matching(s.take(i), url, t)
        },
{
    reveal(Seq::filter);
    assert(s.take(i + 1).drop_last() =~= s.take(i));
}

proof fn lemma_unexpired_step(s: Seq<Cookie>, i: int, t: int)
    requires
        0 <= i < s.len(),
    ensures
        unexpired(s.take(i + 1), t) == if !s[i].expired_at(t) {
            unexpired(s.take(i), t).push(s[i])
        } else {
            unexpired(s.take(i), t)
        },
{
    reveal(Seq::filter);
    assert(s.take(i + 1).drop_last() =~= s.take(i));
}

impl View for CookieStore {
    type V = Seq<Cookie>;

    closed spec fn view(&self) -> Seq<Cookie> {
        self.cookies@
    }
}

impl Default for CookieStore {
    /// An empty store without a public suffix list.
    fn default() -> (r: CookieStore)
        ensures
            r@ == Seq::<Cookie>::empty(),
            r.wf(),
            !r.has_suffix_list(),
    {
        CookieStore::new()
    }
}

impl CookieStore {
    /// No two stored cookies share a key.
    pub open spec fn wf(&self) -> bool {
        keys_unique(self@)
    }

    /// A public suffix list is configured.
    pub closed spec fn has_suffix_list(&self) -> bool {
        self.public_suffix_list is Some
    }

    /// An empty store without a public suffix list.
    pub fn new() -> (r: CookieStore)
        ensures
            r@ == Seq::<Cookie>::empty(),
            r.wf(),
            !r.has_suffix_list(),
    {
        CookieStore { cookies: Vec::new(), public_suffix_list: None }
    }

    /// An empty store that consults `public_suffix_list`, if given, on insertion.
    pub fn new_with_public_suffix(public_suffix_list: Option<publicsuffix::List>) -> (r: CookieStore)
        ensures
            r@ == Seq::<Cookie>::empty(),
            r.wf(),
            r.has_suffix_list() == public_suffix_list is Some,
    {
        CookieStore { cookies: Vec::new(), public_suffix_list }
    }

    /// The same store, consulting `psl` on insertion from now on.
    pub fn with_suffix_list(self, psl: publicsuffix::List) -> (r: CookieStore)
        ensures
            r@ == self@,
            r.has_suffix_list(),
    {
        CookieStore { cookies: self.cookies, public_suffix_list: Some(psl) }
    }

    /// The position of the cookie filed under (`domain`, `path`, `name`).
    fn find(&self, domain: &str, path: &str, name: &str) -> (r: Option<usize>)
        ensures
            r matches Some(i) ==> i < self@.len() && self@[i as int].key() == (domain@, path@, name@),
            r is None ==> !has_key(self@, (domain@, path@, name@)),
    {
        let mut i: usize = 0;
        while i < self.cookies.len()
            invariant
                i <= self.cookies@.len(),
                forall|j: int| 0 <= j < i ==> #[trigger] self.cookies@[j].key() != (domain@, path@, name@),
            decreases self.cookies.len() - i,
        {
            let c = &self.cookies[i];
            if same_text(c.domain.as_str(), domain) && same_text(c.path.as_str(), path) && same_text(c.name.as_str(), name) {
                return Some(i);
            }
            i += 1;
        }
        None
    }

    /// The (possibly expired) cookie filed under `domain`, `path` and `name`.
    pub fn get_any(&self, domain: &str, path: &str, name: &str) -> (r: Option<&Cookie>)
        requires
            self.wf(),
        ensures
            refers_to(r, lookup_any(self@, (domain@, path@, name@))),
    {
        match self.find(domain, path, name) {
            Some(i) => {
                assert(key_index(self@, (domain@, path@, name@)) == i as int);
                Some(&self.cookies[i])
            },
            None => None,
        }
    }

    /// The cookie filed under `domain`, `path` and `name`, if it is not expired at `now`.
    pub fn get_at(&self, domain: &str, path: &str, name: &str, now: SerializableTm) -> (r: Option<&Cookie>)
        requires
            self.wf(),
        ensures
            refers_to(r, lookup(self@, (domain@, path@, name@), now.unix_seconds as int)),
    {
        match self.get_any(domain, path, name) {
            Some(c) => if c.expires_by(&now) {
                None
            } else {
                Some(c)
            },
            None => None,
        }
    }

    /// The unexpired cookie filed under `domain`, `path` and `name`.
    pub fn get(&self, domain: &str, path: &str, name: &str) -> (r: Option<&Cookie>)
        requires
            self.wf(),
        ensures
            exists|t: SerializableTm| t.in_range() && #[trigger] refers_to(r, lookup(self@, (domain@, path@, name@), t.unix_seconds as int)),
    {
        let now = utc_now();
        self.get_at(domain, path, name, now)
    }

    /// Whether an unexpired cookie is filed under `domain`, `path` and `name`.
    pub fn contains(&self, domain: &str, path: &str, name: &str) -> (r: bool)
        requires
            self.wf(),
        ensures
            exists|t: SerializableTm| t.in_range() && r == (#[trigger] lookup(self@, (domain@, path@, name@), t.unix_seconds as int)) is Some,
    {
        let now = utc_now();
        let r = self.get_at(domain, path, name, now).is_some();
        assert(r == lookup(self@, (domain@, path@, name@), now.unix_seconds as int) is Some);
        r
    }

    /// Whether any cookie, even an expired one, is filed under `domain`, `path` and `name`.
    pub fn contains_any(&self, domain: &str, path: &str, name: &str) -> (r: bool)
        requires
            self.wf(),
        ensures
            r == has_key(self@, (domain@, path@, name@)),
    {
        self.get_any(domain, path, name).is_some()
    }

    /// A mutable reference to the cookie filed under `domain`, `path` and `name`, if it is
    /// not expired at `now`. The store stays well formed as long as the cookie keeps its key.
    pub fn get_mut_at(&mut self, domain: &str, path: &str, name: &str, now: SerializableTm) -> (r: Option<&mut Cookie>)
        requires
            old(self).wf(),
        ensures
            final(self).has_suffix_list() == old(self).has_suffix_list(),
            r is None ==> lookup(old(self)@, (domain@, path@, name@), now.unix_seconds as int) is None && final(self)@ == old(self)@,
            r is Some ==> {
                let i = key_index(old(self)@, (domain@, path@, name@));
                &&& lookup(old(self)@, (domain@, path@, name@), now.unix_seconds as int) == Some(*r->Some_0)
                &&& final(self)@ == old(self)@.update(i, *final(r->Some_0))
            },
    {
        match self.find(domain, path, name) {
            Some(i) => {
                assert(key_index(self@, (domain@, path@, name@)) == i as int);
                if self.cookies[i].expires_by(&now) {
                    None
                } else {
                    Some(&mut self.cookies[i])
                }
            },
            None => None,
        }
    }

    /// A mutable reference to the cookie filed under `domain`, `path` and `name`, if it is
    /// not expired now. The store stays well formed as long as the cookie keeps its key.
    pub fn get_mut(&mut self, domain: &str, path: &str, name: &str) -> (r: Option<&mut Cookie>)
        requires
            old(self).wf(),
        ensures
            final(self).has_suffix_list() == old(self).has_suffix_list(),
            r is None ==> final(self)@ == old(self)@,
            r is Some ==> {
                let i = key_index(old(self)@, (domain@, path@, name@));
                &&& has_key(old(self)@, (domain@, path@, name@))
                &&& *r->Some_0 == old(self)@[i]
                &&& final(self)@ == old(self)@.update(i, *final(r->Some_0))
            },
            exists|t: SerializableTm|
                t.in_range() && (#[trigger] lookup(old(self)@, (domain@, path@, name@), t.unix_seconds as int)) is Some == r is Some,
    {
        let now = utc_now();
        let r = self.get_mut_at(domain, path, name, now);
        assert(lookup(old(self)@, (domain@, path@, name@), now.unix_seconds as int) is Some == r is Some);
        r
    }

    /// Removes the cookie filed under `domain`, `path` and `name`, and returns it.
    pub fn remove(&mut self, domain: &str, path: &str, name: &str) -> (r: Option<Cookie>)
        requires
            old(self).wf(),
        ensures
            final(self).wf(),
            final(self).has_suffix_list() == old(self).has_suffix_list(),
            r == lookup_any(old(self)@, (domain@, path@, name@)),
            r is Some ==> final(self)@ == old(self)@.remove(key_index(old(self)@, (domain@, path@, name@))),
            r is None ==> final(self)@ == old(self)@,
    {
        match self.find(domain, path, name) {
            Some(i) => {
                assert(key_index(self@, (domain@, path@, name@)) == i as int);
                let c = self.cookies.remove(i);
                proof {
                    let s = old(self)@;
                    let t = self@;
                    assert forall|a: int, b: int| 0 <= a < t.len() && 0 <= b < t.len() && a != b implies #[trigger] t[a].key() != #[trigger] t[b].key() by {
                        let a2 = if a < i { a } else { a + 1 };
                        let b2 = if b < i { b } else { b + 1 };
                        assert(t[a] == s[a2]);
                        assert(t[b] == s[b2]);
                    }
                }
                Some(c)
            },
            None => None,
        }
    }

    /// Removes every cookie.
    pub fn clear(&mut self)
        ensures
            final(self)@ == Seq::<Cookie>::empty(),
            final(self).wf(),
            final(self).has_suffix_list() == old(self).has_suffix_list(),
    {
        self.cookies.clear();
    }

    /// Inserts `cookie`, received from `request_url` at `now`, following the RFC 6265 storage
    /// model; `public_suffix` says whether the configured suffix list names its domain.
    pub fn insert_at(&mut self, cookie: Cookie, request_url: &RequestUrl, now: SerializableTm, public_suffix: bool) -> (r: InsertResult)
        requires
            old(self).wf(),
        ensures
            final(self).wf(),
            final(self).has_suffix_list() == old(self).has_suffix_list(),
            (final(self)@, r) == insert_outcome(old(self)@, cookie, *request_url, now.unix_seconds as int, public_suffix),
    {
        let http = is_http_scheme(request_url);
        if cookie.http_only && !http {
            return Err(CookieError::NonHttpScheme);
        }
        let ghost received = cookie;
        let mut cookie = cookie;
        if public_suffix {
            if cookie.domain.host_is_identical(request_url) {
                match CookieDomain::host_only(request_url) {
                    Ok(d) => {
                        cookie.domain = d;
                    },
                    Err(e) => {
                        return Err(e);
                    },
                }
            } else {
                return Err(CookieError::PublicSuffix);
            }
        }
        assert(cookie == (if public_suffix { host_only_copy(received, *request_url) } else { received }));
        if !cookie.domain.matches(request_url) {
            return Err(CookieError::DomainMismatch);
        }
        if cookie.domain.as_str().is_empty() {
            return Err(CookieError::UnspecifiedDomain);
        }
        let ghost k = cookie.key();
        let found = self.find(cookie.domain.as_str(), cookie.path.as_str(), cookie.name.as_str());
        proof {
            if let Some(i) = found {
                assert(key_index(self@, k) == i as int);
            }
        }
        let incoming_expired = cookie.expires_by(&now);
        if let Some(i) = found {
            if !self.cookies[i].expires_by(&now) {
                if self.cookies[i].http_only && !http {
                    return Err(CookieError::NonHttpScheme);
                } else if incoming_expired {
                    self.cookies[i].expires = CookieExpiration::expired();
                    proof {
                        assert(self@ =~= old(self)@.update(i as int, expired_copy(old(self)@[i as int])));
                        lemma_unique_after_update(old(self)@, i as int, self@[i as int]);
                    }
                    return Ok(StoreAction::ExpiredExisting);
                }
            }
        }
        if incoming_expired {
            return Err(CookieError::Expired);
        }
        match found {
            Some(i) => {
                self.cookies[i] = cookie;
                proof {
                    lemma_unique_after_update(old(self)@, i as int, self@[i as int]);
                }
                Ok(StoreAction::UpdatedExisting)
            },
            None => {
                self.cookies.push(cookie);
                proof {
                    lemma_unique_after_push(old(self)@, self@.last());
                }
                Ok(StoreAction::Inserted)
            },
        }
    }

    /// Whether the configured public suffix list, if any, names `domain`.
    fn suffix_listed(&self, domain: &CookieDomain) -> (r: bool)
        ensures
            !self.has_suffix_list() ==> !r,
    {
        match &self.public_suffix_list {
            Some(psl) => domain.is_public_suffix(psl),
            None => false,
        }
    }

    /// Inserts `cookie`, received from `request_url` now, following the RFC 6265 storage
    /// model. Without a public suffix list the outcome is that of
    /// [`CookieStore::insert_at`] at the current time with no suffix listed; with one, that
    /// of the list's verdict on the cookie's domain.
    pub fn insert(&mut self, cookie: Cookie, request_url: &RequestUrl) -> (r: InsertResult)
        requires
            old(self).wf(),
        ensures
            final(self).wf(),
            final(self).has_suffix_list() == old(self).has_suffix_list(),
            exists|t: SerializableTm, ps: bool| t.in_range() && (!old(self).has_suffix_list() ==> !ps) && (final(self)@, r)
                == #[trigger] insert_outcome(old(self)@, cookie, *request_url, t.unix_seconds as int, ps),
    {
        let now = utc_now();
        let ps = self.suffix_listed(&cookie.domain);
        self.insert_at(cookie, request_url, now, ps)
    }

    /// Makes a cookie from `cookie`, received from `request_url` at `now`, and inserts it.
    pub fn insert_raw_at(&mut self, cookie: &RawCookie, request_url: &RequestUrl, now: SerializableTm, public_suffix: bool) -> (r: InsertResult)
        requires
            old(self).wf(),
        ensures
            final(self).wf(),
            final(self).has_suffix_list() == old(self).has_suffix_list(),
            exists|made: Result<Cookie, CookieError>| #[trigger] raw_cookie_outcome(*cookie, *request_url, now.unix_seconds as int, made)
                && match made {
                    Err(e) => r == Err::<StoreAction, CookieError>(e) && final(self)@ == old(self)@,
                    Ok(c) => (final(self)@, r) == insert_outcome(old(self)@, c, *request_url, now.unix_seconds as int, public_suffix),
                },
    {
        let made = Cookie::try_from_raw_cookie_at(cookie, request_url, now);
        let ghost made_copy = made;
        match made {
            Err(e) => Err(e),
            Ok(c) => self.insert_at(c, request_url, now, public_suffix),
        }
    }

    /// Makes a cookie from `cookie`, received from `request_url` now, and inserts it.
    pub fn insert_raw(&mut self, cookie: &RawCookie, request_url: &RequestUrl) -> (r: InsertResult)
        requires
            old(self).wf(),
        ensures
            final(self).wf(),
            final(self).has_suffix_list() == old(self).has_suffix_list(),
            exists|made: Result<Cookie, CookieError>, t: SerializableTm, ps: bool|
                t.in_range() && #[trigger] raw_cookie_outcome(*cookie, *request_url, t.unix_seconds as int, made)
                && #[trigger] verdict_allowed(old(self).has_suffix_list(), ps) && match made {
                    Err(e) => r == Err::<StoreAction, CookieError>(e) && final(self)@ == old(self)@,
                    Ok(c) => (final(self)@, r) == insert_outcome(old(self)@, c, *request_url, t.unix_seconds as int, ps),
                },
    {
        let now = utc_now();
        let made = Cookie::try_from_raw_cookie_at(cookie, request_url, now);
        let ghost m = made;
        match made {
            Err(e) => {
                assert(raw_cookie_outcome(*cookie, *request_url, now.unix_seconds as int, m));
                assert(verdict_allowed(self.has_suffix_list(), false));
                Err(e)
            },
            Ok(c) => {
                let ps = self.suffix_listed(&c.domain);
                assert(verdict_allowed(self.has_suffix_list(), ps));
                self.insert_at(c, request_url, now, ps)
            },
        }
    }

    /// The cookies, in store order, that are not expired at `now` and may be sent with a
    /// request to `request_url`.
    pub fn matches_at(&self, request_url: &RequestUrl, now: SerializableTm) -> (r: Vec<&Cookie>)
        ensures
            derefs(r@) == matching(self@, *request_url, now.unix_seconds as int),
    {
        let ghost t = now.unix_seconds as int;
        let mut r: Vec<&Cookie> = Vec::new();
        let mut i: usize = 0;
        while i < self.cookies.len()
            invariant
                i <= self@.len(),
                t == now.unix_seconds as int,
                derefs(r@) == matching(self@.take(i as int), *request_url, t),
            decreases self@.len() - i,
        {
            let c = &self.cookies[i];
            let ghost before = r@;
            proof {
                lemma_matching_step(self@, i as int, *request_url, t);
            }
            if !c.expires_by(&now) && c.matches(request_url) {
                r.push(c);
                assert(derefs(r@) =~= derefs(before).push(*c));
            }
            i += 1;
        }
        assert(self@.take(self@.len() as int) =~= self@);
        r
    }

    /// The cookies, in store order, that are not expired now and may be sent with a request
    /// to `request_url`.
    pub fn matches(&self, request_url: &RequestUrl) -> (r: Vec<&Cookie>)
        ensures
            exists|t: SerializableTm| t.in_range() && derefs(r@) == #[trigger] matching(self@, *request_url, t.unix_seconds as int),
    {
        let now = utc_now();
        self.matches_at(request_url, now)
    }

    /// All cookies in the store, expired or not, in store order.
    pub fn iter_any(&self) -> (r: Vec<&Cookie>)
        ensures
            derefs(r@) == self@,
    {
        let mut r: Vec<&Cookie> = Vec::new();
        let mut i: usize = 0;
        while i < self.cookies.len()
            invariant
                i <= self@.len(),
                derefs(r@) == self@.take(i as int),
            decreases self@.len() - i,
        {
            let c = &self.cookies[i];
            let ghost before = r@;
            r.push(c);
            assert(derefs(r@) =~= derefs(before).push(*c));
            assert(self@.take(i + 1) =~= self@.take(i as int).push(*c));
            i += 1;
        }
        assert(self@.take(self@.len() as int) =~= self@);
        r
    }

    /// The cookies not expired at `now`, in store order.
    pub fn iter_unexpired_at(&self, now: SerializableTm) -> (r: Vec<&Cookie>)
        ensures
            derefs(r@) == unexpired(self@, now.unix_seconds as int),
    {
        let ghost t = now.unix_seconds as int;
        let mut r: Vec<&Cookie> = Vec::new();
        let mut i: usize = 0;
        while i < self.cookies.len()
            invariant
                i <= self@.len(),
                t == now.unix_seconds as int,
                derefs(r@) == unexpired(self@.take(i as int), t),
            decreases self@.len() - i,
        {
            let c = &self.cookies[i];
            let ghost before = r@;
            proof {
                lemma_unexpired_step(self@, i as int, t);
            }
            if !c.expires_by(&now) {
                r.push(c);
                assert(derefs(r@) =~= derefs(before).push(*c));
            }
            i += 1;
        }
        assert(self@.take(self@.len() as int) =~= self@);
        r
    }

    /// The cookies not expired now, in store order.
    pub fn iter_unexpired(&self) -> (r: Vec<&Cookie>)
        ensures
            exists|t: SerializableTm| t.in_range() && derefs(r@) == #[trigger] unexpired(self@, t.unix_seconds as int),
    {
        let now = utc_now();
        self.iter_unexpired_at(now)
    }

    /// Files `cookie` under its key, replacing what was there.
    pub(crate) fn put(&mut self, cookie: Cookie)
        requires
            old(self).wf(),
        ensures
            final(self).wf(),
            final(self)@ == put(old(self)@, cookie),
            final(self).has_suffix_list() == old(self).has_suffix_list(),
    {
        let ghost k = cookie.key();
        let found = self.find(cookie.domain.as_str(), cookie.path.as_str(), cookie.name.as_str());
        match found {
            Some(i) => {
                assert(key_index(self@, k) == i as int);
                self.cookies[i] = cookie;
                proof {
                    lemma_unique_after_update(old(self)@, i as int, self@[i as int]);
                }
            },
            None => {
                self.cookies.push(cookie);
                proof {
                    lemma_unique_after_push(old(self)@, self@.last());
                }
            },
        }
    }

    /// A store made from `cookies`, filed in order (a later cookie replaces an earlier one
    /// with its key), leaving out those expired at `now` unless `include_expired` holds; or
    /// the first error among `cookies`.
    pub fn from_cookies_at<E>(cookies: Vec<Result<Cookie, E>>, include_expired: bool, now: SerializableTm) -> (r: Result<CookieStore, E>)
        ensures
            (forall|i: int| 0 <= i < cookies@.len() ==> #[trigger] cookies@[i] is Ok) ==> (r matches Ok(st)
                && st.wf() && !st.has_suffix_list() && st@ == rebuilt(oks(cookies@), include_expired, now.unix_seconds as int)),
            forall|i: int| 0 <= i < cookies@.len() && #[trigger] cookies@[i] is Err && (forall|j: int| 0 <= j < i ==> cookies@[j] is Ok)
                ==> r == Err::<CookieStore, E>(cookies@[i]->Err_0),
    {
        let ghost v = cookies@;
        let mut good: Vec<Cookie> = Vec::new();
        let total: usize = cookies.len();
        let mut rest = cookies;
        let mut i: usize = 0;
        while rest.len() > 0
            invariant
                v == cookies@,
                v.len() == total,
                i + rest@.len() == v.len(),
                rest@ == v.subrange(i as int, v.len() as int),
                forall|j: int| 0 <= j < i ==> #[trigger] v[j] is Ok,
                good@ == oks(v).take(i as int),
            decreases rest@.len(),
        {
            let item = rest.remove(0);
            assert(item == v[i as int]);
            match item {
                Err(e) => {
                    proof {
                        assert(v[i as int] is Err);
                        assert forall|k: int| 0 <= k < v.len() && #[trigger] v[k] is Err && (forall|j: int| 0 <= j < k ==> v[j] is Ok) implies k == i by {
                            if k < i {
                                assert(v[k] is Ok);
                            } else if k > i {
                                assert(v[i as int] is Ok);
                            }
                        }
                    }
                    return Err(e);
                },
                Ok(c) => {
                    good.push(c);
                    assert(good@ =~= oks(v).take(i + 1));
                    i += 1;
                    assert(rest@ =~= v.subrange(i as int, v.len() as int));
                },
            }
        }
        assert(oks(v).take(v.len() as int) =~= oks(v));
        Ok(CookieStore::rebuild_at(good, include_expired, now))
    }

    /// The store that filing `cookies` in order gives (a later cookie replaces an earlier
    /// one with its key), leaving out those expired at `now` unless `include_expired` holds.
    pub fn rebuild_at(cookies: Vec<Cookie>, include_expired: bool, now: SerializableTm) -> (r: CookieStore)
        ensures
            r.wf(),
            !r.has_suffix_list(),
            r@ == rebuilt(cookies@, include_expired, now.unix_seconds as int),
    {
        let ghost t = now.unix_seconds as int;
        let ghost v = cookies@;
        let total: usize = cookies.len();
        let mut rest = cookies;
        let mut st = CookieStore::new();
        let mut i: usize = 0;
        while rest.len() > 0
            invariant
                v.len() == total,
                t == now.unix_seconds as int,
                i + rest@.len() == v.len(),
                rest@ == v.subrange(i as int, v.len() as int),
                st.wf(),
                !st.has_suffix_list(),
                st@ == rebuilt(v.take(i as int), include_expired, t),
            decreases rest@.len(),
        {
            let c = rest.remove(0);
            proof {
                assert(c == v[i as int]);
                assert(v.take(i + 1).drop_last() =~= v.take(i as int));
                assert(v.take(i + 1).last() == c);
            }
            if include_expired || !c.expires_by(&now) {
                st.put(c);
            }
            i += 1;
            assert(rest@ =~= v.subrange(i as int, v.len() as int));
        }
        assert(v.take(v.len() as int) =~= v);
        st
    }

    /// A store made from `cookies`, filed in order, leaving out those expired now unless
    /// `include_expired` holds; or the first error among `cookies`.
    pub fn from_cookies<E>(cookies: Vec<Result<Cookie, E>>, include_expired: bool) -> (r: Result<CookieStore, E>)
        ensures
            (forall|i: int| 0 <= i < cookies@.len() ==> #[trigger] cookies@[i] is Ok) ==> exists|t: SerializableTm| t.in_range() && (r matches Ok(st)
                && st.wf() && !st.has_suffix_list() && st@ == #[trigger] rebuilt(oks(cookies@), include_expired, t.unix_seconds as int)),
            forall|i: int| 0 <= i < cookies@.len() && #[trigger] cookies@[i] is Err && (forall|j: int| 0 <= j < i ==> cookies@[j] is Ok)
                ==> r == Err::<CookieStore, E>(cookies@[i]->Err_0),
    {
        let now = utc_now();
        CookieStore::from_cookies_at(cookies, include_expired, now)
    }

    /// The (name, value) pairs of the cookies that [`CookieStore::matches_at`] gives, for the
    /// Cookie header of a request to `request_url` at `now`.
    pub fn get_request_values_at(&self, request_url: &RequestUrl, now: SerializableTm) -> (r: Vec<(&str, &str)>)
        ensures
            r@.len() == matching(self@, *request_url, now.unix_seconds as int).len(),
            forall|i: int|
                0 <= i < r@.len() ==> (#[trigger] r@[i]).0@ == matching(self@, *request_url, now.unix_seconds as int)[i].name@
                    && r@[i].1@ == matching(self@, *request_url, now.unix_seconds as int)[i].value@,
    {
        let m = self.matches_at(request_url, now);
        let ghost ms = matching(self@, *request_url, now.unix_seconds as int);
        let mut r: Vec<(&str, &str)> = Vec::new();
        let mut i: usize = 0;
        while i < m.len()
            invariant
                i <= m@.len(),
                derefs(m@) == ms,
                r@.len() == i,
                forall|j: int| 0 <= j < i ==> (#[trigger] r@[j]).0@ == ms[j].name@ && r@[j].1@ == ms[j].value@,
            decreases m@.len() - i,
        {
            let c: &Cookie = m[i];
            assert(*c == ms[i as int]);
            r.push(c.name_value());
            i += 1;
        }
        r
    }

    /// The (name, value) pairs of the cookies that [`CookieStore::matches`] gives now.
    pub fn get_request_values(&self, request_url: &RequestUrl) -> (r: Vec<(&str, &str)>)
        ensures
            exists|t: SerializableTm|
                t.in_range() && r@.len() == (#[trigger] matching(self@, *request_url, t.unix_seconds as int)).len() && forall|i: int|
                    0 <= i < r@.len() ==> (#[trigger] r@[i]).0@ == matching(self@, *request_url, t.unix_seconds as int)[i].name@
                        && r@[i].1@ == matching(self@, *request_url, t.unix_seconds as int)[i].value@,
    {
        let now = utc_now();
        self.get_request_values_at(request_url, now)
    }

    /// The cookies to send with a request to `request_url` now; the same as
    /// [`CookieStore::matches`].
    pub fn get_request_cookies(&self, request_url: &RequestUrl) -> (r: Vec<&Cookie>)
        ensures
            exists|t: SerializableTm| t.in_range() && derefs(r@) == #[trigger] matching(self@, *request_url, t.unix_seconds as int),
    {
        self.matches(request_url)
    }

    /// The Cookie header for a request to `request_url` at `now`: `name=value` of each
    /// cookie that [`CookieStore::matches_at`] gives, joined by `; `; none where no cookie
    /// matches.
    pub fn cookies_at(&self, request_url: &RequestUrl, now: SerializableTm) -> (r: Option<String>)
        ensures
            match r {
                Some(h) => matching(self@, *request_url, now.unix_seconds as int).len() > 0
                    && h@ == header_text(matching(self@, *request_url, now.unix_seconds as int)),
                None => matching(self@, *request_url, now.unix_seconds as int).len() == 0,
            },
    {
        let m = self.matches_at(request_url, now);
        let ghost ms = matching(self@, *request_url, now.unix_seconds as int);
        if m.len() == 0 {
            return None;
        }
        let mut text: Vec<char> = Vec::new();
        let mut i: usize = 0;
        while i < m.len()
            invariant
                i <= m@.len(),
                derefs(m@) == ms,
                text@ == header_text(ms.take(i as int)),
            decreases m@.len() - i,
        {
            let c: &Cookie = m[i];
            assert(*c == ms[i as int]);
            assert(ms.take(i + 1).drop_last() =~= ms.take(i as int));
            let ghost before = text@;
            if i > 0 {
                text.push(';');
                text.push(' ');
            }
            let mut nm = chars_of(c.name.as_str());
            text.append(&mut nm);
            text.push('=');
            let mut vl = chars_of(c.value.as_str());
            text.append(&mut vl);
            proof {
                if i > 0 {
                    assert(text@ =~= before + seq![';', ' '] + pair_text(*c));
                } else {
                    assert(ms.take(1).len() == 1);
                    assert(text@ =~= pair_text(*c));
                }
            }
            i += 1;
        }
        assert(ms.take(ms.len() as int) =~= ms);
        Some(string_from_chars(&text))
    }

    /// The Cookie header for a request to `request_url` now.
    pub fn cookies(&self, request_url: &RequestUrl) -> (r: Option<String>)
        ensures
            exists|t: SerializableTm|
                t.in_range() && match r {
                    Some(h) => (#[trigger] matching(self@, *request_url, t.unix_seconds as int)).len() > 0
                        && h@ == header_text(matching(self@, *request_url, t.unix_seconds as int)),
                    None => matching(self@, *request_url, t.unix_seconds as int).len() == 0,
                },
    {
        let now = utc_now();
        self.cookies_at(request_url, now)
    }

    /// Stores each of `cookies`, received from `url`, in order; a cookie that is refused is
    /// left out and the rest are still stored.
    pub fn store_response_cookies(&mut self, cookies: Vec<RawCookie>, url: &RequestUrl)
        requires
            old(self).wf(),
        ensures
            final(self).wf(),
            final(self).has_suffix_list() == old(self).has_suffix_list(),
            exists|states: Seq<Seq<Cookie>>|
                #![trigger states.len()]
                states.len() == cookies@.len() + 1 && states[0] == old(self)@ && states[cookies@.len() as int] == final(self)@
                    && forall|i: int|
                    0 <= i < cookies@.len() ==> #[trigger] raw_insert_step(states[i], states[i + 1], cookies@[i], *url, old(self).has_suffix_list()),
    {
        let ghost has_list = self.has_suffix_list();
        let ghost mut states: Seq<Seq<Cookie>> = seq![self@];
        let mut i: usize = 0;
        while i < cookies.len()
            invariant
                self.wf(),
                self.has_suffix_list() == has_list,
                i <= cookies@.len(),
                states.len() == i + 1,
                states[0] == old(self)@,
                states[i as int] == self@,
                forall|j: int| 0 <= j < i ==> #[trigger] raw_insert_step(states[j], states[j + 1], cookies@[j], *url, has_list),
            decreases cookies@.len() - i,
        {
            let ghost before = self@;
            let now = utc_now();
            let made = Cookie::try_from_raw_cookie_at(&cookies[i], url, now);
            let ghost m = made;
            match made {
                Err(_) => {
                    assert(verdict_allowed(has_list, false));
                    assert(raw_cookie_outcome(cookies@[i as int], *url, now.unix_seconds as int, m));
                },
                Ok(c) => {
                    let ps = self.suffix_listed(&c.domain);
                    assert(verdict_allowed(has_list, ps));
                    assert(raw_cookie_outcome(cookies@[i as int], *url, now.unix_seconds as int, m));
                    let _ = self.insert_at(c, url, now, ps);
                },
            }
            assert(raw_insert_step(before, self@, cookies@[i as int], *url, has_list));
            proof {
                states = states.push(self@);
            }
            i += 1;
        }
    }
}


/// An HttpOnly cookie received through a non-HTTP API is refused with `NonHttpScheme`
/// and leaves the store as it was; a cookie received over an HTTP-family scheme is never
/// refused for that reason.
pub proof fn http_only_needs_http(s: Seq<Cookie>, c: Cookie, url: RequestUrl, t: int, public_suffix: bool)
    ensures
        c.http_only && !is_http_scheme_spec(url) ==> insert_outcome(s, c, url, t, public_suffix) == (
        s,
        Err::<StoreAction, CookieError>(CookieError::NonHttpScheme),
        ),
        is_http_scheme_spec(url) ==> insert_outcome(s, c, url, t, public_suffix).1 != Err::<
            StoreAction,
            CookieError,
        >(CookieError::NonHttpScheme),
{
}

/// Every cookie that a request is sent is unexpired at that time, is Secure only when the
/// request comes from a secure context (`https`, or a loopback host), and is HttpOnly only
/// when the request uses an HTTP-family scheme.
pub proof fn matching_respects_flags(s: Seq<Cookie>, url: RequestUrl, t: int)
    ensures
        forall|i: int|
            0 <= i < matching(s, url, t).len() ==> {
                let c = #[trigger] matching(s, url, t)[i];
                &&& !c.expired_at(t)
                &&& c.matches_spec(url)
                &&& (c.secure ==> is_secure_spec(url))
                &&& (c.http_only ==> is_http_scheme_spec(url))
            },
{
    assert forall|i: int| 0 <= i < matching(s, url, t).len() implies {
        let c = #[trigger] matching(s, url, t)[i];
        &&& !c.expired_at(t)
        &&& c.matches_spec(url)
        &&& (c.secure ==> is_secure_spec(url))
        &&& (c.http_only ==> is_http_scheme_spec(url))
    } by {
        s.lemma_filter_pred(sendable(url, t), i);
    }
}

/// Removing the cookie filed under `k` keeps every other cookie and leaves nothing filed
/// under `k`; removing the only cookie of a store leaves it empty, with nothing for an
/// iteration to visit.
pub proof fn remove_prunes(s: Seq<Cookie>, k: (Seq<char>, Seq<char>, Seq<char>))
    requires
        keys_unique(s),
        has_key(s, k),
    ensures
        !has_key(s.remove(key_index(s, k)), k),
        s.remove(key_index(s, k)).len() == s.len() - 1,
        forall|i: int| 0 <= i < s.len() && #[trigger] s[i].key() != k ==> s.remove(key_index(s, k)).contains(s[i]),
        s.len() == 1 ==> s.remove(key_index(s, k)) == Seq::<Cookie>::empty(),
{
    let x = key_index(s, k);
    let r = s.remove(x);
    if has_key(r, k) {
        let j = choose|j: int| 0 <= j < r.len() && #[trigger] r[j].key() == k;
        let j2 = if j < x { j } else { j + 1 };
        assert(r[j] == s[j2]);
        assert(s[x].key() == k);
    }
    assert forall|i: int| 0 <= i < s.len() && #[trigger] s[i].key() != k implies r.contains(s[i]) by {
        let i2 = if i < x { i } else { i - 1 };
        assert(i != x);
        assert(r[i2] == s[i]);
    }
    if s.len() == 1 {
        assert(r =~= Seq::<Cookie>::empty());
    }
}

/// A stored cookie goes with a request exactly when it is unexpired, its domain covers the
/// request host (a host-only domain only that very host; a suffix domain that host and every
/// name ending in `.` followed by it), its path covers the request path (the same path, or a
/// prefix of it that ends in `/` or is followed there by `/`), and its Secure and HttpOnly
/// flags suit the request.
pub proof fn matching_membership(s: Seq<Cookie>, url: RequestUrl, t: int)
    ensures
        forall|i: int|
            0 <= i < s.len() ==> (matching(s, url, t).contains(#[trigger] s[i]) <==> {
                &&& !s[i].expired_at(t)
                &&& match host_text(url) {
                    Some(h) => match s[i].domain {
                        CookieDomain::HostOnly(d) => d@ == h,
                        CookieDomain::Suffix(d) => d@ == h || is_suffix(seq!['.'] + d@, h),
                    },
                    None => false,
                }
                &&& path_match(s[i].path.path@, url.path@)
                &&& (s[i].secure ==> is_secure_spec(url))
                &&& (s[i].http_only ==> is_http_scheme_spec(url))
            }),
{
    assert forall|i: int| 0 <= i < s.len() implies (matching(s, url, t).contains(#[trigger] s[i]) <==> sendable(url, t)(s[i])) by {
        if sendable(url, t)(s[i]) {
            s.lemma_filter_contains(sendable(url, t), i);
        }
        if matching(s, url, t).contains(s[i]) {
            let j = choose|j: int| 0 <= j < matching(s, url, t).len() && matching(s, url, t)[j] == s[i];
            s.lemma_filter_pred(sendable(url, t), j);
        }
    }
}

} // verus!
