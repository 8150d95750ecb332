//! The persisted form of a store: the cookies that a save keeps, and the store that a load
//! rebuilds from them. Encoding them as text is left to a codec.
use vstd::prelude::*;
use crate::cookie::Cookie;
use crate::cookie_expiration::{utc_now, SerializableTm};
use crate::cookie_store::{has_key, keys_unique, matching, rebuilt, sendable, unexpired, unexpired_pred, CookieStore};
use crate::utils::RequestUrl;

verus! {

/// A snapshot of the cookies of a store, in store order.
pub struct CookieStoreSerialized {
    pub cookies: Vec<Cookie>,
}

/// The test that [`persisted`] applies.
pub open spec fn persisted_pred(t: int) -> spec_fn(Cookie) -> bool {
    |c: Cookie| c.expires.is_persistent_spec() && !c.expired_at(t)
}

/// The cookies of `s` that a save at time `t` keeps: persistent and not expired.
pub open spec fn persisted(s: Seq<Cookie>, t: int) -> Seq<Cookie> {
    s.filter(persisted_pred(t))
}

/// The test that [`persistent_only`] applies.
pub open spec fn persistent_pred() -> spec_fn(Cookie) -> bool {
    |c: Cookie| c.expires.is_persistent_spec()
}

/// The persistent cookies of `s`.
pub open spec fn persistent_only(s: Seq<Cookie>) -> Seq<Cookie> {
    s.filter(persistent_pred())
}

impl CookieStoreSerialized {
    /// The cookies of `store` that are persistent and not expired at `now`.
    pub fn from_store_at(store: &CookieStore, now: SerializableTm) -> (r: CookieStoreSerialized)
        ensures
            r.cookies@ == persisted(store@, now.unix_seconds as int),
    {
        let ghost t = now.unix_seconds as int;
        let all = store.iter_any();
        let mut cookies: Vec<Cookie> = Vec::new();
        let mut i: usize = 0;
        while i < all.len()
            invariant
                i <= all@.len(),
                t == now.unix_seconds as int,
                all@.map_values(|c: &Cookie| *c) == store@,
                cookies@ == persisted(store@.take(i as int), t),
            decreases all@.len() - i,
        {
            let c: &Cookie = all[i];
            proof {
                assert(*c == store@[i as int]);
                reveal(Seq::filter);
                assert(store@.take(i + 1).drop_last() =~= store@.take(i as int));
                assert(store@.take(i + 1).last() == store@[i as int]);
            }
            if c.is_persistent() && !c.expires_by(&now) {
                cookies.push(c.cloned());
            }
            i += 1;
        }
        assert(store@.take(store@.len() as int) =~= store@);
        CookieStoreSerialized { cookies }
    }

    /// The cookies of `store` that are persistent and not expired now.
    pub fn from_store(store: &CookieStore) -> (r: CookieStoreSerialized)
        ensures
            exists|t: SerializableTm| t.in_range() && r.cookies@ == #[trigger] persisted(store@, t.unix_seconds as int),
    {
        let now = utc_now();
        CookieStoreSerialized::from_store_at(store, now)
    }

    /// Every cookie of `store`, expired and session ones included.
    pub fn from_store_all(store: &CookieStore) -> (r: CookieStoreSerialized)
        ensures
            r.cookies@ == store@,
    {
        let all = store.iter_any();
        let mut cookies: Vec<Cookie> = Vec::new();
        let mut i: usize = 0;
        while i < all.len()
            invariant
                i <= all@.len(),
                all@.map_values(|c: &Cookie| *c) == store@,
                cookies@ == store@.take(i as int),
            decreases all@.len() - i,
        {
            let c: &Cookie = all[i];
            assert(*c == store@[i as int]);
            cookies.push(c.cloned());
            assert(cookies@ =~= store@.take(i + 1));
            i += 1;
        }
        assert(store@.take(store@.len() as int) =~= store@);
        CookieStoreSerialized { cookies }
    }

    /// The store that these cookies give when filed in order, leaving out those expired at
    /// `now` unless `include_expired` holds.
    pub fn into_store_at(self, include_expired: bool, now: SerializableTm) -> (r: CookieStore)
        ensures
            r.wf(),
            !r.has_suffix_list(),
            r@ == rebuilt(self.cookies@, include_expired, now.unix_seconds as int),
    {
        CookieStore::rebuild_at(self.cookies, include_expired, now)
    }

    /// The store that these cookies give when filed in order, leaving out those expired now
    /// unless `include_expired` holds.
    pub fn into_store(self, include_expired: bool) -> (r: CookieStore)
        ensures
            r.wf(),
            !r.has_suffix_list(),
            exists|t: SerializableTm| t.in_range() && r@ == #[trigger] rebuilt(self.cookies@, include_expired, t.unix_seconds as int),
    {
        let now = utc_now();
        self.into_store_at(include_expired, now)
    }
}


/// The test that both a save and a request apply.
pub open spec fn persisted_and_sendable(url: RequestUrl, t: int) -> spec_fn(Cookie) -> bool {
    |c: Cookie| c.expires.is_persistent_spec() && !c.expired_at(t) && c.matches_spec(url)
}

proof fn lemma_filter_twice(s: Seq<Cookie>, a: spec_fn(Cookie) -> bool, b: spec_fn(Cookie) -> bool, c: spec_fn(Cookie) -> bool)
    requires
        forall|x: Cookie| #[trigger] c(x) == (a(x) && b(x)),
    ensures
        s.filter(a).filter(b) == s.filter(c),
    decreases s.len(),
{
    reveal(Seq::filter);
    if s.len() > 0 {
        lemma_filter_twice(s.drop_last(), a, b, c);
        let x = s.drop_last().filter(a);
        assert(x.push(s.last()).drop_last() =~= x);
        assert(c(s.last()) == (a(s.last()) && b(s.last())));
    }
}

proof fn lemma_drop_last_unique(s: Seq<Cookie>)
    requires
        keys_unique(s),
        s.len() > 0,
    ensures
        keys_unique(s.drop_last()),
        !has_key(s.drop_last(), s.last().key()),
{
    let d = s.drop_last();
    assert forall|i: int, j: int| 0 <= i < d.len() && 0 <= j < d.len() && i != j implies #[trigger] d[i].key() != #[trigger] d[j].key() by {
        assert(d[i] == s[i] && d[j] == s[j]);
    }
    if has_key(d, s.last().key()) {
        let i = choose|i: int| 0 <= i < d.len() && #[trigger] d[i].key() == s.last().key();
        assert(d[i] == s[i]);
        assert(s[s.len() - 1].key() == s.last().key());
    }
}

proof fn lemma_filter_keys_unique(s: Seq<Cookie>, p: spec_fn(Cookie) -> bool)
    requires
        keys_unique(s),
    ensures
        keys_unique(s.filter(p)),
        forall|k: (Seq<char>, Seq<char>, Seq<char>)| has_key(s.filter(p), k) ==> has_key(s, k),
    decreases s.len(),
{
    reveal(Seq::filter);
    if s.len() > 0 {
        let d = s.drop_last();
        lemma_drop_last_unique(s);
        lemma_filter_keys_unique(d, p);
        let fd = d.filter(p);
        let l = s.last();
        assert(!has_key(fd, l.key()));
        assert forall|k: (Seq<char>, Seq<char>, Seq<char>)| has_key(d, k) implies has_key(s, k) by {
            let i = choose|i: int| 0 <= i < d.len() && #[trigger] d[i].key() == k;
            assert(s[i] == d[i]);
        }
        if p(l) {
            let f = fd.push(l);
            assert(s.filter(p) == f);
            assert forall|i: int, j: int| 0 <= i < f.len() && 0 <= j < f.len() && i != j implies #[trigger] f[i].key() != #[trigger] f[j].key() by {
                if i == fd.len() {
                    assert(f[j] == fd[j]);
                    if fd[j].key() == l.key() {
                        assert(has_key(fd, l.key()));
                    }
                } else if j == fd.len() {
                    assert(f[i] == fd[i]);
                    if fd[i].key() == l.key() {
                        assert(has_key(fd, l.key()));
                    }
                } else {
                    assert(f[i] == fd[i] && f[j] == fd[j]);
                }
            }
            assert forall|k: (Seq<char>, Seq<char>, Seq<char>)| has_key(f, k) implies has_key(s, k) by {
                let i = choose|i: int| 0 <= i < f.len() && #[trigger] f[i].key() == k;
                if i == fd.len() {
                    assert(s[s.len() - 1] == l);
                } else {
                    assert(f[i] == fd[i]);
                    assert(has_key(fd, k));
                }
            }
        }
    }
}

proof fn lemma_rebuilt_identity(v: Seq<Cookie>, t: int)
    requires
        keys_unique(v),
        forall|i: int| 0 <= i < v.len() ==> !(#[trigger] v[i]).expired_at(t),
    ensures
        rebuilt(v, false, t) == v,
    decreases v.len(),
{
    if v.len() > 0 {
        let d = v.drop_last();
        lemma_drop_last_unique(v);
        assert forall|i: int| 0 <= i < d.len() implies !(#[trigger] d[i]).expired_at(t) by {
            assert(d[i] == v[i]);
        }
        lemma_rebuilt_identity(d, t);
        assert(!v[v.len() - 1].expired_at(t));
        assert(d.push(v.last()) =~= v);
    }
}

/// Saving the persistent, unexpired cookies of a store and loading them back at the same
/// time gives a store that sends with each request exactly the persistent cookies that the
/// first store sends with it, in the same order; and the loaded store holds no expired and
/// no session cookie: it holds exactly the persistent, unexpired cookies of the first, in
/// store order.
pub proof fn save_load_round_trip(s: Seq<Cookie>, url: RequestUrl, t: int)
    requires
        keys_unique(s),
    ensures
        rebuilt(persisted(s, t), false, t) == persistent_only(unexpired(s, t)),
        matching(rebuilt(persisted(s, t), false, t), url, t) == persistent_only(matching(s, url, t)),
        forall|i: int|
            0 <= i < rebuilt(persisted(s, t), false, t).len() ==> (#[trigger] rebuilt(persisted(s, t), false, t)[i]).expires.is_persistent_spec()
                && !rebuilt(persisted(s, t), false, t)[i].expired_at(t),
{
    let p = persisted(s, t);
    lemma_filter_keys_unique(s, persisted_pred(t));
    assert forall|i: int| 0 <= i < p.len() implies (#[trigger] p[i]).expires.is_persistent_spec() && !p[i].expired_at(t) by {
        s.lemma_filter_pred(persisted_pred(t), i);
    }
    lemma_rebuilt_identity(p, t);
    lemma_filter_twice(s, persisted_pred(t), sendable(url, t), persisted_and_sendable(url, t));
    lemma_filter_twice(s, sendable(url, t), persistent_pred(), persisted_and_sendable(url, t));
    lemma_filter_twice(s, unexpired_pred(t), persistent_pred(), persisted_pred(t));
}

} // verus!
