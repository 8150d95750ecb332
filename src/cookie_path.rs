//! The path scope of a cookie.
use vstd::prelude::*;
use crate::utils::{chars_of, chars_start_with, chars_end_with, is_prefix, string_from_chars, RequestUrl};

verus! {

/// A cookie's path, and whether it was derived from the request URL (`true`) rather than
/// taken from a Path attribute (`false`).
#[derive(Clone, Debug)]
pub struct CookiePath {
    pub path: String,
    pub is_default: bool,
}

/// The index of the last `c` in `s`, or -1.
pub open spec fn last_index_of(s: Seq<char>, c: char) -> int
    decreases s.len(),
{
    if s.len() == 0 {
        -1
    } else if s.last() == c {
        s.len() - 1
    } else {
        last_index_of(s.drop_last(), c)
    }
}

/// RFC 6265 path-match: the paths are identical, or the cookie path is a prefix of the
/// request path that ends in `/` or is followed there by `/`.
pub open spec fn path_match(cookie_path: Seq<char>, request_path: Seq<char>) -> bool {
    cookie_path == request_path || (is_prefix(cookie_path, request_path) && ((cookie_path.len()
        > 0 && cookie_path.last() == '/') || (request_path.len() > cookie_path.len()
        && request_path[cookie_path.len() as int] == '/')))
}

/// The default path for a request path: `/` unless the path starts with `/` and holds
/// another `/`; then everything before its last `/`.
pub open spec fn default_path_of(request_path: Seq<char>) -> Seq<char> {
    if request_path.len() == 0 || request_path[0] != '/' || last_index_of(request_path, '/') <= 0 {
        seq!['/']
    } else {
        request_path.subrange(0, last_index_of(request_path, '/'))
    }
}

proof fn lemma_last_index_bounds(s: Seq<char>, c: char)
    ensures
        -1 <= last_index_of(s, c) < s.len(),
        last_index_of(s, c) >= 0 ==> s[last_index_of(s, c)] == c,
    decreases s.len(),
{
    if s.len() > 0 && s.last() != c {
        lemma_last_index_bounds(s.drop_last(), c);
    }
}

/// The index of the last `c` in `v`, if any.
fn find_last(v: &Vec<char>, c: char) -> (r: Option<usize>)
    ensures
        r matches Some(i) ==> i as int == last_index_of(v@, c),
        r is None ==> last_index_of(v@, c) == -1,
{
    let mut i: usize = v.len();
    assert(v@.subrange(0, i as int) =~= v@);
    while i > 0
        invariant
            i <= v.len(),
            last_index_of(v@, c) == last_index_of(v@.subrange(0, i as int), c),
        decreases i,
    {
        assert(v@.subrange(0, i as int).drop_last() =~= v@.subrange(0, i - 1));
        if v[i - 1] == c {
            return Some(i - 1);
        }
        i -= 1;
    }
    None
}

impl CookiePath {
    /// Whether the path scope covers the request path.
    pub open spec fn matches_spec(self, request_url: RequestUrl) -> bool {
        path_match(self.path@, request_url.path@)
    }

    /// Whether this path scope covers the path of `request_url`.
    pub fn matches(&self, request_url: &RequestUrl) -> (r: bool)
        ensures
            r == self.matches_spec(*request_url),
    {
        let cp = chars_of(self.path.as_str());
        let rp = chars_of(request_url.path.as_str());
        if cp.len() == rp.len() && chars_start_with(&rp, &cp) {
            assert(rp@.subrange(0, cp@.len() as int) =~= rp@);
            return true;
        }
        assert(rp@.subrange(0, rp@.len() as int) =~= rp@);
        if !chars_start_with(&rp, &cp) {
            return false;
        }
        if cp.len() > 0 && cp[cp.len() - 1] == '/' {
            return true;
        }
        rp.len() > cp.len() && rp[cp.len()] == '/'
    }

    /// The path that the path attribute `path` gives: the attribute itself if it starts with
    /// `/`, else none.
    pub fn parse(path: &str) -> (r: Option<CookiePath>)
        ensures
            r matches Some(p) ==> p.path@ == path@ && !p.is_default,
            r is Some <==> (path@.len() > 0 && path@[0] == '/'),
    {
        let v = chars_of(path);
        if v.len() > 0 && v[0] == '/' {
            Some(CookiePath { path: string_from_chars(&v), is_default: false })
        } else {
            None
        }
    }

    /// The default path of a cookie received from `request_url`.
    pub fn default_path(request_url: &RequestUrl) -> (r: CookiePath)
        ensures
            r.path@ == default_path_of(request_url.path@),
            r.is_default,
    {
        let mut v = chars_of(request_url.path.as_str());
        proof {
            lemma_last_index_bounds(v@, '/');
        }
        let slash = vec!['/'];
        if v.len() == 0 || v[0] != '/' {
            return CookiePath { path: string_from_chars(&slash), is_default: true };
        }
        match find_last(&v, '/') {
            Some(i) => {
                if i == 0 {
                    CookiePath { path: string_from_chars(&slash), is_default: true }
                } else {
                    v.truncate(i);
                    CookiePath { path: string_from_chars(&v), is_default: true }
                }
            },
            None => CookiePath { path: string_from_chars(&slash), is_default: true },
        }
    }

    /// A copy of this path.
    pub fn cloned(&self) -> (r: CookiePath)
        ensures
            r == *self,
    {
        CookiePath { path: self.path.clone(), is_default: self.is_default }
    }

    /// The path as text.
    pub fn as_str(&self) -> (r: &str)
        ensures
            r@ == self.path@,
    {
        self.path.as_str()
    }
}

} // verus!
