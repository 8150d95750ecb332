use cookie_store::{
    Cookie, CookieError, CookieStore, CookieStoreSerialized, HostKind, InsertResult, RawCookie,
    RequestUrl, SerializableTm, StoreAction, UrlHost,
};
use time::{Duration, OffsetDateTime};

fn url(s: &str) -> RequestUrl {
    let u = url::Url::parse(s).unwrap();
    let host = u.host().map(|h| {
        let kind = match h {
            url::Host::Domain(_) => HostKind::Domain,
            url::Host::Ipv4(a) => {
                let o = a.octets();
                HostKind::Ipv4(o[0], o[1], o[2], o[3])
            }
            url::Host::Ipv6(a) => {
                let g = a.segments();
                HostKind::Ipv6(g[0], g[1], g[2], g[3], g[4], g[5], g[6], g[7])
            }
        };
        UrlHost { name: u.host_str().unwrap().to_string(), kind }
    });
    RequestUrl { scheme: u.scheme().to_string(), host, path: u.path().to_string() }
}

fn raw(s: &str) -> RawCookie {
    let c = cookie::Cookie::parse(s.to_string()).unwrap();
    RawCookie {
        raw: c.to_string(),
        name: c.name().to_string(),
        value: c.value().to_string(),
        domain: c.domain().map(String::from),
        path: c.path().map(String::from),
        max_age: c.max_age().map(|d| d.whole_seconds()),
        expires: c.expires_datetime().map(|t| SerializableTm { unix_seconds: t.unix_timestamp() }),
        secure: c.secure().unwrap_or(false),
        http_only: c.http_only().unwrap_or(false),
    }
}

fn parse_cookie(s: &str, url_str: &str) -> Cookie {
    Cookie::try_from_raw_cookie(&raw(s), &url(url_str)).unwrap()
}

fn in_days(days: i64) -> OffsetDateTime {
    OffsetDateTime::now_utc() + Duration::days(days)
}

fn tm(t: OffsetDateTime) -> SerializableTm {
    SerializableTm { unix_seconds: t.unix_timestamp() }
}

fn make_cookie(cookie: &str, url_str: &str, expires: Option<OffsetDateTime>, max_age: Option<u64>) -> Cookie {
    let text = format!(
        "{}{}{}",
        cookie,
        expires.map_or(String::from(""), |e| format!(
            "; Expires={}",
            e.format(
                &time::format_description::parse(
                    "[weekday repr:short], [day] [month repr:short] [year] [hour]:[minute]:[second] GMT"
                )
                .unwrap()
            )
            .unwrap()
        )),
        max_age.map_or(String::from(""), |m| format!("; Max-Age={m}"))
    );
    parse_cookie(&text, url_str)
}

fn add_cookie(
    store: &mut CookieStore,
    cookie: &str,
    url_str: &str,
    expires: Option<OffsetDateTime>,
    max_age: Option<u64>,
) -> InsertResult {
    store.insert(make_cookie(cookie, url_str, expires, max_age), &url(url_str))
}

fn inserted(r: InsertResult) {
    assert_eq!(Ok(StoreAction::Inserted), r);
}

fn updated(r: InsertResult) {
    assert_eq!(Ok(StoreAction::UpdatedExisting), r);
}

fn expired_existing(r: InsertResult) {
    assert_eq!(Ok(StoreAction::ExpiredExisting), r);
}

fn values_are(store: &CookieStore, url_str: &str, mut values: Vec<&str>) {
    let mut matched: Vec<&str> = store.matches(&url(url_str)).iter().map(|c| c.value()).collect();
    matched.sort();
    values.sort();
    assert!(matched == values, "\n{:?}\n!=\n{:?}\n", matched, values);
}

fn matches_are(store: &CookieStore, url_str: &str, exp: Vec<&str>) {
    let matches: Vec<String> = store
        .matches(&url(url_str))
        .iter()
        .map(|c| format!("{}={}", c.name(), c.value()))
        .collect();
    for e in &exp {
        assert!(matches.iter().any(|m| &m[..] == *e), "{}: matches missing '{}'\nmatches: {:?}\n    exp: {:?}", url_str, e, matches, exp);
    }
    assert!(matches.len() == exp.len(), "{}: matches={:?} != exp={:?}", url_str, matches, exp);
}

fn make_match_store() -> CookieStore {
    let mut store = CookieStore::default();
    inserted(add_cookie(&mut store, "cookie1=1", "http://example.com/foo/bar", None, Some(60 * 5)));
    inserted(add_cookie(&mut store, "cookie2=2; Secure", "https://example.com/sec/", None, Some(60 * 5)));
    inserted(add_cookie(&mut store, "cookie3=3; HttpOnly", "https://example.com/sec/", None, Some(60 * 5)));
    inserted(add_cookie(&mut store, "cookie4=4; Secure; HttpOnly", "https://example.com/sec/", None, Some(60 * 5)));
    inserted(add_cookie(&mut store, "cookie5=5", "http://example.com/foo/", None, Some(60 * 5)));
    inserted(add_cookie(&mut store, "cookie6=6", "http://example.com/", None, Some(60 * 5)));
    inserted(add_cookie(&mut store, "cookie7=7", "http://bar.example.com/foo/", None, Some(60 * 5)));
    inserted(add_cookie(&mut store, "cookie8=8", "http://example.org/foo/bar", None, Some(60 * 5)));
    inserted(add_cookie(&mut store, "cookie9=9", "http://bar.example.org/foo/bar", None, Some(60 * 5)));
    store
}

fn check_matches(store: &CookieStore) {
    values_are(store, "http://unknowndomain.org/foo/bar", vec![]);
    values_are(store, "http://example.org/foo/bar", vec!["8"]);
    values_are(store, "http://example.org/bus/bar", vec![]);
    values_are(store, "http://bar.example.org/foo/bar", vec!["9"]);
    values_are(store, "http://bar.example.org/bus/bar", vec![]);
    values_are(store, "https://example.com/sec/foo", vec!["6", "4", "3", "2"]);
    values_are(store, "http://example.com/sec/foo", vec!["6", "3"]);
    values_are(store, "ftp://example.com/sec/foo", vec!["6"]);
    values_are(store, "http://bar.example.com/foo/bar/bus", vec!["7"]);
    values_are(store, "http://example.com/foo/bar/bus", vec!["1", "5", "6"]);
}

fn save_and_load(store: &CookieStore) -> CookieStore {
    CookieStoreSerialized::from_store(store).into_store(false)
}

fn saved_text(store: &CookieStore) -> String {
    CookieStoreSerialized::from_store(store)
        .cookies
        .iter()
        .map(|c| c.raw_cookie.clone())
        .collect::<Vec<_>>()
        .join("\n")
}

fn has_str(e: &str, val: &str) {
    assert!(val.contains(e), "exp: {}\nval: {}", e, val);
}

fn not_has_str(e: &str, val: &str) {
    assert!(!val.contains(e), "exp: {}\nval: {}", e, val);
}

#[test]
fn insert_raw() {
    let mut store = CookieStore::default();
    inserted(store.insert_raw(&raw("cookie1=value1"), &url("http://example.com/foo/bar")));
    assert_eq!(
        Err(CookieError::NonRelativeScheme),
        store.insert_raw(&raw("cookie1=value1"), &url("data:nonrelativescheme"))
    );
    assert_eq!(
        Err(CookieError::NonHttpScheme),
        store.insert_raw(&raw("cookie1=value1; HttpOnly"), &url("ftp://example.com/"))
    );
    expired_existing(store.insert_raw(&raw("cookie1=value1; Max-Age=0"), &url("http://example.com/foo/bar")));
    assert_eq!(
        Err(CookieError::Expired),
        store.insert_raw(&raw("cookie1=value1; Max-Age=-1"), &url("http://example.com/foo/bar"))
    );
    updated(store.insert_raw(&raw("cookie1=value1"), &url("http://example.com/foo/bar")));
    expired_existing(store.insert_raw(&raw("cookie1=value1; Max-Age=-1"), &url("http://example.com/foo/bar")));
    assert_eq!(
        Err(CookieError::DomainMismatch),
        store.insert_raw(&raw("cookie1=value1; Domain=bar.example.com"), &url("http://example.com/foo/bar"))
    );
}

#[test]
fn parse() {
    let mut store = CookieStore::default();
    let mut parse = |s: &str, u: &str| store.insert_raw(&raw(s), &url(u));
    inserted(parse("cookie1=value1", "http://example.com/foo/bar"));
    assert_eq!(Err(CookieError::NonRelativeScheme), parse("cookie1=value1", "data:nonrelativescheme"));
    assert_eq!(Err(CookieError::NonHttpScheme), parse("cookie1=value1; HttpOnly", "ftp://example.com/"));
    expired_existing(parse("cookie1=value1; Max-Age=0", "http://example.com/foo/bar"));
    assert_eq!(Err(CookieError::Expired), parse("cookie1=value1; Max-Age=-1", "http://example.com/foo/bar"));
    updated(parse("cookie1=value1", "http://example.com/foo/bar"));
    expired_existing(parse("cookie1=value1; Max-Age=-1", "http://example.com/foo/bar"));
    assert_eq!(
        Err(CookieError::DomainMismatch),
        parse("cookie1=value1; Domain=bar.example.com", "http://example.com/foo/bar")
    );
}

fn domain_cookie_from(domain: &str, request_url: &str) -> Cookie {
    parse_cookie(&format!("cookie1=value1; Domain={}", domain), request_url)
}

#[test]
fn domains() {
    let mut store = CookieStore::default();
    let mismatch = Err(CookieError::DomainMismatch);
    {
        let request_url = url("http://foo.example.com");
        inserted(store.insert(domain_cookie_from("example.com", "http://foo.example.com"), &request_url));
        updated(store.insert(domain_cookie_from(".example.com", "http://foo.example.com"), &request_url));
        inserted(store.insert(domain_cookie_from("foo.example.com", "http://foo.example.com"), &request_url));
        updated(store.insert(domain_cookie_from(".foo.example.com", "http://foo.example.com"), &request_url));
        assert_eq!(mismatch, store.insert(domain_cookie_from("bar.example.com", "http://bar.example.com"), &request_url));
        assert_eq!(mismatch, store.insert(domain_cookie_from(".bar.example.com", "http://bar.example.com"), &request_url));
        assert_eq!(mismatch, store.insert(domain_cookie_from("bar.foo.example.com", "http://bar.foo.example.com"), &request_url));
        assert_eq!(mismatch, store.insert(domain_cookie_from(".bar.foo.example.com", "http://bar.foo.example.com"), &request_url));
    }
    {
        let request_url = url("http://bar.example.com");
        updated(store.insert(domain_cookie_from("example.com", "http://foo.example.com"), &request_url));
        updated(store.insert(domain_cookie_from(".example.com", "http://foo.example.com"), &request_url));
        inserted(store.insert(domain_cookie_from("bar.example.com", "http://bar.example.com"), &request_url));
        updated(store.insert(domain_cookie_from(".bar.example.com", "http://bar.example.com"), &request_url));
        assert_eq!(mismatch, store.insert(domain_cookie_from("foo.example.com", "http://foo.example.com"), &request_url));
        assert_eq!(mismatch, store.insert(domain_cookie_from(".foo.example.com", "http://foo.example.com"), &request_url));
    }
    {
        let request_url = url("http://example.com");
        updated(store.insert(domain_cookie_from("example.com", "http://foo.example.com"), &request_url));
        updated(store.insert(domain_cookie_from(".example.com", "http://foo.example.com"), &request_url));
        assert_eq!(mismatch, store.insert(domain_cookie_from("foo.example.com", "http://foo.example.com"), &request_url));
        assert_eq!(mismatch, store.insert(domain_cookie_from(".foo.example.com", "http://foo.example.com"), &request_url));
        assert_eq!(mismatch, store.insert(domain_cookie_from("bar.example.com", "http://bar.example.com"), &request_url));
        assert_eq!(mismatch, store.insert(domain_cookie_from(".bar.example.com", "http://bar.example.com"), &request_url));
    }
}

#[test]
fn http_only() {
    let mut store = CookieStore::default();
    let c = parse_cookie("cookie1=value1; HttpOnly", "http://example.com/foo/bar");
    assert_eq!(Err(CookieError::NonHttpScheme), store.insert(c, &url("ftp://example.com/foo/bar")));
}

#[test]
fn clear() {
    let mut store = CookieStore::default();
    inserted(add_cookie(&mut store, "cookie1=value1", "http://example.com/foo/bar", Some(in_days(1)), None));
    assert!(
        store.iter_any().iter().any(|c| c.name_value() == ("cookie1", "value1")),
        "did not find expected cookie1=value1 cookie in store"
    );
    store.clear();
    assert!(store.iter_any().len() == 0, "found unexpected cookies in cleared store");
}

#[test]
fn add_and_get() {
    let mut store = CookieStore::default();
    assert!(store.get("example.com", "/foo", "cookie1").is_none());

    inserted(add_cookie(&mut store, "cookie1=value1", "http://example.com/foo/bar", None, None));
    assert!(store.get("example.com", "/foo/bar", "cookie1").is_none());
    assert!(store.get("example.com", "/foo", "cookie2").is_none());
    assert!(store.get("example.org", "/foo", "cookie1").is_none());
    assert!(store.get("example.com", "/foo", "cookie1").unwrap().value() == "value1");

    updated(add_cookie(&mut store, "cookie1=value2", "http://example.com/foo/bar", None, None));
    assert!(store.get("example.com", "/foo", "cookie1").unwrap().value() == "value2");

    inserted(add_cookie(&mut store, "cookie2=value3", "http://example.com/foo/bar", None, None));
    assert!(store.get("example.com", "/foo", "cookie1").unwrap().value() == "value2");
    assert!(store.get("example.com", "/foo", "cookie2").unwrap().value() == "value3");

    inserted(add_cookie(&mut store, "cookie3=value4; HttpOnly", "http://example.com/foo/bar", None, None));
    assert!(store.get("example.com", "/foo", "cookie1").unwrap().value() == "value2");
    assert!(store.get("example.com", "/foo", "cookie2").unwrap().value() == "value3");
    assert!(store.get("example.com", "/foo", "cookie3").unwrap().value() == "value4");

    assert_eq!(
        Err(CookieError::NonHttpScheme),
        add_cookie(&mut store, "cookie3=value5", "ftp://example.com/foo/bar", None, None)
    );
    assert!(store.get("example.com", "/foo", "cookie1").unwrap().value() == "value2");
    assert!(store.get("example.com", "/foo", "cookie2").unwrap().value() == "value3");
    assert!(store.get("example.com", "/foo", "cookie3").unwrap().value() == "value4");
}

#[test]
fn matches() {
    let store = make_match_store();
    check_matches(&store);
}

#[test]
fn some_non_https_uris_are_secure() {
    let secure_uris = vec![
        "http://localhost",
        "http://localhost:1234",
        "http://127.0.0.1",
        "http://127.0.0.2",
        "http://127.1.0.1",
        "http://[::1]",
    ];
    for secure_uri in secure_uris {
        let mut store = CookieStore::default();
        inserted(add_cookie(&mut store, "cookie1=1a; Secure", secure_uri, None, None));
        matches_are(&store, secure_uri, vec!["cookie1=1a"]);
    }
}

#[test]
fn domain_collisions() {
    let mut store = CookieStore::default();
    inserted(add_cookie(&mut store, "cookie1=1a", "http://foo.bus.example.com/", None, None));
    inserted(add_cookie(&mut store, "cookie1=1b", "http://bus.example.com/", None, None));
    inserted(add_cookie(&mut store, "cookie2=2a; Domain=bus.example.com", "http://foo.bus.example.com/", None, None));
    inserted(add_cookie(&mut store, "cookie2=2b; Domain=example.com", "http://bus.example.com/", None, None));
    matches_are(&store, "http://foo.bus.example.com/", vec!["cookie1=1a", "cookie2=2a", "cookie2=2b"]);
    matches_are(&store, "http://bus.example.com/", vec!["cookie1=1b", "cookie2=2a", "cookie2=2b"]);
    matches_are(&store, "http://example.com/", vec!["cookie2=2b"]);
    matches_are(&store, "http://foo.example.com/", vec!["cookie2=2b"]);
}

#[test]
fn path_collisions() {
    let mut store = CookieStore::default();
    inserted(add_cookie(&mut store, "cookie3=3a", "http://bus.example.com/foo/bar/", None, None));
    inserted(add_cookie(&mut store, "cookie3=3b", "http://bus.example.com/foo/", None, None));
    inserted(add_cookie(&mut store, "cookie4=4a; Path=/foo/bar/", "http://bus.example.com/", None, None));
    inserted(add_cookie(&mut store, "cookie4=4b; Path=/foo/", "http://bus.example.com/", None, None));
    matches_are(&store, "http://bus.example.com/foo/bar/", vec!["cookie3=3a", "cookie3=3b", "cookie4=4a", "cookie4=4b"]);
    matches_are(&store, "http://bus.example.com/foo/bar", vec!["cookie3=3a", "cookie3=3b", "cookie4=4b"]);
    matches_are(&store, "http://bus.example.com/foo/ba", vec!["cookie3=3b", "cookie4=4b"]);
    matches_are(&store, "http://bus.example.com/foo/", vec!["cookie3=3b", "cookie4=4b"]);
    matches_are(&store, "http://bus.example.com/foo", vec!["cookie3=3b"]);
    matches_are(&store, "http://bus.example.com/fo", vec![]);
    matches_are(&store, "http://bus.example.com/", vec![]);
    matches_are(&store, "http://bus.example.com", vec![]);
}

fn fill_for_saving(store: &mut CookieStore, secure_url: &str, http_only_url: &str) {
    inserted(add_cookie(store, "cookie3=value3; Domain=example.com", "http://foo.example.com/foo/bar", Some(in_days(1)), None));
    inserted(add_cookie(store, "cookie4=value4; Path=/foo/", "http://foo.example.com/foo/bar", Some(in_days(1)), None));
    inserted(add_cookie(store, "cookie5=value5", "http://127.0.0.1/foo/bar", Some(in_days(1)), None));
    inserted(add_cookie(store, "cookie6=value6", "http://[::1]/foo/bar", Some(in_days(1)), None));
    inserted(add_cookie(store, "cookie7=value7; Secure", secure_url, Some(in_days(1)), None));
    inserted(add_cookie(store, "cookie8=value8; HttpOnly", http_only_url, Some(in_days(1)), None));
}

#[test]
fn save_json() {
    let mut store = CookieStore::default();
    assert_eq!("", saved_text(&store));
    inserted(add_cookie(&mut store, "cookie0=value0", "http://example.com/foo/bar", None, None));
    assert_eq!("", saved_text(&store));

    inserted(add_cookie(&mut store, "cookie1=value1", "http://example.com/foo/bar", None, Some(10)));
    let output = saved_text(&store);
    not_has_str("cookie0=value0", &output);
    has_str("cookie1=value1", &output);

    inserted(add_cookie(&mut store, "cookie2=value2", "http://example.com/foo/bar", Some(in_days(1)), None));
    let output = saved_text(&store);
    not_has_str("cookie0=value0", &output);
    has_str("cookie1=value1", &output);
    has_str("cookie2=value2", &output);

    fill_for_saving(&mut store, "https://[::1]/foo/bar", "http://[::1]/foo/bar");
    let output = saved_text(&store);
    not_has_str("cookie0=value0", &output);
    has_str("cookie1=value1", &output);
    has_str("cookie2=value2", &output);
    has_str("cookie3=value3", &output);
    has_str("cookie4=value4", &output);
    has_str("cookie5=value5", &output);
    has_str("cookie6=value6", &output);
    has_str("cookie7=value7; Secure", &output);
    has_str("cookie8=value8; HttpOnly", &output);
}

#[test]
fn load_json() {
    let mut store = CookieStore::default();
    inserted(add_cookie(&mut store, "cookie0=value0", "http://example.com/foo/bar", None, None));
    inserted(add_cookie(&mut store, "cookie1=value1", "http://example.com/foo/bar", None, Some(10)));
    inserted(add_cookie(&mut store, "cookie2=value2", "http://example.com/foo/bar", Some(in_days(1)), None));
    fill_for_saving(&mut store, "http://example.com/foo/bar", "http://example.com/foo/bar");
    let output = saved_text(&store);
    not_has_str("cookie0=value0", &output);
    has_str("cookie1=value1", &output);
    has_str("cookie2=value2", &output);
    has_str("cookie3=value3", &output);
    has_str("cookie4=value4", &output);
    has_str("cookie5=value5", &output);
    has_str("cookie6=value6", &output);
    has_str("cookie7=value7; Secure", &output);
    has_str("cookie8=value8; HttpOnly", &output);
    let store = save_and_load(&store);
    assert!(store.get("example.com", "/foo", "cookie0").is_none());
    assert!(store.get("example.com", "/foo", "cookie1").unwrap().value() == "value1");
    assert!(store.get("example.com", "/foo", "cookie2").unwrap().value() == "value2");
    assert!(store.get("example.com", "/foo", "cookie3").unwrap().value() == "value3");
    assert!(store.get("foo.example.com", "/foo/", "cookie4").unwrap().value() == "value4");
    assert!(store.get("127.0.0.1", "/foo", "cookie5").unwrap().value() == "value5");
    assert!(store.get("[::1]", "/foo", "cookie6").unwrap().value() == "value6");
    assert!(store.get("example.com", "/foo", "cookie7").unwrap().value() == "value7");
    assert!(store.get("example.com", "/foo", "cookie8").unwrap().value() == "value8");

    let store = make_match_store();
    let store = save_and_load(&store);
    check_matches(&store);
}

#[test]
fn expiry_json() {
    let mut store = make_match_store();
    let request_url = url("http://foo.example.com");
    let expired_cookie = Cookie::try_from_raw_cookie(&raw("cookie1=value1; Max-Age=-1"), &request_url).unwrap();
    assert_eq!(Err(CookieError::Expired), store.insert(expired_cookie, &request_url));
    check_matches(&store);
    match store.get_mut("example.com", "/", "cookie6") {
        Some(cookie) => cookie.expire(),
        None => unreachable!(),
    }
    values_are(&store, "http://unknowndomain.org/foo/bar", vec![]);
    values_are(&store, "http://example.org/foo/bar", vec!["8"]);
    values_are(&store, "http://example.org/bus/bar", vec![]);
    values_are(&store, "http://bar.example.org/foo/bar", vec!["9"]);
    values_are(&store, "http://bar.example.org/bus/bar", vec![]);
    values_are(&store, "https://example.com/sec/foo", vec!["4", "3", "2"]);
    values_are(&store, "http://example.com/sec/foo", vec!["3"]);
    values_are(&store, "ftp://example.com/sec/foo", vec![]);
    values_are(&store, "http://bar.example.com/foo/bar/bus", vec!["7"]);
    values_are(&store, "http://example.com/foo/bar/bus", vec!["1", "5"]);
    match store.get_any("example.com", "/", "cookie6") {
        Some(cookie) => assert!(cookie.is_expired()),
        None => unreachable!(),
    }
    let request_url = url("http://example.com/foo/");
    let expired_cookie = Cookie::try_from_raw_cookie(&raw("cookie5=value5; Max-Age=-1"), &request_url).unwrap();
    expired_existing(store.insert(expired_cookie, &request_url));
    values_are(&store, "http://unknowndomain.org/foo/bar", vec![]);
    values_are(&store, "http://example.org/foo/bar", vec!["8"]);
    values_are(&store, "http://example.org/bus/bar", vec![]);
    values_are(&store, "http://bar.example.org/foo/bar", vec!["9"]);
    values_are(&store, "http://bar.example.org/bus/bar", vec![]);
    values_are(&store, "https://example.com/sec/foo", vec!["4", "3", "2"]);
    values_are(&store, "http://example.com/sec/foo", vec!["3"]);
    values_are(&store, "ftp://example.com/sec/foo", vec![]);
    values_are(&store, "http://bar.example.com/foo/bar/bus", vec!["7"]);
    values_are(&store, "http://example.com/foo/bar/bus", vec!["1"]);
    match store.get_any("example.com", "/foo", "cookie5") {
        Some(cookie) => assert!(cookie.is_expired()),
        None => unreachable!(),
    }
    let store = save_and_load(&store);
    values_are(&store, "http://unknowndomain.org/foo/bar", vec![]);
    values_are(&store, "http://example.org/foo/bar", vec!["8"]);
    values_are(&store, "http://example.org/bus/bar", vec![]);
    values_are(&store, "http://bar.example.org/foo/bar", vec!["9"]);
    values_are(&store, "http://bar.example.org/bus/bar", vec![]);
    values_are(&store, "https://example.com/sec/foo", vec!["4", "3", "2"]);
    values_are(&store, "http://example.com/sec/foo", vec!["3"]);
    values_are(&store, "ftp://example.com/sec/foo", vec![]);
    values_are(&store, "http://bar.example.com/foo/bar/bus", vec!["7"]);
    values_are(&store, "http://example.com/foo/bar/bus", vec!["1"]);
    assert!(store.get_any("example.com", "/", "cookie6").is_none());
    assert!(store.get_any("example.com", "/foo", "cookie5").is_none());
}

#[test]
fn non_persistent_json() {
    let mut store = make_match_store();
    check_matches(&store);
    let request_url = url("http://example.com/tmp/");
    let non_persistent = Cookie::try_from_raw_cookie(&raw("cookie10=value10"), &request_url).unwrap();
    inserted(store.insert(non_persistent, &request_url));
    match store.get("example.com", "/tmp", "cookie10") {
        None => unreachable!(),
        Some(cookie) => assert_eq!("value10", cookie.value()),
    }
    let store = save_and_load(&store);
    check_matches(&store);
    assert!(store.get("example.com", "/tmp", "cookie10").is_none());
    assert!(store.get_any("example.com", "/tmp", "cookie10").is_none());
}
