use ergoreq::cookie::{Cookie, ErgoCookieParser};
use ergoreq::cookie_container::ErgoCookieContainer;
use ergoreq::request_url::RequestUrl;

const SET_COOKIE_HEADERS: [&str; 13] = [
    "mycookie=example; path=/; domain=",
    "subdomain_cookie=subdomain; path=/; domain=.example.com;",
    "domain_cookie=domain; path=/; domain=example.com",
    "cross_domain_cookie=cross; path=/; domain=example.com;",
    "session=abc123; path=/",
    "user=johndoe; path=/profile",
    "lang=en-US; expires=Thu, 28 Oct 2099 14:30:00 GMT",
    "theme=dark; domain=example.com",
    "remember=true; path=/; secure",
    "deleted=; expires=Thu, 01 Jan 1970 00:00:00 GMT",
    "httpOnly=true; path=/; HttpOnly",
    "maxAgeCookie=test; path=/; max-age=3600",
    "sameSiteCookie=test; path=/; SameSite=Strict",
];

fn headers() -> Vec<String> {
    SET_COOKIE_HEADERS.iter().map(|s| s.to_string()).collect()
}

fn url(s: &str) -> RequestUrl {
    match RequestUrl::parse(s) {
        Ok(u) => u,
        Err(_) => panic!("bad url"),
    }
}

#[test]
fn test_domain_matching() {
    assert!(ErgoCookieContainer::is_domain_match("www.google.com", "www.google.com"));
    assert!(ErgoCookieContainer::is_domain_match(".google.com", "www.google.com"));
    assert!(ErgoCookieContainer::is_domain_match("google.com", "www.google.com"));
    assert!(ErgoCookieContainer::is_domain_match("static.google.com", "img.static.google.com"));
}

#[test]
fn test_domain_non_matching() {
    assert!(!ErgoCookieContainer::is_domain_match("www.google.com", "google.com"));
    assert!(!ErgoCookieContainer::is_domain_match("c.google.com", "abc.google.com"));
}

#[test]
fn test_cookie_container_store() {
    let parsed_cookies = ErgoCookieParser::parse_set_cookie_header(&headers());
    let mut container = ErgoCookieContainer::new(false, false, false);
    container.store_from_response(parsed_cookies, &url("http://crates.io"));
    assert_eq!(container.len(), 12);
}

#[test]
fn test_cookie_container_restore() {
    let parsed_cookies = ErgoCookieParser::parse_set_cookie_header(&headers());
    let mut container = ErgoCookieContainer::new(false, false, false);
    container.store_from_response(parsed_cookies, &url("https://crates.io"));
    let result = container.to_header_value(&url("http://crates.io")).unwrap();
    assert_eq!(result.len(), 6);
    let result = container.to_header_value(&url("https://crates.io")).unwrap();
    assert_eq!(result.len(), 7);
    let result = container.to_header_value(&url("https://crates.io/profile")).unwrap();
    assert_eq!(result.len(), 1);
    let result = container.to_header_value(&url("https://abc.example.com")).unwrap();
    assert_eq!(result.len(), 4);
    let result = container.to_header_value(&url("https://xample.com")).unwrap();
    assert_eq!(result.len(), 0);
}

#[test]
fn test_serialize() {
    let parsed_cookies = ErgoCookieParser::parse_set_cookie_header(&headers());
    let mut container = ErgoCookieContainer::new(false, false, false);
    container.store_from_response(parsed_cookies, &url("http://crates.io"));
    let result = container.serialize_cookies();
    assert_eq!(result.len(), 12);
}

#[test]
fn domain_match_ignores_ascii_case() {
    assert!(ErgoCookieContainer::is_domain_match("Google.COM", "WWW.google.com"));
    assert!(ErgoCookieContainer::is_domain_match(".GOOGLE.com", "google.com"));
    assert!(!ErgoCookieContainer::is_domain_match("ogle.com", "google.com"));
    assert!(!ErgoCookieContainer::is_domain_match("", "google.com"));
}

#[test]
fn round_trip_returns_each_pair_once() {
    let mut jar = ErgoCookieContainer::new_secure();
    let mut a = Cookie::new("a", "1");
    a.path = Some("/".to_string());
    let mut b = Cookie::new("b", "2");
    b.path = Some("/".to_string());
    let mut s = Cookie::new("s", "3");
    s.path = Some("/".to_string());
    s.secure = Some(true);
    jar.store_from_response_at(vec![a, b, s], &url("https://Example.com/"), 100);
    assert_eq!(jar.len(), 3);
    let plain = jar.to_header_value_at(&url("http://example.com/"), 100);
    assert_eq!(plain, vec!["a=1".to_string(), "b=2".to_string()]);
    let secure = jar.to_header_value_at(&url("https://www.example.com/"), 100);
    assert_eq!(secure, vec!["a=1".to_string(), "b=2".to_string(), "s=3".to_string()]);
}

#[test]
fn ignore_secure_sends_secure_cookies_over_http() {
    let mut jar = ErgoCookieContainer::new(false, false, true);
    let mut s = Cookie::new("s", "3");
    s.secure = Some(true);
    jar.store_from_response_at(vec![s], &url("https://example.com/"), 100);
    assert_eq!(jar.to_header_value_at(&url("http://example.com/"), 100), vec!["s=3".to_string()]);
}

#[test]
fn storing_same_key_twice_keeps_latest_value() {
    let mut jar = ErgoCookieContainer::new_secure();
    jar.store_from_response_at(vec![Cookie::new("k", "old")], &url("http://example.com/"), 10);
    jar.store_from_response_at(vec![Cookie::new("k", "new")], &url("http://example.com/"), 11);
    assert_eq!(jar.len(), 1);
    let all = jar.serialize_cookies();
    assert_eq!(all[0].0.value, "new");
    assert_eq!(all[0].1, "http://example.com/");
}

#[test]
fn expired_cookies_are_dropped() {
    let mut jar = ErgoCookieContainer::new_secure();
    let mut live = Cookie::new("live", "1");
    live.expires = Some(200);
    let mut aged = Cookie::new("aged", "2");
    aged.max_age = Some(50);
    jar.store_from_response_at(vec![live, aged], &url("http://example.com/"), 100);
    assert_eq!(jar.len(), 2);
    assert_eq!(jar.serialize_cookies()[1].0.expires, Some(150));
    assert_eq!(jar.serialize_cookies()[1].0.max_age, None);
    // at 160 the max-age cookie has expired
    assert_eq!(jar.to_header_value_at(&url("http://example.com/"), 160), vec!["live=1".to_string()]);
    assert_eq!(jar.len(), 1);
    // max-age zero removes the stored cookie of that name
    let mut gone = Cookie::new("live", "x");
    gone.max_age = Some(0);
    jar.store_from_response_at(vec![gone], &url("http://example.com/"), 160);
    assert_eq!(jar.len(), 0);
    // a past expiry is never stored
    let mut past = Cookie::new("past", "y");
    past.expires = Some(10);
    jar.store_from_response_at(vec![past], &url("http://example.com/"), 160);
    assert_eq!(jar.len(), 0);
}

#[test]
fn no_expire_check_keeps_expired_cookies() {
    let mut jar = ErgoCookieContainer::new(false, true, false);
    let mut past = Cookie::new("past", "y");
    past.expires = Some(10);
    jar.store_from_response_at(vec![past], &url("http://example.com/"), 160);
    assert_eq!(jar.to_header_value_at(&url("http://example.com/"), 170), vec!["past=y".to_string()]);
}

#[test]
fn http_only_cookie_refused_from_other_schemes() {
    let mut jar = ErgoCookieContainer::new_secure();
    let mut c = Cookie::new("h", "1");
    c.http_only = Some(true);
    c.domain = Some("example.com".to_string());
    jar.store_from_response_at(vec![c], &url("ftp://example.com/"), 1);
    assert_eq!(jar.len(), 0);
}

#[test]
fn match_domain_only_ignores_paths() {
    let mut jar = ErgoCookieContainer::new(true, false, false);
    let mut c = Cookie::new("p", "1");
    c.path = Some("/deep".to_string());
    jar.store_from_response_at(vec![c], &url("http://example.com/x"), 1);
    assert_eq!(jar.to_header_value_at(&url("http://example.com/other"), 1), vec!["p=1".to_string()]);
    assert_eq!(jar.serialize_cookies()[0].1, "http://example.com");
}

#[test]
fn url_without_host_gets_nothing() {
    let mut jar = ErgoCookieContainer::default();
    jar.store_from_response_at(vec![Cookie::new("a", "1")], &url("http://example.com/"), 1);
    let r = jar.to_header_value_at(&url("data:text/plain,hello"), 1);
    assert!(r.is_empty());
    assert_eq!(jar.len(), 1);
}

#[test]
fn set_cookie_parses_origin_url() {
    let mut jar = ErgoCookieContainer::new_secure();
    assert!(jar.set_cookie(vec![Cookie::new("a", "1")], "not a url").is_err());
    assert_eq!(jar.len(), 0);
    assert!(matches!(jar.set_cookie(vec![Cookie::new("a", "1")], "https://Example.com/p"), Ok(true)));
    assert_eq!(jar.serialize_cookies()[0].1, "http://example.com/p");
}

#[test]
fn request_url_parse_gives_lower_case_parts() {
    let u = url("HTTPS://Crates.IO/Some/Path?q=1");
    assert_eq!(u.scheme, "https");
    assert_eq!(u.host, Some("crates.io".to_string()));
    assert_eq!(u.path, "/Some/Path");
}

#[test]
fn remove_target_cookie_clears_matching_domains() {
    let mut jar = ErgoCookieContainer::new_secure();
    let mut a = Cookie::new("n", "1");
    a.domain = Some("example.com".to_string());
    let mut b = Cookie::new("n", "2");
    b.domain = Some("www.example.com".to_string());
    let mut c = Cookie::new("m", "3");
    c.domain = Some("example.com".to_string());
    jar.store_from_response_at(vec![a, b, c], &url("http://example.com/"), 1);
    assert_eq!(jar.len(), 3);
    // removing `n` for www.example.com takes the entries whose domain matches it
    jar.remove_target_cookie(&Cookie::new("n", ""), &url("http://WWW.example.com/"));
    assert_eq!(jar.len(), 1);
    assert_eq!(jar.serialize_cookies()[0].0.name, "m");
}

#[test]
fn past_expiry_evicts_even_with_positive_max_age() {
    let mut jar = ErgoCookieContainer::new_secure();
    jar.store_from_response_at(vec![Cookie::new("both", "old")], &url("http://example.com/"), 100);
    assert_eq!(jar.len(), 1);
    let mut both = Cookie::new("both", "new");
    both.expires = Some(50);
    both.max_age = Some(3600);
    jar.store_from_response_at(vec![both], &url("http://example.com/"), 100);
    assert_eq!(jar.len(), 0);
}

#[test]
fn stored_domain_is_trimmed_and_lower_case() {
    let mut jar = ErgoCookieContainer::new_secure();
    let mut c = Cookie::new("t", "1");
    c.domain = Some(" Example.COM ".to_string());
    c.path = Some("/".to_string());
    jar.store_from_response_at(vec![c], &url("http://example.com/"), 1);
    assert_eq!(jar.serialize_cookies()[0].1, "http://example.com/");
    assert_eq!(jar.to_header_value_at(&url("http://www.example.com/"), 1), vec!["t=1".to_string()]);
    // removal resolves the domain the same way
    let mut gone = Cookie::new("t", "");
    gone.domain = Some(" example.com".to_string());
    gone.path = Some("/".to_string());
    gone.max_age = Some(0);
    jar.store_from_response_at(vec![gone], &url("http://example.com/"), 2);
    assert_eq!(jar.len(), 0);
}

#[test]
fn header_values_are_percent_encoded() {
    let mut jar = ErgoCookieContainer::new_secure();
    let headers = vec!["k=a%3Bb%20c; Path=/".to_string()];
    let parsed = ErgoCookieParser::parse_set_cookie_header(&headers);
    assert_eq!(parsed[0].value, "a;b c");
    jar.store_from_response_at(parsed, &url("http://example.com/"), 1);
    assert_eq!(jar.to_header_value_at(&url("http://example.com/"), 1), vec!["k=a%3Bb%20c".to_string()]);
}

#[test]
fn clock_reading_calls_store_and_query() {
    let mut jar = ErgoCookieContainer::new_secure();
    assert!(jar.store_from_response(vec![Cookie::new("a", "1")], &url("http://example.com/")));
    assert_eq!(jar.to_header_value(&url("http://example.com/")), Some(vec!["a=1".to_string()]));
    assert!(jar.remove_all_expired_cookies());
    assert_eq!(jar.len(), 1);
}
