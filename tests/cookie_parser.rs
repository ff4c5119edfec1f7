use ergoreq::cookie::{Cookie, ErgoCookieParser};

const SET_COOKIE_HEADERS: [&str; 13] = [
    "mycookie=example; path=/; domain=",
    "subdomain_cookie=subdomain; path=/; domain=.example.com; domain=example2.com",
    "domain_cookie=domain; path=/; domain=example.com",
    "cross_domain_cookie=cross; path=/; domain=example.com; domain=example2.com",
    "session=abc123; path=/",
    "user=johndoe; path=/profile",
    "lang=en-US; expires=Thu, 28 Oct 2023 14:30:00 GMT",
    "theme=dark; domain=example.com",
    "remember=true; path=/; secure",
    "deleted=; expires=Thu, 01 Jan 1970 00:00:00 GMT",
    "httpOnly=true; path=/; HttpOnly",
    "maxAgeCookie=test; path=/; max-age=3600",
    "sameSiteCookie=test; path=/; SameSite=Strict",
];

#[test]
fn test_parse_cookie_header() {
    let headers: Vec<String> = SET_COOKIE_HEADERS.iter().map(|s| s.to_string()).collect();
    let cookies = ErgoCookieParser::parse_set_cookie_header(&headers);
    assert_eq!(cookies.len(), 13);
}

#[test]
fn parse_decodes_and_reads_attributes() {
    let headers = vec![
        "a=b%20c; Domain=.Example.com; Path=/x; Secure; HttpOnly; Max-Age=60; SameSite=Lax".to_string(),
        "no equals sign".to_string(),
        "d=e; expires=Thu, 01 Jan 1970 00:00:10 GMT".to_string(),
    ];
    let cookies = ErgoCookieParser::parse_set_cookie_header(&headers);
    assert_eq!(cookies.len(), 2);
    assert_eq!(cookies[0].name, "a");
    assert_eq!(cookies[0].value, "b c");
    assert_eq!(cookies[0].domain, Some("Example.com".to_string()));
    assert_eq!(cookies[0].path, Some("/x".to_string()));
    assert_eq!(cookies[0].secure, Some(true));
    assert_eq!(cookies[0].http_only, Some(true));
    assert_eq!(cookies[0].max_age, Some(60));
    assert_eq!(cookies[0].same_site, Some("Lax".to_string()));
    assert_eq!(cookies[1].expires, Some(10));
}

#[test]
fn collect_parsed_keeps_cookies_in_order() {
    let results = vec![Some(Cookie::new("a", "1")), None, Some(Cookie::new("b", "2")), None];
    let cookies = ErgoCookieParser::collect_parsed(&results);
    assert_eq!(cookies.len(), 2);
    assert_eq!(cookies[0].name, "a");
    assert_eq!(cookies[1].name, "b");
}
