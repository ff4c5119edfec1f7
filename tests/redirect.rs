use ergoreq::error::ErgoError;
use ergoreq::redirect::{AutoRedirectMiddleware, LocationHeader, RedirectOrigin, RedirectStep};

fn origin(method: &str, body: Option<Vec<u8>>) -> RedirectOrigin {
    RedirectOrigin {
        method: method.to_string(),
        body,
        scheme: "https".to_string(),
        authority: "httpbin.org".to_string(),
    }
}

fn text(s: &str) -> LocationHeader {
    LocationHeader::Text(s.to_string())
}

/// Runs the loop over a transport that answers `k` redirects and then 200.
fn run_chain(max: u64, k: usize) -> (Result<u16, ErgoError>, usize) {
    let m = AutoRedirectMiddleware::new(max);
    let o = origin("GET", None);
    let mut st = AutoRedirectMiddleware::start("https://httpbin.org/redirect".to_string());
    let mut sent = 1;
    loop {
        let status = if sent <= k { 302 } else { 200 };
        match m.step(&o, &mut st, status, &text("/relative-redirect")) {
            RedirectStep::Done => return (Ok(status), sent),
            RedirectStep::Follow(_) => sent += 1,
            RedirectStep::Fail(e) => return (Err(e), sent),
        }
    }
}

#[test]
fn redirect_loop_succeeds_within_cap() {
    let (r, sent) = run_chain(5, 5);
    assert!(matches!(r, Ok(200)));
    assert_eq!(sent, 6);
    let (r, sent) = run_chain(5, 0);
    assert!(matches!(r, Ok(200)));
    assert_eq!(sent, 1);
}

#[test]
fn redirect_loop_fails_past_cap() {
    let (r, sent) = run_chain(5, 6);
    match r {
        Err(ErgoError::TooManyRedirect(url, count)) => {
            assert_eq!(count, 5);
            assert_eq!(url, "https://httpbin.org/relative-redirect");
        }
        _ => panic!("expected too many redirects"),
    }
    assert_eq!(sent, 6);
    let (r, sent) = run_chain(0, 1);
    assert!(matches!(r, Err(ErgoError::TooManyRedirect(_, 0))));
    assert_eq!(sent, 1);
}

#[test]
fn redirect_302_post_becomes_get_without_body() {
    let m = AutoRedirectMiddleware::new(5);
    let o = origin("POST", Some(b"Hello".to_vec()));
    let mut st = AutoRedirectMiddleware::start("https://httpbin.org/redirect-to".to_string());
    match m.step(&o, &mut st, 302, &text("/anything")) {
        RedirectStep::Follow(req) => {
            assert_eq!(req.method, "GET");
            assert!(req.body.is_empty());
            assert_eq!(req.url, "https://httpbin.org/anything");
        }
        _ => panic!("expected a follow"),
    }
    assert_eq!(st.count, 1);
    assert_eq!(st.url, "https://httpbin.org/anything");
}

#[test]
fn redirect_307_and_308_keep_method_and_body() {
    let m = AutoRedirectMiddleware::new(5);
    for (status, method) in [(307u16, "PUT"), (308u16, "POST")] {
        let o = origin(method, Some(b"Hello, World!".to_vec()));
        let mut st = AutoRedirectMiddleware::start("https://httpbin.org/redirect-to".to_string());
        match m.step(&o, &mut st, status, &text("http://other.org/anything")) {
            RedirectStep::Follow(req) => {
                assert_eq!(req.method, method);
                assert_eq!(req.body, b"Hello, World!".to_vec());
                assert_eq!(req.url, "http://other.org/anything");
            }
            _ => panic!("expected a follow"),
        }
    }
}

#[test]
fn redirect_location_errors() {
    let m = AutoRedirectMiddleware::new(5);
    let o = origin("GET", None);
    let mut st = AutoRedirectMiddleware::start("https://a.org/".to_string());
    assert!(matches!(m.step(&o, &mut st, 301, &LocationHeader::Missing), RedirectStep::Fail(ErgoError::RedirectLocationEmpty)));
    assert!(matches!(m.step(&o, &mut st, 301, &LocationHeader::NotText), RedirectStep::Fail(ErgoError::RedirectLocationInvalid)));
    match m.step(&o, &mut st, 301, &text("bad uri with spaces")) {
        RedirectStep::Fail(ErgoError::InvalidRedirectUrl(s)) => assert_eq!(s, "bad uri with spaces"),
        _ => panic!("expected an invalid redirect url"),
    }
    assert_eq!(st.count, 0);
    assert!(matches!(m.step(&o, &mut st, 404, &LocationHeader::Missing), RedirectStep::Done));
    assert!(matches!(m.step(&o, &mut st, 299, &text("/x")), RedirectStep::Done));
    assert!(matches!(m.step(&o, &mut st, 400, &text("/x")), RedirectStep::Done));
    assert_eq!(m.max_redirect_count(), 5);
}

#[test]
fn step_parsed_uses_the_given_parse_results() {
    let m = AutoRedirectMiddleware::new(2);
    let o = origin("GET", None);
    let mut st = AutoRedirectMiddleware::start("https://httpbin.org/a".to_string());
    match m.step_parsed(&o, &mut st, 302, &text("/b"), Some(None), Some(Ok("https://httpbin.org/b".to_string()))) {
        RedirectStep::Follow(req) => assert_eq!(req.url, "https://httpbin.org/b"),
        _ => panic!("expected a follow"),
    }
    assert_eq!(st.count, 1);
    assert!(matches!(
        m.step_parsed(&o, &mut st, 302, &text("/c"), Some(None), None),
        RedirectStep::Fail(ErgoError::InvalidRedirectUrl(_))
    ));
    assert!(matches!(
        m.step_parsed(&o, &mut st, 302, &text("x"), None, None),
        RedirectStep::Fail(ErgoError::InvalidRedirectUrl(_))
    ));
    match m.step_parsed(&o, &mut st, 301, &text("http://h/x"), Some(Some("h".to_string())), None) {
        RedirectStep::Follow(req) => assert_eq!(req.url, "http://h/x"),
        _ => panic!("expected a follow"),
    }
    assert_eq!(st.count, 2);
    assert!(matches!(
        m.step_parsed(&o, &mut st, 301, &text("/d"), Some(None), None),
        RedirectStep::Fail(ErgoError::TooManyRedirect(_, 2))
    ));
}
