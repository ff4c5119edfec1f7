use ergoreq::url_builder::StringUrlBuilderTrait;

#[test]
fn test_add_url_segment() {
    let url = "https://example.com";
    let segment = "test";
    assert_eq!(url.add_url_segment(segment), "https://example.com/test");

    let url = "https://example.com/";
    let segment = "test";
    assert_eq!(url.add_url_segment(segment), "https://example.com/test");

    let url = "https://example.com";
    let segment = "/test";
    assert_eq!(url.add_url_segment(segment), "https://example.com/test");

    let url = "https://example.com/";
    let segment = "/test";
    assert_eq!(url.add_url_segment(segment), "https://example.com/test");

    let url = "https://example.com?query=1";
    let segment = "test";
    assert_eq!(url.add_url_segment(segment), "https://example.com/test?query=1");

    let url = "https://example.com/?query=1";
    let segment = "test";
    assert_eq!(url.add_url_segment(segment), "https://example.com/test?query=1");

    let url = "https://example.com?query=1";
    let segment = "/test";
    assert_eq!(url.add_url_segment(segment), "https://example.com/test?query=1");

    let url = "https://example.com/?query=1";
    let segment = "/test";
    assert_eq!(url.add_url_segment(segment), "https://example.com/test?query=1");
}

#[test]
fn test_add_url_segments() {
    let url = "https://example.com";
    let segments = &["test", "test1"];
    assert_eq!(url.add_url_segments(segments), "https://example.com/test/test1");

    let url = "https://example.com/";
    let segments = &["test", "test1"];
    assert_eq!(url.add_url_segments(segments), "https://example.com/test/test1");

    let url = "https://example.com";
    let segments = &["/test", "/test1"];
    assert_eq!(url.add_url_segments(segments), "https://example.com/test/test1");

    let url = "https://example.com/";
    let segments = &["/test", "/test1"];
    assert_eq!(url.add_url_segments(segments), "https://example.com/test/test1");

    let url = "https://example.com?query=1";
    let segments = &["test", "test1"];
    assert_eq!(url.add_url_segments(segments), "https://example.com/test/test1?query=1");

    let url = "https://example.com/?query=1";
    let segments = &["test", "test1"];
    assert_eq!(url.add_url_segments(segments), "https://example.com/test/test1?query=1");

    let url = "https://example.com?query=1";
    let segments = &["/test", "/test1"];
    assert_eq!(url.add_url_segments(segments), "https://example.com/test/test1?query=1");

    let url = "https://example.com/?query=1";
    let segments = &["/test", "/test1"];
    assert_eq!(url.add_url_segments(segments), "https://example.com/test/test1?query=1");
}

#[test]
fn segment_on_owned_string_and_empty_query() {
    let url = String::from("https://example.com/a?");
    assert_eq!(url.add_url_segment("//b"), "https://example.com/a/b");
    let url = String::from("https://h/x?k=v?w");
    assert_eq!(url.add_url_segments(&["y", "z"]), "https://h/x/y/z?k=v?w");
    assert_eq!("".add_url_segment("a"), "/a");
}
