use dash_mpd::base_url::{is_absolute_url, url_error, AbsoluteUrl};
use dash_mpd::error::{network_error, parse_error, DashMpdError, ErrorKind};
use dash_mpd::xlink::{classify_link, fetchable_xlink_href, find_node, LinkTarget, XlinkEntry, XlinkLevel, XlinkNode};

#[test]
fn absolute_urls_begin_with_a_known_scheme() {
    assert!(is_absolute_url("http://a/b"));
    assert!(is_absolute_url("https://a/b"));
    assert!(is_absolute_url("file:///tmp/a"));
    assert!(is_absolute_url("http://"));
    assert!(!is_absolute_url("ftp://a/b"));
    assert!(!is_absolute_url("HTTP://a/b"));
    assert!(!is_absolute_url("http:/a"));
    assert!(!is_absolute_url("a/http://b"));
    assert!(!is_absolute_url("data:audio/mp4,"));
    assert!(!is_absolute_url(""));
}

#[test]
fn urls_are_parsed_and_serialized() {
    let url = AbsoluteUrl::parse("HTTP://Example.COM:80/a/../b?q#f").unwrap();
    assert_eq!(url.as_str(), "http://example.com/b?q#f");
    assert_eq!(url.duplicate().as_str(), url.as_str());
    assert!(AbsoluteUrl::parse("a/b.mp4").is_err());
    assert!(AbsoluteUrl::parse("").is_err());
    assert!(AbsoluteUrl::parse("http://[::1").is_err());
}

#[test]
fn references_are_joined_to_a_base() {
    let base = AbsoluteUrl::parse("https://example.net/a/b.html").unwrap();
    assert_eq!(base.join("c.png").unwrap().as_str(), "https://example.net/a/c.png");
    assert_eq!(base.join("/v1/meta").unwrap().as_str(), "https://example.net/v1/meta");
    assert_eq!(base.join("//eve.com/b").unwrap().as_str(), "https://eve.com/b");
    assert_eq!(base.join("http://eve.com/b").unwrap().as_str(), "http://eve.com/b");
    assert_eq!(base.join("").unwrap().as_str(), "https://example.net/a/b.html");
    assert!(base.join("http://[::1").is_err());
    assert_eq!(base.resolve("c.png").unwrap().as_str(), "https://example.net/a/c.png");
    assert_eq!(base.resolve("file:///x/y").unwrap().as_str(), "file:///x/y");
    let opaque = AbsoluteUrl::parse("data:audio/mp4,xyz").unwrap();
    assert!(opaque.join("c.png").is_err());
}

#[test]
fn errors_explain_themselves() {
    let error = AbsoluteUrl::parse("a/b").unwrap_err();
    let wrapped = url_error("parsing BaseURL", &error);
    assert_eq!(wrapped.kind(), ErrorKind::Parsing);
    assert_eq!(wrapped.message(), "parsing BaseURL: relative URL without a base");
    let e = network_error("fetching DASH manifest", "connection refused");
    assert_eq!(e.kind(), ErrorKind::Network);
    assert_eq!(e.message(), "fetching DASH manifest: connection refused");
    let e = parse_error("parsing DASH XML", "unexpected end");
    assert_eq!(e.kind(), ErrorKind::Parsing);
    assert_eq!(e.message(), "parsing DASH XML: unexpected end");
    assert_eq!(DashMpdError::Io("disk full".to_string()).kind(), ErrorKind::Io);
    assert_eq!(DashMpdError::unhandled("x").kind(), ErrorKind::UnhandledMediaStream);
}

#[test]
fn references_that_ask_for_no_request() {
    assert!(fetchable_xlink_href("http://a/b.xml"));
    assert!(fetchable_xlink_href("b.xml"));
    assert!(fetchable_xlink_href("urn:mpeg:dash:resolve-to-zero:2014"));
    assert!(fetchable_xlink_href(" "));
    assert!(!fetchable_xlink_href(""));
    assert!(!fetchable_xlink_href("urn:mpeg:dash:resolve-to-zero:2013"));
}

#[test]
fn links_are_taken_under_the_url_of_the_manifest() {
    let manifest = AbsoluteUrl::parse("http://origin/dir/m.mpd").unwrap();
    assert!(matches!(classify_link(&None, &manifest).unwrap(), LinkTarget::Inline));
    assert!(matches!(
        classify_link(&Some(String::new()), &manifest).unwrap(),
        LinkTarget::Absent
    ));
    assert!(matches!(
        classify_link(&Some("urn:mpeg:dash:resolve-to-zero:2013".to_string()), &manifest).unwrap(),
        LinkTarget::Absent
    ));
    match classify_link(&Some("sub/p.xml".to_string()), &manifest).unwrap() {
        LinkTarget::Remote(url) => assert_eq!(url.as_str(), "http://origin/dir/sub/p.xml"),
        _ => panic!("a remote document was expected"),
    }
    match classify_link(&Some("https://far/p.xml".to_string()), &manifest).unwrap() {
        LinkTarget::Remote(url) => assert_eq!(url.as_str(), "https://far/p.xml"),
        _ => panic!("a remote document was expected"),
    }
    assert_eq!(
        classify_link(&Some("https://[".to_string()), &manifest).unwrap_err().kind(),
        ErrorKind::Parsing
    );
}

#[test]
fn store_gives_the_first_document_of_the_kind_asked_for() {
    let entry = |url: &str, node: XlinkNode| XlinkEntry { url: url.to_string(), node };
    let period = |ns: u64| {
        XlinkNode::Period(dash_mpd::mpd::Period { duration: Some(ns), ..Default::default() })
    };
    let store = vec![
        entry("http://a/1", XlinkNode::Representation(Default::default())),
        entry("http://a/2", period(2)),
        entry("http://a/1", period(1)),
        entry("http://a/1", period(3)),
    ];
    match find_node(&store, "http://a/1", XlinkLevel::Period) {
        Some(XlinkNode::Period(p)) => assert_eq!(p.duration, Some(1)),
        _ => panic!("a period was expected"),
    }
    assert!(matches!(
        find_node(&store, "http://a/1", XlinkLevel::Representation),
        Some(XlinkNode::Representation(_))
    ));
    assert!(find_node(&store, "http://a/1", XlinkLevel::AdaptationSet).is_none());
    assert!(find_node(&store, "http://a/3", XlinkLevel::Period).is_none());
    assert_eq!(store[1].node.level(), XlinkLevel::Period);
}
