use revproxy::config::{Config, IpLit};
use revproxy::headers::Headers;
use revproxy::proxy::{HeaderRewriteResult, ProxyCore};

fn make_core(host: &str) -> ProxyCore {
    let cfg = Config::load(8000, "10.0.0.5", 6677, host, "127.0.0.1").unwrap();
    ProxyCore::new(cfg)
}

#[test]
fn upstream_is_the_configured_backend_plaintext() {
    let px = make_core("b.test");
    let ctx = px.new_ctx();
    let t = px.select_upstream(&ctx);
    assert!(matches!(t.ip, IpLit::V4 { a: 10, b: 0, c: 0, d: 5 }));
    assert_eq!(t.port, 6677);
    assert!(!t.use_tls);
    assert_eq!(t.sni, "b.test");
}

#[test]
fn host_and_xff_forced_when_present() {
    let px = make_core("b.test");
    let ctx = px.new_ctx();
    let mut h = Headers::new();
    h.push("Host", "proxy.local:8000");
    h.push("X-Forwarded-For", "203.0.113.9");
    h.push("Accept", "*/*");
    px.filter_request_headers(&mut h, &ctx);
    assert_eq!(h.get("Host"), Some("b.test".to_string()));
    assert_eq!(h.get("X-Forwarded-For"), Some("127.0.0.1".to_string()));
    assert_eq!(h.get("Accept"), Some("*/*".to_string()));
}

#[test]
fn host_and_xff_added_when_absent() {
    let px = make_core("b.test");
    let ctx = px.new_ctx();
    let mut h = Headers::new();
    px.filter_request_headers(&mut h, &ctx);
    // lookup is case-insensitive, as header lookup is
    assert_eq!(h.get("host"), Some("b.test".to_string()));
    assert_eq!(h.get("x-forwarded-for"), Some("127.0.0.1".to_string()));
    assert_eq!(h.len(), 2);
}

#[test]
fn referer_and_origin_rewritten() {
    let px = make_core("b.test");
    let ctx = px.new_ctx();
    let mut h = Headers::new();
    h.push("Referer", "https://a.example.com/p?q=1");
    h.push("Origin", "https://a.example.com");
    let report = px.filter_request_headers(&mut h, &ctx);
    assert_eq!(h.get("Referer"), Some("https://b.test/p?q=1".to_string()));
    assert_eq!(h.get("Origin"), Some("https://b.test".to_string()));
    assert!(matches!(report.referer, HeaderRewriteResult::Replace(v) if v == "https://b.test/p?q=1"));
    assert!(matches!(report.origin, HeaderRewriteResult::Replace(v) if v == "https://b.test"));
}

#[test]
fn absent_rewritable_headers_left_alone() {
    let px = make_core("b.test");
    let ctx = px.new_ctx();
    let mut h = Headers::new();
    let report = px.filter_request_headers(&mut h, &ctx);
    assert!(matches!(report.referer, HeaderRewriteResult::NoChange));
    assert!(matches!(report.origin, HeaderRewriteResult::NoChange));
    assert_eq!(h.get("Referer"), None);
    assert_eq!(h.get("Origin"), None);
}

#[test]
fn illegal_rewritten_value_removes_header() {
    // a virtual host holding a control character makes the rewritten
    // value illegal as a header value: the header is removed and the
    // rejected value is reported for the diagnostic
    let px = make_core("b\u{7f}test");
    let ctx = px.new_ctx();
    let mut h = Headers::new();
    h.push("Referer", "https://a.example.com/p");
    let report = px.filter_request_headers(&mut h, &ctx);
    assert_eq!(h.get("Referer"), None);
    assert!(matches!(report.referer, HeaderRewriteResult::Remove(v) if v == "https://b\u{7f}test/p"));
}

#[test]
fn duplicate_inbound_headers_collapse_on_set() {
    let px = make_core("b.test");
    let ctx = px.new_ctx();
    let mut h = Headers::new();
    h.push("Host", "one.example");
    h.push("hOsT", "two.example");
    px.filter_request_headers(&mut h, &ctx);
    assert_eq!(h.get("Host"), Some("b.test".to_string()));
    assert_eq!(h.get("HOST"), Some("b.test".to_string()));
    // no second entry under the name survives
    let mut host_entries = 0;
    for i in 0..h.len() {
        let (name, _) = h.entry_at(i);
        if name.eq_ignore_ascii_case("Host") {
            host_entries += 1;
        }
    }
    assert_eq!(host_entries, 1);
}

#[test]
fn rewrite_header_outcome_matches_filter() {
    let px = make_core("b.test");
    let original = "https://a.example.com/z".to_string();
    let r = px.rewrite_header(Some(&original));
    assert!(matches!(r, HeaderRewriteResult::Replace(v) if v == "https://b.test/z"));
    assert!(matches!(px.rewrite_header(None), HeaderRewriteResult::NoChange));
}

#[test]
fn many_requests_rewrite_independently() {
    // the core holds no mutable state: each request's headers come out
    // correct whatever was filtered before it
    let px = make_core("b.test");
    let ctx = px.new_ctx();
    for i in 0..100 {
        let path = format!("/req/{}", i);
        let mut h = Headers::new();
        h.push("Referer", &format!("https://client-{}.example.com{}?n={}", i, path, i));
        h.push("X-Forwarded-For", &format!("198.51.100.{}", i));
        px.filter_request_headers(&mut h, &ctx);
        assert_eq!(h.get("Host"), Some("b.test".to_string()));
        assert_eq!(h.get("X-Forwarded-For"), Some("127.0.0.1".to_string()));
        assert_eq!(
            h.get("Referer"),
            Some(format!("https://b.test{}?n={}", path, i))
        );
    }
}
