use revproxy::rewrite::rewrite_url;

#[test]
fn no_path_no_trailing_slash() {
    let r = rewrite_url("https://a.example.com", "b.test");
    assert_eq!(r, "https://b.test");
}

#[test]
fn path_query_fragment_kept() {
    let r = rewrite_url("https://a.example.com/p?q=1#f", "b.test");
    assert_eq!(r, "https://b.test/p?q=1#f");
}

#[test]
fn malformed_value_degenerates_to_no_path() {
    let r = rewrite_url("not-a-url", "b.test");
    assert_eq!(r, "https://b.test");
}

#[test]
fn rewriting_twice_is_well_defined() {
    let once = rewrite_url("https://a.example.com/p?q=1", "b.test");
    assert_eq!(once, "https://b.test/p?q=1");
    let twice = rewrite_url(&once, "b.test");
    assert_eq!(twice, "https://b.test/p?q=1");
}

#[test]
fn rewriting_twice_need_not_be_a_no_op() {
    // with a virtual host that itself holds a slash, the second rewrite
    // counts that slash too: well defined, but not idempotent
    let once = rewrite_url("not-a-url", "b.test/sub");
    assert_eq!(once, "https://b.test/sub");
    let twice = rewrite_url(&once, "b.test/sub");
    assert_eq!(twice, "https://b.test/sub/sub");
}

#[test]
fn authority_with_port_is_replaced() {
    let r = rewrite_url("http://old.host:8080/a/b?x=1#f", "b.test");
    assert_eq!(r, "https://b.test/a/b?x=1#f");
}

#[test]
fn root_path_kept() {
    let r = rewrite_url("https://old.host/", "b.test");
    assert_eq!(r, "https://b.test/");
}

#[test]
fn slashes_outside_url_shape_still_counted() {
    // the heuristic counts slashes, it does not parse; the third slash
    // starts the kept suffix
    let r = rewrite_url("a/b/c/d", "b.test");
    assert_eq!(r, "https://b.test/d");
}

#[test]
fn two_slashes_only_gives_no_suffix() {
    let r = rewrite_url("https://x", "b.test");
    assert_eq!(r, "https://b.test");
}
