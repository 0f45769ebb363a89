use revproxy::config::Config;
use revproxy::logger::{dec_string, log_line};
use revproxy::proxy::ProxyCore;

#[test]
fn decimal_rendering() {
    assert_eq!(dec_string(0), "0");
    assert_eq!(dec_string(7), "7");
    assert_eq!(dec_string(200), "200");
    assert_eq!(dec_string(404), "404");
    assert_eq!(dec_string(65535), "65535");
}

#[test]
fn log_line_with_response() {
    assert_eq!(log_line("GET", Some(200), "/index.html"), "GET 200 /index.html");
    assert_eq!(log_line("POST", Some(502), "/api?x=1"), "POST 502 /api?x=1");
}

#[test]
fn log_line_without_response_records_zero() {
    // a request whose upstream never answered still yields its one log
    // line, with status 0
    assert_eq!(log_line("GET", None, "/down"), "GET 0 /down");
}

#[test]
fn completion_hook_builds_the_line() {
    let cfg = Config::load(8000, "10.0.0.5", 6677, "b.test", "127.0.0.1").unwrap();
    let core = ProxyCore::new(cfg);
    let ctx = core.new_ctx();
    assert_eq!(core.on_complete("HEAD", Some(304), "/x", &ctx), "HEAD 304 /x");
    assert_eq!(core.on_complete("GET", None, "/y", &ctx), "GET 0 /y");
}
