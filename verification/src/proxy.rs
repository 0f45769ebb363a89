//! The per-request callbacks of the proxy core.
//!
//! The transport engine invokes, for each request: a context factory, a
//! peer selector, an outbound request-header filter, and a completion
//! hook.  All of them are pure decisions over the immutable
//! configuration and the per-request data the engine hands over, so
//! concurrent in-flight requests share nothing mutable.

use vstd::prelude::*;
use crate::config::{Config, IpLit};
use crate::headers::{
    Headers, get_header_spec, set_header_spec, remove_header_spec, valid_header_value,
    valid_header_value_exec, names_eq, lemma_get_set, lemma_get_remove,
};
use crate::rewrite::{rewritten, rewrite_url};
use crate::logger::{log_line, log_line_spec, status_code_spec};

verus! {

/// Per-request state.  The filter is stateless, so nothing is stored
/// here; the slot is reserved for future per-request data.
pub struct RequestContext {}

/// The descriptor of the one upstream the engine dials or reuses:
/// address, plaintext flag, and the virtual host presented as the
/// connection-identity hint.
pub struct UpstreamTarget {
    pub ip: IpLit,
    pub port: u16,
    pub use_tls: bool,
    pub sni: String,
}

/// What became of one rewritable header: replaced by the rewritten
/// value, left untouched (it was absent), or removed because the
/// rewritten value (carried for diagnostics) cannot legally stand as a
/// header value.
pub enum HeaderRewriteResult {
    Replace(String),
    NoChange,
    Remove(String),
}

/// The outcomes for the two rewritable headers of one request, for the
/// caller to log.
pub struct FilterReport {
    pub referer: HeaderRewriteResult,
    pub origin: HeaderRewriteResult,
}

/// What the filter does to one rewritable header `name`: nothing when
/// absent; otherwise its value `v` is rewritten, and the rewrite either
/// replaces it or — when it cannot legally stand as a header value —
/// removes the header.
pub open spec fn apply_rewrite_spec(
    hs: Seq<(Seq<char>, Seq<char>)>,
    name: Seq<char>,
    host: Seq<char>,
) -> Seq<(Seq<char>, Seq<char>)> {
    match get_header_spec(hs, name) {
        None => hs,
        Some(v) => {
            let c = rewritten(v, host);
            if valid_header_value(c) {
                set_header_spec(hs, name, c)
            } else {
                remove_header_spec(hs, name)
            }
        },
    }
}

/// Whether `r` reports the rewrite outcome for an original header value
/// `orig` under virtual host `host`.
pub open spec fn outcome_ok(
    orig: Option<Seq<char>>,
    host: Seq<char>,
    r: HeaderRewriteResult,
) -> bool {
    match orig {
        None => r is NoChange,
        Some(v) => {
            let c = rewritten(v, host);
            if valid_header_value(c) {
                r matches HeaderRewriteResult::Replace(s) && s@ == c
            } else {
                r matches HeaderRewriteResult::Remove(s) && s@ == c
            }
        },
    }
}

/// The outbound header set after the whole filter: Host forced to the
/// virtual host, X-Forwarded-For forced to the configured client IP,
/// then Referer and Origin rewritten.
pub open spec fn filter_spec(
    hs: Seq<(Seq<char>, Seq<char>)>,
    host: Seq<char>,
    xff: Seq<char>,
) -> Seq<(Seq<char>, Seq<char>)> {
    let h1 = set_header_spec(hs, "Host"@, host);
    let h2 = set_header_spec(h1, "X-Forwarded-For"@, xff);
    let h3 = apply_rewrite_spec(h2, "Referer"@, host);
    apply_rewrite_spec(h3, "Origin"@, host)
}

/// The proxy core: the four per-request callbacks over an immutable
/// configuration.
pub struct ProxyCore {
    pub config: Config,
}

/// A copy of an IP literal.
fn clone_ip(ip: &IpLit) -> (r: IpLit)
    ensures
        r == *ip,
{
    match ip {
        IpLit::V4 { a, b, c, d } => IpLit::V4 { a: *a, b: *b, c: *c, d: *d },
        IpLit::V6 { g0, g1, g2, g3, g4, g5, g6, g7 } => IpLit::V6 {
            g0: *g0,
            g1: *g1,
            g2: *g2,
            g3: *g3,
            g4: *g4,
            g5: *g5,
            g6: *g6,
            g7: *g7,
        },
    }
}

impl ProxyCore {
    /// A core over a validated configuration.
    pub fn new(config: Config) -> (r: ProxyCore)
        ensures
            r.config == config,
    {
        ProxyCore { config }
    }

    /// A fresh per-request context.  The core stores nothing in it.
    pub fn new_ctx(&self) -> RequestContext {
        RequestContext {  }
    }

    /// Selects the upstream: always the single configured backend, over
    /// a plaintext connection, with the virtual host as the identity
    /// hint.  Never fails and performs no I/O.
    pub fn select_upstream(&self, _ctx: &RequestContext) -> (r: UpstreamTarget)
        ensures
            r.ip == self.config.upstream_ip,
            r.port == self.config.upstream_port,
            !r.use_tls,
            r.sni@ == self.config.virtual_host@,
    {
        UpstreamTarget {
            ip: clone_ip(&self.config.upstream_ip),
            port: self.config.upstream_port,
            use_tls: false,
            sni: self.config.virtual_host.clone(),
        }
    }

    /// Computes the rewrite outcome for one rewritable header value:
    /// the replacement, or removal when the rewritten value cannot
    /// legally stand as a header value.
    pub fn rewrite_header(&self, original: Option<&String>) -> (r: HeaderRewriteResult)
        ensures
            outcome_ok(
                (match original {
                    Some(v) => Some(v@),
                    None => None,
                }),
                self.config.virtual_host@,
                r,
            ),
    {
        match original {
            None => HeaderRewriteResult::NoChange,
            Some(v) => {
                let candidate = rewrite_url(v.as_str(), self.config.virtual_host.as_str());
                if valid_header_value_exec(candidate.as_str()) {
                    HeaderRewriteResult::Replace(candidate)
                } else {
                    HeaderRewriteResult::Remove(candidate)
                }
            },
        }
    }

    /// Applies the rewrite outcome for header `name` to the header set.
    fn apply_rewrite(&self, h: &mut Headers, name: &str) -> (r: HeaderRewriteResult)
        ensures
            final(h)@ == apply_rewrite_spec(old(h)@, name@, self.config.virtual_host@),
            outcome_ok(
                get_header_spec(old(h)@, name@),
                self.config.virtual_host@,
                r,
            ),
    {
        match h.get(name) {
            None => HeaderRewriteResult::NoChange,
            Some(v) => {
                let candidate = rewrite_url(v.as_str(), self.config.virtual_host.as_str());
                if valid_header_value_exec(candidate.as_str()) {
                    h.set(name, candidate.as_str());
                    HeaderRewriteResult::Replace(candidate)
                } else {
                    h.remove(name);
                    HeaderRewriteResult::Remove(candidate)
                }
            },
        }
    }

    /// The outbound header filter: forces Host and X-Forwarded-For to
    /// the configured values (overwriting whatever the client sent) and
    /// rewrites Referer and Origin when present.  Header-rewrite
    /// trouble is never fatal: the report says what happened, for the
    /// caller to log, and the request proceeds.
    pub fn filter_request_headers(&self, h: &mut Headers, _ctx: &RequestContext) -> (r:
        FilterReport)
        ensures
            final(h)@ == filter_spec(
                old(h)@,
                self.config.virtual_host@,
                self.config.spoofed_client_ip@,
            ),
            outcome_ok(
                get_header_spec(old(h)@, "Referer"@),
                self.config.virtual_host@,
                r.referer,
            ),
            outcome_ok(
                get_header_spec(old(h)@, "Origin"@),
                self.config.virtual_host@,
                r.origin,
            ),
    {
        proof {
            reveal_strlit("Host");
            reveal_strlit("X-Forwarded-For");
            reveal_strlit("Referer");
            reveal_strlit("Origin");
        }
        let ghost hs0 = h@;
        let ghost hostv = self.config.virtual_host@;
        let ghost xffv = self.config.spoofed_client_ip@;
        h.set("Host", self.config.virtual_host.as_str());
        h.set("X-Forwarded-For", self.config.spoofed_client_ip.as_str());
        proof {
            lemma_distinct_names();
            lemma_get_set(hs0, "Host"@, hostv, "Referer"@);
            lemma_get_set(set_header_spec(hs0, "Host"@, hostv), "X-Forwarded-For"@, xffv,
                "Referer"@);
            lemma_get_set(hs0, "Host"@, hostv, "Origin"@);
            lemma_get_set(set_header_spec(hs0, "Host"@, hostv), "X-Forwarded-For"@, xffv,
                "Origin"@);
        }
        let ghost h2 = h@;
        let referer = self.apply_rewrite(h, "Referer");
        proof {
            lemma_get_apply_rewrite(h2, "Referer"@, hostv, "Origin"@);
        }
        let origin = self.apply_rewrite(h, "Origin");
        FilterReport { referer, origin }
    }

    /// The completion hook: builds the one log line of a completed
    /// request — method, final status code (0 when no response was ever
    /// produced), and URI.  Total: it never fails, whatever the request
    /// came to.
    pub fn on_complete(&self, method: &str, status: Option<u16>, uri: &str, _ctx: &RequestContext)
        -> (r: String)
        ensures
            r@ == log_line_spec(method@, status_code_spec(status), uri@),
    {
        log_line(method, status, uri)
    }
}

/// The four header names the filter touches are pairwise distinct.
proof fn lemma_distinct_names()
    ensures
        !names_eq("Host"@, "X-Forwarded-For"@),
        !names_eq("Host"@, "Referer"@),
        !names_eq("Host"@, "Origin"@),
        !names_eq("X-Forwarded-For"@, "Referer"@),
        !names_eq("X-Forwarded-For"@, "Origin"@),
        !names_eq("Referer"@, "Origin"@),
{
    reveal_strlit("Host");
    reveal_strlit("X-Forwarded-For");
    reveal_strlit("Referer");
    reveal_strlit("Origin");
    // the four names have pairwise different lengths, and name equality
    // keeps length
    assert("Host"@.map_values(|c: char| crate::headers::lower_char(c)).len() == 4);
    assert("X-Forwarded-For"@.map_values(|c: char| crate::headers::lower_char(c)).len() == 15);
    assert("Referer"@.map_values(|c: char| crate::headers::lower_char(c)).len() == 7);
    assert("Origin"@.map_values(|c: char| crate::headers::lower_char(c)).len() == 6);
}

/// Rewriting header `name` leaves every other header name untouched.
proof fn lemma_get_apply_rewrite(
    hs: Seq<(Seq<char>, Seq<char>)>,
    name: Seq<char>,
    host: Seq<char>,
    m: Seq<char>,
)
    requires
        !names_eq(name, m),
    ensures
        get_header_spec(apply_rewrite_spec(hs, name, host), m) == get_header_spec(hs, m),
{
    match get_header_spec(hs, name) {
        None => {},
        Some(v) => {
            let c = rewritten(v, host);
            if valid_header_value(c) {
                lemma_get_set(hs, name, c, m);
            } else {
                lemma_get_remove(hs, name, m);
            }
        },
    }
}

/// The filter touches only the four headers it is about: any other
/// header name comes through it unchanged.
pub proof fn lemma_filter_leaves_other_headers(
    hs: Seq<(Seq<char>, Seq<char>)>,
    host: Seq<char>,
    xff: Seq<char>,
    m: Seq<char>,
)
    requires
        !names_eq("Host"@, m),
        !names_eq("X-Forwarded-For"@, m),
        !names_eq("Referer"@, m),
        !names_eq("Origin"@, m),
    ensures
        get_header_spec(filter_spec(hs, host, xff), m) == get_header_spec(hs, m),
{
    let h1 = set_header_spec(hs, "Host"@, host);
    let h2 = set_header_spec(h1, "X-Forwarded-For"@, xff);
    let h3 = apply_rewrite_spec(h2, "Referer"@, host);
    lemma_get_set(hs, "Host"@, host, m);
    lemma_get_set(h1, "X-Forwarded-For"@, xff, m);
    lemma_get_apply_rewrite(h2, "Referer"@, host, m);
    lemma_get_apply_rewrite(h3, "Origin"@, host, m);
}

/// Whatever the inbound request held, the filtered header set carries
/// Host and X-Forwarded-For, each equal to its configured value.
pub proof fn lemma_filter_forces_host_and_xff(
    hs: Seq<(Seq<char>, Seq<char>)>,
    host: Seq<char>,
    xff: Seq<char>,
)
    ensures
        get_header_spec(filter_spec(hs, host, xff), "Host"@) == Some(host),
        get_header_spec(filter_spec(hs, host, xff), "X-Forwarded-For"@) == Some(xff),
{
    lemma_distinct_names();
    let h1 = set_header_spec(hs, "Host"@, host);
    let h2 = set_header_spec(h1, "X-Forwarded-For"@, xff);
    let h3 = apply_rewrite_spec(h2, "Referer"@, host);
    lemma_get_set(hs, "Host"@, host, "Host"@);
    lemma_get_set(h1, "X-Forwarded-For"@, xff, "Host"@);
    lemma_get_set(h1, "X-Forwarded-For"@, xff, "X-Forwarded-For"@);
    lemma_get_apply_rewrite(h2, "Referer"@, host, "Host"@);
    lemma_get_apply_rewrite(h2, "Referer"@, host, "X-Forwarded-For"@);
    lemma_get_apply_rewrite(h3, "Origin"@, host, "Host"@);
    lemma_get_apply_rewrite(h3, "Origin"@, host, "X-Forwarded-For"@);
}

} // verus!
