//! TLS HTTPS edge.
//!
//! Validates SNI and Host, serves root welcome pages and health checks, accepts
//! WebSocket upgrades of the tunnel client on `GET /_weaver/connect`, has
//! visitor requests forwarded to registered tunnels, and returns branded 404s.
use super::host::{request_host, RequestParts};
use super::waf;
use crate::assets::{
    apply_security_headers, header_fields, insert_header, insert_text, no_headers, secured,
    with_field,
};
use crate::cert::resolver::CertResolver;
use crate::net;
use crate::text;
use crate::tunnel::registry::TunnelRegistry;
use http::{HeaderMap, HeaderValue};
use vstd::prelude::*;

verus! {

/// The WebSocket protocol of tunnel clients.
pub const TUNNEL_PROTOCOL: &'static str = "weaver-mux-v1";

/// Where tunnel clients connect, on the root domain.
pub const CONNECT_PATH: &'static str = "/_weaver/connect";

/// Shared state for HTTPS request dispatch.
pub struct HttpsEdgeConfig<'a, K, C> {
    /// Configured root domain (e.g. "example.com").
    pub root_domain: &'a str,
    /// Certificate resolver used to determine if a certificate is a placeholder.
    pub cert_resolver: Option<&'a CertResolver<K>>,
    /// Active tunnel registry for routing subdomain requests and handling
    /// connection upgrades.
    pub tunnel_registry: Option<&'a TunnelRegistry<C>>,
}

/// What of a request decides how it is answered.
pub struct EdgeRequest {
    pub method: String,
    /// The request carries a `:protocol` pseudo-header (RFC 8441).
    pub extended_connect: bool,
    /// What says which host the request is for.
    pub parts: RequestParts,
    /// The path of the request target.
    pub path: String,
    /// The path and query of the request target, or its path alone.
    pub target: String,
    /// The first `Sec-WebSocket-Protocol` header, where it is visible ASCII.
    pub websocket_protocol: Option<String>,
    /// The first `Sec-WebSocket-Key` header, where it is visible ASCII.
    pub websocket_key: Option<String>,
}

/// The body of an answer.
#[derive(Debug)]
pub enum Page {
    /// Nothing.
    Empty,
    /// The text as it is.
    Plain(&'static str),
    /// The welcome page of the root domain.
    Welcome,
    /// The page for a subdomain without a tunnel.
    NoTunnel,
    /// The page for a request that a firewall rule blocked.
    Forbidden(&'static str),
    /// The page for a host whose tunnel failed.
    BadGateway(String),
}

/// The body of an answer, with its texts.
pub enum PageFacts {
    Empty,
    Plain(Seq<char>),
    Welcome,
    NoTunnel,
    Forbidden { rule: Seq<char> },
    BadGateway { host: Seq<char> },
}

impl View for Page {
    type V = PageFacts;

    open spec fn view(&self) -> PageFacts {
        match *self {
            Page::Empty => PageFacts::Empty,
            Page::Plain(s) => PageFacts::Plain(s@),
            Page::Welcome => PageFacts::Welcome,
            Page::NoTunnel => PageFacts::NoTunnel,
            Page::Forbidden(rule) => PageFacts::Forbidden { rule: rule@ },
            Page::BadGateway(host) => PageFacts::BadGateway { host: host@ },
        }
    }
}

/// An answer of the edge itself.
pub struct EdgeResponse {
    /// The status code.
    pub status: u16,
    /// The headers.
    pub headers: HeaderMap<HeaderValue>,
    /// The body.
    pub page: Page,
}

/// An answer: its status, the values of each header, and its body.
pub struct AnswerFacts {
    pub status: u16,
    pub fields: Map<Seq<char>, Seq<Seq<u8>>>,
    pub page: PageFacts,
}

impl View for EdgeResponse {
    type V = AnswerFacts;

    open spec fn view(&self) -> AnswerFacts {
        AnswerFacts { status: self.status, fields: header_fields(self.headers), page: self.page@ }
    }
}

impl AnswerFacts {
    /// The answer with the security headers.
    pub open spec fn secure(self, include_hsts: bool) -> Self {
        AnswerFacts { fields: secured(self.fields, include_hsts), ..self }
    }

    /// The answer with a header.
    pub open spec fn with(self, name: Seq<char>, value: Seq<char>) -> Self {
        AnswerFacts { fields: with_field(self.fields, name, value), ..self }
    }
}

/// An answer without headers.
pub open spec fn bare(status: u16, page: PageFacts) -> AnswerFacts {
    AnswerFacts { status, fields: Map::empty(), page }
}

/// How a request is dealt with.
pub enum EdgeStep {
    /// It is answered here.
    Answer(EdgeResponse),
    /// It is answered here, and the connection becomes a tunnel client's.
    Upgrade(EdgeResponse),
    /// It is forwarded through the tunnel that is registered for the hostname.
    Forward {
        /// The host as the request names it.
        host: String,
        /// The host in lower case.
        hostname: String,
        /// The response gets the HSTS header.
        include_hsts: bool,
    },
}

/// How a request is dealt with.
pub enum StepFacts {
    Answer { answer: AnswerFacts },
    Upgrade { accepted: AnswerFacts },
    Forward { host: Seq<char>, hostname: Seq<char>, include_hsts: bool },
}

impl View for EdgeStep {
    type V = StepFacts;

    open spec fn view(&self) -> StepFacts {
        match *self {
            EdgeStep::Answer(r) => StepFacts::Answer { answer: r@ },
            EdgeStep::Upgrade(r) => StepFacts::Upgrade { accepted: r@ },
            EdgeStep::Forward { host, hostname, include_hsts } => StepFacts::Forward {
                host: host@,
                hostname: hostname@,
                include_hsts,
            },
        }
    }
}

/// The text between square brackets, or the text.
pub open spec fn unbracketed(host: Seq<char>) -> Seq<char> {
    if host.len() >= 2 && host[0] == '[' && host.last() == ']' {
        host.subrange(1, host.len() - 1)
    } else {
        host
    }
}

/// Determines whether a host string is an IPv4 or IPv6 address literal.
pub fn is_ip_literal(host: &str) -> (r: bool)
    ensures
        r == net::is_ip_text(unbracketed(host@)),
{
    let v = text::chars_of(host);
    let n: usize = v.len();
    if n >= 2 && v[0] == '[' && v[n - 1] == ']' {
        net::is_ip(host.substring_char(1, n - 1))
    } else {
        net::is_ip(host)
    }
}

/// What `derive_accept_key` of `tungstenite::handshake` returns for a key.
pub uninterp spec fn accept_key(key: Seq<u8>) -> Seq<char>;

/// Calls `derive_accept_key` of `tungstenite::handshake`: the base64 text of a
/// digest over the key, which is visible ASCII.
#[verifier::external_body]
fn derive_accept_key(key: &str) -> (r: String)
    ensures
        r@ == accept_key(vstd::utf8::encode_utf8(key@)),
        crate::assets::is_plain_value(r@),
{
    tokio_tungstenite::tungstenite::handshake::derive_accept_key(key.as_bytes())
}

/// The hostname is a subdomain of the root domain.
pub open spec fn is_under(hostname: Seq<char>, root: Seq<char>) -> bool {
    ("."@ + root).is_suffix_of(hostname) && hostname.len() > root.len() + 1
}

/// The answer to a plain CONNECT.
pub open spec fn connect_refused() -> AnswerFacts {
    bare(
        405,
        PageFacts::Plain("405 Method Not Allowed: CONNECT is not supported\n"@),
    ).with("allow"@, "GET, POST, PUT, PATCH, DELETE, HEAD, OPTIONS"@).secure(false)
}

/// The answer to a request without a usable host.
pub open spec fn host_refused() -> AnswerFacts {
    bare(400, PageFacts::Plain("400 Bad Request: invalid Host\n"@)).with("connection"@, "close"@)
}

/// The answer to a request that is for another server.
pub open spec fn misdirected() -> AnswerFacts {
    bare(421, PageFacts::Plain("421 Misdirected Request\n"@))
}

/// The answer to a request that a firewall rule blocks.
pub open spec fn blocked(rule: Seq<char>, include_hsts: bool) -> AnswerFacts {
    bare(403, PageFacts::Forbidden { rule }).with("x-weaver-blocked"@, rule).secure(include_hsts)
}

/// The answer where the tunnel failed.
pub open spec fn gateway_failed(hostname: Seq<char>, include_hsts: bool) -> AnswerFacts {
    bare(502, PageFacts::BadGateway { host: hostname }).secure(include_hsts)
}

/// The answer that makes a connection a tunnel client's.
pub open spec fn tunnel_accepted(key: Seq<char>, include_hsts: bool) -> AnswerFacts {
    bare(101, PageFacts::Empty).with("connection"@, "Upgrade"@).with(
        "upgrade"@,
        "websocket"@,
    ).with("sec-websocket-accept"@, accept_key(vstd::utf8::encode_utf8(key))).with(
        "sec-websocket-protocol"@,
        TUNNEL_PROTOCOL@,
    ).secure(include_hsts)
}

/// How a request to the root domain is dealt with.
pub open spec fn root_step(req: EdgeRequest, include_hsts: bool) -> StepFacts {
    let plain = |status: u16, body: Seq<char>|
        StepFacts::Answer { answer: bare(status, PageFacts::Plain(body)).secure(include_hsts) };
    if req.path@ == CONNECT_PATH@ {
        if req.method@ != "GET"@ {
            plain(405, "405 Method Not Allowed\n"@)
        } else if text::opt(req.websocket_protocol) != Some(TUNNEL_PROTOCOL@) {
            plain(400, "400 Bad Request: Sec-WebSocket-Protocol must be weaver-mux-v1\n"@)
        } else {
            match text::opt(req.websocket_key) {
                None => plain(400, "400 Bad Request: Missing Sec-WebSocket-Key\n"@),
                Some(key) => StepFacts::Upgrade { accepted: tunnel_accepted(key, include_hsts) },
            }
        }
    } else if req.method@ == "GET"@ && req.path@ == "/"@ {
        StepFacts::Answer { answer: bare(200, PageFacts::Welcome).secure(include_hsts) }
    } else if req.method@ == "GET"@ && req.path@ == "/healthz"@ {
        StepFacts::Answer {
            answer: bare(200, PageFacts::Plain("ok\n"@)).with(
                "content-type"@,
                "text/plain; charset=utf-8"@,
            ).secure(include_hsts),
        }
    } else {
        plain(404, "404 Not Found\n"@)
    }
}

/// How a request to a subdomain is dealt with.
pub open spec fn subdomain_step(
    req: EdgeRequest,
    host: Seq<char>,
    include_hsts: bool,
    served: bool,
) -> StepFacts {
    match waf::verdict(req.method@, req.target@) {
        Some(v) => StepFacts::Answer { answer: blocked(v.token(), include_hsts) },
        None => if served {
            StepFacts::Forward { host, hostname: text::lower(host), include_hsts }
        } else {
            StepFacts::Answer { answer: bare(404, PageFacts::NoTunnel).secure(include_hsts) }
        },
    }
}

/// How a request is dealt with, where `trusted` says of a host whether it has a
/// valid certificate and `served` of a hostname whether it has a tunnel.
pub open spec fn edge_step(
    req: EdgeRequest,
    root: Seq<char>,
    sni: Option<Seq<char>>,
    trusted: spec_fn(Seq<char>) -> bool,
    served: spec_fn(Seq<char>) -> bool,
) -> StepFacts {
    if req.method@ == "CONNECT"@ && !req.extended_connect {
        StepFacts::Answer { answer: connect_refused() }
    } else {
        match req.parts.host() {
            Err(_) => StepFacts::Answer { answer: host_refused() },
            Ok(host) => {
                let hostname = text::lower(host);
                if net::is_ip_text(unbracketed(host)) || sni is None || text::lower(sni->0)
                    != hostname {
                    StepFacts::Answer { answer: misdirected() }
                } else if hostname == text::lower(root) {
                    root_step(req, trusted(host))
                } else if is_under(hostname, text::lower(root)) {
                    subdomain_step(req, host, trusted(host), served(hostname))
                } else {
                    StepFacts::Answer { answer: misdirected() }
                }
            },
        }
    }
}

impl<'a, K, C> HttpsEdgeConfig<'a, K, C> {
    /// The resolver and the registry are in order.
    pub open spec fn wf(&self) -> bool {
        &&& self.cert_resolver matches Some(r) ==> r.wf()
        &&& self.tunnel_registry matches Some(r) ==> r.wf()
    }

    /// A host has a valid certificate.
    pub open spec fn trusted(&self, now: i64) -> spec_fn(Seq<char>) -> bool {
        |host: Seq<char>|
            match self.cert_resolver {
                Some(r) => r.valid_for(host, now) is Some,
                None => false,
            }
    }

    /// A hostname has a tunnel.
    pub open spec fn served(&self) -> spec_fn(Seq<char>) -> bool {
        |hostname: Seq<char>|
            match self.tunnel_registry {
                Some(r) => r@.routes.contains_key(text::lower(hostname)),
                None => false,
            }
    }
}

fn bare_answer(status: u16, page: Page) -> (r: EdgeResponse)
    ensures
        r@ == bare(status, page@),
{
    EdgeResponse { status, headers: no_headers(), page }
}

fn secure_answer(status: u16, page: Page, include_hsts: bool) -> (r: EdgeResponse)
    ensures
        r@ == bare(status, page@).secure(include_hsts),
{
    let mut headers = no_headers();
    apply_security_headers(&mut headers, include_hsts);
    EdgeResponse { status, headers, page }
}

fn plain_step(status: u16, body: &'static str, include_hsts: bool) -> (r: EdgeStep)
    ensures
        r@ == (StepFacts::Answer {
            answer: bare(status, PageFacts::Plain(body@)).secure(include_hsts),
        }),
{
    EdgeStep::Answer(secure_answer(status, Page::Plain(body), include_hsts))
}

fn refuse_connect() -> (r: EdgeResponse)
    ensures
        r@ == connect_refused(),
{
    proof {
        reveal_strlit("allow");
        reveal_strlit("GET, POST, PUT, PATCH, DELETE, HEAD, OPTIONS");
    }
    let mut headers = no_headers();
    insert_header(&mut headers, "allow", "GET, POST, PUT, PATCH, DELETE, HEAD, OPTIONS");
    apply_security_headers(&mut headers, false);
    EdgeResponse {
        status: 405,
        headers,
        page: Page::Plain("405 Method Not Allowed: CONNECT is not supported\n"),
    }
}

fn refuse_host() -> (r: EdgeResponse)
    ensures
        r@ == host_refused(),
{
    proof {
        reveal_strlit("connection");
        reveal_strlit("close");
    }
    let mut headers = no_headers();
    insert_header(&mut headers, "connection", "close");
    EdgeResponse { status: 400, headers, page: Page::Plain("400 Bad Request: invalid Host\n") }
}

fn misdirect() -> (r: EdgeStep)
    ensures
        r@ == (StepFacts::Answer { answer: misdirected() }),
{
    EdgeStep::Answer(bare_answer(421, Page::Plain("421 Misdirected Request\n")))
}

fn healthy(include_hsts: bool) -> (r: EdgeResponse)
    ensures
        r@ == bare(200, PageFacts::Plain("ok\n"@)).with(
            "content-type"@,
            "text/plain; charset=utf-8"@,
        ).secure(include_hsts),
{
    proof {
        reveal_strlit("content-type");
        reveal_strlit("text/plain; charset=utf-8");
    }
    let mut headers = no_headers();
    insert_header(&mut headers, "content-type", "text/plain; charset=utf-8");
    apply_security_headers(&mut headers, include_hsts);
    EdgeResponse { status: 200, headers, page: Page::Plain("ok\n") }
}

fn accept_tunnel(key: &str, include_hsts: bool) -> (r: EdgeResponse)
    ensures
        r@ == tunnel_accepted(key@, include_hsts),
{
    proof {
        reveal_strlit("connection");
        reveal_strlit("Upgrade");
        reveal_strlit("upgrade");
        reveal_strlit("websocket");
        reveal_strlit("sec-websocket-accept");
        reveal_strlit("sec-websocket-protocol");
        reveal_strlit("weaver-mux-v1");
    }
    let accept = derive_accept_key(key);
    let mut headers = no_headers();
    insert_header(&mut headers, "connection", "Upgrade");
    insert_header(&mut headers, "upgrade", "websocket");
    insert_text(&mut headers, "sec-websocket-accept", accept.as_str());
    insert_header(&mut headers, "sec-websocket-protocol", TUNNEL_PROTOCOL);
    apply_security_headers(&mut headers, include_hsts);
    EdgeResponse { status: 101, headers, page: Page::Empty }
}

fn block(verdict: waf::Verdict, include_hsts: bool) -> (r: EdgeResponse)
    ensures
        r@ == blocked(verdict.token(), include_hsts),
{
    let rule = verdict.as_str();
    proof {
        reveal_strlit("x-weaver-blocked");
        reveal_strlit("dotfile");
        reveal_strlit("traversal");
        reveal_strlit("leftover");
        reveal_strlit("secret-material");
        reveal_strlit("debug-endpoint");
        reveal_strlit("malformed");
        reveal_strlit("trace");
    }
    let mut headers = no_headers();
    insert_header(&mut headers, "x-weaver-blocked", rule);
    apply_security_headers(&mut headers, include_hsts);
    EdgeResponse { status: 403, headers, page: Page::Forbidden(rule) }
}

/// The answer where the tunnel of a hostname failed.
pub fn bad_gateway(hostname: &str, include_hsts: bool) -> (r: EdgeResponse)
    ensures
        r@ == gateway_failed(hostname@, include_hsts),
{
    secure_answer(502, Page::BadGateway(hostname.to_owned()), include_hsts)
}

fn handle_root(req: &EdgeRequest, include_hsts: bool) -> (r: EdgeStep)
    ensures
        r@ == root_step(*req, include_hsts),
{
    let path = req.path.as_str();
    let get = text::same(req.method.as_str(), "GET");
    if text::same(path, CONNECT_PATH) {
        if !get {
            return plain_step(405, "405 Method Not Allowed\n", include_hsts);
        }
        let speaks = match &req.websocket_protocol {
            Some(p) => text::same(p.as_str(), TUNNEL_PROTOCOL),
            None => false,
        };
        if !speaks {
            return plain_step(
                400,
                "400 Bad Request: Sec-WebSocket-Protocol must be weaver-mux-v1\n",
                include_hsts,
            );
        }
        match &req.websocket_key {
            Some(key) => EdgeStep::Upgrade(accept_tunnel(key.as_str(), include_hsts)),
            None => plain_step(400, "400 Bad Request: Missing Sec-WebSocket-Key\n", include_hsts),
        }
    } else if get && text::same(path, "/") {
        EdgeStep::Answer(secure_answer(200, Page::Welcome, include_hsts))
    } else if get && text::same(path, "/healthz") {
        EdgeStep::Answer(healthy(include_hsts))
    } else {
        plain_step(404, "404 Not Found\n", include_hsts)
    }
}

/// Dispatches an HTTPS request based on SNI and Host header validation.
pub fn handle_https_request<'a, K, C>(
    req: &EdgeRequest,
    config: &HttpsEdgeConfig<'a, K, C>,
    client_sni: Option<&str>,
    now: i64,
) -> (r: EdgeStep)
    requires
        config.wf(),
    ensures
        r@ == edge_step(
            *req,
            config.root_domain@,
            match client_sni {
                Some(s) => Some(s@),
                None => None,
            },
            config.trusted(now),
            config.served(),
        ),
{
    // The relay is a reverse proxy, never a forward proxy. An extended CONNECT
    // is the WebSocket-over-h2 case and goes on.
    if text::same(req.method.as_str(), "CONNECT") && !req.extended_connect {
        return EdgeStep::Answer(refuse_connect());
    }
    // `Connection: close` because the framing of what follows on that
    // connection can no longer be trusted.
    let host = match request_host(&req.parts) {
        Ok(host) => host,
        Err(_) => return EdgeStep::Answer(refuse_host()),
    };
    if is_ip_literal(host.as_str()) {
        return misdirect();
    }
    match client_sni {
        Some(sni) => {
            if !text::same_ignoring_case(sni, host.as_str()) {
                return misdirect();
            }
        },
        None => return misdirect(),
    }
    let hostname = text::lowered(host.as_str());
    let root = text::lowered(config.root_domain);
    let include_hsts = match config.cert_resolver {
        Some(resolver) => !resolver.is_placeholder(host.as_str(), now),
        None => false,
    };
    assert(include_hsts == (config.trusted(now))(host@));
    if text::same(hostname.as_str(), root.as_str()) {
        return handle_root(req, include_hsts);
    }
    let suffix = text::cat2(".", root.as_str());
    proof {
        reveal_strlit(".");
    }
    let longer = hostname.as_str().unicode_len() > suffix.as_str().unicode_len();
    if !text::ends_with(hostname.as_str(), suffix.as_str()) || !longer {
        return misdirect();
    }
    if let Some(verdict) = waf::inspect(req.method.as_str(), req.target.as_str()) {
        return EdgeStep::Answer(block(verdict, include_hsts));
    }
    let served = match config.tunnel_registry {
        Some(registry) => registry.lookup(hostname.as_str()).is_some(),
        None => false,
    };
    assert(served == (config.served())(hostname@));
    if served {
        EdgeStep::Forward { host, hostname, include_hsts }
    } else {
        EdgeStep::Answer(secure_answer(404, Page::NoTunnel, include_hsts))
    }
}

/// Only what the edge has vouched for reaches a tunnel: the request names one
/// host, the handshake was for that host, it is a subdomain of the root
/// domain with a tunnel, and no firewall rule blocks the request.
pub proof fn forwarded_requests_are_vetted(
    req: EdgeRequest,
    root: Seq<char>,
    sni: Option<Seq<char>>,
    trusted: spec_fn(Seq<char>) -> bool,
    served: spec_fn(Seq<char>) -> bool,
)
    ensures
        edge_step(req, root, sni, trusted, served) matches StepFacts::Forward {
            host,
            hostname,
            include_hsts,
        } ==> {
            &&& req.parts.host() == Ok::<Seq<char>, super::host::HostError>(host)
            &&& sni is Some && text::lower(sni->0) == text::lower(host)
            &&& hostname == text::lower(host)
            &&& is_under(hostname, text::lower(root))
            &&& served(hostname)
            &&& waf::verdict(req.method@, req.target@) is None
            &&& include_hsts == trusted(host)
            &&& req.method@ == "CONNECT"@ ==> req.extended_connect
        },
{
}

/// A connection becomes a tunnel client's only on the root domain, by a GET of
/// the connect path with the tunnel protocol and a key.
pub proof fn upgrades_are_asked_for(
    req: EdgeRequest,
    root: Seq<char>,
    sni: Option<Seq<char>>,
    trusted: spec_fn(Seq<char>) -> bool,
    served: spec_fn(Seq<char>) -> bool,
)
    ensures
        edge_step(req, root, sni, trusted, served) is Upgrade ==> {
            &&& req.method@ == "GET"@
            &&& req.path@ == CONNECT_PATH@
            &&& text::opt(req.websocket_protocol) == Some(TUNNEL_PROTOCOL@)
            &&& req.websocket_key is Some
            &&& req.parts.host() is Ok
            &&& text::lower(req.parts.host()->Ok_0) == text::lower(root)
        },
{
}

/// A request whose handshake named another host, or none, gets nothing of this
/// server but a refusal.
pub proof fn other_hosts_are_misdirected(
    req: EdgeRequest,
    root: Seq<char>,
    sni: Option<Seq<char>>,
    trusted: spec_fn(Seq<char>) -> bool,
    served: spec_fn(Seq<char>) -> bool,
)
    requires
        req.method@ != "CONNECT"@ || req.extended_connect,
        req.parts.host() matches Ok(host) && (sni is None || text::lower(sni->0) != text::lower(
            host,
        ) || (text::lower(host) != text::lower(root) && !is_under(
            text::lower(host),
            text::lower(root),
        ))),
    ensures
        edge_step(req, root, sni, trusted, served) == (StepFacts::Answer {
            answer: misdirected(),
        }),
{
}

} // verus!
