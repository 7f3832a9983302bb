//! Forwarding of visitor requests over tunnel streams: which headers travel,
//! which are stamped, and how the answer is turned back.
use crate::edge::host::{ascii, HttpVersion};
use crate::net;
use crate::net::{IpAddress, IpFacts};
use crate::text;
use vstd::prelude::*;

verus! {

/// Errors occurring on the proxy path between edge and tunnel.
#[derive(Debug)]
pub enum ProxyError {
    /// The service's local origin refused the connection or never answered
    /// before the response head (mapped to 502).
    OriginUnreachable,
    /// Tunnel stream was reset before completing the exchange.
    Reset,
    /// Tunnel connection dropped or terminated prematurely.
    ConnectionClosed,
    /// Error encoding or decoding stream protocol messages.
    Codec(String),
    /// Multiplexer stream or connection error.
    Mux(String),
}

impl ProxyError {
    /// The message of the error.
    pub open spec fn text(self) -> Seq<char> {
        match self {
            ProxyError::OriginUnreachable => "origin unreachable"@,
            ProxyError::Reset => "tunnel stream reset"@,
            ProxyError::ConnectionClosed => "tunnel connection terminated"@,
            ProxyError::Codec(s) => "protocol codec error: "@ + s@,
            ProxyError::Mux(s) => "multiplexer error: "@ + s@,
        }
    }

    /// The message of the error.
    pub fn message(&self) -> (r: String)
        ensures
            r@ == self.text(),
    {
        match self {
            ProxyError::OriginUnreachable => "origin unreachable".to_owned(),
            ProxyError::Reset => "tunnel stream reset".to_owned(),
            ProxyError::ConnectionClosed => "tunnel connection terminated".to_owned(),
            ProxyError::Codec(s) => text::cat2("protocol codec error: ", s.as_str()),
            ProxyError::Mux(s) => text::cat2("multiplexer error: ", s.as_str()),
        }
    }
}

/// How the visitor asked for an upgrade; carries the protocol token.
#[derive(Debug)]
pub enum UpgradeKind {
    /// HTTP/1.1 `Upgrade: <protocol>`.
    Http1(String),
    /// HTTP/2 extended `CONNECT` with `:protocol = <protocol>`.
    ExtendedConnect(String),
}

/// How the visitor asked for an upgrade, as text.
pub enum UpgradeFacts {
    Http1(Seq<char>),
    ExtendedConnect(Seq<char>),
}

impl View for UpgradeKind {
    type V = UpgradeFacts;

    open spec fn view(&self) -> UpgradeFacts {
        match *self {
            UpgradeKind::Http1(s) => UpgradeFacts::Http1(s@),
            UpgradeKind::ExtendedConnect(s) => UpgradeFacts::ExtendedConnect(s@),
        }
    }
}

/// A visitor's request, apart from its body.
pub struct VisitorRequest {
    pub method: String,
    pub version: HttpVersion,
    /// The header lines, in order.
    pub headers: Vec<(String, Vec<u8>)>,
    /// The `:protocol` pseudo-header of an extended CONNECT.
    pub protocol: Option<String>,
    pub path_and_query: Option<String>,
    pub path: String,
}

/// Request metadata forwarded across the stream.
#[derive(Debug)]
pub struct HttpHead {
    pub method: String,
    pub scheme: String,
    pub authority: String,
    pub path: String,
    pub headers: Vec<(String, Vec<u8>)>,
}

/// Request metadata, as text.
pub struct HeadFacts {
    pub method: Seq<char>,
    pub scheme: Seq<char>,
    pub authority: Seq<char>,
    pub path: Seq<char>,
    pub headers: Seq<(Seq<char>, Seq<u8>)>,
}

/// Header lines as names and bytes.
pub open spec fn fields(v: Seq<(String, Vec<u8>)>) -> Seq<(Seq<char>, Seq<u8>)> {
    v.map_values(|h: (String, Vec<u8>)| (h.0@, h.1@))
}

impl View for HttpHead {
    type V = HeadFacts;

    open spec fn view(&self) -> HeadFacts {
        HeadFacts {
            method: self.method@,
            scheme: self.scheme@,
            authority: self.authority@,
            path: self.path@,
            headers: fields(self.headers@),
        }
    }
}

/// A byte of a header value that is text: a visible ASCII character, a space
/// or a tab.
pub open spec fn is_text_byte(b: u8) -> bool {
    32 <= b < 127 || b == 9
}

/// The text of a header value, where it is one.
pub open spec fn value_text(v: Seq<u8>) -> Option<Seq<char>> {
    if forall|i: int| 0 <= i < v.len() ==> is_text_byte(#[trigger] v[i]) {
        Some(ascii(v))
    } else {
        None
    }
}

/// Reads a header value as text, as `http::HeaderValue::to_str` does: visible
/// ASCII only.
pub fn read_value(v: &Vec<u8>) -> (r: Option<String>)
    ensures
        text::opt(r) == value_text(v@),
{
    let mut s = String::new();
    let mut i: usize = 0;
    while i < v.len()
        invariant
            i <= v@.len(),
            forall|j: int| 0 <= j < i ==> is_text_byte(#[trigger] v@[j]),
            s@ == ascii(v@).take(i as int),
        decreases v@.len() - i,
    {
        let b: u8 = v[i];
        if !((32 <= b && b < 127) || b == 9) {
            assert(!is_text_byte(v@[i as int]));
            return None;
        }
        s.push(b as char);
        i += 1;
        assert(s@ =~= ascii(v@).take(i as int));
    }
    assert(ascii(v@).take(v@.len() as int) =~= ascii(v@));
    Some(s)
}

/// The first value of a header, by its name in lower case.
pub open spec fn first_value(h: Seq<(Seq<char>, Seq<u8>)>, name: Seq<char>) -> Option<Seq<u8>>
    decreases h.len(),
{
    if h.len() == 0 {
        None
    } else if text::lower(h[0].0) == name {
        Some(h[0].1)
    } else {
        first_value(h.subrange(1, h.len() as int), name)
    }
}

/// Finds the first value of a header.
pub fn find_value<'a>(headers: &'a Vec<(String, Vec<u8>)>, name: &str) -> (r: Option<&'a Vec<u8>>)
    ensures
        (match r {
            Some(v) => Some(v@),
            None => None,
        }) == first_value(fields(headers@), name@),
{
    let ghost all = fields(headers@);
    let mut i: usize = 0;
    assert(all.subrange(0, all.len() as int) == all);
    while i < headers.len()
        invariant
            i <= headers@.len(),
            all == fields(headers@),
            first_value(all, name@) == first_value(
                all.subrange(i as int, all.len() as int),
                name@,
            ),
        decreases headers@.len() - i,
    {
        let ghost rest = all.subrange(i as int, all.len() as int);
        assert(rest[0] == all[i as int]);
        assert(rest.subrange(1, rest.len() as int) == all.subrange(i + 1, all.len() as int));
        let lower = text::lowered(headers[i].0.as_str());
        if text::same(lower.as_str(), name) {
            return Some(&headers[i].1);
        }
        i += 1;
    }
    None
}

/// The text of the first value of a header.
pub open spec fn first_text(h: Seq<(Seq<char>, Seq<u8>)>, name: Seq<char>) -> Option<Seq<char>> {
    match first_value(h, name) {
        Some(v) => value_text(v),
        None => None,
    }
}

/// Reads the text of the first value of a header.
pub fn find_text(headers: &Vec<(String, Vec<u8>)>, name: &str) -> (r: Option<String>)
    ensures
        text::opt(r) == first_text(fields(headers@), name@),
{
    match find_value(headers, name) {
        Some(v) => read_value(v),
        None => None,
    }
}

/// The comma-separated tokens of a header value hold the token, in any case.
pub open spec fn lists_token(value: Seq<char>, token: Seq<char>) -> bool {
    exists|i: int|
        0 <= i < text::split_on(value, ',').len() && text::lower(
            text::trimmed(#[trigger] text::split_on(value, ',')[i]),
        ) == token
}

/// A `Connection` line asks for an upgrade.
pub open spec fn wants_upgrade(h: Seq<(Seq<char>, Seq<u8>)>) -> bool {
    exists|i: int|
        0 <= i < h.len() && text::lower((#[trigger] h[i]).0) == "connection"@ && (value_text(h[i].1)
            matches Some(s) && lists_token(s, "upgrade"@))
}

/// How a request asks for an upgrade: an extended CONNECT, or a `Connection`
/// line with the token `upgrade` together with an `Upgrade` line.
pub open spec fn upgrade_of(
    method: Seq<char>,
    protocol: Option<Seq<char>>,
    h: Seq<(Seq<char>, Seq<u8>)>,
) -> Option<UpgradeFacts> {
    if method == "CONNECT"@ {
        match protocol {
            Some(p) => Some(UpgradeFacts::ExtendedConnect(p)),
            None => None,
        }
    } else {
        match first_text(h, "upgrade"@) {
            Some(p) => if wants_upgrade(h) {
                Some(UpgradeFacts::Http1(p))
            } else {
                None
            },
            None => None,
        }
    }
}

impl VisitorRequest {
    /// How the request asks for an upgrade.
    pub open spec fn upgrade(&self) -> Option<UpgradeFacts> {
        upgrade_of(self.method@, text::opt(self.protocol), fields(self.headers@))
    }
}

fn has_token(value: &str, token: &str) -> (r: bool)
    ensures
        r == lists_token(value@, token@),
{
    let parts = text::split(value, ',');
    let ghost all = text::split_on(value@, ',');
    let mut i: usize = 0;
    while i < parts.len()
        invariant
            i <= parts@.len(),
            text::texts(parts@) == all,
            all == text::split_on(value@, ','),
            forall|j: int|
                0 <= j < i ==> text::lower(text::trimmed(#[trigger] all[j])) != token@,
        decreases parts@.len() - i,
    {
        assert(all[i as int] == parts@[i as int]@);
        let lower = text::lowered(text::trim(parts[i].as_str()));
        if text::same(lower.as_str(), token) {
            return true;
        }
        i += 1;
    }
    assert(all.len() == parts@.len());
    false
}

/// Whether a visitor request is an upgrade: an h1 `Upgrade` with a
/// `Connection: upgrade` token, or an h2 extended `CONNECT` (RFC 8441)
/// carrying a `:protocol` pseudo-header.
pub fn upgrade_kind(req: &VisitorRequest) -> (r: Option<UpgradeKind>)
    ensures
        (match r {
            Some(u) => Some(u@),
            None => None,
        }) == req.upgrade(),
{
    if text::same(req.method.as_str(), "CONNECT") {
        return match &req.protocol {
            Some(p) => Some(UpgradeKind::ExtendedConnect(p.clone())),
            None => None,
        };
    }
    let ghost h = fields(req.headers@);
    let mut wanted: bool = false;
    let mut i: usize = 0;
    while i < req.headers.len()
        invariant
            i <= req.headers@.len(),
            h == fields(req.headers@),
            wanted == exists|j: int|
                0 <= j < i && text::lower((#[trigger] h[j]).0) == "connection"@ && (value_text(
                    h[j].1,
                ) matches Some(s) && lists_token(s, "upgrade"@)),
        decreases req.headers@.len() - i,
    {
        let ghost now = h[i as int];
        let lower = text::lowered(req.headers[i].0.as_str());
        if text::same(lower.as_str(), "connection") {
            if let Some(s) = read_value(&req.headers[i].1) {
                if has_token(s.as_str(), "upgrade") {
                    assert(text::lower(now.0) == "connection"@);
                    wanted = true;
                }
            }
        }
        i += 1;
    }
    assert(wanted == wants_upgrade(h));
    if wanted {
        match find_text(&req.headers, "upgrade") {
            Some(p) => Some(UpgradeKind::Http1(p)),
            None => None,
        }
    } else {
        None
    }
}

/// Hop-by-hop headers a proxy must not forward (RFC 9110 §7.6.1).
pub open spec fn is_hop_by_hop(name: Seq<char>) -> bool {
    ||| name == "connection"@
    ||| name == "keep-alive"@
    ||| name == "proxy-authenticate"@
    ||| name == "proxy-authorization"@
    ||| name == "proxy-connection"@
    ||| name == "te"@
    ||| name == "trailer"@
    ||| name == "transfer-encoding"@
    ||| name == "upgrade"@
}

/// Whether a header, named in lower case, is hop-by-hop.
pub fn hop_by_hop(name: &str) -> (r: bool)
    ensures
        r == is_hop_by_hop(name@),
{
    text::same(name, "connection") || text::same(name, "keep-alive") || text::same(
        name,
        "proxy-authenticate",
    ) || text::same(name, "proxy-authorization") || text::same(name, "proxy-connection")
        || text::same(name, "te") || text::same(name, "trailer") || text::same(
        name,
        "transfer-encoding",
    ) || text::same(name, "upgrade")
}

/// Forwarding headers the edge always writes itself; any visitor-supplied
/// copy is dropped so a client cannot forge its own address or host.
pub open spec fn is_forwarding(name: Seq<char>) -> bool {
    ||| name == "forwarded"@
    ||| name == "x-forwarded-for"@
    ||| name == "x-forwarded-proto"@
    ||| name == "x-forwarded-host"@
}

fn forwarding(name: &str) -> (r: bool)
    ensures
        r == is_forwarding(name@),
{
    text::same(name, "forwarded") || text::same(name, "x-forwarded-for") || text::same(
        name,
        "x-forwarded-proto",
    ) || text::same(name, "x-forwarded-host")
}

/// The `Connection` line names the header as one for this connection alone.
pub open spec fn is_named_by_connection(h: Seq<(Seq<char>, Seq<u8>)>, name: Seq<char>) -> bool {
    name.len() > 0 && (first_text(h, "connection"@) matches Some(s) && lists_token(s, name))
}

/// A header that is not forwarded.
pub open spec fn is_dropped(h: Seq<(Seq<char>, Seq<u8>)>, name: Seq<char>) -> bool {
    is_hop_by_hop(name) || is_named_by_connection(h, name) || is_forwarding(name)
}

/// The headers that are forwarded, their names in lower case.
pub open spec fn cleaned(all: Seq<(Seq<char>, Seq<u8>)>, h: Seq<(Seq<char>, Seq<u8>)>) -> Seq<
    (Seq<char>, Seq<u8>),
>
    decreases h.len(),
{
    if h.len() == 0 {
        Seq::empty()
    } else {
        let rest = cleaned(all, h.drop_last());
        let name = text::lower(h.last().0);
        if is_dropped(all, name) {
            rest
        } else {
            rest.push((name, h.last().1))
        }
    }
}

/// A text as bytes.
pub open spec fn bytes_of(s: Seq<char>) -> Seq<u8> {
    vstd::utf8::encode_utf8(s)
}

/// The protocol version as the `Via` header names it.
pub open spec fn received_on(version: HttpVersion) -> Seq<char> {
    match version {
        HttpVersion::Http2 => "2"@,
        HttpVersion::Http3 => "3"@,
        HttpVersion::Http10 => "1.0"@,
        _ => "1.1"@,
    }
}

/// The headers that the edge writes itself.
pub open spec fn stamps(visitor: Seq<char>, host: Seq<char>, version: HttpVersion) -> Seq<
    (Seq<char>, Seq<u8>),
> {
    seq![
        ("x-forwarded-for"@, bytes_of(visitor)),
        ("x-forwarded-proto"@, bytes_of("https"@)),
        ("x-forwarded-host"@, bytes_of(host)),
        (
            "forwarded"@,
            bytes_of(
                "for=\""@ + visitor + "\";proto=https;host=\""@ + host + "\""@,
            ),
        ),
        ("via"@, bytes_of(received_on(version) + " weaver"@)),
    ]
}

/// A header stands among the headers.
pub open spec fn has_field(h: Seq<(Seq<char>, Seq<u8>)>, name: Seq<char>) -> bool {
    exists|i: int| 0 <= i < h.len() && (#[trigger] h[i]).0 == name
}

/// The headers that ask the origin for the upgrade: an extended CONNECT for
/// WebSocket gets the key that HTTP/1.1 demands, where the visitor sent none.
pub open spec fn upgrade_pair(
    upgrade: Option<UpgradeFacts>,
    so_far: Seq<(Seq<char>, Seq<u8>)>,
    key: Seq<char>,
) -> Seq<(Seq<char>, Seq<u8>)> {
    match upgrade {
        None => seq![],
        Some(UpgradeFacts::Http1(p)) => seq![
            ("connection"@, bytes_of("upgrade"@)),
            ("upgrade"@, bytes_of(p)),
        ],
        Some(UpgradeFacts::ExtendedConnect(p)) => {
            let pair = seq![("connection"@, bytes_of("upgrade"@)), ("upgrade"@, bytes_of(p))];
            if text::lower(p) == "websocket"@ && !has_field(so_far, "sec-websocket-key"@) {
                pair.push(("sec-websocket-key"@, bytes_of(key)))
            } else {
                pair
            }
        },
    }
}

/// The request as it travels over the stream.
pub open spec fn forwarded(
    req: VisitorRequest,
    visitor: Seq<char>,
    host: Seq<char>,
    key: Seq<char>,
) -> HeadFacts {
    let h = fields(req.headers@);
    let kept = cleaned(h, h);
    HeadFacts {
        method: if req.upgrade() is Some && req.upgrade()->0 is ExtendedConnect {
            "GET"@
        } else {
            req.method@
        },
        scheme: "https"@,
        authority: host,
        path: match req.path_and_query {
            Some(p) => p@,
            None => req.path@,
        },
        headers: kept + stamps(visitor, host, req.version) + upgrade_pair(
            req.upgrade(),
            kept + stamps(visitor, host, req.version),
            key,
        ),
    }
}

fn text_bytes(s: &str) -> (v: Vec<u8>)
    ensures
        v@ == bytes_of(s@),
{
    let b = s.as_bytes();
    let mut v: Vec<u8> = Vec::new();
    let mut i: usize = 0;
    while i < b.len()
        invariant
            i <= b@.len(),
            v@ == b@.take(i as int),
        decreases b@.len() - i,
    {
        v.push(b[i]);
        i += 1;
        assert(v@ =~= b@.take(i as int));
    }
    assert(b@.take(b@.len() as int) =~= b@);
    v
}

fn copied(b: &Vec<u8>) -> (v: Vec<u8>)
    ensures
        v@ == b@,
{
    let mut v: Vec<u8> = Vec::new();
    let mut i: usize = 0;
    while i < b.len()
        invariant
            i <= b@.len(),
            v@ == b@.take(i as int),
        decreases b@.len() - i,
    {
        v.push(b[i]);
        i += 1;
        assert(v@ =~= b@.take(i as int));
    }
    assert(b@.take(b@.len() as int) =~= b@);
    v
}

/// Adds a header line.
fn add_field(headers: &mut Vec<(String, Vec<u8>)>, name: &str, value: Vec<u8>)
    ensures
        fields(final(headers)@) == fields(old(headers)@).push((name@, value@)),
{
    let ghost before = fields(headers@);
    headers.push((name.to_owned(), value));
    assert(fields(headers@) =~= before.push((name@, value@)));
}

/// Strips the headers that are not forwarded.
pub fn clean_headers(headers: &Vec<(String, Vec<u8>)>) -> (r: Vec<(String, Vec<u8>)>)
    ensures
        fields(r@) == cleaned(fields(headers@), fields(headers@)),
{
    let ghost all = fields(headers@);
    let connection = find_text(headers, "connection");
    let mut r: Vec<(String, Vec<u8>)> = Vec::new();
    let mut i: usize = 0;
    assert(fields(r@) =~= Seq::empty());
    while i < headers.len()
        invariant
            i <= headers@.len(),
            all == fields(headers@),
            text::opt(connection) == first_text(all, "connection"@),
            fields(r@) == cleaned(all, all.take(i as int)),
        decreases headers@.len() - i,
    {
        let lower = text::lowered(headers[i].0.as_str());
        assert(all.take(i + 1).drop_last() == all.take(i as int));
        assert(all.take(i + 1).last() == all[i as int]);
        let named = match &connection {
            Some(s) => !text::is_blank(lower.as_str()) && has_token(s.as_str(), lower.as_str()),
            None => false,
        };
        assert(named == is_named_by_connection(all, lower@));
        if !hop_by_hop(lower.as_str()) && !named && !forwarding(lower.as_str()) {
            let value = copied(&headers[i].1);
            add_field(&mut r, lower.as_str(), value);
        }
        i += 1;
    }
    assert(all.take(all.len() as int) == all);
    r
}

fn contains_field(headers: &Vec<(String, Vec<u8>)>, name: &str) -> (r: bool)
    ensures
        r == has_field(fields(headers@), name@),
{
    let ghost all = fields(headers@);
    let mut i: usize = 0;
    while i < headers.len()
        invariant
            i <= headers@.len(),
            all == fields(headers@),
            forall|j: int| 0 <= j < i ==> (#[trigger] all[j]).0 != name@,
        decreases headers@.len() - i,
    {
        if text::same(headers[i].0.as_str(), name) {
            assert(all[i as int].0 == name@);
            return true;
        }
        i += 1;
    }
    false
}

/// Prepares a visitor request for the tunnel: strips hop-by-hop and forged
/// forwarding headers, stamps the edge's own, and presents an extended CONNECT
/// as an ordinary GET upgrade. `key` is a fresh WebSocket key.
pub fn forward_head(req: &VisitorRequest, visitor: &str, host: &str, key: &str) -> (r: HttpHead)
    ensures
        r@ == forwarded(*req, visitor@, host@, key@),
{
    let upgrade = upgrade_kind(req);
    let mut headers = clean_headers(&req.headers);
    let ghost kept = fields(headers@);
    add_field(&mut headers, "x-forwarded-for", text_bytes(visitor));
    add_field(&mut headers, "x-forwarded-proto", text_bytes("https"));
    add_field(&mut headers, "x-forwarded-host", text_bytes(host));
    let trail = text::cat5("for=\"", visitor, "\";proto=https;host=\"", host, "\"");
    add_field(&mut headers, "forwarded", text_bytes(trail.as_str()));
    let version: &str = match req.version {
        HttpVersion::Http2 => "2",
        HttpVersion::Http3 => "3",
        HttpVersion::Http10 => "1.0",
        _ => "1.1",
    };
    let via = text::cat2(version, " weaver");
    add_field(&mut headers, "via", text_bytes(via.as_str()));
    let ghost stamped = fields(headers@);
    assert(stamped =~= kept + stamps(visitor@, host@, req.version));
    let mut method = req.method.clone();
    match &upgrade {
        Some(UpgradeKind::Http1(protocol)) => {
            add_field(&mut headers, "connection", text_bytes("upgrade"));
            add_field(&mut headers, "upgrade", text_bytes(protocol.as_str()));
        },
        Some(UpgradeKind::ExtendedConnect(protocol)) => {
            let lower = text::lowered(protocol.as_str());
            let needs_key = text::same(lower.as_str(), "websocket") && !contains_field(
                &headers,
                "sec-websocket-key",
            );
            add_field(&mut headers, "connection", text_bytes("upgrade"));
            add_field(&mut headers, "upgrade", text_bytes(protocol.as_str()));
            method = "GET".to_owned();
            if needs_key {
                add_field(&mut headers, "sec-websocket-key", text_bytes(key));
            }
        },
        None => {},
    }
    let ghost pair = upgrade_pair(req.upgrade(), stamped, key@);
    assert(fields(headers@) =~= stamped + pair);
    HttpHead {
        method,
        scheme: "https".to_owned(),
        authority: host.to_owned(),
        path: match &req.path_and_query {
            Some(p) => p.clone(),
            None => req.path.clone(),
        },
        headers,
    }
}

/// A character of the base64 alphabet.
pub open spec fn is_base64_char(c: char) -> bool {
    'A' <= c <= 'Z' || 'a' <= c <= 'z' || '0' <= c <= '9' || c == '+' || c == '/'
}

/// The base64 text of sixteen bytes, as a WebSocket key is one.
pub open spec fn is_websocket_key(s: Seq<char>) -> bool {
    &&& s.len() == 24
    &&& forall|i: int| 0 <= i < 22 ==> is_base64_char(#[trigger] s[i])
    &&& s[22] == '=' && s[23] == '='
}

/// Calls `generate_key` of `tungstenite::handshake::client`, which writes sixteen
/// random bytes in base64. Which bytes they are is not claimed.
#[verifier::external_body]
fn fresh_websocket_key() -> (r: String)
    ensures
        is_websocket_key(r@),
{
    tokio_tungstenite::tungstenite::handshake::client::generate_key()
}

/// Prepares a visitor request for the tunnel, with a fresh WebSocket key where
/// one is needed.
pub fn prepare_request(req: &VisitorRequest, visitor: &str, host: &str) -> (r: HttpHead)
    ensures
        exists|key: Seq<char>|
            is_websocket_key(key) && r@ == #[trigger] forwarded(*req, visitor@, host@, key),
{
    let key = fresh_websocket_key();
    forward_head(req, visitor, host, key.as_str())
}

/// The address behind an IPv4-mapped IPv6 address. The edge listens
/// dual-stack, so IPv4 visitors arrive mapped.
pub open spec fn unmapped(ip: IpFacts) -> IpFacts {
    match ip {
        IpFacts::V4(_) => ip,
        IpFacts::V6(s) => if net::is_mapped(s) {
            IpFacts::V4(net::mapped_octets(s))
        } else {
            ip
        },
    }
}

/// The address that a visitor is known by: a plain IPv4 address where theirs
/// is mapped into IPv6.
pub fn visitor_address(ip: IpAddress) -> (r: IpAddress)
    ensures
        r@ == unmapped(ip@),
{
    match ip {
        IpAddress::V4(o) => IpAddress::V4(o),
        IpAddress::V6(s) => {
            if s[0] == 0 && s[1] == 0 && s[2] == 0 && s[3] == 0 && s[4] == 0 && s[5] == 0xffff {
                let o: [u8; 4] = [
                    (s[6] / 256) as u8,
                    (s[6] % 256) as u8,
                    (s[7] / 256) as u8,
                    (s[7] % 256) as u8,
                ];
                assert(o@ =~= net::mapped_octets(s@));
                IpAddress::V4(o)
            } else {
                IpAddress::V6(s)
            }
        },
    }
}

/// The response metadata that the tunnel client sends back.
#[derive(Debug)]
pub struct HttpResponseHead {
    pub status: u16,
    pub headers: Vec<(String, Vec<u8>)>,
}

/// What a response head means for the exchange.
#[derive(Debug, Clone, Copy, PartialEq, Eq, Structural)]
pub enum HeadMeaning {
    /// An interim response; the final head still follows.
    Interim,
    /// The origin agreed to the upgrade the visitor asked for.
    Switching,
    /// The final response.
    Final,
}

/// What a status means: `101` is final where the visitor asked for an upgrade,
/// every other 1xx is interim.
pub open spec fn meaning_of(status: u16, upgrade_wanted: bool) -> HeadMeaning {
    if status == 101 && upgrade_wanted {
        HeadMeaning::Switching
    } else if 100 <= status < 200 {
        HeadMeaning::Interim
    } else {
        HeadMeaning::Final
    }
}

/// Decides what a response head means.
pub fn head_meaning(status: u16, upgrade_wanted: bool) -> (r: HeadMeaning)
    ensures
        r == meaning_of(status, upgrade_wanted),
{
    if status == 101 && upgrade_wanted {
        HeadMeaning::Switching
    } else if 100 <= status && status < 200 {
        HeadMeaning::Interim
    } else {
        HeadMeaning::Final
    }
}

/// A byte of a header name.
pub open spec fn is_token_byte(b: u8) -> bool {
    ||| 0x61 <= b <= 0x7a
    ||| 0x41 <= b <= 0x5a
    ||| 0x30 <= b <= 0x39
    ||| b == 0x21
    ||| 0x23 <= b <= 0x27
    ||| b == 0x2a
    ||| b == 0x2b
    ||| b == 0x2d
    ||| b == 0x2e
    ||| 0x5e <= b <= 0x60
    ||| b == 0x7c
    ||| b == 0x7e
}

/// A header name: at most 65535 token characters, and at least one.
pub open spec fn is_header_name(b: Seq<u8>) -> bool {
    0 < b.len() <= 65535 && forall|i: int| 0 <= i < b.len() ==> is_token_byte(#[trigger] b[i])
}

/// A header value: no control characters but tabs.
pub open spec fn is_header_value(b: Seq<u8>) -> bool {
    forall|i: int| 0 <= i < b.len() ==> (32 <= #[trigger] b[i] && b[i] != 127) || b[i] == 9
}

/// Calls `http::HeaderName::from_bytes`, which accepts exactly the rows of one
/// to 65535 token characters.
#[verifier::external_body]
fn accepts_name(b: &[u8]) -> (r: bool)
    ensures
        r == is_header_name(b@),
{
    http::HeaderName::from_bytes(b).is_ok()
}

/// Calls `http::HeaderValue::from_bytes`, which accepts exactly the bytes that
/// hold no control character but tabs.
#[verifier::external_body]
fn accepts_value(b: &[u8]) -> (r: bool)
    ensures
        r == is_header_value(b@),
{
    http::HeaderValue::from_bytes(b).is_ok()
}

/// A header of the answer that reaches the visitor. An extended CONNECT is
/// answered without the headers of the HTTP/1.1 handshake.
pub open spec fn is_returned(h: (Seq<char>, Seq<u8>), without_handshake: bool) -> bool {
    let name = text::lower(h.0);
    &&& !(without_handshake && (name == "connection"@ || name == "upgrade"@ || name
        == "sec-websocket-accept"@))
    &&& is_header_name(bytes_of(h.0))
    &&& is_header_value(h.1)
}

/// The headers of the answer that reach the visitor.
pub open spec fn returned(h: Seq<(Seq<char>, Seq<u8>)>, without_handshake: bool) -> Seq<
    (Seq<char>, Seq<u8>),
>
    decreases h.len(),
{
    if h.len() == 0 {
        Seq::empty()
    } else {
        let rest = returned(h.drop_last(), without_handshake);
        if is_returned(h.last(), without_handshake) {
            rest.push(h.last())
        } else {
            rest
        }
    }
}

/// The status that the visitor sees: an extended CONNECT is answered 200 in
/// place of 101, and a status that is none becomes 500.
pub open spec fn returned_status(status: u16, meaning: HeadMeaning, visitor_connect: bool) -> u16 {
    if meaning == HeadMeaning::Switching {
        if visitor_connect {
            200
        } else {
            101
        }
    } else if 100 <= status <= 999 {
        status
    } else {
        500
    }
}

/// Turns the tunnel client's response head into the one that the visitor gets.
pub fn visitor_response(head: &HttpResponseHead, meaning: HeadMeaning, visitor_connect: bool) -> (r:
    HttpResponseHead)
    ensures
        r.status == returned_status(head.status, meaning, visitor_connect),
        fields(r.headers@) == returned(
            fields(head.headers@),
            meaning == HeadMeaning::Switching && visitor_connect,
        ),
{
    let ghost all = fields(head.headers@);
    let switching = meaning == HeadMeaning::Switching;
    let bare: bool = switching && visitor_connect;
    let status: u16 = if switching {
        if visitor_connect {
            200
        } else {
            101
        }
    } else if 100 <= head.status && head.status <= 999 {
        head.status
    } else {
        500
    };
    let mut headers: Vec<(String, Vec<u8>)> = Vec::new();
    let mut i: usize = 0;
    assert(fields(headers@) =~= Seq::empty());
    while i < head.headers.len()
        invariant
            i <= head.headers@.len(),
            all == fields(head.headers@),
            fields(headers@) == returned(all.take(i as int), bare),
        decreases head.headers@.len() - i,
    {
        let name = head.headers[i].0.as_str();
        let lower = text::lowered(name);
        assert(all.take(i + 1).drop_last() == all.take(i as int));
        assert(all.take(i + 1).last() == all[i as int]);
        let handshake = text::same(lower.as_str(), "connection") || text::same(
            lower.as_str(),
            "upgrade",
        ) || text::same(lower.as_str(), "sec-websocket-accept");
        if !(bare && handshake) && accepts_name(name.as_bytes()) && accepts_value(
            head.headers[i].1.as_slice(),
        ) {
            let value = copied(&head.headers[i].1);
            add_field(&mut headers, name, value);
        }
        i += 1;
    }
    assert(all.take(all.len() as int) == all);
    HttpResponseHead { status, headers }
}

/// The trailer fields that reach the visitor: those that are header lines.
pub fn visitor_trailers(fields_in: &Vec<(String, Vec<u8>)>) -> (r: Vec<(String, Vec<u8>)>)
    ensures
        fields(r@) == returned(fields(fields_in@), false),
{
    let ghost all = fields(fields_in@);
    let mut r: Vec<(String, Vec<u8>)> = Vec::new();
    let mut i: usize = 0;
    assert(fields(r@) =~= Seq::empty());
    while i < fields_in.len()
        invariant
            i <= fields_in@.len(),
            all == fields(fields_in@),
            fields(r@) == returned(all.take(i as int), false),
        decreases fields_in@.len() - i,
    {
        assert(all.take(i + 1).drop_last() == all.take(i as int));
        assert(all.take(i + 1).last() == all[i as int]);
        if accepts_name(fields_in[i].0.as_str().as_bytes()) && accepts_value(
            fields_in[i].1.as_slice(),
        ) {
            let value = copied(&fields_in[i].1);
            add_field(&mut r, fields_in[i].0.as_str(), value);
        }
        i += 1;
    }
    assert(all.take(all.len() as int) == all);
    r
}

/// What is forwarded of the visitor's headers is in lower case and neither
/// hop-by-hop nor a forwarding header.
proof fn cleaned_is_clean(
    all: Seq<(Seq<char>, Seq<u8>)>,
    h: Seq<(Seq<char>, Seq<u8>)>,
    i: int,
)
    requires
        0 <= i < cleaned(all, h).len(),
    ensures
        !is_dropped(all, cleaned(all, h)[i].0),
    decreases h.len(),
{
    if h.len() > 0 {
        let rest = cleaned(all, h.drop_last());
        if i < rest.len() {
            cleaned_is_clean(all, h.drop_last(), i);
            assert(cleaned(all, h)[i] == rest[i]);
        }
    }
}

/// A visitor cannot forge its address or host: the forwarding headers that
/// reach the origin are the edge's own.
pub proof fn forwarding_headers_are_the_edges(
    req: VisitorRequest,
    visitor: Seq<char>,
    host: Seq<char>,
    key: Seq<char>,
    i: int,
)
    requires
        0 <= i < forwarded(req, visitor, host, key).headers.len(),
        is_forwarding(forwarded(req, visitor, host, key).headers[i].0),
    ensures
        stamps(visitor, host, req.version).contains(
            forwarded(req, visitor, host, key).headers[i],
        ),
{
    let h = fields(req.headers@);
    let kept = cleaned(h, h);
    let stamped = stamps(visitor, host, req.version);
    let all = forwarded(req, visitor, host, key).headers;
    if i < kept.len() {
        cleaned_is_clean(h, h, i);
        assert(all[i] == kept[i]);
    } else if i < kept.len() + stamped.len() {
        assert(all[i] == stamped[i - kept.len()]);
    } else {
        let pair = upgrade_pair(req.upgrade(), kept + stamped, key);
        assert(all[i] == pair[i - kept.len() - stamped.len()]);
        reveal_strlit("connection");
        reveal_strlit("upgrade");
        reveal_strlit("sec-websocket-key");
        reveal_strlit("forwarded");
        reveal_strlit("x-forwarded-for");
        reveal_strlit("x-forwarded-proto");
        reveal_strlit("x-forwarded-host");
        assert("connection"@[0] == 'c' && "upgrade"@[0] == 'u' && "sec-websocket-key"@[0] == 's');
        assert("forwarded"@[0] == 'f' && "x-forwarded-for"@[0] == 'x' && "x-forwarded-proto"@[0]
            == 'x' && "x-forwarded-host"@[0] == 'x');
    }
}

/// No hop-by-hop header of the visitor reaches the origin: without an upgrade
/// none does at all.
pub proof fn hop_by_hop_headers_stay_here(
    req: VisitorRequest,
    visitor: Seq<char>,
    host: Seq<char>,
    key: Seq<char>,
    i: int,
)
    requires
        req.upgrade() is None,
        0 <= i < forwarded(req, visitor, host, key).headers.len(),
    ensures
        !is_hop_by_hop(forwarded(req, visitor, host, key).headers[i].0),
{
    let h = fields(req.headers@);
    let kept = cleaned(h, h);
    let stamped = stamps(visitor, host, req.version);
    let all = forwarded(req, visitor, host, key).headers;
    if i < kept.len() {
        cleaned_is_clean(h, h, i);
        assert(all[i] == kept[i]);
    } else {
        assert(all[i] == stamped[i - kept.len()]);
        reveal_strlit("x-forwarded-for");
        reveal_strlit("x-forwarded-proto");
        reveal_strlit("x-forwarded-host");
        reveal_strlit("forwarded");
        reveal_strlit("via");
        reveal_strlit("connection");
        reveal_strlit("keep-alive");
        reveal_strlit("proxy-authenticate");
        reveal_strlit("proxy-authorization");
        reveal_strlit("proxy-connection");
        reveal_strlit("te");
        reveal_strlit("trailer");
        reveal_strlit("transfer-encoding");
        reveal_strlit("upgrade");
        assert("x-forwarded-for"@[0] == 'x' && "x-forwarded-proto"@[0] == 'x'
            && "x-forwarded-host"@[0] == 'x' && "forwarded"@[0] == 'f' && "via"@[0] == 'v');
        assert("connection"@[0] == 'c' && "keep-alive"@[0] == 'k' && "proxy-authenticate"@[0] == 'p'
            && "proxy-authorization"@[0] == 'p' && "proxy-connection"@[0] == 'p' && "te"@[0] == 't'
            && "trailer"@[0] == 't' && "transfer-encoding"@[0] == 't' && "upgrade"@[0] == 'u');
    }
}

/// Every other header of the visitor is forwarded with its value unchanged.
pub proof fn other_headers_are_forwarded(
    all: Seq<(Seq<char>, Seq<u8>)>,
    h: Seq<(Seq<char>, Seq<u8>)>,
    i: int,
)
    requires
        0 <= i < h.len(),
        !is_dropped(all, text::lower(h[i].0)),
    ensures
        cleaned(all, h).contains((text::lower(h[i].0), h[i].1)),
    decreases h.len(),
{
    let rest = cleaned(all, h.drop_last());
    let line = (text::lower(h[i].0), h[i].1);
    if i < h.len() - 1 {
        other_headers_are_forwarded(all, h.drop_last(), i);
        let j = choose|j: int| 0 <= j < rest.len() && rest[j] == line;
        assert(cleaned(all, h)[j] == line);
    } else {
        assert(cleaned(all, h)[rest.len() as int] == line);
    }
}

/// An address that is not mapped is left alone, and no address is mapped twice.
pub proof fn unmapping_is_idempotent(ip: IpFacts)
    ensures
        unmapped(unmapped(ip)) == unmapped(ip),
        ip is V4 ==> unmapped(ip) == ip,
{
}

} // verus!
