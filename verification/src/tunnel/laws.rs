//! What the tunnel promises of every request and answer that it carries.
use super::proxy::{
    clean_headers, cleaned, fields, find_text, find_value, first_value, forward_head, head_meaning,
    hop_by_hop, is_dropped, is_named_by_connection, lists_token, prepare_request, returned,
    upgrade_kind, value_text, visitor_address, visitor_response, visitor_trailers, wants_upgrade,
    HeadMeaning, HttpHead, HttpResponseHead, ProxyError, UpgradeKind, VisitorRequest,
};
use super::exchange::{DrainEnd, Exchange, ExchangeFacts, HeadStep, Pump, SendOutcome};
use super::identity::{derive_hostname, Identity};
use super::registry::{refused, RefusalCode, RegistryFacts, TunnelRegistry, TunnelRoute};
use super::relay::{
    cert_status, CertStatus, CertWatch, FirstStep, LeaseFacts, MessagePlace, RegisteredStep,
    Registration, RelayFacts, RelayHandler, StreamEnd,
};
use crate::cert::manager::{CertManager, ManagerFacts};
use crate::cert::state::CertState;
use crate::edge::host::HttpVersion;
use crate::net::IpAddress;
use crate::text;
use vstd::prelude::*;

verus! {

/// The value is text, of visible ASCII characters, spaces and tabs.
pub open spec fn is_readable(v: Seq<u8>) -> bool {
    forall|i: int| 0 <= i < v.len() ==> 32 <= #[trigger] v[i] <= 126 || v[i] == 9
}

/// The characters of ASCII bytes.
pub open spec fn characters(v: Seq<u8>) -> Seq<char> {
    v.map_values(|b: u8| b as char)
}

/// A comma-separated value lists a token, in any case and with white space around it.
pub open spec fn has_in_list(v: Seq<u8>, token: Seq<char>) -> bool {
    is_readable(v) && exists|k: int|
        0 <= k < text::split_on(characters(v), ',').len() && text::lower(
            text::trimmed(#[trigger] text::split_on(characters(v), ',')[k]),
        ) == token
}

/// The line is the first of its name.
pub open spec fn is_first_line(h: Seq<(Seq<char>, Seq<u8>)>, name: Seq<char>, i: int) -> bool {
    &&& 0 <= i < h.len()
    &&& text::lower(h[i].0) == name
    &&& forall|j: int| 0 <= j < i ==> text::lower((#[trigger] h[j]).0) != name
}

/// The first `Connection` line lists the name.
pub open spec fn is_listed(h: Seq<(Seq<char>, Seq<u8>)>, name: Seq<char>) -> bool {
    name.len() > 0 && exists|i: int|
        #[trigger] is_first_line(h, "connection"@, i) && has_in_list(h[i].1, name)
}

/// A header travels unless it is for one connection alone or is one that the edge
/// writes itself.
pub open spec fn travels(h: Seq<(Seq<char>, Seq<u8>)>, name: Seq<char>) -> bool {
    &&& name != "connection"@
    &&& name != "keep-alive"@
    &&& name != "proxy-authenticate"@
    &&& name != "proxy-authorization"@
    &&& name != "proxy-connection"@
    &&& name != "te"@
    &&& name != "trailer"@
    &&& name != "transfer-encoding"@
    &&& name != "upgrade"@
    &&& name != "forwarded"@
    &&& name != "x-forwarded-for"@
    &&& name != "x-forwarded-proto"@
    &&& name != "x-forwarded-host"@
    &&& !is_listed(h, name)
}

proof fn first_value_is_first(h: Seq<(Seq<char>, Seq<u8>)>, name: Seq<char>)
    ensures
        first_value(h, name) is None ==> forall|i: int|
            0 <= i < h.len() ==> text::lower((#[trigger] h[i]).0) != name,
        first_value(h, name) matches Some(v) ==> exists|i: int| #[trigger]
            is_first_line(h, name, i) && h[i].1 == v,
    decreases h.len(),
{
    if h.len() > 0 {
        let rest = h.subrange(1, h.len() as int);
        if text::lower(h[0].0) == name {
            assert(is_first_line(h, name, 0));
        } else {
            first_value_is_first(rest, name);
            assert forall|i: int| 0 < i < h.len() implies #[trigger] h[i] == rest[i - 1] by {}
            if first_value(rest, name) is Some {
                let i = choose|i: int| #[trigger]
                    is_first_line(rest, name, i) && rest[i].1 == first_value(rest, name)->0;
                assert forall|j: int| 0 <= j < i + 1 implies text::lower((#[trigger] h[j]).0)
                    != name by {
                    if j > 0 {
                        assert(h[j] == rest[j - 1]);
                    }
                }
                assert(h[i + 1] == rest[i]);
                assert(is_first_line(h, name, i + 1));
            } else {
                assert forall|i: int| 0 <= i < h.len() implies text::lower((#[trigger] h[i]).0)
                    != name by {
                    if i > 0 {
                        assert(h[i] == rest[i - 1]);
                    }
                }
            }
        }
    }
}

proof fn one_first_line(h: Seq<(Seq<char>, Seq<u8>)>, name: Seq<char>, i: int, j: int)
    requires
        is_first_line(h, name, i),
        is_first_line(h, name, j),
    ensures
        i == j,
{
    if i < j {
        assert(text::lower(h[i].0) != name);
    }
    if j < i {
        assert(text::lower(h[j].0) != name);
    }
}

proof fn readable_is_text(v: Seq<u8>)
    ensures
        is_readable(v) == value_text(v) is Some,
        is_readable(v) ==> value_text(v) == Some(characters(v)),
{
    if is_readable(v) {
        assert forall|i: int| 0 <= i < v.len() implies super::proxy::is_text_byte(
            #[trigger] v[i],
        ) by {}
    }
    if value_text(v) is Some {
        assert forall|i: int| 0 <= i < v.len() implies 32 <= #[trigger] v[i] <= 126 || v[i]
            == 9 by {
            assert(super::proxy::is_text_byte(v[i]));
        }
    }
    assert(crate::edge::host::ascii(v) =~= characters(v));
}

proof fn listed_is_named(h: Seq<(Seq<char>, Seq<u8>)>, name: Seq<char>)
    ensures
        is_listed(h, name) == is_named_by_connection(h, name),
        travels(h, name) == !is_dropped(h, name),
{
    let c = "connection"@;
    first_value_is_first(h, c);
    if first_value(h, c) is Some {
        let v = first_value(h, c)->0;
        let i = choose|i: int| #[trigger] is_first_line(h, c, i) && h[i].1 == v;
        readable_is_text(v);
        assert(has_in_list(v, name) == (value_text(v) matches Some(s) && lists_token(s, name)));
        if is_listed(h, name) {
            let j = choose|j: int| #[trigger] is_first_line(h, c, j) && has_in_list(h[j].1, name);
            one_first_line(h, c, i, j);
        }
    } else {
        if is_listed(h, name) {
            let j = choose|j: int| #[trigger] is_first_line(h, c, j) && has_in_list(h[j].1, name);
            assert(text::lower(h[j].0) != c);
        }
    }
}

/// The lines of a request that travel, in their order, with their names in lower case and
/// their values unchanged.
pub open spec fn travelling(h: Seq<(Seq<char>, Seq<u8>)>) -> Seq<(Seq<char>, Seq<u8>)> {
    h.filter(|l: (Seq<char>, Seq<u8>)| travels(h, text::lower(l.0))).map_values(
        |l: (Seq<char>, Seq<u8>)| (text::lower(l.0), l.1),
    )
}

proof fn cleaned_is_filtered(all: Seq<(Seq<char>, Seq<u8>)>, h: Seq<(Seq<char>, Seq<u8>)>)
    ensures
        cleaned(all, h) == h.filter(
            |l: (Seq<char>, Seq<u8>)| travels(all, text::lower(l.0)),
        ).map_values(|l: (Seq<char>, Seq<u8>)| (text::lower(l.0), l.1)),
    decreases h.len(),
{
    reveal(Seq::filter);
    let keep = |l: (Seq<char>, Seq<u8>)| travels(all, text::lower(l.0));
    let low = |l: (Seq<char>, Seq<u8>)| (text::lower(l.0), l.1);
    if h.len() > 0 {
        cleaned_is_filtered(all, h.drop_last());
        listed_is_named(all, text::lower(h.last().0));
        let rest = h.drop_last().filter(keep);
        assert(rest.push(h.last()).map_values(low) =~= rest.map_values(low).push(low(h.last())));
    } else {
        assert(h.filter(keep).map_values(low) =~= Seq::<(Seq<char>, Seq<u8>)>::empty());
    }
}

/// What is stripped of a visitor's headers are those of one connection, those that the
/// `Connection` line lists and the forwarding headers. Every other line is kept.
pub proof fn only_these_headers_are_stripped(
    headers: &Vec<(String, Vec<u8>)>,
    r: Vec<(String, Vec<u8>)>,
)
    requires
        call_ensures(clean_headers, (headers,), r),
    ensures
        fields(r@) == travelling(fields(headers@)),
{
    cleaned_is_filtered(fields(headers@), fields(headers@));
}

/// The name of a connection's own header.
pub proof fn hop_by_hop_headers_are_these(name: &str, r: bool)
    requires
        call_ensures(hop_by_hop, (name,), r),
    ensures
        r == (name@ == "connection"@ || name@ == "keep-alive"@ || name@ == "proxy-authenticate"@
            || name@ == "proxy-authorization"@ || name@ == "proxy-connection"@ || name@ == "te"@
            || name@ == "trailer"@ || name@ == "transfer-encoding"@ || name@ == "upgrade"@),
{
}

/// How the headers that the edge adds look: where the request came from and by which
/// protocol, and the upgrade that was asked for.
pub open spec fn added(
    visitor: Seq<char>,
    host: Seq<char>,
    version: HttpVersion,
    upgrade: Option<UpgradeKind>,
    has_key: bool,
    key: Seq<char>,
) -> Seq<(Seq<char>, Seq<u8>)> {
    let by = match version {
        HttpVersion::Http09 => "1.1 weaver"@,
        HttpVersion::Http10 => "1.0 weaver"@,
        HttpVersion::Http11 => "1.1 weaver"@,
        HttpVersion::Http2 => "2 weaver"@,
        HttpVersion::Http3 => "3 weaver"@,
    };
    let stamps = seq![
        ("x-forwarded-for"@, vstd::utf8::encode_utf8(visitor)),
        ("x-forwarded-proto"@, vstd::utf8::encode_utf8("https"@)),
        ("x-forwarded-host"@, vstd::utf8::encode_utf8(host)),
        (
            "forwarded"@,
            vstd::utf8::encode_utf8(
                "for=\""@ + visitor + "\";proto=https;host=\""@ + host + "\""@,
            ),
        ),
        ("via"@, vstd::utf8::encode_utf8(by)),
    ];
    match upgrade {
        None => stamps,
        Some(UpgradeKind::Http1(p)) => stamps + seq![
            ("connection"@, vstd::utf8::encode_utf8("upgrade"@)),
            ("upgrade"@, vstd::utf8::encode_utf8(p@)),
        ],
        Some(UpgradeKind::ExtendedConnect(p)) => {
            let asked = stamps + seq![
                ("connection"@, vstd::utf8::encode_utf8("upgrade"@)),
                ("upgrade"@, vstd::utf8::encode_utf8(p@)),
            ];
            if text::lower(p@) == "websocket"@ && !has_key {
                asked.push(("sec-websocket-key"@, vstd::utf8::encode_utf8(key)))
            } else {
                asked
            }
        },
    }
}

/// The head that carries a visitor's request: the method, the path with its query, the
/// host, every header that travels, and what the edge adds.
pub open spec fn carries(
    head: HttpHead,
    req: VisitorRequest,
    visitor: Seq<char>,
    host: Seq<char>,
    upgrade: Option<UpgradeKind>,
    key: Seq<char>,
) -> bool {
    let kept = travelling(fields(req.headers@));
    let has_key = exists|i: int| 0 <= i < kept.len() && (#[trigger] kept[i]).0 == "sec-websocket-key"@;
    &&& head.method@ == (if upgrade matches Some(UpgradeKind::ExtendedConnect(_)) {
        "GET"@
    } else {
        req.method@
    })
    &&& head.scheme@ == "https"@
    &&& head.authority@ == host
    &&& head.path@ == (match req.path_and_query {
        Some(p) => p@,
        None => req.path@,
    })
    &&& fields(head.headers@) == kept + added(visitor, host, req.version, upgrade, has_key, key)
}

proof fn key_line_is_kept(kept: Seq<(Seq<char>, Seq<u8>)>, stamps: Seq<(Seq<char>, Seq<u8>)>)
    requires
        forall|i: int|
            0 <= i < stamps.len() ==> (#[trigger] stamps[i]).0 != "sec-websocket-key"@,
    ensures
        super::proxy::has_field(kept + stamps, "sec-websocket-key"@) == exists|i: int|
            0 <= i < kept.len() && (#[trigger] kept[i]).0 == "sec-websocket-key"@,
{
    let k = "sec-websocket-key"@;
    let all = kept + stamps;
    if exists|i: int| 0 <= i < kept.len() && (#[trigger] kept[i]).0 == k {
        let i = choose|i: int| 0 <= i < kept.len() && (#[trigger] kept[i]).0 == k;
        assert(all[i].0 == k);
    }
    if super::proxy::has_field(all, k) {
        let i = choose|i: int| 0 <= i < all.len() && (#[trigger] all[i]).0 == k;
        if i < kept.len() {
            assert(kept[i].0 == k);
        } else {
            assert(stamps[i - kept.len()].0 == k);
        }
    }
}

proof fn forwarded_carries(
    head: HttpHead,
    req: VisitorRequest,
    visitor: Seq<char>,
    host: Seq<char>,
    upgrade: Option<UpgradeKind>,
    key: Seq<char>,
)
    requires
        head@ == super::proxy::forwarded(req, visitor, host, key),
        (match upgrade {
            Some(u) => Some(u@),
            None => None,
        }) == req.upgrade(),
    ensures
        carries(head, req, visitor, host, upgrade, key),
{
    let h = fields(req.headers@);
    let kept = travelling(h);
    cleaned_is_filtered(h, h);
    let stamps = super::proxy::stamps(visitor, host, req.version);
    reveal_strlit("x-forwarded-for");
    reveal_strlit("x-forwarded-proto");
    reveal_strlit("x-forwarded-host");
    reveal_strlit("forwarded");
    reveal_strlit("via");
    reveal_strlit("sec-websocket-key");
    assert("x-forwarded-for"@[0] == 'x' && "x-forwarded-proto"@[0] == 'x' && "x-forwarded-host"@[0]
        == 'x' && "forwarded"@[0] == 'f' && "via"@[0] == 'v' && "sec-websocket-key"@[0] == 's');
    key_line_is_kept(kept, stamps);
    reveal_strlit("1.1");
    reveal_strlit("1.0");
    reveal_strlit("2");
    reveal_strlit("3");
    reveal_strlit(" weaver");
    reveal_strlit("1.1 weaver");
    reveal_strlit("1.0 weaver");
    reveal_strlit("2 weaver");
    reveal_strlit("3 weaver");
    assert("1.1"@ + " weaver"@ =~= "1.1 weaver"@);
    assert("1.0"@ + " weaver"@ =~= "1.0 weaver"@);
    assert("2"@ + " weaver"@ =~= "2 weaver"@);
    assert("3"@ + " weaver"@ =~= "3 weaver"@);
    let has_key = exists|i: int|
        0 <= i < kept.len() && (#[trigger] kept[i]).0 == "sec-websocket-key"@;
    let pair = super::proxy::upgrade_pair(req.upgrade(), kept + stamps, key);
    assert(kept + stamps + pair =~= kept + added(
        visitor,
        host,
        req.version,
        upgrade,
        has_key,
        key,
    ));
}

/// A visitor's request reaches the origin as it was made: the same method, path and
/// query, and every header that is not of one connection alone, with its value; besides
/// them stand the headers that say where it came from and nothing else.
pub proof fn requests_are_carried(
    req: &VisitorRequest,
    visitor: &str,
    host: &str,
    key: &str,
    r: HttpHead,
    upgrade: Option<UpgradeKind>,
)
    requires
        call_ensures(forward_head, (req, visitor, host, key), r),
        call_ensures(upgrade_kind, (req,), upgrade),
    ensures
        carries(r, *req, visitor@, host@, upgrade, key@),
{
    forwarded_carries(r, *req, visitor@, host@, upgrade, key@);
}

/// The same of a request with a fresh key: sixteen bytes in base64.
pub proof fn prepared_requests_are_carried(
    req: &VisitorRequest,
    visitor: &str,
    host: &str,
    r: HttpHead,
    upgrade: Option<UpgradeKind>,
)
    requires
        call_ensures(prepare_request, (req, visitor, host), r),
        call_ensures(upgrade_kind, (req,), upgrade),
    ensures
        exists|key: Seq<char>|
            key.len() == 24 && #[trigger] carries(r, *req, visitor@, host@, upgrade, key),
{
    let key = choose|key: Seq<char>|
        super::proxy::is_websocket_key(key) && r@ == #[trigger] super::proxy::forwarded(
            *req,
            visitor@,
            host@,
            key,
        );
    forwarded_carries(r, *req, visitor@, host@, upgrade, key);
}

/// A header line that is none of those listed stands in what is forwarded.
pub proof fn other_lines_travel(
    req: &VisitorRequest,
    visitor: &str,
    host: &str,
    key: &str,
    r: HttpHead,
    i: int,
)
    requires
        call_ensures(forward_head, (req, visitor, host, key), r),
        0 <= i < req.headers@.len(),
        travels(fields(req.headers@), text::lower(req.headers@[i].0@)),
    ensures
        fields(r.headers@).contains((text::lower(req.headers@[i].0@), req.headers@[i].1@)),
{
    let h = fields(req.headers@);
    listed_is_named(h, text::lower(h[i].0));
    super::proxy::other_headers_are_forwarded(h, h, i);
    let kept = cleaned(h, h);
    let line = (text::lower(h[i].0), h[i].1);
    let j = choose|j: int| 0 <= j < kept.len() && kept[j] == line;
    assert(fields(r.headers@)[j] == line);
}

/// A request asks for an upgrade by an extended CONNECT, or by a `Connection` line that
/// lists `upgrade` with an `Upgrade` line that names the protocol; and in no other way.
pub proof fn upgrades_are_recognised(req: &VisitorRequest, r: Option<UpgradeKind>, i: int, j: int)
    requires
        call_ensures(upgrade_kind, (req,), r),
    ensures
        ({
            let h = fields(req.headers@);
            let connects = req.method@ == "CONNECT"@;
            let asks = 0 <= i < h.len() && text::lower(h[i].0) == "connection"@ && has_in_list(
                h[i].1,
                "upgrade"@,
            );
            let names = is_first_line(h, "upgrade"@, j) && is_readable(h[j].1);
            &&& connects && req.protocol is Some ==> (r matches Some(
                UpgradeKind::ExtendedConnect(p),
            ) && p@ == req.protocol->0@)
            &&& connects && req.protocol is None ==> r is None
            &&& !connects && asks && names ==> (r matches Some(UpgradeKind::Http1(p)) && p@
                == characters(h[j].1))
            &&& r matches Some(UpgradeKind::ExtendedConnect(_)) ==> connects
            &&& r matches Some(UpgradeKind::Http1(_)) ==> !connects && (exists|a: int|
                0 <= a < h.len() && text::lower((#[trigger] h[a]).0) == "connection"@
                    && has_in_list(h[a].1, "upgrade"@)) && (exists|b: int| #[trigger]
                is_first_line(h, "upgrade"@, b) && is_readable(h[b].1))
        }),
{
    let h = fields(req.headers@);
    let u = "upgrade"@;
    first_value_is_first(h, u);
    if 0 <= i < h.len() {
        readable_is_text(h[i].1);
        if text::lower(h[i].0) == "connection"@ && has_in_list(h[i].1, u) {
            let k = choose|k: int|
                0 <= k < text::split_on(characters(h[i].1), ',').len() && text::lower(
                    text::trimmed(#[trigger] text::split_on(characters(h[i].1), ',')[k]),
                ) == u;
            assert(lists_token(characters(h[i].1), u));
            assert(wants_upgrade(h));
        }
    }
    if first_value(h, u) is Some {
        let b = choose|b: int| #[trigger] is_first_line(h, u, b) && h[b].1 == first_value(h, u)->0;
        readable_is_text(h[b].1);
        if is_first_line(h, u, j) {
            one_first_line(h, u, b, j);
        }
    } else if is_first_line(h, u, j) {
        assert(text::lower(h[j].0) != u);
    }
    if r matches Some(UpgradeKind::Http1(_)) {
        let a = choose|a: int|
            0 <= a < h.len() && text::lower((#[trigger] h[a]).0) == "connection"@ && (value_text(
                h[a].1,
            ) matches Some(s) && lists_token(s, u));
        readable_is_text(h[a].1);
        assert(has_in_list(h[a].1, u));
    }
}

/// What a response head means: 101 where an upgrade was asked for is the switch, any
/// other 1xx is interim, and everything else is final.
pub proof fn heads_have_one_meaning(status: u16, wanted: bool, r: HeadMeaning)
    requires
        call_ensures(head_meaning, (status, wanted), r),
    ensures
        (r == HeadMeaning::Switching) == (status == 101 && wanted),
        (r == HeadMeaning::Interim) == (100 <= status <= 199 && !(status == 101 && wanted)),
        (r == HeadMeaning::Final) == (status < 100 || status > 199),
{
}

/// A line that HTTP allows: its name is one to 65535 token characters, and its value
/// holds no control character but tabs.
pub open spec fn is_header_line(l: (Seq<char>, Seq<u8>)) -> bool {
    let name = vstd::utf8::encode_utf8(l.0);
    &&& 1 <= name.len() <= 65535
    &&& forall|i: int|
        0 <= i < name.len() ==> (0x61 <= #[trigger] name[i] <= 0x7a || 0x41 <= name[i] <= 0x5a
            || 0x30 <= name[i] <= 0x39 || "!#$%&'*+-.^_`|~"@.contains(name[i] as char))
    &&& forall|i: int|
        0 <= i < l.1.len() ==> ((#[trigger] l.1[i]) >= 32 && l.1[i] != 127) || l.1[i] == 9
}

proof fn token_bytes(b: u8)
    ensures
        super::proxy::is_token_byte(b) == (0x61 <= b <= 0x7a || 0x41 <= b <= 0x5a || 0x30 <= b
            <= 0x39 || "!#$%&'*+-.^_`|~"@.contains(b as char)),
{
    reveal_strlit("!#$%&'*+-.^_`|~");
    let s = "!#$%&'*+-.^_`|~"@;
    assert(s =~= seq!['!', '#', '$', '%', '&', '\'', '*', '+', '-', '.', '^', '_', '`', '|', '~']);
    assert(s[0] == '!' && s[1] == '#' && s[2] == '$' && s[3] == '%' && s[4] == '&' && s[5] == '\''
        && s[6] == '*' && s[7] == '+' && s[8] == '-' && s[9] == '.' && s[10] == '^' && s[11] == '_'
        && s[12] == '`' && s[13] == '|' && s[14] == '~');
    if s.contains(b as char) {
        let i = choose|i: int| 0 <= i < s.len() && s[i] == b as char;
        assert(0 <= i < 15);
    }
}

proof fn returned_is_filtered(h: Seq<(Seq<char>, Seq<u8>)>, bare: bool)
    ensures
        returned(h, bare) == h.filter(
            |l: (Seq<char>, Seq<u8>)|
                is_header_line(l) && !(bare && (text::lower(l.0) == "connection"@ || text::lower(
                    l.0,
                ) == "upgrade"@ || text::lower(l.0) == "sec-websocket-accept"@)),
        ),
    decreases h.len(),
{
    reveal(Seq::filter);
    if h.len() > 0 {
        returned_is_filtered(h.drop_last(), bare);
        let l = h.last();
        let name = vstd::utf8::encode_utf8(l.0);
        assert forall|i: int| 0 <= i < name.len() implies super::proxy::is_token_byte(
            #[trigger] name[i],
        ) == (0x61 <= name[i] <= 0x7a || 0x41 <= name[i] <= 0x5a || 0x30 <= name[i] <= 0x39
            || "!#$%&'*+-.^_`|~"@.contains(name[i] as char)) by {
            token_bytes(name[i]);
        }
        if super::proxy::is_header_name(name) {
            assert forall|i: int| 0 <= i < name.len() implies (0x61 <= #[trigger] name[i] <= 0x7a
                || 0x41 <= name[i] <= 0x5a || 0x30 <= name[i] <= 0x39
                || "!#$%&'*+-.^_`|~"@.contains(name[i] as char)) by {
                assert(super::proxy::is_token_byte(name[i]));
            }
        }
        assert(is_header_line(l) == (super::proxy::is_header_name(name)
            && super::proxy::is_header_value(l.1)));
    }
}

/// The origin's answer reaches the visitor as it was given: every status from 100 to 999
/// is kept, and only one that is none becomes 500; every header line that HTTP allows is
/// kept, in order and with its value. Only an agreed upgrade is answered otherwise: an
/// extended CONNECT with 200 and without the lines of the HTTP/1.1 handshake, any other
/// with 101.
pub proof fn answers_are_carried(
    head: &HttpResponseHead,
    meaning: HeadMeaning,
    connect: bool,
    r: HttpResponseHead,
)
    requires
        call_ensures(visitor_response, (head, meaning, connect), r),
    ensures
        ({
            let switching = meaning == HeadMeaning::Switching;
            &&& !switching && 100 <= head.status <= 999 ==> r.status == head.status
            &&& !switching && !(100 <= head.status <= 999) ==> r.status == 500
            &&& switching && connect ==> r.status == 200
            &&& switching && !connect ==> r.status == 101
            &&& fields(r.headers@) == fields(head.headers@).filter(
                |l: (Seq<char>, Seq<u8>)|
                    is_header_line(l) && !(switching && connect && (text::lower(l.0)
                        == "connection"@ || text::lower(l.0) == "upgrade"@ || text::lower(l.0)
                        == "sec-websocket-accept"@)),
            )
        }),
{
    let switching = meaning == HeadMeaning::Switching;
    returned_is_filtered(fields(head.headers@), switching && connect);
    let a = |l: (Seq<char>, Seq<u8>)|
        is_header_line(l) && !(switching && connect && (text::lower(l.0) == "connection"@
            || text::lower(l.0) == "upgrade"@ || text::lower(l.0) == "sec-websocket-accept"@));
    let bare = switching && connect;
    let b = |l: (Seq<char>, Seq<u8>)|
        is_header_line(l) && !(bare && (text::lower(l.0) == "connection"@ || text::lower(l.0)
            == "upgrade"@ || text::lower(l.0) == "sec-websocket-accept"@));
    assert(a =~= b);
}

/// Trailers reach the visitor as they were sent, as far as HTTP allows them.
pub proof fn trailers_are_carried(lines: &Vec<(String, Vec<u8>)>, r: Vec<(String, Vec<u8>)>)
    requires
        call_ensures(visitor_trailers, (lines,), r),
    ensures
        fields(r@) == fields(lines@).filter(|l: (Seq<char>, Seq<u8>)| is_header_line(l)),
{
    let bare = false;
    returned_is_filtered(fields(lines@), bare);
    let a = |l: (Seq<char>, Seq<u8>)| is_header_line(l);
    let b = |l: (Seq<char>, Seq<u8>)|
        is_header_line(l) && !(bare && (text::lower(l.0) == "connection"@ || text::lower(l.0)
            == "upgrade"@ || text::lower(l.0) == "sec-websocket-accept"@));
    assert(a =~= b);
    assert(fields(r@) == fields(lines@).filter(b));
}

/// A visitor is known by their own address: the IPv4 address behind a mapped one, any
/// other as it is.
pub proof fn visitors_are_known_by_their_address(ip: IpAddress, r: IpAddress)
    requires
        call_ensures(visitor_address, (ip,), r),
    ensures
        match ip {
            IpAddress::V4(o) => r matches IpAddress::V4(p) && p@ == o@,
            IpAddress::V6(s) => if s@[0] == 0 && s@[1] == 0 && s@[2] == 0 && s@[3] == 0 && s@[4]
                == 0 && s@[5] == 0xffff {
                r matches IpAddress::V4(p) && p@[0] * 256 + p@[1] == s@[6] && p@[2] * 256 + p@[3]
                    == s@[7]
            } else {
                r matches IpAddress::V6(t) && t@ == s@
            },
        },
{
}

/// What the failures of the proxy path are called.
pub proof fn proxy_failures_are_named(e: &ProxyError, r: String)
    requires
        call_ensures(ProxyError::message, (e,), r),
    ensures
        r@ == (match *e {
            ProxyError::OriginUnreachable => "origin unreachable"@,
            ProxyError::Reset => "tunnel stream reset"@,
            ProxyError::ConnectionClosed => "tunnel connection terminated"@,
            ProxyError::Codec(s) => "protocol codec error: "@ + s@,
            ProxyError::Mux(s) => "multiplexer error: "@ + s@,
        }),
{
}

/// The first line of a name, in any case, is the one that is found, and its value is
/// text where it is readable.
pub proof fn first_lines_are_found(
    headers: &Vec<(String, Vec<u8>)>,
    name: &str,
    value: Option<&Vec<u8>>,
    read: Option<String>,
    i: int,
)
    requires
        call_ensures(find_value, (headers, name), value),
        call_ensures(find_text, (headers, name), read),
    ensures
        ({
            let h = fields(headers@);
            &&& is_first_line(h, name@, i) ==> (value matches Some(v) && v@ == h[i].1)
            &&& is_first_line(h, name@, i) ==> read is Some == is_readable(h[i].1)
            &&& is_first_line(h, name@, i) && read is Some ==> read->0@ == characters(h[i].1)
            &&& value is None || read is Some ==> value is Some == read is Some
            &&& value is Some ==> exists|j: int| #[trigger] is_first_line(h, name@, j)
        }),
{
    let h = fields(headers@);
    first_value_is_first(h, name@);
    if first_value(h, name@) is Some {
        let j = choose|j: int| #[trigger]
            is_first_line(h, name@, j) && h[j].1 == first_value(h, name@)->0;
        readable_is_text(h[j].1);
        if is_first_line(h, name@, i) {
            one_first_line(h, name@, i, j);
        }
    } else if is_first_line(h, name@, i) {
        assert(text::lower(h[i].0) != name@);
    }
}

/// The frames of a request body reach the origin in the order they came: a frame is
/// queued behind the others and its reader waits.
pub proof fn body_frames_queue_up<U, D>(x: &mut Exchange<U, D>, frame: U)
    requires
        call_ensures(Exchange::<U, D>::queue_body, (x, frame), ()),
    ensures
        final(x)@.up == old(x)@.up.push(frame),
        final(x)@.reader_parked,
        toward_visitor_stays(old(x)@, final(x)@),
        final(x)@.body_done == old(x)@.body_done,
{
}

/// Nothing changes toward the visitor, nor what the exchange is.
pub open spec fn toward_visitor_stays<U, D>(
    a: ExchangeFacts<U, D>,
    b: ExchangeFacts<U, D>,
) -> bool {
    &&& b.awaiting_head == a.awaiting_head
    &&& b.has_sink == a.has_sink
    &&& b.upgrade_wanted == a.upgrade_wanted
    &&& b.visitor_connect == a.visitor_connect
    &&& b.piped == a.piped
    &&& b.down == a.down
    &&& b.forwarding == a.forwarding
    &&& b.down_paused == a.down_paused
    &&& b.client_done == a.client_done
}

/// Nothing changes toward the origin, nor what the exchange is.
pub open spec fn toward_origin_stays<U, D>(
    a: ExchangeFacts<U, D>,
    b: ExchangeFacts<U, D>,
) -> bool {
    &&& b.up == a.up
    &&& b.reader_parked == a.reader_parked
    &&& b.body_done == a.body_done
    &&& b.visitor_connect == a.visitor_connect
}

/// The frame that waits longest is sent next; it leaves the queue when it was sent, stays
/// while there is no credit, and where it cannot be sent the queue is given up.
pub proof fn body_frames_leave_in_order<U, D>(
    x: &mut Exchange<U, D>,
    seen: &Exchange<U, D>,
    next: Option<&U>,
    outcome: SendOutcome,
    go_on: bool,
)
    requires
        *seen == *old(x),
        call_ensures(Exchange::<U, D>::next_body, (seen,), next),
        call_ensures(Exchange::<U, D>::body_sent, (x, outcome), go_on),
    ensures
        next is Some == (old(x)@.up.len() > 0),
        next matches Some(f) ==> *f == old(x)@.up[0],
        outcome == SendOutcome::Sent ==> go_on && final(x)@.up == old(x)@.up.subrange(
            1,
            old(x)@.up.len() as int,
        ),
        outcome == SendOutcome::WouldBlock ==> !go_on && final(x)@.up == old(x)@.up,
        outcome == SendOutcome::Failed ==> !go_on && final(x)@.up.len() == 0,
        toward_visitor_stays(old(x)@, final(x)@),
        final(x)@.body_done == old(x)@.body_done,
        final(x)@.reader_parked == old(x)@.reader_parked,
{
}

/// A reader that waits goes on as soon as fewer than eight frames are queued, and the
/// stream's half ends exactly where the body has ended and is all sent, unless the exchange
/// is a pipe or was to become one.
pub proof fn readers_are_paced<U, D>(
    x: &mut Exchange<U, D>,
    y: &mut Exchange<U, D>,
    end: DrainEnd,
    resume: bool,
)
    requires
        *old(y) == *old(x),
        call_ensures(Exchange::<U, D>::drain_end, (x,), end),
        call_ensures(Exchange::<U, D>::settle_reader, (y,), resume),
    ensures
        ({
            let f = old(x)@;
            &&& end.resume == (f.reader_parked && f.up.len() < 8)
            &&& resume == end.resume
            &&& end.finish == (f.body_done && f.up.len() == 0 && !f.piped && !f.upgrade_wanted)
            &&& final(x)@.reader_parked == (f.reader_parked && f.up.len() >= 8)
            &&& final(y)@ == final(x)@
            &&& toward_visitor_stays(f, final(x)@)
            &&& final(x)@.up == f.up && final(x)@.body_done == f.body_done
        }),
{
}

/// The end of a body is noted, and that of a pipe makes the exchange an ordinary one.
pub proof fn bodies_end<U, D>(x: &mut Exchange<U, D>, y: &mut Exchange<U, D>)
    requires
        call_ensures(Exchange::<U, D>::end_body, (x,), ()),
        call_ensures(Exchange::<U, D>::end_pipe, (y,), ()),
    ensures
        final(x)@.body_done,
        final(x)@.up == old(x)@.up,
        final(x)@.reader_parked == old(x)@.reader_parked,
        toward_visitor_stays(old(x)@, final(x)@),
        final(y)@.body_done,
        !final(y)@.piped,
        final(y)@.up == old(y)@.up,
        final(y)@.down == old(y)@.down,
        final(y)@.has_sink == old(y)@.has_sink,
        final(y)@.upgrade_wanted == old(y)@.upgrade_wanted,
        final(y)@.client_done == old(y)@.client_done,
        final(y)@.forwarding == old(y)@.forwarding,
        final(y)@.down_paused == old(y)@.down_paused,
        final(y)@.awaiting_head == old(y)@.awaiting_head,
        final(y)@.reader_parked == old(y)@.reader_parked,
{
}

/// A frame of the response waits behind the others for the visitor; from the sixty-fourth
/// on the stream is not read. Before there is anyone to take it, it is dropped.
pub proof fn response_frames_queue_up<U, D>(x: &mut Exchange<U, D>, frame: D)
    requires
        call_ensures(Exchange::<U, D>::queue_down, (x, frame), ()),
    ensures
        old(x)@.has_sink ==> final(x)@.down == old(x)@.down.push(frame),
        old(x)@.has_sink ==> final(x)@.down_paused == (old(x)@.down_paused || final(x)@.down.len()
            >= 64),
        !old(x)@.has_sink ==> final(x)@.down == old(x)@.down && final(x)@.down_paused == old(x)@.down_paused,
        toward_origin_stays(old(x)@, final(x)@),
        final(x)@.awaiting_head == old(x)@.awaiting_head,
        final(x)@.has_sink == old(x)@.has_sink,
        final(x)@.piped == old(x)@.piped,
        final(x)@.upgrade_wanted == old(x)@.upgrade_wanted,
        final(x)@.forwarding == old(x)@.forwarding,
        final(x)@.client_done == old(x)@.client_done,
{
}

/// One frame at a time is handed to the visitor, the oldest first; the exchange is over
/// when the client has finished and nothing is left. Reading goes on once fewer than
/// sixteen frames wait.
pub proof fn response_frames_leave_in_order<U, D>(
    x: &mut Exchange<U, D>,
    r: Pump<D>,
    y: &mut Exchange<U, D>,
    seen: &Exchange<U, D>,
    read: bool,
    z: &mut Exchange<U, D>,
    ends: bool,
)
    requires
        call_ensures(Exchange::<U, D>::pump_down, (x,), r),
        call_ensures(Exchange::<U, D>::forwarded, (y,), ()),
        call_ensures(Exchange::<U, D>::may_read, (seen,), read),
        call_ensures(Exchange::<U, D>::client_finished, (z,), ends),
    ensures
        ({
            let f = old(x)@;
            let ready = !f.forwarding && f.down.len() > 0 && f.has_sink;
            &&& ready ==> r == Pump::Send(f.down[0])
            &&& ready ==> final(x)@.down == f.down.subrange(1, f.down.len() as int)
            &&& ready ==> final(x)@.forwarding
            &&& ready ==> final(x)@.down_paused == (f.down_paused && f.down.len() - 1 >= 16)
            &&& !ready ==> !(r is Send)
            &&& !ready ==> final(x)@.down_paused == f.down_paused
            &&& (f.forwarding || f.down.len() == 0) ==> final(x)@ == f
            &&& r is Fin == (!f.forwarding && f.down.len() == 0 && f.client_done)
            &&& toward_origin_stays(f, final(x)@)
            &&& final(x)@.client_done == f.client_done
            &&& final(x)@.has_sink == f.has_sink
            &&& final(x)@.piped == f.piped
        }),
        !final(y)@.forwarding,
        final(y)@.down == old(y)@.down,
        final(y)@.down_paused == old(y)@.down_paused,
        toward_origin_stays(old(y)@, final(y)@),
        read == !seen@.down_paused,
        ends == (!old(z)@.forwarding && old(z)@.down.len() == 0),
        final(z)@.client_done,
        final(z)@.down == old(z)@.down,
        final(z)@.forwarding == old(z)@.forwarding,
        toward_origin_stays(old(z)@, final(z)@),
{
}

/// What a response head leads to: an interim one to nothing, the one that grants the
/// upgrade to a pipe, and the final one to the response; the visitor gets the head that
/// the client sent. One that cannot be read is reported.
pub proof fn response_heads_are_handed_on<U, D>(
    x: &mut Exchange<U, D>,
    decoded: Result<HttpResponseHead, String>,
    r: HeadStep,
    head: &HttpResponseHead,
    meaning: HeadMeaning,
    answer: HttpResponseHead,
)
    requires
        call_ensures(Exchange::<U, D>::on_response_head, (x, decoded), r),
        decoded matches Ok(h) ==> *head == h,
        call_ensures(head_meaning, (head.status, old(x)@.upgrade_wanted), meaning),
        call_ensures(visitor_response, (head, meaning, old(x)@.visitor_connect), answer),
    ensures
        decoded matches Err(e) ==> (r matches HeadStep::Unreadable(ProxyError::Codec(why)) && why@
            == e@) && !final(x)@.awaiting_head && !final(x)@.piped == !old(x)@.piped,
        decoded is Ok && meaning == HeadMeaning::Interim ==> r is Interim && final(x)@ == old(x)@,
        decoded is Ok && meaning == HeadMeaning::Switching ==> (r matches HeadStep::Switch(a)
            && a.status == answer.status && fields(a.headers@) == fields(answer.headers@))
            && final(x)@.piped && final(x)@.has_sink && !final(x)@.awaiting_head && !final(x)@.upgrade_wanted,
        decoded is Ok && meaning == HeadMeaning::Final ==> (r matches HeadStep::Respond(a)
            && a.status == answer.status && fields(a.headers@) == fields(answer.headers@))
            && final(x)@.has_sink && !final(x)@.awaiting_head && final(x)@.piped == old(x)@.piped
            && final(x)@.upgrade_wanted == old(x)@.upgrade_wanted,
        final(x)@.up == old(x)@.up,
        final(x)@.down == old(x)@.down,
        final(x)@.body_done == old(x)@.body_done,
        final(x)@.reader_parked == old(x)@.reader_parked,
        final(x)@.client_done == old(x)@.client_done,
        final(x)@.forwarding == old(x)@.forwarding,
        final(x)@.visitor_connect == old(x)@.visitor_connect,
{
}

/// A new exchange waits for its head and holds nothing.
pub proof fn new_exchanges_are_empty<U, D>(wanted: bool, connect: bool, r: Exchange<U, D>)
    requires
        call_ensures(Exchange::<U, D>::new, (wanted, connect), r),
    ensures
        r@.awaiting_head && !r@.has_sink && !r@.reader_parked && !r@.body_done && !r@.piped
            && !r@.forwarding && !r@.down_paused && !r@.client_done,
        r@.up.len() == 0 && r@.down.len() == 0,
        r@.upgrade_wanted == wanted && r@.visitor_connect == connect,
{
}

/// The hostname of a service is `<service>.<machine>.<person>.<root>` in lower case.
pub proof fn hostnames_are_derived(service: &str, identity: &Identity, root: &str, r: String)
    requires
        call_ensures(derive_hostname, (service, identity, root), r),
    ensures
        r@ == text::lower(
            service@ + seq!['.'] + identity.machine@ + seq!['.'] + identity.person@ + seq!['.']
                + root@,
        ),
{
    reveal_strlit(".");
    assert(text::lower(
        service@ + seq!['.'] + identity.machine@ + seq!['.'] + identity.person@ + seq!['.'] + root@,
    ) =~= r@);
}

/// The hostnames are no longer routed, and every other is routed as it was.
pub open spec fn unrouted<C>(
    a: RegistryFacts<C>,
    b: RegistryFacts<C>,
    hosts: Set<Seq<char>>,
) -> bool {
    &&& forall|h: Seq<char>| #[trigger]
        b.routes.contains_key(h) == (a.routes.contains_key(h) && !hosts.contains(h))
    &&& forall|h: Seq<char>| #[trigger] b.routes.contains_key(h) ==> b.routes[h] == a.routes[h]
    &&& b.root == a.root
}

/// The hostnames are no longer active and that is to be stored; nothing else changes.
pub open spec fn silenced<K>(
    a: ManagerFacts<K>,
    b: ManagerFacts<K>,
    hosts: Set<Seq<char>>,
) -> bool {
    &&& forall|h: Seq<char>| #[trigger]
        b.active.contains(h) == (a.active.contains(h) && !hosts.contains(h))
    &&& forall|h: Seq<char>| #[trigger]
        b.released.contains(h) == (a.released.contains(h) || hosts.contains(h))
    &&& forall|h: Seq<char>| #[trigger]
        b.unsaved.contains(h) == (a.unsaved.contains(h) || hosts.contains(h))
    &&& b.root == a.root
    &&& b.states == a.states
    &&& b.failures == a.failures
    &&& b.in_flight == a.in_flight
    &&& b.orders == a.orders
    &&& b.stored == a.stored
    &&& b.ordering == a.ordering
    &&& b.changes == a.changes
}

/// The connections of all other keys are as they were.
pub open spec fn other_connections_stay<C>(
    a: RegistryFacts<C>,
    b: RegistryFacts<C>,
    key: Seq<char>,
) -> bool {
    forall|k: Seq<char>|
        k != key ==> #[trigger] b.connections.contains_key(k) == a.connections.contains_key(k) && (
        a.connections.contains_key(k) ==> b.connections[k] == a.connections[k])
}

/// The hostnames that a key's connection serves.
pub open spec fn hosts_of<C>(f: RegistryFacts<C>, key: Seq<char>) -> Set<Seq<char>> {
    if f.connections.contains_key(key) {
        f.connections[key].services
    } else {
        Set::empty()
    }
}

/// A new connection of a key takes the place of the earlier one: that one's hostnames are
/// no longer routed nor active, and the numbers count up.
pub proof fn connections_are_registered<C, K>(
    registry: &mut TunnelRegistry<C>,
    key: &str,
    manager: &mut CertManager<K>,
    r: (u64, Option<u64>, Vec<String>),
)
    requires
        call_ensures(TunnelRegistry::<C>::register_connection::<K>, (registry, key, manager), r),
    ensures
        ({
            let a = old(registry)@;
            let b = final(registry)@;
            &&& r.0 == a.next_id
            &&& a.next_id < u64::MAX ==> b.next_id == a.next_id + 1
            &&& a.next_id == u64::MAX ==> b.next_id == 0
            &&& r.1 is Some == a.connections.contains_key(key@)
            &&& r.1 is Some ==> r.1->0 == a.connections[key@].id
            &&& text::texts(r.2@).to_set() == hosts_of(a, key@)
            &&& b.connections.contains_key(key@)
            &&& b.connections[key@].id == r.0
            &&& b.connections[key@].services == Set::<Seq<char>>::empty()
            &&& other_connections_stay(a, b, key@)
            &&& unrouted(a, b, hosts_of(a, key@))
            &&& silenced(old(manager)@, final(manager)@, hosts_of(a, key@))
        }),
{
}

/// The end of a key's current connection takes its hostnames out of service. That of an
/// earlier one changes nothing.
pub proof fn connections_are_unregistered<C, K>(
    registry: &mut TunnelRegistry<C>,
    key: &str,
    id: u64,
    manager: &mut CertManager<K>,
    r: Vec<String>,
)
    requires
        call_ensures(
            TunnelRegistry::<C>::unregister_connection::<K>,
            (registry, key, id, manager),
            r,
        ),
    ensures
        ({
            let a = old(registry)@;
            let b = final(registry)@;
            if a.connections.contains_key(key@) && a.connections[key@].id == id {
                &&& !b.connections.contains_key(key@)
                &&& other_connections_stay(a, b, key@)
                &&& unrouted(a, b, a.connections[key@].services)
                &&& silenced(old(manager)@, final(manager)@, a.connections[key@].services)
                &&& text::texts(r@).to_set() == a.connections[key@].services
                &&& b.next_id == a.next_id
            } else {
                b == a && final(manager)@ == old(manager)@ && text::texts(r@).to_set()
                    == Set::<Seq<char>>::empty()
            }
        }),
{
}

/// A service of a known client with a valid name is registered under its hostname unless
/// that is taken: a lookup then finds the route with the client's key and channel. Every
/// other hostname is routed as before.
pub proof fn services_are_registered<C>(
    registry: &mut TunnelRegistry<C>,
    key: &str,
    id: u64,
    service: &str,
    valid: bool,
    identity: Option<&Identity>,
    channel: C,
    r: Result<String, RefusalCode>,
    root: &str,
    derived: String,
)
    requires
        call_ensures(
            TunnelRegistry::<C>::register_service,
            (registry, key, id, service, valid, identity, channel),
            r,
        ),
        root@ == old(registry)@.root,
        identity matches Some(i) ==> call_ensures(derive_hostname, (service, i, root), derived),
    ensures
        ({
            let a = old(registry)@;
            let b = final(registry)@;
            let host = derived@;
            let taken = a.routes.contains_key(host);
            &&& !valid ==> r == Err::<String, RefusalCode>(RefusalCode::InvalidName)
            &&& valid && identity is None ==> r == Err::<String, RefusalCode>(
                RefusalCode::Unauthorized,
            )
            &&& valid && identity is Some && taken ==> r == Err::<String, RefusalCode>(
                RefusalCode::AlreadyRegistered,
            )
            &&& r is Err ==> b == a
            &&& valid && identity is Some && !taken ==> {
                &&& r matches Ok(h) && h@ == host
                &&& b.routes.contains_key(host)
                &&& b.routes[host].hostname@ == host
                &&& b.routes[host].service@ == service@
                &&& b.routes[host].key_id@ == key@
                &&& b.routes[host].channel == channel
                &&& forall|h: Seq<char>|
                    h != host ==> #[trigger] b.routes.contains_key(h) == a.routes.contains_key(h)
                &&& forall|h: Seq<char>|
                    h != host && #[trigger] a.routes.contains_key(h) ==> b.routes[h] == a.routes[h]
                &&& other_connections_stay(a, b, key@)
                &&& b.connections.contains_key(key@) == a.connections.contains_key(key@)
                &&& a.connections.contains_key(key@) ==> b.connections[key@].id
                    == a.connections[key@].id
                &&& a.connections.contains_key(key@) && a.connections[key@].id == id
                    ==> b.connections[key@].services == a.connections[key@].services.insert(host)
                &&& a.connections.contains_key(key@) && a.connections[key@].id != id
                    ==> b.connections[key@].services == a.connections[key@].services
                &&& b.next_id == a.next_id && b.root == a.root
            }
        }),
{
    if identity is Some {
        let i = *identity->0;
        let full = service@ + seq!['.'] + i.machine@ + seq!['.'] + i.person@ + seq!['.'] + root@;
        hostnames_are_derived(service, identity->0, root, derived);
        text::lower_idempotent(full);
    }
}

/// A service is given up by the key that it is routed to and by no other: its hostname is
/// then neither routed nor active.
pub proof fn services_are_unregistered<C, K>(
    registry: &mut TunnelRegistry<C>,
    key: &str,
    hostname: &str,
    manager: &mut CertManager<K>,
    r: bool,
)
    requires
        call_ensures(
            TunnelRegistry::<C>::unregister_service::<K>,
            (registry, key, hostname, manager),
            r,
        ),
    ensures
        gives_up(
            old(registry)@,
            final(registry)@,
            old(manager)@,
            final(manager)@,
            key@,
            hostname@,
            r,
        ),
{
    given_up_is_silenced(old(registry)@, old(manager)@, key@, hostname@);
}

/// A key gives a hostname up: where it is the key's own it is taken out of service,
/// otherwise nothing changes.
pub open spec fn gives_up<C, K>(
    a: RegistryFacts<C>,
    b: RegistryFacts<C>,
    m: ManagerFacts<K>,
    n: ManagerFacts<K>,
    key: Seq<char>,
    hostname: Seq<char>,
    own: bool,
) -> bool {
    let host = text::lower(hostname);
    &&& own == (a.routes.contains_key(host) && a.routes[host].key_id@ == key)
    &&& !own ==> b == a && n == m
    &&& own ==> {
        &&& unrouted(a, b, set![host])
        &&& silenced(m, n, set![host])
        &&& other_connections_stay(a, b, key)
        &&& b.connections.contains_key(key) == a.connections.contains_key(key)
        &&& a.connections.contains_key(key) ==> b.connections[key].id == a.connections[key].id
            && b.connections[key].services == a.connections[key].services.remove(host)
        &&& b.next_id == a.next_id
    }
}

proof fn given_up_is_silenced<C, K>(
    a: RegistryFacts<C>,
    m: ManagerFacts<K>,
    key: Seq<char>,
    hostname: Seq<char>,
)
    ensures
        gives_up(
            a,
            a.without_service(key, hostname),
            m,
            super::registry::given_up(a, m, key, hostname),
            key,
            hostname,
            a.owns(key, hostname),
        ),
{
}

/// A lookup finds the route of the hostname, in any case, exactly where there is one.
pub proof fn routes_are_found<C>(
    registry: &TunnelRegistry<C>,
    hostname: &str,
    r: Option<&TunnelRoute<C>>,
)
    requires
        call_ensures(TunnelRegistry::<C>::lookup, (registry, hostname), r),
    ensures
        r is Some == registry@.routes.contains_key(text::lower(hostname@)),
        r matches Some(t) ==> *t == registry@.routes[text::lower(hostname@)],
{
}

/// What a client is told of a refusal.
pub proof fn refusals_are_explained(code: &RefusalCode, service: &str, r: String)
    requires
        call_ensures(refused, (code, service), r),
    ensures
        r@ == (match *code {
            RefusalCode::AlreadyRegistered => "Service '"@ + service@ + "' is already registered"@,
            RefusalCode::InvalidName => "Service '"@ + service@ + "' is not a valid DNS label"@,
            RefusalCode::Unauthorized => "Unauthorized client identity"@,
            RefusalCode::UnsupportedVersion { min, max } =>
                "unsupported application protocol version (relay accepts "@
                + crate::number::decimal(min as nat) + "..="@ + crate::number::decimal(max as nat)
                + ")"@,
            RefusalCode::Other(s) => s@,
        }),
{
}

/// An authenticated client is known by its key and by the number of its connection, which
/// supersedes an earlier one of the key.
pub proof fn clients_are_known_by_their_key<U, D, C, K>(
    relay: &mut RelayHandler<U, D>,
    key: &str,
    registry: &mut TunnelRegistry<C>,
    manager: &mut CertManager<K>,
    r: (u64, Option<u64>),
)
    requires
        call_ensures(
            RelayHandler::<U, D>::on_authenticated::<C, K>,
            (relay, key, registry, manager),
            r,
        ),
    ensures
        final(relay)@.key == Some(key@),
        final(relay)@.conn_id == Some(r.0),
        final(relay)@.leases == old(relay)@.leases,
        final(relay)@.exchanges == old(relay)@.exchanges,
        r.0 == old(registry)@.next_id,
        r.1 is Some == old(registry)@.connections.contains_key(key@),
        r.1 is Some ==> r.1->0 == old(registry)@.connections[key@].id,
        final(registry)@.connections.contains_key(key@),
        final(registry)@.connections[key@].id == r.0,
        unrouted(old(registry)@, final(registry)@, hosts_of(old(registry)@, key@)),
        silenced(old(manager)@, final(manager)@, hosts_of(old(registry)@, key@)),
        other_connections_stay(old(registry)@, final(registry)@, key@),
{
}

/// A connection that closes takes its services along, unless a newer one of its key is
/// there.
pub proof fn closed_connections_serve_nothing<U, D, C, K>(
    relay: &RelayHandler<U, D>,
    registry: &mut TunnelRegistry<C>,
    manager: &mut CertManager<K>,
)
    requires
        call_ensures(RelayHandler::<U, D>::on_closed::<C, K>, (relay, registry, manager), ()),
    ensures
        ({
            let a = old(registry)@;
            let b = final(registry)@;
            let current = relay@.key is Some && relay@.conn_id is Some && a.connections.contains_key(
                relay@.key->0,
            ) && a.connections[relay@.key->0].id == relay@.conn_id->0;
            &&& !current ==> b == a && final(manager)@ == old(manager)@
            &&& current ==> !b.connections.contains_key(relay@.key->0)
            &&& current ==> unrouted(a, b, a.connections[relay@.key->0].services)
            &&& current ==> silenced(
                old(manager)@,
                final(manager)@,
                a.connections[relay@.key->0].services,
            )
            &&& current ==> other_connections_stay(a, b, relay@.key->0)
        }),
{
}

/// A message on a stream belongs to the response that is awaited there, or comes where the
/// control stream has said all it may, or is the first of its stream.
pub proof fn messages_have_their_place<U, D>(relay: &RelayHandler<U, D>, id: u64, r: MessagePlace)
    requires
        call_ensures(RelayHandler::<U, D>::message_place, (relay, id), r),
    ensures
        (r == MessagePlace::Response) == relay@.exchanges.contains_key(id),
        (r == MessagePlace::AfterControl) == (!relay@.exchanges.contains_key(id)
            && relay@.leases.contains_key(id)),
        (r == MessagePlace::First) == (!relay@.exchanges.contains_key(id)
            && !relay@.leases.contains_key(id)),
{
}

/// All that is on the other streams stays.
pub open spec fn other_leases_stay<U, D>(a: RelayFacts<U, D>, b: RelayFacts<U, D>, id: u64) -> bool {
    &&& b.key == a.key
    &&& b.conn_id == a.conn_id
    &&& forall|k: u64|
        k != id ==> #[trigger] b.leases.contains_key(k) == a.leases.contains_key(k) && (
        a.leases.contains_key(k) ==> b.leases[k] == a.leases[k])
}

/// A stream is given up: the lease of a registered service goes, one that is pending is
/// marked, and the service is unregistered.
pub open spec fn releases<U, D, C, K>(
    a: RelayFacts<U, D>,
    b: RelayFacts<U, D>,
    f: RegistryFacts<C>,
    g: RegistryFacts<C>,
    m: ManagerFacts<K>,
    n: ManagerFacts<K>,
    id: u64,
    finish: bool,
) -> bool {
    let held = a.leases.contains_key(id);
    let registered = held && a.leases[id] is Registered;
    &&& finish == registered
    &&& registered ==> !b.leases.contains_key(id)
    &&& held && !registered ==> b.leases.contains_key(id) && b.leases[id] is Released
    &&& !held ==> !b.leases.contains_key(id)
    &&& other_leases_stay(a, b, id)
    &&& registered && a.key is Some ==> exists|own: bool| #[trigger]
        gives_up(f, g, m, n, a.key->0, a.leases[id]->Registered_0, own)
    &&& !(registered && a.key is Some) ==> g == f && n == m
}

/// A service is registered exactly as long as its control stream is open.
pub proof fn leases_are_released<U, D, C, K>(
    relay: &mut RelayHandler<U, D>,
    id: u64,
    registry: &mut TunnelRegistry<C>,
    manager: &mut CertManager<K>,
    finish: bool,
)
    requires
        call_ensures(
            RelayHandler::<U, D>::release_lease::<C, K>,
            (relay, id, registry, manager),
            finish,
        ),
    ensures
        releases(
            old(relay)@,
            final(relay)@,
            old(registry)@,
            final(registry)@,
            old(manager)@,
            final(manager)@,
            id,
            finish,
        ),
        final(relay)@.exchanges == old(relay)@.exchanges,
{
    if old(relay)@.is_registered(id) && old(relay)@.key is Some {
        lease_goes(old(relay)@, old(registry)@, old(manager)@, id);
    }
}

proof fn lease_goes<U, D, C, K>(
    a: RelayFacts<U, D>,
    f: RegistryFacts<C>,
    m: ManagerFacts<K>,
    id: u64,
)
    requires
        a.is_registered(id),
        a.key is Some,
    ensures
        ({
            let key = a.key->0;
            let host = a.leases[id]->Registered_0;
            gives_up(
                f,
                f.without_service(key, host),
                m,
                super::registry::given_up(f, m, key, host),
                key,
                host,
                f.owns(key, host),
            )
        }),
{
    given_up_is_silenced(f, m, a.key->0, a.leases[id]->Registered_0);
}

/// A known client registers a service by its first message; an invalid request is refused
/// with the reason, and anything else resets the stream.
pub proof fn first_messages_register<U, D>(
    relay: &mut RelayHandler<U, D>,
    id: u64,
    message: Option<Registration>,
    r: FirstStep,
    service: &str,
    code: &RefusalCode,
    text: String,
)
    requires
        call_ensures(RelayHandler::<U, D>::on_first_message, (relay, id, message), r),
        message matches Some(asked) ==> service@ == asked.service@,
        message matches Some(asked) && asked.invalid is Some ==> *code == message->0.invalid->0,
        call_ensures(refused, (code, service), text),
    ensures
        ({
            let a = old(relay)@;
            let known = a.key is Some && a.conn_id is Some;
            &&& message is None || !known ==> r is Reset && final(relay)@ == a
            &&& message is Some && known && message->0.invalid is Some ==> final(relay)@ == a && (
            r matches FirstStep::Refuse { code: c, message: t } && c == *code && t@ == text@)
            &&& message is Some && known && message->0.invalid is None ==> (
            r matches FirstStep::Register { key, conn_id, service: s } && key@ == a.key->0
                && conn_id == a.conn_id->0 && s@ == service@) && final(relay)@.leases.contains_key(id) && final(relay)@.leases[id] is Pending && other_leases_stay(
                a,
                final(relay)@,
                id,
            ) && final(relay)@.exchanges == a.exchanges
        }),
{
}

/// A registration that ended is answered with the hostname or the refusal; where its stream
/// is gone meanwhile, the service is unregistered at once.
pub proof fn registrations_are_answered<U, D, C, K>(
    relay: &mut RelayHandler<U, D>,
    id: u64,
    key: &str,
    service: &str,
    outcome: Result<String, RefusalCode>,
    registry: &mut TunnelRegistry<C>,
    manager: &mut CertManager<K>,
    r: RegisteredStep,
    code: &RefusalCode,
    text: String,
)
    requires
        call_ensures(
            RelayHandler::<U, D>::on_registered::<C, K>,
            (relay, id, key, service, outcome, registry, manager),
            r,
        ),
        outcome matches Err(e) ==> *code == e,
        call_ensures(refused, (code, service), text),
    ensures
        ({
            let a = old(relay)@;
            let b = final(relay)@;
            let gone = a.leases.contains_key(id) && a.leases[id] is Released;
            &&& other_leases_stay(a, b, id)
            &&& b.exchanges == a.exchanges
            &&& outcome is Ok && gone ==> r is Gone && !b.leases.contains_key(id)
                && exists|own: bool| #[trigger]
                gives_up(
                    old(registry)@,
                    final(registry)@,
                    old(manager)@,
                    final(manager)@,
                    key@,
                    outcome->Ok_0@,
                    own,
                )
            &&& outcome is Ok && !gone ==> (r matches RegisteredStep::Registered { hostname }
                && hostname@ == outcome->Ok_0@) && b.leases.contains_key(id) && b.leases[id]
                == LeaseFacts::Registered(outcome->Ok_0@)
            &&& outcome is Err ==> (r matches RegisteredStep::Refuse { code: c, message: t } && c
                == *code && t@ == text@) && !b.leases.contains_key(id)
            &&& !(outcome is Ok && gone) ==> final(registry)@ == old(registry)@ && final(manager)@
                == old(manager)@
        }),
{
    if outcome is Ok {
        given_up_is_silenced(old(registry)@, old(manager)@, key@, outcome->Ok_0@);
    }
}

/// A stream that the client finished gives its lease up; its exchange goes on until all of
/// the response is with the visitor.
pub proof fn finished_streams_are_drained<U, D, C, K>(
    relay: &mut RelayHandler<U, D>,
    id: u64,
    registry: &mut TunnelRegistry<C>,
    manager: &mut CertManager<K>,
    r: StreamEnd,
)
    requires
        call_ensures(
            RelayHandler::<U, D>::on_finished::<C, K>,
            (relay, id, registry, manager),
            r,
        ),
    ensures
        releases(
            old(relay)@,
            final(relay)@,
            old(registry)@,
            final(registry)@,
            old(manager)@,
            final(manager)@,
            id,
            r.finish,
        ),
        r.error is None,
        other_exchanges_stay(old(relay)@, final(relay)@, id),
        ({
            let a = old(relay)@.exchanges;
            let b = final(relay)@.exchanges;
            &&& b.contains_key(id) == (a.contains_key(id) && (a[id].forwarding || a[id].down.len()
                > 0))
            &&& b.contains_key(id) ==> b[id].client_done && b[id].down == a[id].down && b[id].up
                == a[id].up && b[id].forwarding == a[id].forwarding && b[id].has_sink
                == a[id].has_sink
        }),
{
    if old(relay)@.is_registered(id) && old(relay)@.key is Some {
        lease_goes(old(relay)@, old(registry)@, old(manager)@, id);
    }
}

/// The exchanges on the other streams are as they were.
pub open spec fn other_exchanges_stay<U, D>(
    a: RelayFacts<U, D>,
    b: RelayFacts<U, D>,
    id: u64,
) -> bool {
    forall|k: u64|
        k != id ==> #[trigger] b.exchanges.contains_key(k) == a.exchanges.contains_key(k) && (
        a.exchanges.contains_key(k) ==> b.exchanges[k] == a.exchanges[k])
}

/// A reset ends the exchange and the lease of its stream. A visitor that still waits for
/// the head learns whether the origin could not be reached.
pub proof fn reset_streams_are_over<U, D, C, K>(
    relay: &mut RelayHandler<U, D>,
    id: u64,
    unreachable: bool,
    registry: &mut TunnelRegistry<C>,
    manager: &mut CertManager<K>,
    r: StreamEnd,
)
    requires
        call_ensures(
            RelayHandler::<U, D>::on_reset::<C, K>,
            (relay, id, unreachable, registry, manager),
            r,
        ),
    ensures
        releases(
            old(relay)@,
            final(relay)@,
            old(registry)@,
            final(registry)@,
            old(manager)@,
            final(manager)@,
            id,
            r.finish,
        ),
        other_exchanges_stay(old(relay)@, final(relay)@, id),
        !final(relay)@.exchanges.contains_key(id),
        ({
            let waits = old(relay)@.exchanges.contains_key(id) && old(relay)@.exchanges[id].awaiting_head;
            &&& r.error is Some == waits
            &&& waits && unreachable ==> r.error == Some(ProxyError::OriginUnreachable)
            &&& waits && !unreachable ==> r.error == Some(ProxyError::Reset)
        }),
{
    if old(relay)@.is_registered(id) && old(relay)@.key is Some {
        lease_goes(old(relay)@, old(registry)@, old(manager)@, id);
    }
}

/// The exchanges of a connection are kept by their stream: what is put is what is taken,
/// pumping one does to it what pumping it alone does, and one that is over is gone.
pub proof fn exchanges_are_kept_by_stream<U, D>(
    relay: &mut RelayHandler<U, D>,
    id: u64,
    x: Exchange<U, D>,
    other: &mut RelayHandler<U, D>,
    taken: Option<Exchange<U, D>>,
    seen: &RelayHandler<U, D>,
    read: bool,
    registered: bool,
)
    requires
        call_ensures(RelayHandler::<U, D>::put_exchange, (relay, id, x), ()),
        call_ensures(RelayHandler::<U, D>::take_exchange, (other, id), taken),
        call_ensures(RelayHandler::<U, D>::may_read, (seen, id), read),
        call_ensures(RelayHandler::<U, D>::is_registered, (seen, id), registered),
    ensures
        final(relay)@.exchanges.contains_key(id),
        final(relay)@.exchanges[id] == x@,
        other_exchanges_stay(old(relay)@, final(relay)@, id),
        final(relay)@.leases == old(relay)@.leases,
        final(relay)@.key == old(relay)@.key,
        taken is Some == old(other)@.exchanges.contains_key(id),
        taken matches Some(t) ==> t@ == old(other)@.exchanges[id],
        !final(other)@.exchanges.contains_key(id),
        other_exchanges_stay(old(other)@, final(other)@, id),
        final(other)@.leases == old(other)@.leases,
        read == (seen@.exchanges.contains_key(id) && !seen@.exchanges[id].down_paused),
        registered == (seen@.leases.contains_key(id) && seen@.leases[id] is Registered),
{
}

/// Pumping a stream does to its exchange what pumping the exchange does, and one that is
/// over leaves.
pub proof fn streams_are_pumped<U, D>(
    relay: &mut RelayHandler<U, D>,
    id: u64,
    r: Pump<D>,
    x: &mut Exchange<U, D>,
    step: Pump<D>,
)
    requires
        call_ensures(RelayHandler::<U, D>::pump_down, (relay, id), r),
        old(relay)@.exchanges.contains_key(id) ==> old(x)@ == old(relay)@.exchanges[id],
        call_ensures(Exchange::<U, D>::pump_down, (x,), step),
    ensures
        !old(relay)@.exchanges.contains_key(id) ==> r is Idle && final(relay)@ == old(relay)@,
        old(relay)@.exchanges.contains_key(id) ==> r == step,
        old(relay)@.exchanges.contains_key(id) && step is Fin ==> !final(relay)@.exchanges.contains_key(id),
        old(relay)@.exchanges.contains_key(id) && !(step is Fin) ==> final(relay)@.exchanges.contains_key(id) && final(relay)@.exchanges[id] == final(x)@,
        other_exchanges_stay(old(relay)@, final(relay)@, id),
        final(relay)@.leases == old(relay)@.leases,
{
}

/// A stream that is opened for a visitor has a new exchange.
pub proof fn visitor_streams_are_opened<U, D>(
    relay: &mut RelayHandler<U, D>,
    id: u64,
    wanted: bool,
    connect: bool,
    x: Exchange<U, D>,
)
    requires
        call_ensures(RelayHandler::<U, D>::open_visitor_stream, (relay, id, wanted, connect), ()),
        call_ensures(Exchange::<U, D>::new, (wanted, connect), x),
    ensures
        final(relay)@.exchanges.contains_key(id),
        final(relay)@.exchanges[id] == x@,
        other_exchanges_stay(old(relay)@, final(relay)@, id),
        final(relay)@.leases == old(relay)@.leases,
{
}

/// What a client is told of its certificate: its state at first, and then each change of
/// it, and nothing of other hostnames.
pub proof fn certificate_states_are_told(
    hostname: String,
    current: CertState,
    started: (CertWatch, CertStatus),
    watch: &mut CertWatch,
    name: &str,
    state: CertState,
    r: Option<CertStatus>,
    again: &mut CertWatch,
    resynced: Option<CertStatus>,
    shown: &CertState,
    status: CertStatus,
)
    requires
        call_ensures(CertWatch::start, (hostname, current), started),
        call_ensures(CertWatch::on_change, (watch, name, state), r),
        call_ensures(CertWatch::resync, (again, state), resynced),
        *shown == state,
        call_ensures(cert_status, (shown,), status),
    ensures
        started.0@.hostname == hostname@,
        started.0@.last == current@,
        match current {
            CertState::Pending => started.1 == CertStatus::Pending,
            CertState::OrderInProgress => started.1 == CertStatus::OrderInProgress,
            CertState::Issued { .. } => started.1 == CertStatus::Issued,
            CertState::Renewing { .. } => started.1 == CertStatus::Renewing,
            CertState::Failed { .. } => started.1 == CertStatus::Failed,
        },
        match state {
            CertState::Pending => status == CertStatus::Pending,
            CertState::OrderInProgress => status == CertStatus::OrderInProgress,
            CertState::Issued { .. } => status == CertStatus::Issued,
            CertState::Renewing { .. } => status == CertStatus::Renewing,
            CertState::Failed { .. } => status == CertStatus::Failed,
        },
        r == (if name@ == old(watch)@.hostname && state@ != old(watch)@.last {
            Some(status)
        } else {
            None
        }),
        name@ == old(watch)@.hostname ==> final(watch)@.last == state@,
        name@ != old(watch)@.hostname ==> final(watch)@.last == old(watch)@.last,
        final(watch)@.hostname == old(watch)@.hostname,
        resynced == (if state@ != old(again)@.last {
            Some(status)
        } else {
            None
        }),
        final(again)@.last == state@,
        final(again)@.hostname == old(again)@.hostname,
{
}

} // verus!
