//! What the edges promise of every request.
use super::cleartext::{format_target_host, redirect_to_https, HttpEdgeConfig, Redirect};
use super::host::{
    parse_host_value, request_host, split_is_unique, splits_at, HostError, HttpVersion,
    RequestParts,
};
use super::https::{
    bad_gateway, handle_https_request, is_ip_literal, EdgeRequest, EdgeResponse, EdgeStep,
    HttpsEdgeConfig, PageFacts,
};
use super::tls::{alpn_protocols, certificate_names, served_protocols};
use super::waf::{
    hex, inspect, inspect_decoded, is_control, is_hidden, path_of_target, path_part, percent_decode,
    percent_decode_lossy, Verdict,
};
use crate::assets::{apply_security_headers, header_fields};
use crate::number;
use crate::text;
use http::{HeaderMap, HeaderValue};
use vstd::prelude::*;

verus! {

/// A decoded path is refused for the reasons that are listed here, the first that
/// holds, and for no other. It is judged in lower case, by its segments between
/// slashes and backslashes.
pub proof fn refusals_have_a_reason(decoded: &str, r: Option<Verdict>)
    requires
        call_ensures(inspect_decoded, (decoded,), r),
    ensures
        ({
            let path = text::lower(decoded@);
            let segs = text::split_on(
                path.map_values(|c: char| if c == '\\' { '/' } else { c }),
                '/',
            ).filter(|p: Seq<char>| p.len() > 0);
            let first = segs[0];
            let second = segs[1];
            let last = segs.last();
            let control = exists|i: int|
                0 <= i < path.len() && ((#[trigger] path[i]) as u32 <= 0x1f || path[i] as u32
                    == 0x7f);
            let above = segs.contains(".."@);
            let hidden = exists|i: int|
                0 <= i < segs.len() && (#[trigger] segs[i]).len() > 1 && segs[i][0] == '.' && (i > 0
                    || segs[i] != ".well-known"@);
            let leftover = segs.len() > 0 && (last.last() == '~' || ".bak"@.is_suffix_of(last)
                || ".backup"@.is_suffix_of(last) || ".old"@.is_suffix_of(last)
                || ".orig"@.is_suffix_of(last) || ".save"@.is_suffix_of(last)
                || ".swp"@.is_suffix_of(last) || ".swo"@.is_suffix_of(last)
                || ".tmp"@.is_suffix_of(last) || ".dist"@.is_suffix_of(last));
            let secret = segs.len() > 0 && (".sql"@.is_suffix_of(last) || ".sql.gz"@.is_suffix_of(
                last,
            ) || ".sqlite"@.is_suffix_of(last) || ".sqlite3"@.is_suffix_of(last)
                || ".db"@.is_suffix_of(last) || ".pem"@.is_suffix_of(last) || ".key"@.is_suffix_of(
                last,
            ) || ".p12"@.is_suffix_of(last) || ".pfx"@.is_suffix_of(last) || ".jks"@.is_suffix_of(
                last,
            ) || ".keystore"@.is_suffix_of(last) || ".ppk"@.is_suffix_of(last)
                || ".htpasswd"@.is_suffix_of(last) || ".htaccess"@.is_suffix_of(last)
                || "id_rsa"@.is_suffix_of(last) || "id_ed25519"@.is_suffix_of(last));
            let root = segs.len() > 0 && (first == "env"@ || first == "phpmyadmin"@ || first
                == "pma"@ || first == "myadmin"@ || first == "adminer"@ || first == "adminer.php"@
                || first == "phpinfo.php"@ || first == "info.php"@ || first == "telescope"@ || first
                == "_debugbar"@ || first == "_profiler"@ || first == "server-status"@ || first
                == "server-info"@ || first == "trace.axd"@ || first == "elmah.axd"@ || first
                == "___proxy_subdomain_whm"@ || first == "___proxy_subdomain_cpanel"@ || first
                == "cgi-bin"@ || first == "wp-config.php"@ || first == "config.php"@ || first
                == "configuration.php"@ || first == "web.config"@ || first == "docker-compose.yml"@
                || first == "docker-compose.yaml"@ || first == "dockerfile"@ || first
                == "composer.lock"@ || first == "package-lock.json"@ || first == "yarn.lock"@
                || first == "credentials"@ || first == "credentials.json"@ || first
                == "secrets.json"@ || first == "config.json"@ || first == "config.yml"@ || first
                == "config.yaml"@);
            let pair = segs.len() >= 2 && ((first == "actuator"@ && second == "env"@) || (first
                == "actuator"@ && second == "heapdump"@) || (first == "actuator"@ && second
                == "configprops"@) || (first == "@vite"@ && second == "env"@) || (first == "ecp"@
                && second == "current"@) || (first == "v2"@ && second == "_catalog"@) || (first
                == "_ignition"@ && second == "execute-solution"@) || (first == "debug"@ && second
                == "default"@) || (first == "solr"@ && second == "admin"@));
            &&& (r == Some(Verdict::Malformed)) == control
            &&& (r == Some(Verdict::Traversal)) == (!control && above)
            &&& (r == Some(Verdict::Dotfile)) == (!control && !above && hidden)
            &&& (r == Some(Verdict::Leftover)) == (!control && !above && !hidden && leftover)
            &&& (r == Some(Verdict::SecretMaterial)) == (!control && !above && !hidden && !leftover
                && secret)
            &&& (r == Some(Verdict::DebugEndpoint)) == (!control && !above && !hidden && !leftover
                && !secret && (root || pair))
            &&& r is None == (!control && !above && !hidden && !leftover && !secret && !root
                && !pair)
            &&& r != Some(Verdict::Trace)
        }),
{
    let path = text::lower(decoded@);
    let segs = text::split_on(
        path.map_values(|c: char| if c == '\\' { '/' } else { c }),
        '/',
    ).filter(|p: Seq<char>| p.len() > 0);
    assert(super::waf::segments(path) == segs);
    if exists|i: int| 0 <= i < path.len() && is_control(path[i]) {
        let i = choose|i: int| 0 <= i < path.len() && is_control(path[i]);
        assert(path[i] as u32 <= 0x1f || path[i] as u32 == 0x7f);
    }
    if exists|i: int|
        0 <= i < path.len() && ((#[trigger] path[i]) as u32 <= 0x1f || path[i] as u32 == 0x7f) {
        let i = choose|i: int|
            0 <= i < path.len() && ((#[trigger] path[i]) as u32 <= 0x1f || path[i] as u32 == 0x7f);
        assert(is_control(path[i]));
    }
    if exists|i: int| 0 <= i < segs.len() && is_hidden(segs, i) {
        let i = choose|i: int| 0 <= i < segs.len() && is_hidden(segs, i);
        assert(segs[i].len() > 1 && segs[i][0] == '.');
    }
    if exists|i: int|
        0 <= i < segs.len() && (#[trigger] segs[i]).len() > 1 && segs[i][0] == '.' && (i > 0
            || segs[i] != ".well-known"@) {
        let i = choose|i: int|
            0 <= i < segs.len() && (#[trigger] segs[i]).len() > 1 && segs[i][0] == '.' && (i > 0
                || segs[i] != ".well-known"@);
        assert(is_hidden(segs, i));
    }
    if segs.len() > 0 {
        assert(segs.last().len() > 0) by {
            kept_pieces(
                text::split_on(
                    path.map_values(|c: char| if c == '\\' { '/' } else { c }),
                    '/',
                ),
                segs.len() - 1,
            );
        }
    }
}

proof fn kept_pieces(all: Seq<Seq<char>>, i: int)
    requires
        0 <= i < all.filter(|p: Seq<char>| p.len() > 0).len(),
    ensures
        all.filter(|p: Seq<char>| p.len() > 0)[i].len() > 0,
    decreases all.len(),
{
    reveal(Seq::filter);
    let keep = |p: Seq<char>| p.len() > 0;
    if all.len() > 0 {
        let rest = all.drop_last().filter(keep);
        if i < rest.len() {
            kept_pieces(all.drop_last(), i);
        }
    }
}

/// `TRACE` is refused as such and nothing else is. Any other request is judged by its
/// path without query and fragment, decoded twice, whatever its method.
pub proof fn requests_are_judged_by_their_path(
    method: &str,
    target: &str,
    r: Option<Verdict>,
    path: &str,
    once: &str,
    twice: &str,
    split: String,
    first: String,
    second: String,
    judged: Option<Verdict>,
)
    requires
        call_ensures(inspect, (method, target), r),
        call_ensures(path_of_target, (target,), split),
        path@ == split@,
        call_ensures(percent_decode_lossy, (path,), first),
        once@ == first@,
        call_ensures(percent_decode_lossy, (once,), second),
        twice@ == second@,
        call_ensures(inspect_decoded, (twice,), judged),
    ensures
        (r == Some(Verdict::Trace)) == (method@ == "TRACE"@),
        method@ != "TRACE"@ ==> r == judged,
{
    super::sight::passes_see_alike(once@);
    super::sight::sight_decides(twice@);
    if method@ != "TRACE"@ {
        assert(judged != Some(Verdict::Trace));
    }
}

proof fn path_part_ends(raw: Seq<char>)
    ensures
        ({
            let path = path_part(raw);
            &&& path.len() <= raw.len()
            &&& path == raw.take(path.len() as int)
            &&& forall|i: int| 0 <= i < path.len() ==> path[i] != '?' && path[i] != '#'
            &&& path.len() < raw.len() ==> raw[path.len() as int] == '?' || raw[path.len() as int]
                == '#'
        }),
    decreases raw.len(),
{
    if raw.len() > 0 && raw[0] != '?' && raw[0] != '#' {
        let tail = raw.subrange(1, raw.len() as int);
        path_part_ends(tail);
        let path = path_part(raw);
        let rest = path_part(tail);
        assert(path == seq![raw[0]] + rest);
        assert forall|i: int| 0 <= i < path.len() implies path[i] == raw[i] && path[i] != '?'
            && path[i] != '#' by {
            if i > 0 {
                assert(path[i] == rest[i - 1]);
                assert(rest[i - 1] == tail.take(rest.len() as int)[i - 1]);
            }
        }
        assert(path =~= raw.take(path.len() as int));
        if path.len() < raw.len() {
            assert(raw[path.len() as int] == tail[rest.len() as int]);
        }
    } else {
        assert(path_part(raw) =~= raw.take(0));
    }
}

/// The path of a request target ends before its first `?` or `#`, and otherwise with
/// the target.
pub proof fn path_ends_at_query_or_fragment(target: &str, r: String)
    requires
        call_ensures(path_of_target, (target,), r),
    ensures
        r@.len() <= target@.len(),
        r@ == target@.take(r@.len() as int),
        forall|i: int| 0 <= i < r@.len() ==> r@[i] != '?' && r@[i] != '#',
        r@.len() < target@.len() ==> target@[r@.len() as int] == '?' || target@[r@.len() as int]
            == '#',
{
    path_part_ends(target@);
}

/// The token of each verdict, by which the log and the `x-weaver-blocked` header name it.
pub proof fn verdicts_are_named(v: Verdict, r: &'static str)
    requires
        call_ensures(Verdict::as_str, (v,), r),
    ensures
        v == Verdict::Dotfile ==> r@ == "dotfile"@,
        v == Verdict::Traversal ==> r@ == "traversal"@,
        v == Verdict::Leftover ==> r@ == "leftover"@,
        v == Verdict::SecretMaterial ==> r@ == "secret-material"@,
        v == Verdict::DebugEndpoint ==> r@ == "debug-endpoint"@,
        v == Verdict::Malformed ==> r@ == "malformed"@,
        v == Verdict::Trace ==> r@ == "trace"@,
{
}

/// A value names a host where it is a row of letters, digits, dots, hyphens and
/// underscores, or an address in brackets, of at most 255 bytes, with a port of one to
/// five digits or none behind it; and the host is then just that.
pub proof fn hosts_are_names_or_literals(raw: &[u8], r: Option<String>, n: int)
    requires
        call_ensures(parse_host_value, (raw,), r),
    ensures
        ({
            let v = raw@;
            let end = v.len() as int;
            let name = forall|i: int|
                0 <= i < n ==> (0x30 <= #[trigger] v[i] <= 0x39 || 0x41 <= v[i] <= 0x5a || 0x61
                    <= v[i] <= 0x7a || v[i] == 0x2e || v[i] == 0x2d || v[i] == 0x5f);
            let literal = n > 2 && v[0] == 0x5b && v[n - 1] == 0x5d && forall|i: int|
                0 < i < n - 1 ==> (0x30 <= #[trigger] v[i] <= 0x39 || 0x41 <= v[i] <= 0x46 || 0x61
                    <= v[i] <= 0x66 || v[i] == 0x3a || v[i] == 0x2e);
            let port = n == end || (2 <= end - n <= 6 && v[n] == 0x3a && forall|i: int|
                n < i < end ==> 0x30 <= #[trigger] v[i] <= 0x39);
            let fits = 0 < n <= 255 && n <= end && (name || literal) && port;
            &&& fits ==> r is Some && r->0@ == v.take(n).map_values(|b: u8| b as char)
            &&& r is Some && r->0@.len() == n ==> fits
            &&& r is Some ==> r->0@.len() <= end
        }),
{
    let v = raw@;
    let end = v.len() as int;
    if r is Some {
        let m = choose|m: int| splits_at(v, m);
        assert(splits_at(v, m));
        assert(r->0@.len() == m);
        if m == n {
            let h = v.subrange(0, n);
            let p = v.subrange(n, end);
            assert forall|i: int| 0 <= i < n implies #[trigger] v[i] == h[i] by {}
            assert forall|i: int| n <= i < end implies #[trigger] v[i] == p[i - n] by {}
            assert(h.len() > 0);
            if super::host::is_name(h) {
                assert forall|i: int| 0 <= i < n implies (0x30 <= #[trigger] v[i] <= 0x39 || 0x41
                    <= v[i] <= 0x5a || 0x61 <= v[i] <= 0x7a || v[i] == 0x2e || v[i] == 0x2d || v[i]
                    == 0x5f) by {
                    assert(super::host::is_name_byte(h[i]));
                }
            } else {
                assert forall|i: int| 0 < i < n - 1 implies (0x30 <= #[trigger] v[i] <= 0x39 || 0x41
                    <= v[i] <= 0x46 || 0x61 <= v[i] <= 0x66 || v[i] == 0x3a || v[i] == 0x2e) by {
                    assert(super::host::is_literal_byte(h[i]));
                }
            }
        }
    }
    let name = forall|i: int|
        0 <= i < n ==> (0x30 <= #[trigger] v[i] <= 0x39 || 0x41 <= v[i] <= 0x5a || 0x61 <= v[i]
            <= 0x7a || v[i] == 0x2e || v[i] == 0x2d || v[i] == 0x5f);
    let literal = n > 2 && v[0] == 0x5b && v[n - 1] == 0x5d && forall|i: int|
        0 < i < n - 1 ==> (0x30 <= #[trigger] v[i] <= 0x39 || 0x41 <= v[i] <= 0x46 || 0x61 <= v[i]
            <= 0x66 || v[i] == 0x3a || v[i] == 0x2e);
    let port = n == end || (2 <= end - n <= 6 && v[n] == 0x3a && forall|i: int|
        n < i < end ==> 0x30 <= #[trigger] v[i] <= 0x39);
    if 0 < n <= 255 && n <= end && (name || literal) && port {
        let h = v.subrange(0, n);
        let p = v.subrange(n, end);
        assert forall|i: int| 0 <= i < n implies #[trigger] h[i] == v[i] by {}
        assert forall|i: int| 0 <= i < end - n implies #[trigger] p[i] == v[i + n] by {}
        if name {
            assert(super::host::is_name(h));
        } else {
            assert(super::host::is_bracketed(h));
        }
        assert(super::host::is_port_suffix(p));
        assert(splits_at(v, n));
        let m = choose|m: int| splits_at(v, m);
        split_is_unique(v, m);
        split_is_unique(v, n);
        assert(v.take(n) =~= h);
    }
}

/// A request has a host exactly where one is named, once and in order: by its
/// authority, or else by its only `Host` line; and on HTTP/2 by both alike.
pub proof fn one_host_is_named(
    parts: &RequestParts,
    line: &[u8],
    authority: &[u8],
    by_line: Option<String>,
    by_authority: Option<String>,
    r: Result<String, HostError>,
)
    requires
        call_ensures(request_host, (parts,), r),
        parts.host_lines@.len() == 1 ==> line@ == parts.host_lines@[0]@,
        call_ensures(parse_host_value, (line,), by_line),
        parts.authority matches Some(a) ==> authority@ == vstd::utf8::encode_utf8(a@),
        call_ensures(parse_host_value, (authority,), by_authority),
    ensures
        ({
            let count = parts.host_lines@.len();
            let named = parts.authority is Some;
            let invalid = (count == 1 && by_line is None) || (named && by_authority is None);
            let differs = named && count == 1 && parts.version == HttpVersion::Http2 && text::lower(
                by_line->0@,
            ) != text::lower(by_authority->0@);
            &&& (r == Err::<String, HostError>(HostError::Duplicate)) == (count > 1)
            &&& (r == Err::<String, HostError>(HostError::Invalid)) == (count <= 1 && invalid)
            &&& (r == Err::<String, HostError>(HostError::Missing)) == (count == 0 && !named)
            &&& (r == Err::<String, HostError>(HostError::Mismatch)) == (!invalid && differs)
            &&& r is Ok == (count <= 1 && !invalid && (named || count == 1) && !differs)
            &&& r is Ok ==> r->Ok_0@ == (if named {
                by_authority->0@
            } else {
                by_line->0@
            })
        }),
{
    if parts.host_lines@.len() == 1 {
        assert(super::host::lines(parts.host_lines@)[0] == line@);
    }
}

/// The security headers as they stand in an answer: whatever each of them was, it has
/// this one value.
pub open spec fn protected(
    fields: Map<Seq<char>, Seq<Seq<u8>>>,
    hsts: bool,
) -> Map<Seq<char>, Seq<Seq<u8>>> {
    let all = fields.insert(
        "content-type"@,
        seq![vstd::utf8::encode_utf8("text/html; charset=utf-8"@)],
    ).insert(
        "content-security-policy"@,
        seq![
            vstd::utf8::encode_utf8(
                "default-src 'none'; style-src 'unsafe-inline'; frame-ancestors 'none'; base-uri 'none'; form-action 'none'"@,
            ),
        ],
    ).insert("x-content-type-options"@, seq![vstd::utf8::encode_utf8("nosniff"@)]).insert(
        "x-frame-options"@,
        seq![vstd::utf8::encode_utf8("DENY"@)],
    ).insert("referrer-policy"@, seq![vstd::utf8::encode_utf8("no-referrer"@)]);
    if hsts {
        all.insert(
            "strict-transport-security"@,
            seq![vstd::utf8::encode_utf8("max-age=31536000; includeSubDomains"@)],
        )
    } else {
        all
    }
}

/// Every page is sent with the security headers, and with HSTS only where asked for.
pub proof fn pages_are_protected(headers: &mut HeaderMap<HeaderValue>, hsts: bool)
    requires
        call_ensures(apply_security_headers, (headers, hsts), ()),
    ensures
        header_fields(*final(headers)) == protected(header_fields(*old(headers)), hsts),
{
}

/// An answer of the edge: its status, its headers and its body.
pub open spec fn is_answer(
    r: EdgeResponse,
    status: u16,
    fields: Map<Seq<char>, Seq<Seq<u8>>>,
    page: PageFacts,
) -> bool {
    r.status == status && header_fields(r.headers) == fields && r.page@ == page
}

/// How every request is dealt with. A plain CONNECT is refused. A request without one
/// usable host is refused and its connection ended. One whose host is an address, or is
/// not the one that the handshake named, or lies outside the root domain, is for another
/// server. The root domain has its own pages and takes in tunnel clients. A request under
/// it is refused where a firewall rule blocks it, and is otherwise forwarded, whatever its
/// method, where the hostname has a tunnel.
pub proof fn requests_are_dispatched<K, C>(
    req: &EdgeRequest,
    config: &HttpsEdgeConfig<'_, K, C>,
    sni: Option<&str>,
    now: i64,
    r: EdgeStep,
    parts: &RequestParts,
    named: Result<String, HostError>,
    host: &str,
    literal: bool,
    method: &str,
    target: &str,
    verdict: Option<Verdict>,
    token: &'static str,
)
    requires
        config.wf(),
        call_ensures(handle_https_request::<K, C>, (req, config, sni, now), r),
        *parts == req.parts,
        call_ensures(request_host, (parts,), named),
        named matches Ok(h) ==> host@ == h@,
        call_ensures(is_ip_literal, (host,), literal),
        method@ == req.method@,
        target@ == req.target@,
        call_ensures(inspect, (method, target), verdict),
        verdict matches Some(v) ==> call_ensures(Verdict::as_str, (v,), token),
    ensures
        ({
            let none = Map::<Seq<char>, Seq<Seq<u8>>>::empty();
            let hostname = text::lower(host@);
            let root = text::lower(config.root_domain@);
            let connects = req.method@ == "CONNECT"@ && !req.extended_connect;
            let agrees = named is Ok && !literal && (sni matches Some(s) && text::lower(s@)
                == hostname);
            let under = hostname.len() > root.len() + 1 && hostname.subrange(
                hostname.len() - root.len() - 1,
                hostname.len() as int,
            ) == "."@ + root;
            let live = config.tunnel_registry matches Some(t) && t@.routes.contains_key(hostname);
            let hsts = config.cert_resolver matches Some(c) && c.stored().contains_key(hostname)
                && c.stored()[hostname].not_after > now;
            let get = req.method@ == "GET"@;
            &&& connects ==> (r matches EdgeStep::Answer(a) && is_answer(
                a,
                405,
                protected(
                    none.insert(
                        "allow"@,
                        seq![
                            vstd::utf8::encode_utf8(
                                "GET, POST, PUT, PATCH, DELETE, HEAD, OPTIONS"@,
                            ),
                        ],
                    ),
                    false,
                ),
                PageFacts::Plain("405 Method Not Allowed: CONNECT is not supported\n"@),
            ))
            &&& !connects && named is Err ==> (r matches EdgeStep::Answer(a) && is_answer(
                a,
                400,
                none.insert("connection"@, seq![vstd::utf8::encode_utf8("close"@)]),
                PageFacts::Plain("400 Bad Request: invalid Host\n"@),
            ))
            &&& !connects && named is Ok && !(agrees && (hostname == root || under)) ==> (
            r matches EdgeStep::Answer(a) && is_answer(
                a,
                421,
                none,
                PageFacts::Plain("421 Misdirected Request\n"@),
            ))
            &&& !connects && agrees && hostname == root ==> {
                let connecting = req.path@ == "/_weaver/connect"@;
                let speaks = req.websocket_protocol matches Some(p) && p@ == "weaver-mux-v1"@;
                &&& connecting && !get ==> (r matches EdgeStep::Answer(a) && is_answer(
                    a,
                    405,
                    protected(none, hsts),
                    PageFacts::Plain("405 Method Not Allowed\n"@),
                ))
                &&& connecting && get && !speaks ==> (r matches EdgeStep::Answer(a) && is_answer(
                    a,
                    400,
                    protected(none, hsts),
                    PageFacts::Plain(
                        "400 Bad Request: Sec-WebSocket-Protocol must be weaver-mux-v1\n"@,
                    ),
                ))
                &&& connecting && get && speaks && req.websocket_key is None ==> (
                r matches EdgeStep::Answer(a) && is_answer(
                    a,
                    400,
                    protected(none, hsts),
                    PageFacts::Plain("400 Bad Request: Missing Sec-WebSocket-Key\n"@),
                ))
                &&& connecting && get && speaks && req.websocket_key is Some ==> (
                r matches EdgeStep::Upgrade(a) && is_answer(
                    a,
                    101,
                    protected(
                        none.insert(
                            "connection"@,
                            seq![vstd::utf8::encode_utf8("Upgrade"@)],
                        ).insert("upgrade"@, seq![vstd::utf8::encode_utf8("websocket"@)]).insert(
                            "sec-websocket-accept"@,
                            seq![
                                vstd::utf8::encode_utf8(
                                    super::https::accept_key(
                                        vstd::utf8::encode_utf8(req.websocket_key->0@),
                                    ),
                                ),
                            ],
                        ).insert(
                            "sec-websocket-protocol"@,
                            seq![vstd::utf8::encode_utf8("weaver-mux-v1"@)],
                        ),
                        hsts,
                    ),
                    PageFacts::Empty,
                ))
                &&& !connecting && get && req.path@ == "/"@ ==> (r matches EdgeStep::Answer(a)
                    && is_answer(a, 200, protected(none, hsts), PageFacts::Welcome))
                &&& !connecting && get && req.path@ == "/healthz"@ && req.path@ != "/"@ ==> (
                r matches EdgeStep::Answer(a) && is_answer(
                    a,
                    200,
                    protected(none, hsts),
                    PageFacts::Plain("ok\n"@),
                ))
                &&& !connecting && !(get && (req.path@ == "/"@ || req.path@ == "/healthz"@)) ==> (
                r matches EdgeStep::Answer(a) && is_answer(
                    a,
                    404,
                    protected(none, hsts),
                    PageFacts::Plain("404 Not Found\n"@),
                ))
            }
            &&& !connects && agrees && hostname != root && under ==> {
                &&& verdict is Some ==> (r matches EdgeStep::Answer(a) && is_answer(
                    a,
                    403,
                    protected(
                        none.insert("x-weaver-blocked"@, seq![vstd::utf8::encode_utf8(token@)]),
                        hsts,
                    ),
                    PageFacts::Forbidden { rule: token@ },
                ))
                &&& verdict is None && live ==> (r matches EdgeStep::Forward {
                    host: to,
                    hostname: lower,
                    include_hsts,
                } && to@ == host@ && lower@ == hostname && include_hsts == hsts)
                &&& verdict is None && !live ==> (r matches EdgeStep::Answer(a) && is_answer(
                    a,
                    404,
                    protected(none, hsts),
                    PageFacts::NoTunnel,
                ))
            }
        }),
{
    let none = Map::<Seq<char>, Seq<Seq<u8>>>::empty();
    let hostname = text::lower(host@);
    let root = text::lower(config.root_domain@);
    text::lower_idempotent(host@);
    reveal_strlit(".");
    let suffix = "."@ + root;
    assert(suffix.len() == root.len() + 1);
    if hostname.len() > root.len() + 1 {
        assert(suffix.is_suffix_of(hostname) == (hostname.subrange(
            hostname.len() - suffix.len(),
            hostname.len() as int,
        ) == suffix));
    }
    if req.path@ == "/healthz"@ {
        let plain = none.insert(
            "content-type"@,
            seq![vstd::utf8::encode_utf8("text/plain; charset=utf-8"@)],
        );
        assert(protected(plain, true) =~= protected(none, true));
        assert(protected(plain, false) =~= protected(none, false));
    }
}

/// Where the tunnel fails, the visitor gets a 502 that names the host.
pub proof fn failed_tunnels_are_reported(hostname: &str, hsts: bool, r: EdgeResponse)
    requires
        call_ensures(bad_gateway, (hostname, hsts), r),
    ensures
        is_answer(
            r,
            502,
            protected(Map::empty(), hsts),
            PageFacts::BadGateway { host: hostname@ },
        ),
{
}

/// The host of a host-and-port text is what stands before the port: a bracketed
/// literal with its brackets, any other up to the first colon.
pub proof fn host_is_before_the_port(raw: &str, r: &str)
    requires
        call_ensures(super::cleartext::extract_host_name, (raw,), r),
    ensures
        ({
            let t = text::trimmed(raw@);
            let n = r@.len() as int;
            let literal = t.len() > 0 && t[0] == '[' && t.contains(']');
            &&& n <= t.len()
            &&& r@ == t.take(n)
            &&& literal ==> n > 0 && t[n - 1] == ']' && forall|i: int| 0 <= i < n - 1 ==> t[i] != ']'
            &&& !literal ==> (n < t.len() ==> t[n] == ':') && forall|i: int|
                0 <= i < n ==> t[i] != ':'
        }),
{
    let t = text::trimmed(raw@);
    text::find_from_is_first(t, ']', 0);
    text::find_from_is_first(t, ':', 0);
    let close = text::find_from(t, ']', 0);
    if close < t.len() {
        assert(t[close] == ']');
    }
}

/// A colon stands in the host, behind its brackets where it starts with one.
pub open spec fn brings_port(host: Seq<char>) -> bool {
    exists|i: int|
        0 <= i < host.len() && #[trigger] host[i] == ':' && (host[0] != '[' || (i > 0 && host[i - 1]
            == ']'))
}

/// A cleartext visitor is sent to the host they named, and to the root domain where they
/// named this machine or none; on a port other than 443 the port is named, unless the host
/// brings one.
pub proof fn redirects_keep_the_host(
    incoming: &str,
    root: &str,
    port: u16,
    name: &str,
    r: String,
)
    requires
        call_ensures(format_target_host, (incoming, root, port), r),
        call_ensures(super::cleartext::extract_host_name, (incoming,), name),
    ensures
        ({
            let here = name@.len() == 0 || text::lower(name@) == "localhost"@ || name@
                == "127.0.0.1"@ || name@ == "::1"@ || name@ == "[::1]"@;
            let host = if here {
                root@
            } else {
                name@
            };
            r@ == (if port == 443 || brings_port(host) {
                host
            } else {
                host + ":"@ + number::decimal(port as nat)
            })
        }),
{
    let here = name@.len() == 0 || text::lower(name@) == "localhost"@ || name@ == "127.0.0.1"@
        || name@ == "::1"@ || name@ == "[::1]"@;
    assert(here == super::cleartext::is_loopback(name@));
    let host = if here {
        root@
    } else {
        name@
    };
    reveal_strlit(":");
    reveal_strlit("]:");
    if text::has(host, ":"@) {
        let at = choose|at: int| text::stands_at(host, ":"@, at);
        assert(host.subrange(at, at + 1)[0] == ':');
        assert(host[at] == ':');
    }
    if text::has(host, "]:"@) {
        let at = choose|at: int| text::stands_at(host, "]:"@, at);
        assert(host.subrange(at, at + 2)[0] == ']');
        assert(host.subrange(at, at + 2)[1] == ':');
        assert(host[at + 1] == ':');
    }
    assert forall|i: int| 0 <= i < host.len() && #[trigger] host[i] == ':' implies text::has(
        host,
        ":"@,
    ) by {
        assert(host.subrange(i, i + 1) =~= ":"@);
        assert(text::stands_at(host, ":"@, i));
    }
    assert forall|i: int|
        0 < i < host.len() && #[trigger] host[i] == ':' && host[i - 1] == ']' implies text::has(
        host,
        "]:"@,
    ) by {
        assert(host.subrange(i - 1, i + 1) =~= "]:"@);
        assert(text::stands_at(host, "]:"@, i - 1));
    }
    let brings = brings_port(host);
    if super::cleartext::has_port(host) {
        if host[0] == '[' {
            let at = choose|at: int| text::stands_at(host, "]:"@, at);
            let i = at + 1;
            assert(host[i] == ':' && host[i - 1] == ']');
        } else {
            let at = choose|at: int| text::stands_at(host, ":"@, at);
            assert(host[at] == ':');
        }
        assert(brings);
    }
    if brings {
        let i = choose|i: int|
            0 <= i < host.len() && #[trigger] host[i] == ':' && (host[0] != '[' || (i > 0 && host[i
                - 1] == ']'));
        assert(super::cleartext::has_port(host));
    }
    assert(brings == super::cleartext::has_port(host));
}

/// Every cleartext request is answered with a 308 to the same path and query over HTTPS,
/// without a body. The `Host` line counts before the authority.
pub proof fn cleartext_is_redirected(
    line: Option<&str>,
    authority: Option<&str>,
    path: Option<&str>,
    config: &HttpEdgeConfig,
    r: Redirect,
    host: &str,
    root: &str,
    to: String,
)
    requires
        call_ensures(redirect_to_https, (line, authority, path, config), r),
        root@ == config.root_domain@,
        host@ == (match line {
            Some(l) => l@,
            None => match authority {
                Some(a) => a@,
                None => Seq::empty(),
            },
        }),
        call_ensures(format_target_host, (host, root, config.https_port), to),
    ensures
        r.status == 308,
        r.content_length == 0,
        r.body@.len() == 0,
        r.location@ == "https://"@ + to@ + (match path {
            Some(p) => p@,
            None => "/"@,
        }),
{
    reveal_strlit("");
    assert(""@ =~= Seq::<char>::empty());
}

/// The value of a hexadecimal digit in either case, of sixteen; none of anything else.
pub open spec fn is_digit_of(b: u8, v: int) -> bool {
    ||| 0 <= v <= 9 && b == 0x30 + v
    ||| 10 <= v <= 15 && (b == 0x61 + v - 10 || b == 0x41 + v - 10)
}

/// Exactly the hexadecimal digits have a value.
pub proof fn digits_have_a_value(b: u8, r: Option<u8>, v: int)
    requires
        call_ensures(hex, (b,), r),
    ensures
        is_digit_of(b, v) ==> r is Some && r->0 == v,
        r matches Some(n) ==> is_digit_of(b, n as int),
{
}

/// An escape at the front of a text becomes the byte that it names, and any other byte stays;
/// the rest is decoded by itself.
pub proof fn escapes_are_decoded(
    bytes: &[u8],
    out: Vec<u8>,
    rest: &[u8],
    behind: Vec<u8>,
    high: int,
    low: int,
)
    requires
        call_ensures(percent_decode, (bytes,), out),
        call_ensures(percent_decode, (rest,), behind),
    ensures
        bytes@.len() == 0 ==> out@.len() == 0,
        bytes@.len() > 2 && bytes@[0] == 0x25 && is_digit_of(bytes@[1], high) && is_digit_of(
            bytes@[2],
            low,
        ) && rest@ == bytes@.skip(3) ==> out@.len() == 1 + behind@.len() && out@[0] == high * 16
            + low && out@.skip(1) == behind@,
        bytes@.len() > 0 && rest@ == bytes@.skip(1) && (bytes@[0] != 0x25 || bytes@.len() <= 2 || (
        forall|v: int| !#[trigger] is_digit_of(bytes@[1], v)) || (forall|v: int|
            !#[trigger] is_digit_of(bytes@[2], v))) ==> out@ == seq![bytes@[0]] + behind@,
{
    let b = bytes@;
    if b.len() > 2 {
        assert(b.subrange(3, b.len() as int) =~= b.skip(3));
        if let Some(n) = super::waf::hex_value(b[1]) {
            assert(is_digit_of(b[1], n as int));
        }
        if let Some(n) = super::waf::hex_value(b[2]) {
            assert(is_digit_of(b[2], n as int));
        }
        if is_digit_of(b[1], high) && is_digit_of(b[2], low) {
            assert(super::waf::hex_value(b[1]) == Some(high as u8));
            assert(super::waf::hex_value(b[2]) == Some(low as u8));
            if b[0] == 0x25 && rest@ == b.skip(3) {
                assert(out@ == seq![(high * 16 + low) as u8] + behind@);
                assert(out@.skip(1) =~= behind@);
            }
        }
    }
    if b.len() > 0 {
        assert(b.subrange(1, b.len() as int) =~= b.skip(1));
    }
}

/// The decoded text is the one that the decoded bytes encode, where they encode one.
pub proof fn decoded_bytes_are_text(input: &str, r: String, bytes: &[u8], out: Vec<u8>)
    requires
        call_ensures(percent_decode_lossy, (input,), r),
        bytes@ == vstd::utf8::encode_utf8(input@),
        call_ensures(percent_decode, (bytes,), out),
    ensures
        vstd::utf8::valid_utf8(out@) ==> r@ == vstd::utf8::decode_utf8(out@),
{
}

/// The bytes of an ASCII text.
pub open spec fn spells(v: Seq<u8>, s: Seq<char>) -> bool {
    v.len() == s.len() && forall|i: int| 0 <= i < v.len() ==> #[trigger] v[i] as char == s[i]
}

/// HTTP/2 and HTTP/1.1 are offered, in this order, and where challenges are answered, their
/// protocol after them; a self-signed certificate is for the domain and its subdomains.
pub proof fn protocols_are_offered(
    root: &str,
    names: Vec<String>,
    plain: Vec<Vec<u8>>,
    served: Vec<Vec<u8>>,
)
    requires
        call_ensures(certificate_names, (root,), names),
        call_ensures(alpn_protocols, (), plain),
        call_ensures(served_protocols, (), served),
    ensures
        names@.len() == 2 && names@[0]@ == root@ && names@[1]@ == "*."@ + root@,
        plain@.len() == 2 && spells(plain@[0]@, "h2"@) && spells(plain@[1]@, "http/1.1"@),
        served@.len() == 3 && spells(served@[0]@, "h2"@) && spells(served@[1]@, "http/1.1"@)
            && spells(served@[2]@, "acme-tls/1"@),
{
    reveal_strlit("h2");
    reveal_strlit("http/1.1");
    reveal_strlit("acme-tls/1");
    let n = text::texts(names@);
    assert(n.len() == names@.len());
    assert(n[0] == names@[0]@ && n[1] == names@[1]@);
    let a = super::tls::bytes_of(plain@);
    assert(a.len() == plain@.len());
    assert(a[0] == plain@[0]@ && a[1] == plain@[1]@);
    let b = super::tls::bytes_of(served@);
    assert(b.len() == served@.len());
    assert(b[0] == served@[0]@ && b[1] == served@[1]@ && b[2] == served@[2]@);
}

} // verus!
