//! Request-target host extraction with RFC 9112 §3.2 / RFC 9113 §8.3.1
//! validation.
//!
//! The edge routes on the host name alone, so it is also where every
//! host-related MUST of the HTTP specs is enforced: a missing, repeated or
//! malformed `Host` is a **400**, never routed on a best-effort guess.
use crate::text;
use vstd::prelude::*;

verus! {

/// Why a request has no usable host (RFC 9112 §3.2, RFC 9113 §8.3.1).
#[derive(Debug, Clone, Copy, PartialEq, Eq, Structural)]
pub enum HostError {
    /// No `Host` header and no authority in the request-target.
    Missing,
    /// More than one `Host` header line.
    Duplicate,
    /// A `Host` value that is not `uri-host [ ":" port ]`.
    Invalid,
    /// HTTP/2: a `host` header that names a different authority than
    /// `:authority`.
    Mismatch,
}

/// The protocol version a request came in on.
#[derive(Debug, Clone, Copy, PartialEq, Eq, Structural)]
pub enum HttpVersion {
    Http09,
    Http10,
    Http11,
    Http2,
    Http3,
}

/// What of a request says which host it is for.
pub struct RequestParts {
    /// The values of the `Host` header lines, in order.
    pub host_lines: Vec<Vec<u8>>,
    /// The authority of an absolute-form request-target (h1) or the
    /// `:authority` pseudo-header (h2).
    pub authority: Option<String>,
    /// The protocol version.
    pub version: HttpVersion,
}

/// A byte of a DNS name or an IPv4 literal.
pub open spec fn is_name_byte(b: u8) -> bool {
    ||| 0x30 <= b <= 0x39
    ||| 0x41 <= b <= 0x5a
    ||| 0x61 <= b <= 0x7a
    ||| b == 0x2e
    ||| b == 0x2d
    ||| b == 0x5f
}

/// A byte of an IPv6 literal between its brackets.
pub open spec fn is_literal_byte(b: u8) -> bool {
    ||| 0x30 <= b <= 0x39
    ||| 0x41 <= b <= 0x46
    ||| 0x61 <= b <= 0x66
    ||| b == 0x3a
    ||| b == 0x2e
}

/// A bracketed, non-empty IPv6 literal.
pub open spec fn is_bracketed(h: Seq<u8>) -> bool {
    &&& h.len() > 2
    &&& h[0] == 0x5b
    &&& h.last() == 0x5d
    &&& forall|i: int| 1 <= i < h.len() - 1 ==> is_literal_byte(#[trigger] h[i])
}

/// A non-empty row of name bytes.
pub open spec fn is_name(h: Seq<u8>) -> bool {
    h.len() > 0 && forall|i: int| 0 <= i < h.len() ==> is_name_byte(#[trigger] h[i])
}

/// A host the edge can route on: a name or a bracketed literal of at most 255
/// bytes.
pub open spec fn is_host(h: Seq<u8>) -> bool {
    h.len() <= 255 && (is_name(h) || is_bracketed(h))
}

/// Nothing, or a colon and one to five decimal digits.
pub open spec fn is_port_suffix(p: Seq<u8>) -> bool {
    ||| p.len() == 0
    ||| {
        &&& 2 <= p.len() <= 6
        &&& p[0] == 0x3a
        &&& forall|i: int| 1 <= i < p.len() ==> 0x30 <= #[trigger] p[i] <= 0x39
    }
}

/// The first `n` bytes are a host and what follows is a port or nothing.
pub open spec fn splits_at(raw: Seq<u8>, n: int) -> bool {
    &&& 0 <= n <= raw.len()
    &&& is_host(raw.subrange(0, n))
    &&& is_port_suffix(raw.subrange(n, raw.len() as int))
}

/// ASCII bytes as characters.
pub open spec fn ascii(b: Seq<u8>) -> Seq<char> {
    b.map_values(|x: u8| x as char)
}

/// The host of a `uri-host [ ":" port ]` value, without the port.
pub open spec fn host_of(raw: Seq<u8>) -> Option<Seq<char>> {
    if exists|n: int| splits_at(raw, n) {
        Some(ascii(raw.subrange(0, choose|n: int| splits_at(raw, n))))
    } else {
        None
    }
}

/// Where the host of a value ends, if it has one: behind the first closing
/// bracket of a literal, before the first colon of a name.
pub open spec fn host_end(raw: Seq<u8>) -> int {
    if raw.len() > 0 && raw[0] == 0x5b {
        first_byte(raw, 0x5d, 0) + 1
    } else {
        first_byte(raw, 0x3a, 0)
    }
}

/// The first offset from `from` on that holds `b`, or the length.
pub open spec fn first_byte(raw: Seq<u8>, b: u8, from: int) -> int
    decreases raw.len() - from,
{
    if from < 0 || from >= raw.len() {
        raw.len() as int
    } else if raw[from] == b {
        from
    } else {
        first_byte(raw, b, from + 1)
    }
}

proof fn first_byte_unique(raw: Seq<u8>, b: u8, from: int, at: int)
    requires
        0 <= from <= at <= raw.len(),
        at < raw.len() ==> raw[at] == b,
        forall|j: int| from <= j < at ==> raw[j] != b,
    ensures
        first_byte(raw, b, from) == at,
    decreases at - from,
{
    if from < at {
        first_byte_unique(raw, b, from + 1, at);
    }
}

/// A value splits into host and port in at most one way.
pub proof fn split_is_unique(raw: Seq<u8>, n: int)
    requires
        splits_at(raw, n),
    ensures
        n == host_end(raw),
{
    let h = raw.subrange(0, n);
    let p = raw.subrange(n, raw.len() as int);
    assert(h[0] == raw[0]);
    if is_name(h) {
        assert(is_name_byte(h[0]));
        assert forall|j: int| 0 <= j < n implies raw[j] != 0x3a by {
            assert(is_name_byte(h[j]));
        }
        assert(n < raw.len() ==> raw[n] == p[0]);
        first_byte_unique(raw, 0x3a, 0, n);
    } else {
        assert forall|j: int| 0 <= j < n - 1 implies raw[j] != 0x5d by {
            assert(j > 0 ==> is_literal_byte(h[j]));
        }
        assert(raw[n - 1] == h.last());
        first_byte_unique(raw, 0x5d, 0, n - 1);
    }
}

/// What `host_of` is, given where the host would end.
proof fn host_of_by_end(raw: Seq<u8>)
    ensures
        splits_at(raw, host_end(raw)) ==> host_of(raw) == Some(
            ascii(raw.subrange(0, host_end(raw))),
        ),
        !splits_at(raw, host_end(raw)) ==> host_of(raw) is None,
{
    if exists|n: int| splits_at(raw, n) {
        let n = choose|n: int| splits_at(raw, n);
        split_is_unique(raw, n);
    }
}

/// The first offset that holds the byte, or the length.
fn position(raw: &[u8], b: u8) -> (at: usize)
    ensures
        at <= raw@.len(),
        at == first_byte(raw@, b, 0),
{
    let mut i: usize = 0;
    while i < raw.len() && raw[i] != b
        invariant
            i <= raw@.len(),
            forall|j: int| 0 <= j < i ==> raw@[j] != b,
        decreases raw@.len() - i,
    {
        i += 1;
    }
    proof {
        first_byte_unique(raw@, b, 0, i as int);
    }
    i
}

/// Whether the first `n` bytes are a host the edge can route on.
fn host_prefix(raw: &[u8], n: usize) -> (r: bool)
    requires
        n <= raw@.len(),
        n == host_end(raw@),
    ensures
        r == is_host(raw@.subrange(0, n as int)),
{
    let ghost h = raw@.subrange(0, n as int);
    if n == 0 || n > 255 {
        return false;
    }
    assert(h[0] == raw@[0]);
    if raw[0] == 0x5b {
        assert(!is_name_byte(h[0]));
        if n <= 2 || raw[n - 1] != 0x5d {
            return false;
        }
        assert(h.last() == 0x5d);
        let mut i: usize = 1;
        while i < n - 1
            invariant
                1 <= i <= n - 1,
                2 < n <= raw@.len(),
                h == raw@.subrange(0, n as int),
                !is_name_byte(h[0]),
                forall|j: int| 1 <= j < i ==> is_literal_byte(#[trigger] h[j]),
            decreases n - i,
        {
            let b: u8 = raw[i];
            assert(h[i as int] == b);
            if !((0x30 <= b && b <= 0x39) || (0x41 <= b && b <= 0x46) || (0x61 <= b && b <= 0x66)
                || b == 0x3a || b == 0x2e) {
                return false;
            }
            i += 1;
        }
        true
    } else {
        let mut i: usize = 0;
        while i < n
            invariant
                0 <= i <= n,
                0 < n <= raw@.len(),
                h == raw@.subrange(0, n as int),
                h[0] != 0x5b,
                forall|j: int| 0 <= j < i ==> is_name_byte(#[trigger] h[j]),
            decreases n - i,
        {
            let b: u8 = raw[i];
            assert(h[i as int] == b);
            if !((0x30 <= b && b <= 0x39) || (0x41 <= b && b <= 0x5a) || (0x61 <= b && b <= 0x7a)
                || b == 0x2e || b == 0x2d || b == 0x5f) {
                return false;
            }
            i += 1;
        }
        true
    }
}

/// Whether the bytes from `n` on are nothing, or a colon and a decimal port.
fn port_suffix(raw: &[u8], n: usize) -> (r: bool)
    requires
        n <= raw@.len(),
    ensures
        r == is_port_suffix(raw@.subrange(n as int, raw@.len() as int)),
{
    let ghost p = raw@.subrange(n as int, raw@.len() as int);
    let len: usize = raw.len() - n;
    if len == 0 {
        return true;
    }
    assert(p[0] == raw@[n as int]);
    if len < 2 || len > 6 || raw[n] != 0x3a {
        return false;
    }
    let mut i: usize = 1;
    while i < len
        invariant
            1 <= i <= len,
            len <= 6,
            n + len == raw@.len(),
            raw@.len() <= usize::MAX,
            p == raw@.subrange(n as int, raw@.len() as int),
            forall|j: int| 1 <= j < i ==> 0x30 <= #[trigger] p[j] <= 0x39,
        decreases len - i,
    {
        let b: u8 = raw[n + i];
        assert(p[i as int] == b);
        if b < 0x30 || b > 0x39 {
            return false;
        }
        i += 1;
    }
    true
}

/// Parses `uri-host [ ":" port ]` and returns the host part, or `None` if
/// the value is not one the edge can route on.
///
/// Accepted: a DNS name (`[A-Za-z0-9._-]+`, non-empty), an IPv4 literal
/// (same character set), or a bracketed IPv6 literal, each optionally
/// followed by a decimal port. Anything else — empty, whitespace, `@`
/// (userinfo), `,` (a joined list), `/` (a path), percent-encoding,
/// control bytes — is rejected.
pub fn parse_host_value(raw: &[u8]) -> (r: Option<String>)
    ensures
        match r {
            Some(h) => host_of(raw@) == Some(h@),
            None => host_of(raw@) is None,
        },
{
    proof {
        host_of_by_end(raw@);
    }
    let len: usize = raw.len();
    let n: usize = if len > 0 && raw[0] == 0x5b {
        let close = position(raw, 0x5d);
        if close == len {
            assert(!splits_at(raw@, len + 1));
            return None;
        }
        close + 1
    } else {
        position(raw, 0x3a)
    };
    if !host_prefix(raw, n) || !port_suffix(raw, n) {
        return None;
    }
    let ghost h = raw@.subrange(0, n as int);
    let mut out = String::new();
    let mut i: usize = 0;
    while i < n
        invariant
            i <= n <= raw@.len(),
            h == raw@.subrange(0, n as int),
            out@ == ascii(h).take(i as int),
        decreases n - i,
    {
        out.push(raw[i] as char);
        i += 1;
        assert(out@ == ascii(h).take(i as int));
    }
    assert(ascii(h).take(n as int) == ascii(h));
    Some(out)
}

/// The host of a request, or why it has none.
pub open spec fn host_of_request(
    host_lines: Seq<Seq<u8>>,
    authority: Option<Seq<char>>,
    version: HttpVersion,
) -> Result<Seq<char>, HostError> {
    let header = if host_lines.len() == 1 {
        host_of(host_lines[0])
    } else {
        None
    };
    let target = match authority {
        Some(a) => host_of(vstd::utf8::encode_utf8(a)),
        None => None,
    };
    if host_lines.len() > 1 {
        Err(HostError::Duplicate)
    } else if host_lines.len() == 1 && header is None {
        Err(HostError::Invalid)
    } else if authority is Some && target is None {
        Err(HostError::Invalid)
    } else if authority is None && host_lines.len() == 0 {
        Err(HostError::Missing)
    } else if authority is None {
        Ok(header->0)
    } else if host_lines.len() == 1 && version == HttpVersion::Http2 && text::lower(target->0)
        != text::lower(header->0) {
        Err(HostError::Mismatch)
    } else {
        Ok(target->0)
    }
}

/// The values of the host lines.
pub open spec fn lines(v: Seq<Vec<u8>>) -> Seq<Seq<u8>> {
    v.map_values(|l: Vec<u8>| l@)
}

impl RequestParts {
    /// The host of the request, or why it has none.
    pub open spec fn host(self) -> Result<Seq<char>, HostError> {
        host_of_request(
            lines(self.host_lines@),
            match self.authority {
                Some(a) => Some(a@),
                None => None,
            },
            self.version,
        )
    }
}

/// The validated host of a request, without the port.
///
/// The authority of an absolute-form request-target (h1) or the
/// `:authority` pseudo-header (h2) takes precedence over `Host`
/// (RFC 9112 §3.2.2). Exactly one `Host` line is allowed; on h2 it must
/// agree with `:authority`.
pub fn request_host(req: &RequestParts) -> (r: Result<String, HostError>)
    ensures
        match r {
            Ok(h) => req.host() == Ok::<Seq<char>, HostError>(h@),
            Err(e) => req.host() == Err::<Seq<char>, HostError>(e),
        },
{
    let ghost all = lines(req.host_lines@);
    if req.host_lines.len() > 1 {
        return Err(HostError::Duplicate);
    }
    let mut header: Option<String> = None;
    if req.host_lines.len() == 1 {
        assert(all[0] == req.host_lines@[0]@);
        header = parse_host_value(req.host_lines[0].as_slice());
        if header.is_none() {
            return Err(HostError::Invalid);
        }
    }
    match &req.authority {
        Some(authority) => {
            let target = match parse_host_value(authority.as_str().as_bytes()) {
                Some(t) => t,
                None => {
                    return Err(HostError::Invalid);
                },
            };
            if let Some(h) = header {
                if req.version == HttpVersion::Http2 && !text::same_ignoring_case(
                    target.as_str(),
                    h.as_str(),
                ) {
                    return Err(HostError::Mismatch);
                }
            }
            Ok(target)
        },
        None => match header {
            Some(h) => Ok(h),
            None => Err(HostError::Missing),
        },
    }
}

/// Two `Host` lines are refused even when they are identical.
pub proof fn repeated_host_is_refused(
    line: Seq<u8>,
    authority: Option<Seq<char>>,
    version: HttpVersion,
)
    ensures
        host_of_request(seq![line, line], authority, version) == Err::<Seq<char>, HostError>(
            HostError::Duplicate,
        ),
{
}

/// Off HTTP/2 a well-formed authority decides, whatever the `Host` line names.
pub proof fn authority_wins(host_line: Seq<u8>, authority: Seq<char>, version: HttpVersion)
    requires
        host_of(host_line) is Some,
        host_of(vstd::utf8::encode_utf8(authority)) is Some,
        version != HttpVersion::Http2,
    ensures
        host_of_request(seq![host_line], Some(authority), version) == host_of_request(
            seq![],
            Some(authority),
            version,
        ),
{
}

/// A routed host holds only name characters, or is a bracketed literal: no
/// white space, userinfo, list, path or control byte ever gets past the edge.
pub proof fn routed_host_is_plain(raw: Seq<u8>, i: int)
    requires
        host_of(raw) is Some,
        0 <= i < host_of(raw)->0.len(),
    ensures
        0 < host_of(raw)->0.len() <= 255,
        ({
            let c = host_of(raw)->0[i];
            c as u8 == raw[i] && (is_name_byte(raw[i]) || is_literal_byte(raw[i]) || raw[i] == 0x5b
                || raw[i] == 0x5d)
        }),
{
    let n = choose|n: int| splits_at(raw, n);
    let h = raw.subrange(0, n);
    assert(splits_at(raw, n));
    assert(h[i] == raw[i]);
    if is_name(h) {
        assert(is_name_byte(h[i]));
    } else if 0 < i < n - 1 {
        assert(is_literal_byte(h[i]));
    } else if i == n - 1 {
        assert(h.last() == h[i]);
    }
}

/// A port behind a host is dropped: it does not change the host.
pub proof fn port_is_dropped(host: Seq<u8>, port: Seq<u8>)
    requires
        is_host(host),
        is_port_suffix(port),
    ensures
        host_of(host + port) == Some(ascii(host)),
        host_of(host + port) == host_of(host),
{
    let raw = host + port;
    let n = host.len() as int;
    assert(raw.subrange(0, n) == host);
    assert(raw.subrange(n, raw.len() as int) == port);
    assert(splits_at(raw, n));
    host_of_by_end(raw);
    split_is_unique(raw, n);
    assert(host.subrange(0, n) == host);
    assert(host.subrange(n, n) == Seq::<u8>::empty());
    assert(splits_at(host, n));
    host_of_by_end(host);
    split_is_unique(host, n);
}

} // verus!
