//! Cleartext HTTP edge: every request is answered with a permanent redirect
//! to HTTPS that preserves host, path and query.
use crate::number;
use crate::text;
use vstd::prelude::*;

verus! {

/// Shared state for the HTTP edge service.
#[derive(Clone, Debug)]
pub struct HttpEdgeConfig {
    /// Configured root domain.
    pub root_domain: String,
    /// Port of the HTTPS listener to redirect to.
    pub https_port: u16,
}

/// The status of the redirect, 308 Permanent Redirect.
pub const PERMANENT_REDIRECT: u16 = 308;

/// The answer to a cleartext request; it has no body.
pub struct Redirect {
    /// The status code.
    pub status: u16,
    /// The `Location` header.
    pub location: String,
    /// The `Content-Length` header.
    pub content_length: u64,
    /// The body.
    pub body: Vec<u8>,
}

/// The host of a host-and-port text: a bracketed literal up to its bracket,
/// any other up to the first colon.
pub open spec fn host_name_of(raw: Seq<char>) -> Seq<char> {
    let t = text::trimmed(raw);
    let close = text::find_from(t, ']', 0);
    if t.len() > 0 && t[0] == '[' && close < t.len() {
        t.subrange(0, close + 1)
    } else {
        t.subrange(0, text::find_from(t, ':', 0))
    }
}

/// A host that stands for this machine.
pub open spec fn is_loopback(host: Seq<char>) -> bool {
    ||| host.len() == 0
    ||| text::lower(host) == "localhost"@
    ||| host == "127.0.0.1"@
    ||| host == "::1"@
    ||| host == "[::1]"@
}

/// The host names a port.
pub open spec fn has_port(host: Seq<char>) -> bool {
    if host.len() > 0 && host[0] == '[' {
        text::has(host, "]:"@)
    } else {
        text::has(host, ":"@)
    }
}

/// The host to redirect to: loopback addresses become the root domain, and
/// a port other than 443 is named unless the host names one.
pub open spec fn target_host(incoming: Seq<char>, root_domain: Seq<char>, https_port: u16) -> Seq<
    char,
> {
    let name = host_name_of(incoming);
    let host = if is_loopback(name) {
        root_domain
    } else {
        name
    };
    if has_port(host) || https_port == 443 {
        host
    } else {
        host + ":"@ + number::decimal(https_port as nat)
    }
}

/// Extracts the host without its port.
pub fn extract_host_name<'a>(raw: &'a str) -> (r: &'a str)
    ensures
        r@ == host_name_of(raw@),
{
    let trimmed = text::trim(raw);
    let v = text::chars_of(trimmed);
    let mut close: usize = 0;
    while close < v.len() && v[close] != ']'
        invariant
            close <= v@.len(),
            forall|j: int| 0 <= j < close ==> v@[j] != ']',
        decreases v@.len() - close,
    {
        close += 1;
    }
    proof {
        text::find_from_unique(v@, ']', 0, close as int);
    }
    if v.len() > 0 && v[0] == '[' && close < v.len() {
        return trimmed.substring_char(0, close + 1);
    }
    let mut colon: usize = 0;
    while colon < v.len() && v[colon] != ':'
        invariant
            colon <= v@.len(),
            forall|j: int| 0 <= j < colon ==> v@[j] != ':',
        decreases v@.len() - colon,
    {
        colon += 1;
    }
    proof {
        text::find_from_unique(v@, ':', 0, colon as int);
    }
    trimmed.substring_char(0, colon)
}

/// Computes the target redirect host.
///
/// Rewrites localhost / 127.0.0.1 / [::1] loopback addresses to `root_domain`.
/// If the effective host does not specify an explicit port and https_port != 443,
/// appends `:{https_port}`.
pub fn format_target_host(incoming_host: &str, root_domain: &str, https_port: u16) -> (r: String)
    ensures
        r@ == target_host(incoming_host@, root_domain@, https_port),
{
    let host_name = extract_host_name(incoming_host);
    let name_chars = text::chars_of(host_name);
    let loopback = name_chars.len() == 0 || {
        proof {
            reveal_strlit("localhost");
            assert(text::lower("localhost"@) == "localhost"@);
        }
        text::same_ignoring_case(host_name, "localhost")
    } || text::same(host_name, "127.0.0.1") || text::same(host_name, "::1") || text::same(
        host_name,
        "[::1]",
    );
    let effective: &str = if loopback {
        root_domain
    } else {
        host_name
    };
    let v = text::chars_of(effective);
    let has_port = if v.len() > 0 && v[0] == '[' {
        text::contains(effective, "]:")
    } else {
        text::contains(effective, ":")
    };
    if has_port || https_port == 443 {
        effective.to_owned()
    } else {
        let mut out = effective.to_owned();
        out.append(":");
        let port = number::decimal_of(https_port as u64);
        out.append(port.as_str());
        out
    }
}

/// The text of an optional value.
pub open spec fn opt_text(o: Option<&str>) -> Option<Seq<char>> {
    match o {
        Some(s) => Some(s@),
        None => None,
    }
}

/// Where a cleartext request is sent: the `Host` header counts where it is
/// readable text, then the authority of the request-target.
pub open spec fn redirect_location(
    host_header: Option<Seq<char>>,
    authority: Option<Seq<char>>,
    path_and_query: Option<Seq<char>>,
    root_domain: Seq<char>,
    https_port: u16,
) -> Seq<char> {
    let host = match (host_header, authority) {
        (Some(h), _) => h,
        (None, Some(a)) => a,
        (None, None) => ""@,
    };
    let path = match path_and_query {
        Some(p) => p,
        None => "/"@,
    };
    "https://"@ + target_host(host, root_domain, https_port) + path
}

/// Answers a cleartext request with a redirect to HTTPS.
pub fn redirect_to_https(
    host_header: Option<&str>,
    authority: Option<&str>,
    path_and_query: Option<&str>,
    config: &HttpEdgeConfig,
) -> (r: Redirect)
    ensures
        r.status == 308,
        r.content_length == 0,
        r.body@.len() == 0,
        r.location@ == redirect_location(
            opt_text(host_header),
            opt_text(authority),
            opt_text(path_and_query),
            config.root_domain@,
            config.https_port,
        ),
{
    let host: &str = match host_header {
        Some(h) => h,
        None => match authority {
            Some(a) => a,
            None => "",
        },
    };
    let path: &str = match path_and_query {
        Some(p) => p,
        None => "/",
    };
    let target = format_target_host(host, config.root_domain.as_str(), config.https_port);
    let mut location = "https://".to_owned();
    location.append(target.as_str());
    location.append(path);
    Redirect { status: PERMANENT_REDIRECT, location, content_length: 0, body: Vec::new() }
}

/// A text with no white space at its ends trims to itself.
proof fn trim_keeps_plain(s: Seq<char>)
    requires
        s.len() > 0,
        !text::is_space(s[0]),
        !text::is_space(s.last()),
    ensures
        text::trimmed(s) == s,
{
}

/// White space at the end of a port is trimmed, and the port is still one.
proof fn trimmed_port(host: Seq<char>, port: Seq<char>)
    requires
        port.len() > 0,
        port[0] == ':',
    ensures
        text::trim_end(port).len() > 0,
        text::trim_end(port)[0] == ':',
        text::trim_end(host + port) == host + text::trim_end(port),
    decreases port.len(),
{
    let whole = host + port;
    assert(whole.last() == port.last());
    if text::is_space(port.last()) {
        assert(port.len() > 1);
        assert(whole.drop_last() =~= host + port.drop_last());
        trimmed_port(host, port.drop_last());
    }
}

/// A host that stands before a port: a bracketed literal, or a text without a
/// colon.
pub open spec fn is_host_before_port(host: Seq<char>) -> bool {
    &&& host.len() > 0
    &&& !text::is_space(host[0])
    &&& !text::is_space(host.last())
    &&& if host[0] == '[' {
        text::find_from(host, ']', 0) == host.len() - 1
    } else {
        forall|i: int| 0 <= i < host.len() ==> host[i] != ':'
    }
}

/// The port a visitor came in on never decides where they are sent: the host
/// alone does.
pub proof fn incoming_port_is_dropped(
    host: Seq<char>,
    port: Seq<char>,
    root_domain: Seq<char>,
    https_port: u16,
)
    requires
        is_host_before_port(host),
        port.len() > 0,
        port[0] == ':',
    ensures
        target_host(host + port, root_domain, https_port) == target_host(
            host,
            root_domain,
            https_port,
        ),
{
    trim_keeps_plain(host);
    trimmed_port(host, port);
    let raw = host + text::trim_end(port);
    assert(text::trim_start(host + port) == host + port);
    assert(text::trimmed(host + port) == raw);
    if host[0] == '[' {
        text::find_from_is_first(host, ']', 0);
        text::find_from_unique(raw, ']', 0, host.len() - 1);
    } else {
        text::find_from_unique(raw, ':', 0, host.len() as int);
        text::find_from_unique(host, ':', 0, host.len() as int);
    }
    assert(raw.subrange(0, host.len() as int) == host);
    assert(host.subrange(0, host.len() as int) == host);
}

/// A request for this machine's loopback name is sent to the root domain.
pub proof fn loopback_goes_to_the_root_domain(
    incoming: Seq<char>,
    root_domain: Seq<char>,
    https_port: u16,
)
    requires
        is_loopback(host_name_of(incoming)),
    ensures
        https_port == 443 || has_port(root_domain) ==> target_host(
            incoming,
            root_domain,
            https_port,
        ) == root_domain,
        https_port != 443 && !has_port(root_domain) ==> target_host(
            incoming,
            root_domain,
            https_port,
        ) == root_domain + ":"@ + number::decimal(https_port as nat),
{
}

} // verus!
