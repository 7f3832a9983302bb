//! Static web pages and HTTP security headers.
//!
//! Provides the HTML documents of the root welcome page and the branded
//! subdomain 404 page as part of the program, ensuring zero runtime filesystem
//! dependencies.
use http::{HeaderMap, HeaderName, HeaderValue};
use vstd::prelude::*;

verus! {

/// HTML content for the root domain welcome page.
pub const WELCOME_HTML: &'static str = "<!DOCTYPE html>
<html lang=\"en\">
<head>
<meta charset=\"utf-8\">
<meta name=\"viewport\" content=\"width=device-width, initial-scale=1\">
<title>Tunnel Weaver</title>
<style>body{font-family:sans-serif;max-width:40rem;margin:4rem auto;padding:0 1rem}</style>
</head>
<body>
<h1>Tunnel Weaver</h1>
<p>This relay is up and running.</p>
</body>
</html>
";

/// HTML content for the branded subdomain 404 page ("no such tunnel").
pub const NO_TUNNEL_HTML: &'static str = "<!DOCTYPE html>
<html lang=\"en\">
<head>
<meta charset=\"utf-8\">
<meta name=\"viewport\" content=\"width=device-width, initial-scale=1\">
<title>No Such Tunnel</title>
<style>body{font-family:sans-serif;max-width:40rem;margin:4rem auto;padding:0 1rem}</style>
</head>
<body>
<h1>No Such Tunnel</h1>
<p>No tunnel is connected under this name right now.</p>
</body>
</html>
";

/// `http::HeaderMap`, a multimap from header names to values.
#[verifier::external_type_specification]
#[verifier::external_body]
#[verifier::reject_recursive_types(T)]
pub struct ExHeaderMap<T>(http::HeaderMap<T>);

/// `http::HeaderValue`, the value of a header line.
#[verifier::external_type_specification]
#[verifier::external_body]
pub struct ExHeaderValue(http::HeaderValue);

/// The values of each header name, in order. Names are in lower case.
pub uninterp spec fn header_fields(headers: http::HeaderMap<http::HeaderValue>) -> Map<
    Seq<char>,
    Seq<Seq<u8>>,
>;

/// A header name in lower case, of letters, digits and hyphens.
pub open spec fn is_plain_name(name: Seq<char>) -> bool {
    &&& 0 < name.len() < 0x1_0000
    &&& forall|i: int|
        0 <= i < name.len() ==> ('a' <= #[trigger] name[i] <= 'z' || '0' <= name[i] <= '9'
            || name[i] == '-')
}

/// A header value of visible ASCII characters and spaces.
pub open spec fn is_plain_value(value: Seq<char>) -> bool {
    forall|i: int| 0 <= i < value.len() ==> ' ' <= #[trigger] value[i] <= '~'
}

/// A `http::HeaderMap` with fewer names always takes another one. It may have
/// 2^15 buckets at most, and asks for more as soon as a fifth of them is used and
/// a hash was unlucky.
pub const ROOMY: usize = 6554;

/// Calls `http::HeaderMap::insert` with `HeaderName::from_static` and
/// `HeaderValue::from_static` of the texts: whatever values the name had, it
/// has this one, and the other names keep theirs. The calls panic on a name or
/// a value with characters that are not allowed, and where the map cannot take
/// another name, which a roomy map always can.
#[verifier::external_body]
pub(crate) fn insert_header(headers: &mut HeaderMap<HeaderValue>, name: &'static str, value: &'static str)
    requires
        is_plain_name(name@),
        is_plain_value(value@),
        header_fields(*old(headers)).dom().len() < ROOMY,
        header_fields(*old(headers)).dom().finite(),
    ensures
        header_fields(*final(headers)) == header_fields(*old(headers)).insert(
            name@,
            seq![vstd::utf8::encode_utf8(value@)],
        ),
{
    headers.insert(HeaderName::from_static(name), HeaderValue::from_static(value));
}

/// No header has any value.
pub open spec fn no_fields() -> Map<Seq<char>, Seq<Seq<u8>>> {
    Map::empty()
}

/// Calls `http::HeaderMap::new`, which makes a map without any header.
#[verifier::external_body]
pub(crate) fn no_headers() -> (headers: HeaderMap<HeaderValue>)
    ensures
        header_fields(headers) == no_fields(),
{
    HeaderMap::new()
}

/// Calls `http::HeaderMap::insert` with `HeaderName::from_static` of the name
/// and `HeaderValue::from_str` of the value, which takes visible ASCII and
/// spaces: whatever values the name had, it has this one, and the other names
/// keep theirs. The calls panic where `insert_header` says.
#[verifier::external_body]
pub(crate) fn insert_text(headers: &mut HeaderMap<HeaderValue>, name: &'static str, value: &str)
    requires
        is_plain_name(name@),
        is_plain_value(value@),
        header_fields(*old(headers)).dom().len() < ROOMY,
        header_fields(*old(headers)).dom().finite(),
    ensures
        header_fields(*final(headers)) == header_fields(*old(headers)).insert(
            name@,
            seq![vstd::utf8::encode_utf8(value@)],
        ),
{
    headers.insert(HeaderName::from_static(name), HeaderValue::from_str(value).unwrap());
}

/// The value of the HSTS header.
pub const HSTS_VALUE: &'static str = "max-age=31536000; includeSubDomains";

/// The fields with one set to a single value.
pub open spec fn with_field(
    fields: Map<Seq<char>, Seq<Seq<u8>>>,
    name: Seq<char>,
    value: Seq<char>,
) -> Map<Seq<char>, Seq<Seq<u8>>> {
    fields.insert(name, seq![vstd::utf8::encode_utf8(value)])
}

/// The fields of a response with the security headers set.
pub open spec fn secured(fields: Map<Seq<char>, Seq<Seq<u8>>>, include_hsts: bool) -> Map<
    Seq<char>,
    Seq<Seq<u8>>,
> {
    let a = with_field(fields, "content-type"@, "text/html; charset=utf-8"@);
    let b = with_field(
        a,
        "content-security-policy"@,
        "default-src 'none'; style-src 'unsafe-inline'; frame-ancestors 'none'; base-uri 'none'; form-action 'none'"@,
    );
    let c = with_field(b, "x-content-type-options"@, "nosniff"@);
    let d = with_field(c, "x-frame-options"@, "DENY"@);
    let e = with_field(d, "referrer-policy"@, "no-referrer"@);
    if include_hsts {
        with_field(e, "strict-transport-security"@, HSTS_VALUE@)
    } else {
        e
    }
}

/// Injects standard security headers and content-type into HTML responses.
///
/// Applies strict Content-Security-Policy, anti-clickjacking, MIME type sniffing
/// protections, referrer policy, and conditionally Strict-Transport-Security (HSTS)
/// when serving with a valid non-placeholder certificate.
pub fn apply_security_headers(headers: &mut HeaderMap<HeaderValue>, include_hsts: bool)
    requires
        header_fields(*old(headers)).dom().finite(),
        header_fields(*old(headers)).dom().len() + (if include_hsts {
            5int
        } else {
            4
        }) < ROOMY,
    ensures
        header_fields(*final(headers)) == secured(header_fields(*old(headers)), include_hsts),
{
    proof {
        reveal_strlit("content-type");
        reveal_strlit("text/html; charset=utf-8");
        reveal_strlit("content-security-policy");
        reveal_strlit(
            "default-src 'none'; style-src 'unsafe-inline'; frame-ancestors 'none'; base-uri 'none'; form-action 'none'",
        );
        reveal_strlit("x-content-type-options");
        reveal_strlit("nosniff");
        reveal_strlit("x-frame-options");
        reveal_strlit("DENY");
        reveal_strlit("referrer-policy");
        reveal_strlit("no-referrer");
    }
    insert_header(headers, "content-type", "text/html; charset=utf-8");
    insert_header(
        headers,
        "content-security-policy",
        "default-src 'none'; style-src 'unsafe-inline'; frame-ancestors 'none'; base-uri 'none'; form-action 'none'",
    );
    insert_header(headers, "x-content-type-options", "nosniff");
    insert_header(headers, "x-frame-options", "DENY");
    insert_header(headers, "referrer-policy", "no-referrer");
    if include_hsts {
        apply_hsts(headers);
    }
}

/// Sets the HSTS header.
pub fn apply_hsts(headers: &mut HeaderMap<HeaderValue>)
    requires
        header_fields(*old(headers)).dom().finite(),
        header_fields(*old(headers)).dom().len() < ROOMY,
    ensures
        header_fields(*final(headers)) == with_field(
            header_fields(*old(headers)),
            "strict-transport-security"@,
            HSTS_VALUE@,
        ),
{
    proof {
        reveal_strlit("strict-transport-security");
        reveal_strlit("max-age=31536000; includeSubDomains");
    }
    insert_header(headers, "strict-transport-security", HSTS_VALUE);
}

/// Setting the security headers twice is setting them once.
pub proof fn securing_is_idempotent(fields: Map<Seq<char>, Seq<Seq<u8>>>, include_hsts: bool)
    ensures
        secured(secured(fields, include_hsts), include_hsts) == secured(fields, include_hsts),
{
    assert(secured(secured(fields, include_hsts), include_hsts) =~= secured(fields, include_hsts));
}

/// Each security header has exactly one value, whatever it had, and every other
/// header keeps its values.
pub proof fn only_security_headers_change(
    fields: Map<Seq<char>, Seq<Seq<u8>>>,
    include_hsts: bool,
    name: Seq<char>,
)
    ensures
        is_security_header(name) || (name == "strict-transport-security"@ && include_hsts)
            ==> secured(fields, include_hsts).contains_key(name) && secured(
            fields,
            include_hsts,
        )[name].len() == 1,
        !is_security_header(name) && name != "strict-transport-security"@ ==> {
            &&& secured(fields, include_hsts).contains_key(name) == fields.contains_key(name)
            &&& fields.contains_key(name) ==> secured(fields, include_hsts)[name] == fields[name]
        },
{
}

/// One of the headers that are always set.
pub open spec fn is_security_header(name: Seq<char>) -> bool {
    ||| name == "content-type"@
    ||| name == "content-security-policy"@
    ||| name == "x-content-type-options"@
    ||| name == "x-frame-options"@
    ||| name == "referrer-policy"@
}

/// Without HSTS the security headers leave that header as it was; with it the
/// header has the one value.
pub proof fn hsts_only_on_request(fields: Map<Seq<char>, Seq<Seq<u8>>>)
    ensures
        secured(fields, false).contains_key("strict-transport-security"@) == fields.contains_key(
            "strict-transport-security"@,
        ),
        fields.contains_key("strict-transport-security"@) ==> secured(
            fields,
            false,
        )["strict-transport-security"@] == fields["strict-transport-security"@],
        secured(fields, true)["strict-transport-security"@] == seq![
            vstd::utf8::encode_utf8(HSTS_VALUE@),
        ],
{
    reveal_strlit("content-type");
    reveal_strlit("content-security-policy");
    reveal_strlit("x-content-type-options");
    reveal_strlit("x-frame-options");
    reveal_strlit("referrer-policy");
    reveal_strlit("strict-transport-security");
    let hsts = "strict-transport-security"@;
    assert(hsts[0] == 's');
    assert("content-type"@[0] != 's');
    assert("content-security-policy"@[0] != 's');
    assert("x-content-type-options"@[0] != 's');
    assert("x-frame-options"@[0] != 's');
    assert("referrer-policy"@[0] != 's');
}

} // verus!
