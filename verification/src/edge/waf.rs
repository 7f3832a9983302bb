//! Minimal, always-on request firewall for tunnelled hostnames.
//!
//! Every hostname the relay issues a certificate for is published to
//! Certificate Transparency logs and probed by mass scanners within seconds.
//! Those probes never belong to a legitimate application, so the edge refuses
//! them itself and the origin never sees them. The rules are deliberately
//! narrow: they match only patterns that no sane web application serves
//! publicly.
use crate::text;
use vstd::prelude::*;

verus! {

/// Why a request was refused. Carried into the log line so an operator can
/// see what the bots are after.
#[derive(Debug, Clone, Copy, PartialEq, Eq, Structural)]
pub enum Verdict {
    /// Hidden file or directory (`/.env`, `/.git/…`, `/.ssh/…`), except the
    /// `/.well-known/` namespace which is a legitimate public convention.
    Dotfile,
    /// Encoded or literal `..` segment: path traversal.
    Traversal,
    /// Editor/backup leftovers (`~`, `.bak`, `.old`, `.orig`, `.swp`).
    Leftover,
    /// Dumps, archives and key material by extension (`.sql`, `.sqlite`,
    /// `.pem`, `.key`, `.p12`, …).
    SecretMaterial,
    /// Well-known admin/debug endpoints that are never public on a dev
    /// tunnel (`/phpmyadmin`, `/actuator/env`, `/telescope`, `/_debugbar`…).
    DebugEndpoint,
    /// Control characters or a null byte in the path.
    Malformed,
    /// `TRACE` (cross-site tracing) is never proxied.
    Trace,
}

impl Verdict {
    /// The token of each verdict.
    pub open spec fn token(self) -> Seq<char> {
        match self {
            Verdict::Dotfile => "dotfile"@,
            Verdict::Traversal => "traversal"@,
            Verdict::Leftover => "leftover"@,
            Verdict::SecretMaterial => "secret-material"@,
            Verdict::DebugEndpoint => "debug-endpoint"@,
            Verdict::Malformed => "malformed"@,
            Verdict::Trace => "trace"@,
        }
    }

    /// Short stable token for logs and the `x-weaver-blocked` header.
    pub fn as_str(self) -> (r: &'static str)
        ensures
            r@ == self.token(),
    {
        match self {
            Verdict::Dotfile => "dotfile",
            Verdict::Traversal => "traversal",
            Verdict::Leftover => "leftover",
            Verdict::SecretMaterial => "secret-material",
            Verdict::DebugEndpoint => "debug-endpoint",
            Verdict::Malformed => "malformed",
            Verdict::Trace => "trace",
        }
    }
}

/// What `String::from_utf8_lossy` makes of bytes that are not valid UTF-8.
pub uninterp spec fn utf8_lossy(bytes: Seq<u8>) -> Seq<char>;

/// The text with each row of characters beyond ASCII as one U+FFFD.
pub open spec fn blurred(s: Seq<char>) -> Seq<char>
    decreases s.len(),
{
    if s.len() == 0 {
        Seq::empty()
    } else {
        joined(s[0], blurred(s.subrange(1, s.len() as int)))
    }
}

/// A character before a blurred text: one beyond ASCII joins the row it meets.
pub open spec fn joined(c: char, rest: Seq<char>) -> Seq<char> {
    if c as u32 <= 0x7f {
        seq![c] + rest
    } else if rest.len() > 0 && rest[0] as u32 > 0x7f {
        rest
    } else {
        seq!['\u{fffd}'] + rest
    }
}

/// The bytes as text, with each row of bytes beyond ASCII as one U+FFFD.
pub open spec fn blurred_bytes(b: Seq<u8>) -> Seq<char>
    decreases b.len(),
{
    if b.len() == 0 {
        Seq::empty()
    } else {
        joined(b[0] as char, blurred_bytes(b.subrange(1, b.len() as int)))
    }
}

/// Calls `String::from_utf8_lossy`. Bytes that are valid UTF-8 give the text
/// they encode. In any case the ASCII bytes stay where they are, and what stands
/// between them becomes characters beyond ASCII: std puts U+FFFD in place of each
/// invalid sequence. How many of them it puts is not stated, only that the text
/// is determined by the bytes.
#[verifier::external_body]
fn from_utf8_lossy(bytes: &Vec<u8>) -> (r: String)
    ensures
        vstd::utf8::valid_utf8(bytes@) ==> r@ == vstd::utf8::decode_utf8(bytes@),
        !vstd::utf8::valid_utf8(bytes@) ==> r@ == utf8_lossy(bytes@),
        blurred(r@) == blurred_bytes(bytes@),
{
    String::from_utf8_lossy(bytes).into_owned()
}

/// The text of bytes: the one they encode, where they are valid UTF-8.
pub open spec fn lossy_text(bytes: Seq<u8>) -> Seq<char> {
    if vstd::utf8::valid_utf8(bytes) {
        vstd::utf8::decode_utf8(bytes)
    } else {
        utf8_lossy(bytes)
    }
}

/// The value of an ASCII hexadecimal digit, in either case.
pub open spec fn hex_value(b: u8) -> Option<u8> {
    if 0x30 <= b <= 0x39 {
        Some((b - 0x30) as u8)
    } else if 0x61 <= b <= 0x66 {
        Some((b - 0x61 + 10) as u8)
    } else if 0x41 <= b <= 0x46 {
        Some((b - 0x41 + 10) as u8)
    } else {
        None
    }
}

/// The value of an ASCII hexadecimal digit, in either case.
pub fn hex(b: u8) -> (r: Option<u8>)
    ensures
        r == hex_value(b),
        r matches Some(v) ==> v < 16,
{
    if 0x30 <= b && b <= 0x39 {
        Some(b - 0x30)
    } else if 0x61 <= b && b <= 0x66 {
        Some(b - 0x61 + 10)
    } else if 0x41 <= b && b <= 0x46 {
        Some(b - 0x41 + 10)
    } else {
        None
    }
}

/// An escape `%XY` with two hexadecimal digits stands at the front.
pub open spec fn starts_with_escape(b: Seq<u8>) -> bool {
    b.len() > 2 && b[0] == 0x25 && hex_value(b[1]) is Some && hex_value(b[2]) is Some
}

/// One pass of percent-decoding: each well-formed escape becomes the byte it
/// names, everything else stays.
pub open spec fn percent_decoded(b: Seq<u8>) -> Seq<u8>
    decreases b.len(),
{
    if b.len() == 0 {
        b
    } else if starts_with_escape(b) {
        seq![(hex_value(b[1])->0 * 16 + hex_value(b[2])->0) as u8] + percent_decoded(
            b.subrange(3, b.len() as int),
        )
    } else {
        seq![b[0]] + percent_decoded(b.subrange(1, b.len() as int))
    }
}

/// The text that one pass of percent-decoding leaves.
pub open spec fn decoded_text(s: Seq<char>) -> Seq<char> {
    lossy_text(percent_decoded(vstd::utf8::encode_utf8(s)))
}

/// What is seen of a text after one pass of percent-decoding.
pub open spec fn seen(s: Seq<char>) -> Seq<char> {
    blurred_bytes(percent_decoded(vstd::utf8::encode_utf8(s)))
}

/// Percent-decode the bytes of a text, keeping any malformed escape verbatim.
pub fn percent_decode(bytes: &[u8]) -> (out: Vec<u8>)
    ensures
        out@ == percent_decoded(bytes@),
{
    let mut out: Vec<u8> = Vec::new();
    let mut i: usize = 0;
    assert(bytes@.subrange(0, bytes@.len() as int) == bytes@);
    while i < bytes.len()
        invariant
            i <= bytes@.len(),
            percent_decoded(bytes@) == out@ + percent_decoded(
                bytes@.subrange(i as int, bytes@.len() as int),
            ),
        decreases bytes@.len() - i,
    {
        let ghost rest = bytes@.subrange(i as int, bytes@.len() as int);
        let ghost done = out@;
        let mut escape: Option<u8> = None;
        if bytes[i] == 0x25 && bytes.len() - i > 2 {
            let hi = hex(bytes[i + 1]);
            let lo = hex(bytes[i + 2]);
            if let (Some(h), Some(l)) = (hi, lo) {
                escape = Some(h * 16 + l);
            }
        }
        match escape {
            Some(value) => {
                assert(starts_with_escape(rest));
                assert(rest.subrange(3, rest.len() as int) == bytes@.subrange(
                    i + 3,
                    bytes@.len() as int,
                ));
                out.push(value);
                i += 3;
                assert(out@ == done + seq![value]);
            },
            None => {
                assert(!starts_with_escape(rest));
                assert(rest.subrange(1, rest.len() as int) == bytes@.subrange(
                    i + 1,
                    bytes@.len() as int,
                ));
                out.push(bytes[i]);
                i += 1;
                assert(out@ == done + seq![rest[0]]);
            },
        }
    }
    out
}

/// Percent-decode, keeping any malformed escape verbatim. Lossy on the UTF-8
/// side since the result is only compared against ASCII rule tables.
pub fn percent_decode_lossy(input: &str) -> (r: String)
    ensures
        r@ == decoded_text(input@),
        vstd::utf8::valid_utf8(percent_decoded(vstd::utf8::encode_utf8(input@))) ==> r@
            == vstd::utf8::decode_utf8(percent_decoded(vstd::utf8::encode_utf8(input@))),
        is_plain_path(input@) ==> r@ == input@,
        blurred(r@) == seen(input@),
{
    proof {
        if is_plain_path(input@) {
            super::escapes::plain_text_is_left_alone(input@);
        }
    }
    let out = percent_decode(input.as_bytes());
    from_utf8_lossy(&out)
}

/// The part of a request target before its query or fragment.
pub open spec fn path_part(raw: Seq<char>) -> Seq<char>
    decreases raw.len(),
{
    if raw.len() == 0 || raw[0] == '?' || raw[0] == '#' {
        Seq::empty()
    } else {
        seq![raw[0]] + path_part(raw.subrange(1, raw.len() as int))
    }
}

/// A path without escapes, query and fragment.
pub open spec fn is_plain_path(path: Seq<char>) -> bool {
    forall|i: int| 0 <= i < path.len() ==> path[i] != '%' && path[i] != '?' && path[i] != '#'
}

/// A character that no path may hold.
pub open spec fn is_control(c: char) -> bool {
    (c as u32) < 0x20 || c as u32 == 0x7f
}

/// A backslash separates segments as a slash does.
pub open spec fn slashed(s: Seq<char>) -> Seq<char> {
    s.map_values(|c: char| if c == '\\' { '/' } else { c })
}

/// The non-empty segments of a path.
pub open spec fn segments(s: Seq<char>) -> Seq<Seq<char>> {
    text::split_on(slashed(s), '/').filter(|p: Seq<char>| p.len() > 0)
}

/// A segment that names a hidden file or directory. `.well-known` is a public
/// convention, but only at the root.
pub open spec fn is_hidden(segs: Seq<Seq<char>>, i: int) -> bool {
    segs[i].len() > 1 && segs[i][0] == '.' && !(i == 0 && segs[i] == ".well-known"@)
}

/// Endings of editor swap files and backups.
pub open spec fn is_leftover(name: Seq<char>) -> bool {
    ||| name.len() > 0 && name.last() == '~'
    ||| ".bak"@.is_suffix_of(name)
    ||| ".backup"@.is_suffix_of(name)
    ||| ".old"@.is_suffix_of(name)
    ||| ".orig"@.is_suffix_of(name)
    ||| ".save"@.is_suffix_of(name)
    ||| ".swp"@.is_suffix_of(name)
    ||| ".swo"@.is_suffix_of(name)
    ||| ".tmp"@.is_suffix_of(name)
    ||| ".dist"@.is_suffix_of(name)
}

/// Endings that only ever hold dumps or key material.
pub open spec fn is_secret(name: Seq<char>) -> bool {
    ||| ".sql"@.is_suffix_of(name)
    ||| ".sql.gz"@.is_suffix_of(name)
    ||| ".sqlite"@.is_suffix_of(name)
    ||| ".sqlite3"@.is_suffix_of(name)
    ||| ".db"@.is_suffix_of(name)
    ||| ".pem"@.is_suffix_of(name)
    ||| ".key"@.is_suffix_of(name)
    ||| ".p12"@.is_suffix_of(name)
    ||| ".pfx"@.is_suffix_of(name)
    ||| ".jks"@.is_suffix_of(name)
    ||| ".keystore"@.is_suffix_of(name)
    ||| ".ppk"@.is_suffix_of(name)
    ||| ".htpasswd"@.is_suffix_of(name)
    ||| ".htaccess"@.is_suffix_of(name)
    ||| "id_rsa"@.is_suffix_of(name)
    ||| "id_ed25519"@.is_suffix_of(name)
}

/// First path segments that are never a legitimate public route on a tunnel
/// but are on every scanner's list.
pub open spec fn is_debug_root(name: Seq<char>) -> bool {
    ||| name == "env"@
    ||| name == "phpmyadmin"@
    ||| name == "pma"@
    ||| name == "myadmin"@
    ||| name == "adminer"@
    ||| name == "adminer.php"@
    ||| name == "phpinfo.php"@
    ||| name == "info.php"@
    ||| name == "telescope"@
    ||| name == "_debugbar"@
    ||| name == "_profiler"@
    ||| name == "server-status"@
    ||| name == "server-info"@
    ||| name == "trace.axd"@
    ||| name == "elmah.axd"@
    ||| name == "___proxy_subdomain_whm"@
    ||| name == "___proxy_subdomain_cpanel"@
    ||| name == "cgi-bin"@
    ||| name == "wp-config.php"@
    ||| name == "config.php"@
    ||| name == "configuration.php"@
    ||| name == "web.config"@
    ||| name == "docker-compose.yml"@
    ||| name == "docker-compose.yaml"@
    ||| name == "dockerfile"@
    ||| name == "composer.lock"@
    ||| name == "package-lock.json"@
    ||| name == "yarn.lock"@
    ||| name == "credentials"@
    ||| name == "credentials.json"@
    ||| name == "secrets.json"@
    ||| name == "config.json"@
    ||| name == "config.yml"@
    ||| name == "config.yaml"@
}

/// Two-segment prefixes for framework debug/leak endpoints.
pub open spec fn is_debug_pair(a: Seq<char>, b: Seq<char>) -> bool {
    ||| a == "actuator"@ && (b == "env"@ || b == "heapdump"@ || b == "configprops"@)
    ||| a == "@vite"@ && b == "env"@
    ||| a == "ecp"@ && b == "current"@
    ||| a == "v2"@ && b == "_catalog"@
    ||| a == "_ignition"@ && b == "execute-solution"@
    ||| a == "debug"@ && b == "default"@
    ||| a == "solr"@ && b == "admin"@
}

/// The verdict on the segments of a lower-cased path without control
/// characters.
pub open spec fn verdict_on_segments(segs: Seq<Seq<char>>) -> Option<Verdict> {
    if segs.contains(".."@) {
        Some(Verdict::Traversal)
    } else if exists|i: int| 0 <= i < segs.len() && is_hidden(segs, i) {
        Some(Verdict::Dotfile)
    } else if segs.len() > 0 && is_leftover(segs.last()) {
        Some(Verdict::Leftover)
    } else if segs.len() > 0 && is_secret(segs.last()) {
        Some(Verdict::SecretMaterial)
    } else if segs.len() > 0 && is_debug_root(segs[0]) {
        Some(Verdict::DebugEndpoint)
    } else if segs.len() >= 2 && is_debug_pair(segs[0], segs[1]) {
        Some(Verdict::DebugEndpoint)
    } else {
        None
    }
}

/// The verdict on a path whose escapes have been decoded.
pub open spec fn verdict_on_decoded(decoded: Seq<char>) -> Option<Verdict> {
    let path = text::lower(decoded);
    if exists|i: int| 0 <= i < path.len() && is_control(path[i]) {
        Some(Verdict::Malformed)
    } else {
        verdict_on_segments(segments(path))
    }
}

/// The verdict on a request: `TRACE` is never proxied, any other method is
/// judged by what is seen of its path, decoded twice.
pub open spec fn verdict(method: Seq<char>, raw_path: Seq<char>) -> Option<Verdict> {
    if method == "TRACE"@ {
        Some(Verdict::Trace)
    } else {
        verdict_on_decoded(seen(seen(path_part(raw_path))))
    }
}

/// The part of a request target before its query or fragment.
pub fn path_of_target(raw: &str) -> (r: String)
    ensures
        r@ == path_part(raw@),
{
    let v = text::chars_of(raw);
    let mut r = String::new();
    let mut i: usize = 0;
    assert(raw@.subrange(0, raw@.len() as int) == raw@);
    while i < v.len() && v[i] != '?' && v[i] != '#'
        invariant
            v@ == raw@,
            i <= v@.len(),
            path_part(raw@) == r@ + path_part(raw@.subrange(i as int, raw@.len() as int)),
        decreases v@.len() - i,
    {
        let ghost rest = raw@.subrange(i as int, raw@.len() as int);
        let ghost done = r@;
        assert(rest.subrange(1, rest.len() as int) == raw@.subrange(i + 1, raw@.len() as int));
        r.push(v[i]);
        i += 1;
        assert(r@ == done + seq![rest[0]]);
    }
    r
}

/// The non-empty segments of a path, split on slashes and backslashes.
pub fn path_segments(path: &str) -> (segs: Vec<String>)
    ensures
        text::texts(segs@) == segments(path@),
{
    let mut flat = String::new();
    for c in iter: path.chars()
        invariant
            flat@ == slashed(path@).take(iter.index() as int),
            iter.seq() == path@,
    {
        flat.push(if c == '\\' { '/' } else { c });
        assert(flat@ == slashed(path@).take(iter.index() as int + 1));
    }
    assert(slashed(path@).take(path@.len() as int) == slashed(path@));
    let pieces = text::split(flat.as_str(), '/');
    let ghost keep = |p: Seq<char>| p.len() > 0;
    let ghost all = text::texts(pieces@);
    let mut segs: Vec<String> = Vec::new();
    let mut i: usize = 0;
    assert(all.take(0).filter(keep) == Seq::<Seq<char>>::empty()) by {
        reveal(Seq::filter);
    }
    while i < pieces.len()
        invariant
            i <= pieces@.len(),
            all == text::texts(pieces@),
            keep == (|p: Seq<char>| p.len() > 0),
            text::texts(segs@) == all.take(i as int).filter(keep),
        decreases pieces@.len() - i,
    {
        let ghost done = text::texts(segs@);
        proof {
            reveal(Seq::filter);
            assert(all.take(i + 1).drop_last() == all.take(i as int));
            assert(all.take(i + 1).last() == pieces@[i as int]@);
        }
        if text::chars_of(pieces[i].as_str()).len() > 0 {
            segs.push(pieces[i].clone());
            assert(text::texts(segs@) == done.push(pieces@[i as int]@));
        }
        i += 1;
    }
    assert(all.take(all.len() as int) == all);
    segs
}

/// Whether the name ends like an editor swap file or a backup.
fn leftover(name: &str) -> (r: bool)
    ensures
        r == is_leftover(name@),
{
    let v = text::chars_of(name);
    (v.len() > 0 && v[v.len() - 1] == '~') || text::ends_with(name, ".bak") || text::ends_with(
        name,
        ".backup",
    ) || text::ends_with(name, ".old") || text::ends_with(name, ".orig") || text::ends_with(
        name,
        ".save",
    ) || text::ends_with(name, ".swp") || text::ends_with(name, ".swo") || text::ends_with(
        name,
        ".tmp",
    ) || text::ends_with(name, ".dist")
}

/// Whether the name ends like a dump or key material.
fn secret(name: &str) -> (r: bool)
    ensures
        r == is_secret(name@),
{
    text::ends_with(name, ".sql") || text::ends_with(name, ".sql.gz") || text::ends_with(
        name,
        ".sqlite",
    ) || text::ends_with(name, ".sqlite3") || text::ends_with(name, ".db") || text::ends_with(
        name,
        ".pem",
    ) || text::ends_with(name, ".key") || text::ends_with(name, ".p12") || text::ends_with(
        name,
        ".pfx",
    ) || text::ends_with(name, ".jks") || text::ends_with(name, ".keystore") || text::ends_with(
        name,
        ".ppk",
    ) || text::ends_with(name, ".htpasswd") || text::ends_with(name, ".htaccess")
        || text::ends_with(name, "id_rsa") || text::ends_with(name, "id_ed25519")
}

/// Whether the first segment is an admin or debug endpoint.
fn debug_root(name: &str) -> (r: bool)
    ensures
        r == is_debug_root(name@),
{
    text::same(name, "env") || text::same(name, "phpmyadmin") || text::same(name, "pma")
        || text::same(name, "myadmin") || text::same(name, "adminer") || text::same(
        name,
        "adminer.php",
    ) || text::same(name, "phpinfo.php") || text::same(name, "info.php") || text::same(
        name,
        "telescope",
    ) || text::same(name, "_debugbar") || text::same(name, "_profiler") || text::same(
        name,
        "server-status",
    ) || text::same(name, "server-info") || text::same(name, "trace.axd") || text::same(
        name,
        "elmah.axd",
    ) || text::same(name, "___proxy_subdomain_whm") || text::same(
        name,
        "___proxy_subdomain_cpanel",
    ) || text::same(name, "cgi-bin") || text::same(name, "wp-config.php") || text::same(
        name,
        "config.php",
    ) || text::same(name, "configuration.php") || text::same(name, "web.config") || text::same(
        name,
        "docker-compose.yml",
    ) || text::same(name, "docker-compose.yaml") || text::same(name, "dockerfile") || text::same(
        name,
        "composer.lock",
    ) || text::same(name, "package-lock.json") || text::same(name, "yarn.lock") || text::same(
        name,
        "credentials",
    ) || text::same(name, "credentials.json") || text::same(name, "secrets.json") || text::same(
        name,
        "config.json",
    ) || text::same(name, "config.yml") || text::same(name, "config.yaml")
}

/// Whether the first two segments are a framework debug endpoint.
fn debug_pair(a: &str, b: &str) -> (r: bool)
    ensures
        r == is_debug_pair(a@, b@),
{
    (text::same(a, "actuator") && (text::same(b, "env") || text::same(b, "heapdump")
        || text::same(b, "configprops"))) || (text::same(a, "@vite") && text::same(b, "env")) || (
    text::same(a, "ecp") && text::same(b, "current")) || (text::same(a, "v2") && text::same(
        b,
        "_catalog",
    )) || (text::same(a, "_ignition") && text::same(b, "execute-solution")) || (text::same(
        a,
        "debug",
    ) && text::same(b, "default")) || (text::same(a, "solr") && text::same(b, "admin"))
}

/// Judge the segments of a lower-cased path.
pub fn inspect_segments(segs: &Vec<String>) -> (r: Option<Verdict>)
    ensures
        r == verdict_on_segments(text::texts(segs@)),
{
    let ghost all = text::texts(segs@);
    if text::holds(segs, "..") {
        return Some(Verdict::Traversal);
    }
    let mut i: usize = 0;
    while i < segs.len()
        invariant
            i <= segs@.len(),
            all == text::texts(segs@),
            !all.contains(".."@),
            forall|j: int| 0 <= j < i ==> !is_hidden(all, j),
        decreases segs@.len() - i,
    {
        let seg = segs[i].as_str();
        let v = text::chars_of(seg);
        if v.len() > 1 && v[0] == '.' && !(i == 0 && text::same(seg, ".well-known")) {
            assert(is_hidden(all, i as int));
            return Some(Verdict::Dotfile);
        }
        i += 1;
    }
    let n: usize = segs.len();
    if n > 0 {
        let last = segs[n - 1].as_str();
        assert(last@ == all.last());
        if leftover(last) {
            return Some(Verdict::Leftover);
        }
        if secret(last) {
            return Some(Verdict::SecretMaterial);
        }
        let first = segs[0].as_str();
        assert(first@ == all[0]);
        if debug_root(first) {
            return Some(Verdict::DebugEndpoint);
        }
        if n >= 2 && debug_pair(first, segs[1].as_str()) {
            assert(segs@[1]@ == all[1]);
            return Some(Verdict::DebugEndpoint);
        }
    }
    None
}

/// Judge a path whose escapes have been decoded.
pub fn inspect_decoded(decoded: &str) -> (r: Option<Verdict>)
    ensures
        r == verdict_on_decoded(decoded@),
{
    let path = text::lowered(decoded);
    let v = text::chars_of(path.as_str());
    let mut i: usize = 0;
    while i < v.len()
        invariant
            v@ == path@,
            path@ == text::lower(decoded@),
            i <= v@.len(),
            forall|j: int| 0 <= j < i ==> !is_control(path@[j]),
        decreases v@.len() - i,
    {
        let u: u32 = v[i] as u32;
        if u < 0x20 || u == 0x7f {
            assert(is_control(path@[i as int]));
            return Some(Verdict::Malformed);
        }
        i += 1;
    }
    let segs = path_segments(path.as_str());
    inspect_segments(&segs)
}

/// Inspect a visitor request; `None` means "forward it".
pub fn inspect(method: &str, raw_path: &str) -> (r: Option<Verdict>)
    ensures
        r == verdict(method@, raw_path@),
        method@ != "TRACE"@ && is_plain_path(raw_path@) ==> r == verdict_on_decoded(raw_path@),
{
    proof {
        if is_plain_path(raw_path@) {
            path_is_its_path_part(raw_path@);
            super::escapes::plain_text_is_left_alone(raw_path@);
        }
    }
    if text::same(method, "TRACE") {
        return Some(Verdict::Trace);
    }
    let path = path_of_target(raw_path);
    let once = percent_decode_lossy(path.as_str());
    // Decode twice: scanners double-encode (`%252e%252e`) to slip past
    // single-pass filters.
    let twice = percent_decode_lossy(once.as_str());
    proof {
        super::sight::passes_see_alike(once@);
        super::sight::sight_decides(twice@);
    }
    inspect_decoded(twice.as_str())
}

/// A path without query and fragment is all path.
pub proof fn path_is_its_path_part(path: Seq<char>)
    requires
        forall|i: int| 0 <= i < path.len() ==> path[i] != '?' && path[i] != '#',
    ensures
        path_part(path) == path,
    decreases path.len(),
{
    if path.len() > 0 {
        let tail = path.subrange(1, path.len() as int);
        path_is_its_path_part(tail);
        assert(seq![path[0]] + tail == path);
    }
}

/// What follows a query or a fragment does not belong to the path.
proof fn path_part_before_query(path: Seq<char>, rest: Seq<char>)
    requires
        rest.len() > 0,
        rest[0] == '?' || rest[0] == '#',
    ensures
        path_part(path + rest) == path_part(path),
    decreases path.len(),
{
    if path.len() > 0 {
        let tail = path.subrange(1, path.len() as int);
        path_part_before_query(tail, rest);
        assert((path + rest).subrange(1, (path + rest).len() as int) == tail + rest);
    } else {
        assert(path + rest == rest);
    }
}

/// A query string or fragment never changes the verdict.
pub proof fn query_is_ignored(method: Seq<char>, path: Seq<char>, rest: Seq<char>)
    requires
        rest.len() > 0,
        rest[0] == '?' || rest[0] == '#',
    ensures
        verdict(method, path + rest) == verdict(method, path),
{
    path_part_before_query(path, rest);
}

/// The letters' case never changes the verdict on a decoded path.
pub proof fn case_is_ignored(decoded: Seq<char>)
    ensures
        verdict_on_decoded(text::lower(decoded)) == verdict_on_decoded(decoded),
{
    assert(text::lower(text::lower(decoded)) == text::lower(decoded));
}

/// A backslash separates segments exactly as a slash does.
pub proof fn backslash_is_slash(decoded: Seq<char>)
    ensures
        verdict_on_decoded(slashed(decoded)) == verdict_on_decoded(decoded),
{
    let a = text::lower(decoded);
    let b = text::lower(slashed(decoded));
    assert(b == slashed(a));
    assert(slashed(slashed(a)) == slashed(a));
    assert forall|i: int| 0 <= i < a.len() implies is_control(a[i]) == is_control(b[i]) by {}
    if exists|i: int| 0 <= i < a.len() && is_control(a[i]) {
        let i = choose|i: int| 0 <= i < a.len() && is_control(a[i]);
        assert(is_control(b[i]));
    }
    if exists|i: int| 0 <= i < b.len() && is_control(b[i]) {
        let i = choose|i: int| 0 <= i < b.len() && is_control(b[i]);
        assert(is_control(a[i]));
    }
}

/// What is forwarded holds no control character, no `..` segment, and no
/// hidden segment but a `.well-known` at the root.
pub proof fn forwarded_path_is_clean(decoded: Seq<char>, i: int)
    requires
        verdict_on_decoded(decoded) is None,
    ensures
        0 <= i < decoded.len() ==> !is_control(decoded[i]),
        ({
            let segs = segments(text::lower(decoded));
            0 <= i < segs.len() ==> {
                &&& segs[i] != ".."@
                &&& segs[i].len() > 1 && segs[i][0] == '.' ==> i == 0 && segs[i]
                    == ".well-known"@
            }
        }),
{
    let path = text::lower(decoded);
    let segs = segments(path);
    if 0 <= i < decoded.len() {
        assert(path[i] == text::lower_char(decoded[i]));
        assert(!is_control(path[i]));
    }
    if 0 <= i < segs.len() {
        assert(segs.contains(segs[i]));
        assert(!is_hidden(segs, i));
    }
}

/// The `/.well-known/` namespace is left alone: where no other segment starts
/// with a dot, a path under it is never refused as a hidden file.
pub proof fn well_known_is_public(segs: Seq<Seq<char>>)
    requires
        segs.len() > 0,
        segs[0] == ".well-known"@,
        forall|i: int| 1 <= i < segs.len() && segs[i].len() > 0 ==> segs[i][0] != '.',
    ensures
        verdict_on_segments(segs) != Some(Verdict::Dotfile),
        verdict_on_segments(segs) != Some(Verdict::Traversal),
{
    reveal_strlit("..");
    reveal_strlit(".well-known");
    assert(!segs.contains(".."@)) by {
        if segs.contains(".."@) {
            let i = choose|i: int| 0 <= i < segs.len() && segs[i] == ".."@;
            assert(segs[i][0] == '.');
            assert(".."@.len() != ".well-known"@.len());
        }
    }
    assert forall|i: int| 0 <= i < segs.len() implies !is_hidden(segs, i) by {}
}

} // verus!
