//! What the firewall sees of a path: its ASCII characters, and where something
//! else stands between them. Nothing else decides the verdict, so it does not
//! matter how bytes that are no text were replaced.
use super::waf::{
    blurred, blurred_bytes, hex_value, is_control, is_debug_pair, is_debug_root, is_hidden,
    is_leftover, is_secret, joined, percent_decoded, seen, segments, slashed, starts_with_escape,
    verdict_on_decoded, verdict_on_segments,
};
use crate::text;
use vstd::prelude::*;
use vstd::utf8::{encode_scalar, encode_utf8};

verus! {

/// A character of ASCII.
pub open spec fn is_ascii(c: char) -> bool {
    c as u32 <= 0x7f
}

/// A text of ASCII characters.
pub open spec fn all_ascii(s: Seq<char>) -> bool {
    forall|i: int| 0 <= i < s.len() ==> is_ascii(#[trigger] s[i])
}

/// A text without its first character.
spec fn tail(s: Seq<char>) -> Seq<char> {
    s.subrange(1, s.len() as int)
}

/// How a blurred text begins.
proof fn first_is_seen(s: Seq<char>)
    ensures
        s.len() == 0 <==> blurred(s).len() == 0,
        s.len() > 0 && is_ascii(s[0]) ==> blurred(s) == seq![s[0]] + blurred(tail(s)),
        s.len() > 0 && !is_ascii(s[0]) ==> !is_ascii(blurred(s)[0]),
    decreases s.len(),
{
    if s.len() > 0 {
        first_is_seen(tail(s));
    }
}

/// An ASCII character at the end is seen there.
proof fn last_is_seen(s: Seq<char>, c: char)
    requires
        is_ascii(c),
    ensures
        blurred(s.push(c)) == blurred(s).push(c),
    decreases s.len(),
{
    let whole = s.push(c);
    if s.len() > 0 {
        assert(tail(whole) =~= tail(s).push(c));
        last_is_seen(tail(s), c);
        assert(joined(s[0], blurred(tail(s)).push(c)) =~= joined(s[0], blurred(tail(s))).push(c));
    } else {
        assert(tail(whole) =~= Seq::<char>::empty());
        assert(blurred(tail(whole)) =~= Seq::<char>::empty());
        assert(blurred(whole) =~= blurred(s).push(c));
    }
}

/// Anything else at the end is seen as such.
proof fn other_end_is_seen(s: Seq<char>)
    requires
        s.len() > 0,
        !is_ascii(s.last()),
    ensures
        blurred(s).len() > 0,
        !is_ascii(blurred(s).last()),
    decreases s.len(),
{
    first_is_seen(s);
    if s.len() > 1 {
        assert(tail(s).last() == s.last());
        other_end_is_seen(tail(s));
    } else {
        assert(tail(s) =~= Seq::<char>::empty());
        assert(blurred(tail(s)) =~= Seq::<char>::empty());
    }
}

/// What stands around an ASCII character is seen on its own.
proof fn parts_are_seen(p: Seq<char>, c: char, q: Seq<char>)
    requires
        is_ascii(c),
    ensures
        blurred(p + seq![c] + q) == blurred(p) + seq![c] + blurred(q),
    decreases p.len(),
{
    let whole = p + seq![c] + q;
    if p.len() > 0 {
        assert(tail(whole) =~= tail(p) + seq![c] + q);
        parts_are_seen(tail(p), c, q);
        let x = blurred(tail(p));
        assert(joined(p[0], x + seq![c] + blurred(q)) =~= joined(p[0], x) + seq![c] + blurred(q));
    } else {
        assert(tail(whole) =~= q);
        assert(blurred(whole) =~= blurred(p) + seq![c] + blurred(q));
    }
}

/// A text holds an ASCII character where it is seen to.
proof fn character_is_seen(s: Seq<char>, c: char)
    requires
        is_ascii(c),
    ensures
        blurred(s).contains(c) == s.contains(c),
    decreases s.len(),
{
    if s.len() > 0 {
        let rest = tail(s);
        character_is_seen(rest, c);
        first_is_seen(s);
        first_is_seen(rest);
        let b = blurred(s);
        if s.contains(c) {
            let i = choose|i: int| 0 <= i < s.len() && s[i] == c;
            if i == 0 {
                assert(b[0] == c);
            } else {
                assert(rest[i - 1] == c);
                let j = choose|j: int| 0 <= j < blurred(rest).len() && blurred(rest)[j] == c;
                if b == blurred(rest) {
                    assert(b[j] == c);
                } else {
                    assert(b[j + 1] == c);
                }
            }
        }
        if b.contains(c) {
            let i = choose|i: int| 0 <= i < b.len() && b[i] == c;
            if is_ascii(s[0]) && i == 0 {
                assert(s[0] == c);
            } else {
                if b == blurred(rest) {
                    assert(blurred(rest)[i] == c);
                } else {
                    replacement_is_not_ascii();
                    assert(i > 0);
                    assert(blurred(rest)[i - 1] == c);
                }
                let j = choose|j: int| 0 <= j < rest.len() && rest[j] == c;
                assert(s[j + 1] == c);
            }
        }
    } else {
        assert(blurred(s) =~= s);
    }
}

proof fn replacement_is_not_ascii()
    ensures
        !is_ascii('\u{fffd}'),
        text::lower_char('\u{fffd}') == '\u{fffd}',
{
}

/// A text is an ASCII one where it is seen as that.
proof fn literal_is_seen(l: Seq<char>, s: Seq<char>)
    requires
        all_ascii(l),
    ensures
        blurred(s) == l <==> s == l,
    decreases s.len(),
{
    first_is_seen(s);
    if s.len() > 0 && l.len() > 0 {
        let rest = tail(l);
        assert forall|i: int| 0 <= i < rest.len() implies is_ascii(#[trigger] rest[i]) by {
            assert(rest[i] == l[i + 1]);
        }
        literal_is_seen(rest, tail(s));
        if is_ascii(s[0]) {
            assert(blurred(s).subrange(1, blurred(s).len() as int) =~= blurred(tail(s)));
            assert(seq![s[0]] + tail(s) =~= s);
            assert(seq![l[0]] + rest =~= l);
            if blurred(s) == l {
                assert(blurred(tail(s)) == rest);
                assert(s =~= l);
            }
        } else {
            assert(is_ascii(l[0]));
        }
    } else if s.len() == 0 {
        assert(blurred(s) =~= s);
    }
}

/// A text ends in an ASCII one where it is seen to.
proof fn suffix_is_seen(l: Seq<char>, s: Seq<char>)
    requires
        all_ascii(l),
    ensures
        l.is_suffix_of(blurred(s)) == l.is_suffix_of(s),
    decreases l.len(),
{
    let b = blurred(s);
    first_is_seen(s);
    if l.len() > 0 {
        let short = l.drop_last();
        assert forall|i: int| 0 <= i < short.len() implies is_ascii(#[trigger] short[i]) by {
            assert(short[i] == l[i]);
        }
        assert(is_ascii(l[l.len() - 1]));
        suffix_by_last(l, s);
        suffix_by_last(l, b);
        if s.len() > 0 {
            if is_ascii(s.last()) {
                last_is_seen(s.drop_last(), s.last());
                assert(s.drop_last().push(s.last()) =~= s);
                assert(b.drop_last() =~= blurred(s.drop_last()));
                suffix_is_seen(short, s.drop_last());
            } else {
                other_end_is_seen(s);
            }
        }
    } else {
        assert(l.is_suffix_of(b)) by {
            assert(l =~= b.subrange(b.len() - l.len(), b.len() as int));
        }
        assert(l.is_suffix_of(s)) by {
            assert(l =~= s.subrange(s.len() - l.len(), s.len() as int));
        }
    }
}

/// A suffix ends as the text does, and so does what stands before.
proof fn suffix_by_last(l: Seq<char>, s: Seq<char>)
    requires
        l.len() > 0,
    ensures
        l.is_suffix_of(s) <==> s.len() > 0 && s.last() == l.last() && l.drop_last().is_suffix_of(
            s.drop_last(),
        ),
{
    let short = l.drop_last();
    let rest = s.drop_last();
    if l.is_suffix_of(s) {
        let end = s.subrange(s.len() - l.len(), s.len() as int);
        assert(end.last() == s.last());
        assert(short =~= rest.subrange(rest.len() - short.len(), rest.len() as int)) by {
            assert forall|i: int| 0 <= i < short.len() implies short[i] == rest.subrange(
                rest.len() - short.len(),
                rest.len() as int,
            )[i] by {
                assert(l[i] == end[i]);
            }
        }
    }
    if s.len() > 0 && s.last() == l.last() && short.is_suffix_of(rest) {
        let end = rest.subrange(rest.len() - short.len(), rest.len() as int);
        assert forall|i: int| 0 <= i < l.len() implies l[i] == s.subrange(
            s.len() - l.len(),
            s.len() as int,
        )[i] by {
            if i < short.len() {
                assert(short[i] == end[i]);
            }
        }
        assert(l =~= s.subrange(s.len() - l.len(), s.len() as int));
    }
}

/// A text and what is seen of it are lowered alike.
proof fn lower_is_seen(s: Seq<char>)
    ensures
        text::lower(blurred(s)) == blurred(text::lower(s)),
    decreases s.len(),
{
    let low = text::lower(s);
    if s.len() > 0 {
        lower_is_seen(tail(s));
        assert(tail(low) =~= text::lower(tail(s)));
        lowered_stays(s[0]);
        replacement_is_not_ascii();
        let x = blurred(tail(s));
        if x.len() > 0 {
            lowered_stays(x[0]);
            assert(text::lower(x)[0] == text::lower_char(x[0]));
        }
        assert(text::lower(joined(s[0], x)) =~= joined(low[0], text::lower(x)));
    } else {
        assert(text::lower(blurred(s)) =~= blurred(low));
    }
}

proof fn lowered_stays(c: char)
    ensures
        is_ascii(text::lower_char(c)) == is_ascii(c),
        !is_ascii(c) ==> text::lower_char(c) == c,
{
}

/// Backslashes are seen as such.
proof fn slashes_are_seen(s: Seq<char>)
    ensures
        slashed(blurred(s)) == blurred(slashed(s)),
    decreases s.len(),
{
    let flat = slashed(s);
    if s.len() > 0 {
        slashes_are_seen(tail(s));
        assert(tail(flat) =~= slashed(tail(s)));
        replacement_is_not_ascii();
        let x = blurred(tail(s));
        if x.len() > 0 {
            assert(slashed(x)[0] == if x[0] == '\\' {
                '/'
            } else {
                x[0]
            });
        }
        assert(slashed(joined(s[0], x)) =~= joined(flat[0], slashed(x)));
    } else {
        assert(slashed(blurred(s)) =~= blurred(flat));
    }
}

/// The pieces of what is seen of several texts.
pub open spec fn all_blurred(list: Seq<Seq<char>>) -> Seq<Seq<char>> {
    list.map_values(|s: Seq<char>| blurred(s))
}

/// The pieces between ASCII characters are seen on their own.
proof fn pieces_are_seen(s: Seq<char>, c: char)
    requires
        is_ascii(c),
    ensures
        text::split_on(blurred(s), c) == all_blurred(text::split_on(s, c)),
    decreases s.len(),
{
    let at = text::find_from(s, c, 0);
    text::find_from_is_first(s, c, 0);
    let p = s.subrange(0, at);
    let b = blurred(s);
    assert forall|j: int| 0 <= j < p.len() implies p[j] != c by {
        assert(p[j] == s[j]);
    }
    assert(!p.contains(c));
    character_is_seen(p, c);
    let front = blurred(p);
    assert forall|j: int| 0 <= j < front.len() implies front[j] != c by {
        if front[j] == c {
            assert(front.contains(c));
        }
    }
    if at < s.len() {
        let q = s.subrange(at + 1, s.len() as int);
        assert(s =~= p + seq![c] + q);
        parts_are_seen(p, c, q);
        pieces_are_seen(q, c);
        assert forall|j: int| 0 <= j < front.len() implies b[j] != c by {
            assert(b[j] == front[j]);
        }
        assert(b[front.len() as int] == c);
        text::find_from_unique(b, c, 0, front.len() as int);
        assert(b.subrange(0, front.len() as int) =~= front);
        assert(b.subrange(front.len() as int + 1, b.len() as int) =~= blurred(q));
        assert(all_blurred(text::split_on(s, c)) =~= seq![front] + all_blurred(
            text::split_on(q, c),
        ));
    } else {
        assert(p =~= s);
        text::find_from_unique(b, c, 0, b.len() as int);
        assert(all_blurred(text::split_on(s, c)) =~= seq![b]);
    }
}

/// A piece is empty where it is seen to be.
proof fn empty_pieces_are_seen(list: Seq<Seq<char>>)
    ensures
        all_blurred(list).filter(|p: Seq<char>| p.len() > 0) == all_blurred(
            list.filter(|p: Seq<char>| p.len() > 0),
        ),
    decreases list.len(),
{
    reveal(Seq::filter);
    let keep = |p: Seq<char>| p.len() > 0;
    if list.len() > 0 {
        let rest = list.drop_last();
        empty_pieces_are_seen(rest);
        first_is_seen(list.last());
        assert(all_blurred(list).drop_last() =~= all_blurred(rest));
        assert(all_blurred(list).last() == blurred(list.last()));
        if keep(list.last()) {
            assert(all_blurred(rest.filter(keep).push(list.last())) =~= all_blurred(
                rest.filter(keep),
            ).push(blurred(list.last())));
        }
    } else {
        assert(all_blurred(list) =~= Seq::<Seq<char>>::empty());
        assert(all_blurred(list).filter(keep) =~= Seq::<Seq<char>>::empty());
        assert(list.filter(keep) =~= Seq::<Seq<char>>::empty());
        assert(all_blurred(list.filter(keep)) =~= Seq::<Seq<char>>::empty());
    }
}

/// The segments of a path are seen on their own.
proof fn segments_are_seen(path: Seq<char>)
    ensures
        segments(blurred(path)) == all_blurred(segments(path)),
{
    slashes_are_seen(path);
    pieces_are_seen(slashed(path), '/');
    empty_pieces_are_seen(text::split_on(slashed(path), '/'));
}

proof fn leftover_is_seen(s: Seq<char>)
    ensures
        is_leftover(blurred(s)) == is_leftover(s),
{
    first_is_seen(s);
    if s.len() > 0 {
        if is_ascii(s.last()) {
            last_is_seen(s.drop_last(), s.last());
            assert(s.drop_last().push(s.last()) =~= s);
        } else {
            other_end_is_seen(s);
        }
    }
    reveal_strlit(".bak");
    suffix_is_seen(".bak"@, s);
    reveal_strlit(".backup");
    suffix_is_seen(".backup"@, s);
    reveal_strlit(".old");
    suffix_is_seen(".old"@, s);
    reveal_strlit(".orig");
    suffix_is_seen(".orig"@, s);
    reveal_strlit(".save");
    suffix_is_seen(".save"@, s);
    reveal_strlit(".swp");
    suffix_is_seen(".swp"@, s);
    reveal_strlit(".swo");
    suffix_is_seen(".swo"@, s);
    reveal_strlit(".tmp");
    suffix_is_seen(".tmp"@, s);
    reveal_strlit(".dist");
    suffix_is_seen(".dist"@, s);
}

proof fn secret_is_seen(s: Seq<char>)
    ensures
        is_secret(blurred(s)) == is_secret(s),
{
    reveal_strlit(".sql");
    suffix_is_seen(".sql"@, s);
    reveal_strlit(".sql.gz");
    suffix_is_seen(".sql.gz"@, s);
    reveal_strlit(".sqlite");
    suffix_is_seen(".sqlite"@, s);
    reveal_strlit(".sqlite3");
    suffix_is_seen(".sqlite3"@, s);
    reveal_strlit(".db");
    suffix_is_seen(".db"@, s);
    reveal_strlit(".pem");
    suffix_is_seen(".pem"@, s);
    reveal_strlit(".key");
    suffix_is_seen(".key"@, s);
    reveal_strlit(".p12");
    suffix_is_seen(".p12"@, s);
    reveal_strlit(".pfx");
    suffix_is_seen(".pfx"@, s);
    reveal_strlit(".jks");
    suffix_is_seen(".jks"@, s);
    reveal_strlit(".keystore");
    suffix_is_seen(".keystore"@, s);
    reveal_strlit(".ppk");
    suffix_is_seen(".ppk"@, s);
    reveal_strlit(".htpasswd");
    suffix_is_seen(".htpasswd"@, s);
    reveal_strlit(".htaccess");
    suffix_is_seen(".htaccess"@, s);
    reveal_strlit("id_rsa");
    suffix_is_seen("id_rsa"@, s);
    reveal_strlit("id_ed25519");
    suffix_is_seen("id_ed25519"@, s);
}

proof fn debug_root_is_seen(s: Seq<char>)
    ensures
        is_debug_root(blurred(s)) == is_debug_root(s),
{
    reveal_strlit("env");
    literal_is_seen("env"@, s);
    reveal_strlit("phpmyadmin");
    literal_is_seen("phpmyadmin"@, s);
    reveal_strlit("pma");
    literal_is_seen("pma"@, s);
    reveal_strlit("myadmin");
    literal_is_seen("myadmin"@, s);
    reveal_strlit("adminer");
    literal_is_seen("adminer"@, s);
    reveal_strlit("adminer.php");
    literal_is_seen("adminer.php"@, s);
    reveal_strlit("phpinfo.php");
    literal_is_seen("phpinfo.php"@, s);
    reveal_strlit("info.php");
    literal_is_seen("info.php"@, s);
    reveal_strlit("telescope");
    literal_is_seen("telescope"@, s);
    reveal_strlit("_debugbar");
    literal_is_seen("_debugbar"@, s);
    reveal_strlit("_profiler");
    literal_is_seen("_profiler"@, s);
    reveal_strlit("server-status");
    literal_is_seen("server-status"@, s);
    reveal_strlit("server-info");
    literal_is_seen("server-info"@, s);
    reveal_strlit("trace.axd");
    literal_is_seen("trace.axd"@, s);
    reveal_strlit("elmah.axd");
    literal_is_seen("elmah.axd"@, s);
    reveal_strlit("___proxy_subdomain_whm");
    literal_is_seen("___proxy_subdomain_whm"@, s);
    reveal_strlit("___proxy_subdomain_cpanel");
    literal_is_seen("___proxy_subdomain_cpanel"@, s);
    reveal_strlit("cgi-bin");
    literal_is_seen("cgi-bin"@, s);
    reveal_strlit("wp-config.php");
    literal_is_seen("wp-config.php"@, s);
    reveal_strlit("config.php");
    literal_is_seen("config.php"@, s);
    reveal_strlit("configuration.php");
    literal_is_seen("configuration.php"@, s);
    reveal_strlit("web.config");
    literal_is_seen("web.config"@, s);
    reveal_strlit("docker-compose.yml");
    literal_is_seen("docker-compose.yml"@, s);
    reveal_strlit("docker-compose.yaml");
    literal_is_seen("docker-compose.yaml"@, s);
    reveal_strlit("dockerfile");
    literal_is_seen("dockerfile"@, s);
    reveal_strlit("composer.lock");
    literal_is_seen("composer.lock"@, s);
    reveal_strlit("package-lock.json");
    literal_is_seen("package-lock.json"@, s);
    reveal_strlit("yarn.lock");
    literal_is_seen("yarn.lock"@, s);
    reveal_strlit("credentials");
    literal_is_seen("credentials"@, s);
    reveal_strlit("credentials.json");
    literal_is_seen("credentials.json"@, s);
    reveal_strlit("secrets.json");
    literal_is_seen("secrets.json"@, s);
    reveal_strlit("config.json");
    literal_is_seen("config.json"@, s);
    reveal_strlit("config.yml");
    literal_is_seen("config.yml"@, s);
    reveal_strlit("config.yaml");
    literal_is_seen("config.yaml"@, s);
}

proof fn debug_pair_is_seen(a: Seq<char>, b: Seq<char>)
    ensures
        is_debug_pair(blurred(a), blurred(b)) == is_debug_pair(a, b),
{
    reveal_strlit("actuator");
    literal_is_seen("actuator"@, a);
    reveal_strlit("@vite");
    literal_is_seen("@vite"@, a);
    reveal_strlit("ecp");
    literal_is_seen("ecp"@, a);
    reveal_strlit("v2");
    literal_is_seen("v2"@, a);
    reveal_strlit("_ignition");
    literal_is_seen("_ignition"@, a);
    reveal_strlit("debug");
    literal_is_seen("debug"@, a);
    reveal_strlit("solr");
    literal_is_seen("solr"@, a);
    reveal_strlit("env");
    literal_is_seen("env"@, b);
    reveal_strlit("heapdump");
    literal_is_seen("heapdump"@, b);
    reveal_strlit("configprops");
    literal_is_seen("configprops"@, b);
    reveal_strlit("current");
    literal_is_seen("current"@, b);
    reveal_strlit("_catalog");
    literal_is_seen("_catalog"@, b);
    reveal_strlit("execute-solution");
    literal_is_seen("execute-solution"@, b);
    reveal_strlit("default");
    literal_is_seen("default"@, b);
    reveal_strlit("admin");
    literal_is_seen("admin"@, b);
}

proof fn hidden_is_seen(segs: Seq<Seq<char>>, i: int)
    requires
        0 <= i < segs.len(),
    ensures
        is_hidden(all_blurred(segs), i) == is_hidden(segs, i),
{
    let s = segs[i];
    assert(all_blurred(segs)[i] == blurred(s));
    reveal_strlit(".well-known");
    literal_is_seen(".well-known"@, s);
    first_is_seen(s);
    if s.len() > 0 {
        first_is_seen(tail(s));
    }
}

/// The verdict on segments is that on what is seen of them.
proof fn segments_decide(segs: Seq<Seq<char>>)
    ensures
        verdict_on_segments(all_blurred(segs)) == verdict_on_segments(segs),
{
    let seen_segs = all_blurred(segs);
    reveal_strlit("..");
    assert forall|i: int| 0 <= i < segs.len() implies (#[trigger] seen_segs[i] == ".."@) == (segs[i]
        == ".."@) by {
        literal_is_seen(".."@, segs[i]);
    }
    if segs.contains(".."@) {
        let i = choose|i: int| 0 <= i < segs.len() && segs[i] == ".."@;
        assert(seen_segs[i] == ".."@);
    }
    if seen_segs.contains(".."@) {
        let i = choose|i: int| 0 <= i < seen_segs.len() && seen_segs[i] == ".."@;
        assert(segs[i] == ".."@);
    }
    assert forall|i: int| 0 <= i < segs.len() implies is_hidden(seen_segs, i) == #[trigger] is_hidden(
        segs,
        i,
    ) by {
        hidden_is_seen(segs, i);
    }
    if exists|i: int| 0 <= i < seen_segs.len() && is_hidden(seen_segs, i) {
        let i = choose|i: int| 0 <= i < seen_segs.len() && is_hidden(seen_segs, i);
        assert(is_hidden(segs, i));
    }
    if segs.len() > 0 {
        assert(seen_segs.last() == blurred(segs.last()));
        assert(seen_segs[0] == blurred(segs[0]));
        leftover_is_seen(segs.last());
        secret_is_seen(segs.last());
        debug_root_is_seen(segs[0]);
    }
    if segs.len() >= 2 {
        assert(seen_segs[1] == blurred(segs[1]));
        debug_pair_is_seen(segs[0], segs[1]);
    }
}

/// A path holds a control character where it is seen to.
proof fn controls_are_seen(path: Seq<char>)
    ensures
        (exists|i: int| 0 <= i < path.len() && is_control(path[i])) == (exists|i: int|
            0 <= i < blurred(path).len() && is_control(blurred(path)[i])),
{
    let b = blurred(path);
    if exists|i: int| 0 <= i < path.len() && is_control(path[i]) {
        let i = choose|i: int| 0 <= i < path.len() && is_control(path[i]);
        character_is_seen(path, path[i]);
        assert(path.contains(path[i]));
        let j = choose|j: int| 0 <= j < b.len() && b[j] == path[i];
        assert(is_control(b[j]));
    }
    if exists|i: int| 0 <= i < b.len() && is_control(b[i]) {
        let i = choose|i: int| 0 <= i < b.len() && is_control(b[i]);
        character_is_seen(path, b[i]);
        assert(b.contains(b[i]));
        let j = choose|j: int| 0 <= j < path.len() && path[j] == b[i];
        assert(is_control(path[j]));
    }
}

/// The verdict on a decoded path is that on what is seen of it.
pub proof fn sight_decides(decoded: Seq<char>)
    ensures
        verdict_on_decoded(blurred(decoded)) == verdict_on_decoded(decoded),
{
    let path = text::lower(decoded);
    lower_is_seen(decoded);
    controls_are_seen(path);
    segments_are_seen(path);
    segments_decide(segments(path));
}

/// What is seen of what is seen is the same.
pub proof fn sight_is_idempotent(s: Seq<char>)
    ensures
        blurred(blurred(s)) == blurred(s),
    decreases s.len(),
{
    if s.len() > 0 {
        let x = blurred(tail(s));
        sight_is_idempotent(tail(s));
        first_is_seen(tail(s));
        first_is_seen(s);
        replacement_is_not_ascii();
        let b = blurred(s);
        if b != x {
            assert(tail(b) =~= x);
            assert(b[0] == s[0] || b[0] == '\u{fffd}');
            assert(joined(b[0], x) =~= b);
        }
    } else {
        assert(blurred(s) =~= s);
    }
}

/// Rows of bytes beyond ASCII are seen as one, however long they are.
proof fn row_is_seen(row: Seq<u8>, b: Seq<u8>)
    requires
        row.len() > 0,
        forall|i: int| 0 <= i < row.len() ==> #[trigger] row[i] > 0x7f,
    ensures
        blurred_bytes(row + b) == joined('\u{fffd}', blurred_bytes(b)),
    decreases row.len(),
{
    let whole = row + b;
    byte_is_not_ascii(row[0]);
    replacement_is_not_ascii();
    if row.len() > 1 {
        let rest = row.subrange(1, row.len() as int);
        assert forall|i: int| 0 <= i < rest.len() implies #[trigger] rest[i] > 0x7f by {
            assert(rest[i] == row[i + 1]);
        }
        row_is_seen(rest, b);
        assert(whole.subrange(1, whole.len() as int) =~= rest + b);
    } else {
        assert(whole.subrange(1, whole.len() as int) =~= b);
    }
}

proof fn byte_is_not_ascii(b: u8)
    ensures
        is_ascii(b as char) == (b <= 0x7f),
{
}

/// The encoding of a text is seen as the text is.
pub proof fn encoding_is_seen(s: Seq<char>)
    ensures
        blurred_bytes(encode_utf8(s)) == blurred(s),
    decreases s.len(),
{
    let b = encode_utf8(s);
    if s.len() > 0 {
        let c = s[0] as u32;
        let rest = s.drop_first();
        assert(rest =~= tail(s));
        encoding_is_seen(rest);
        vstd::utf8::char_is_scalar(s[0]);
        if c <= 0x7f {
            assert(vstd::utf8::leading_byte_width_1(c) == c) by (bit_vector)
                requires
                    c <= 0x7f,
            ;
            code_of_ascii(s[0]);
            assert(b[0] as char == s[0]);
            assert(b.subrange(1, b.len() as int) =~= encode_utf8(rest));
        } else {
            super::escapes::wide_bytes_are_not_ascii(c);
            row_is_seen(encode_scalar(c), encode_utf8(rest));
        }
    } else {
        assert(blurred_bytes(b) =~= blurred(s));
    }
}

proof fn code_of_ascii(c: char)
    requires
        is_ascii(c),
    ensures
        (c as u32 as u8) as char == c,
{
}

/// Bytes that are seen alike are seen alike when their escapes are decoded.
proof fn decoding_is_seen(a: Seq<u8>, b: Seq<u8>)
    requires
        blurred_bytes(a) == blurred_bytes(b),
    ensures
        blurred_bytes(percent_decoded(a)) == blurred_bytes(percent_decoded(b)),
    decreases a.len() + b.len(),
{
    first_byte(a);
    first_byte(b);
    if a.len() > 0 && b.len() > 0 {
        let a1 = a.subrange(1, a.len() as int);
        let b1 = b.subrange(1, b.len() as int);
        first_byte(a1);
        first_byte(b1);
        if a[0] <= 0x7f {
            ascii_bytes_agree(a, b);
            if starts_with_escape(a) || starts_with_escape(b) {
                let a2 = a1.subrange(1, a1.len() as int);
                let b2 = b1.subrange(1, b1.len() as int);
                if starts_with_escape(a) {
                    ascii_bytes_agree(a1, b1);
                    ascii_bytes_agree(a2, b2);
                } else {
                    ascii_bytes_agree(b1, a1);
                    ascii_bytes_agree(b2, a2);
                }
                let a3 = a.subrange(3, a.len() as int);
                let b3 = b.subrange(3, b.len() as int);
                assert(a2.subrange(1, a2.len() as int) =~= a3);
                assert(b2.subrange(1, b2.len() as int) =~= b3);
                assert(a1[0] == a[1] && a2[0] == a[2] && b1[0] == b[1] && b2[0] == b[2]);
                decoding_is_seen(a3, b3);
                let v = percent_decoded(a)[0];
                byte_before(v, percent_decoded(a3));
                byte_before(v, percent_decoded(b3));
                assert(percent_decoded(a) == seq![v] + percent_decoded(a3));
                assert(percent_decoded(b) == seq![v] + percent_decoded(b3));
            } else {
                decoding_is_seen(a1, b1);
                byte_before(a[0], percent_decoded(a1));
                byte_before(a[0], percent_decoded(b1));
            }
        } else {
            row_start(a);
            row_start(b);
            if a1.len() > 0 && a1[0] > 0x7f {
                decoding_is_seen(a1, b);
                byte_before(a[0], percent_decoded(a1));
                first_byte(percent_decoded(a1));
                assert(percent_decoded(a1)[0] == a1[0]);
                byte_is_not_ascii(a[0]);
            } else if b1.len() > 0 && b1[0] > 0x7f {
                decoding_is_seen(a, b1);
                byte_before(b[0], percent_decoded(b1));
                first_byte(percent_decoded(b1));
                assert(percent_decoded(b1)[0] == b1[0]);
                byte_is_not_ascii(b[0]);
            } else {
                byte_is_not_ascii(a[0]);
                byte_is_not_ascii(b[0]);
                let x = blurred_bytes(a1);
                let y = blurred_bytes(b1);
                assert(blurred_bytes(a) == seq!['\u{fffd}'] + x);
                assert(blurred_bytes(b) == seq!['\u{fffd}'] + y);
                assert(x =~= blurred_bytes(a).subrange(1, blurred_bytes(a).len() as int));
                assert(y =~= blurred_bytes(b).subrange(1, blurred_bytes(b).len() as int));
                decoding_is_seen(a1, b1);
                byte_before(a[0], percent_decoded(a1));
                byte_before(b[0], percent_decoded(b1));
            }
        }
    } else {
        assert(a.len() == 0 && b.len() == 0);
    }
}

/// How the sight of bytes begins.
proof fn first_byte(b: Seq<u8>)
    ensures
        b.len() == 0 <==> blurred_bytes(b).len() == 0,
        b.len() > 0 && b[0] <= 0x7f ==> blurred_bytes(b) == seq![b[0] as char] + blurred_bytes(
            b.subrange(1, b.len() as int),
        ),
        b.len() > 0 ==> is_ascii(blurred_bytes(b)[0]) == (b[0] <= 0x7f),
    decreases b.len(),
{
    if b.len() > 0 {
        byte_is_not_ascii(b[0]);
        replacement_is_not_ascii();
        first_byte(b.subrange(1, b.len() as int));
    }
}

/// Bytes that are seen alike and begin in ASCII begin alike and go on alike.
proof fn ascii_bytes_agree(a: Seq<u8>, b: Seq<u8>)
    requires
        blurred_bytes(a) == blurred_bytes(b),
        a.len() > 0,
        a[0] <= 0x7f,
    ensures
        b.len() > 0,
        a[0] == b[0],
        blurred_bytes(a.subrange(1, a.len() as int)) == blurred_bytes(
            b.subrange(1, b.len() as int),
        ),
{
    first_byte(a);
    first_byte(b);
    let x = blurred_bytes(a);
    let y = blurred_bytes(b);
    assert(x[0] == a[0] as char);
    assert(y[0] == b[0] as char);
    char_names_its_byte(a[0], b[0]);
    assert(blurred_bytes(a.subrange(1, a.len() as int)) =~= x.subrange(1, x.len() as int));
    assert(blurred_bytes(b.subrange(1, b.len() as int)) =~= y.subrange(1, y.len() as int));
}

proof fn char_names_its_byte(a: u8, b: u8)
    ensures
        a as char == b as char <==> a == b,
{
}

/// A byte before others.
proof fn byte_before(v: u8, rest: Seq<u8>)
    ensures
        blurred_bytes(seq![v] + rest) == joined(v as char, blurred_bytes(rest)),
{
    let whole = seq![v] + rest;
    assert(whole.subrange(1, whole.len() as int) =~= rest);
}

/// A byte beyond ASCII is no escape.
proof fn row_start(a: Seq<u8>)
    requires
        a.len() > 0,
        a[0] > 0x7f,
    ensures
        percent_decoded(a) == seq![a[0]] + percent_decoded(a.subrange(1, a.len() as int)),
{
}

/// One pass of decoding sees as much of a text as of what is seen of it.
pub proof fn passes_see_alike(s: Seq<char>)
    ensures
        seen(blurred(s)) == seen(s),
{
    encoding_is_seen(s);
    encoding_is_seen(blurred(s));
    sight_is_idempotent(s);
    decoding_is_seen(encode_utf8(blurred(s)), encode_utf8(s));
}

} // verus!
