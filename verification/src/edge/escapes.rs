//! What percent-escapes and the case of letters do to a path, and that neither
//! gets a request past the firewall.
use super::sight::{encoding_is_seen, passes_see_alike};
use super::waf::{
    blurred, blurred_bytes, decoded_text, hex_value, is_plain_path, joined,
    path_is_its_path_part, path_part, percent_decoded, seen, starts_with_escape, verdict,
};
use crate::text;
use vstd::prelude::*;
use vstd::utf8::{encode_scalar, encode_utf8, leading_byte_width_1};

verus! {

/// The byte is written as the escape `%XY` that stands at an offset, with digits
/// of either case.
pub open spec fn escape_at(escaped: Seq<u8>, at: int, byte: u8) -> bool {
    &&& escaped[at] == 0x25
    &&& hex_value(escaped[at + 1]) matches Some(high) && hex_value(escaped[at + 2]) matches Some(
        low,
    ) && byte == high * 16 + low
}

/// The bytes are all written as escapes.
pub open spec fn is_escaped(escaped: Seq<u8>, bytes: Seq<u8>) -> bool {
    &&& escaped.len() == 3 * bytes.len()
    &&& forall|i: int| 0 <= i < bytes.len() ==> escape_at(escaped, 3 * i, #[trigger] bytes[i])
}

/// A text that writes every UTF-8 byte of another as an escape.
pub open spec fn is_escaped_text(escaped: Seq<char>, s: Seq<char>) -> bool {
    is_escaped(encode_utf8(escaped), encode_utf8(s))
}

/// Decoding undoes the escaping of bytes.
proof fn unescaped(escaped: Seq<u8>, bytes: Seq<u8>)
    requires
        is_escaped(escaped, bytes),
    ensures
        percent_decoded(escaped) == bytes,
    decreases bytes.len(),
{
    if bytes.len() > 0 {
        let rest = bytes.subrange(1, bytes.len() as int);
        let tail = escaped.subrange(3, escaped.len() as int);
        assert(escape_at(escaped, 0, bytes[0]));
        assert(starts_with_escape(escaped));
        assert forall|i: int| 0 <= i < rest.len() implies escape_at(
            tail,
            3 * i,
            #[trigger] rest[i],
        ) by {
            assert(escape_at(escaped, 3 * (i + 1), bytes[i + 1]));
        }
        unescaped(tail, rest);
        assert(seq![bytes[0]] + rest == bytes);
    } else {
        assert(escaped =~= bytes);
    }
}

/// Bytes without a percent sign hold no escape.
proof fn nothing_to_unescape(bytes: Seq<u8>)
    requires
        forall|i: int| 0 <= i < bytes.len() ==> bytes[i] != 0x25,
    ensures
        percent_decoded(bytes) == bytes,
    decreases bytes.len(),
{
    if bytes.len() > 0 {
        let rest = bytes.subrange(1, bytes.len() as int);
        nothing_to_unescape(rest);
        assert(seq![bytes[0]] + rest == bytes);
    }
}

/// An ASCII byte in the encoding of a text stands for a character of it.
proof fn ascii_byte_is_a_character(s: Seq<char>, k: int)
    requires
        0 <= k < encode_utf8(s).len(),
        encode_utf8(s)[k] <= 0x7f,
    ensures
        exists|i: int| 0 <= i < s.len() && (#[trigger] s[i]) as u32 == encode_utf8(s)[k],
    decreases s.len(),
{
    let c = s[0] as u32;
    let first = encode_scalar(c);
    let rest = s.drop_first();
    vstd::utf8::char_is_scalar(s[0]);
    if k < first.len() {
        if c <= 0x7f {
            assert(leading_byte_width_1(c) == c) by (bit_vector)
                requires
                    c <= 0x7f,
            ;
            assert(s[0] as u32 == encode_utf8(s)[k]);
        } else {
            wide_bytes_are_not_ascii(c);
            assert(first[k] > 0x7f);
        }
    } else {
        ascii_byte_is_a_character(rest, k - first.len());
        let i = choose|i: int|
            0 <= i < rest.len() && (#[trigger] rest[i]) as u32 == encode_utf8(rest)[k - first.len()];
        assert(s[i + 1] == rest[i]);
    }
}

/// A character beyond ASCII is encoded without ASCII bytes.
pub proof fn wide_bytes_are_not_ascii(c: u32)
    requires
        vstd::utf8::is_scalar(c),
        c > 0x7f,
    ensures
        forall|j: int| 0 <= j < encode_scalar(c).len() ==> #[trigger] encode_scalar(c)[j] > 0x7f,
{
    assert(0xC0 | ((c >> 6) & 0x1F) as u8 > 0x7f) by (bit_vector);
    assert(0xE0 | ((c >> 12) & 0x0F) as u8 > 0x7f) by (bit_vector);
    assert(0xF0 | ((c >> 18) & 0x7) as u8 > 0x7f) by (bit_vector);
    assert(0x80 | (c & 0x3F) as u8 > 0x7f) by (bit_vector);
    assert(0x80 | ((c >> 6) & 0x3F) as u8 > 0x7f) by (bit_vector);
    assert(0x80 | ((c >> 12) & 0x3F) as u8 > 0x7f) by (bit_vector);
}

/// Percent-decoding undoes percent-encoding.
pub proof fn decoding_undoes_encoding(s: Seq<char>, escaped: Seq<char>)
    requires
        is_escaped_text(escaped, s),
    ensures
        decoded_text(escaped) == s,
        seen(escaped) == blurred(s),
{
    encoding_is_seen(s);
    unescaped(encode_utf8(escaped), encode_utf8(s));
    vstd::utf8::encode_utf8_valid_utf8(s);
    vstd::utf8::encode_utf8_decode_utf8(s);
}

/// No other character has the code of a percent sign.
proof fn percent_has_its_code(c: char)
    requires
        c as u32 == 0x25,
    ensures
        c == '%',
{
}

/// A text without a percent sign is left as it is.
pub proof fn plain_text_is_left_alone(s: Seq<char>)
    requires
        forall|i: int| 0 <= i < s.len() ==> s[i] != '%',
    ensures
        decoded_text(s) == s,
        seen(s) == blurred(s),
{
    encoding_is_seen(s);
    let bytes = encode_utf8(s);
    assert forall|k: int| 0 <= k < bytes.len() implies bytes[k] != 0x25 by {
        if bytes[k] == 0x25 {
            ascii_byte_is_a_character(s, k);
            let i = choose|i: int| 0 <= i < s.len() && (#[trigger] s[i]) as u32 == bytes[k];
            percent_has_its_code(s[i]);
        }
    }
    nothing_to_unescape(bytes);
    vstd::utf8::encode_utf8_valid_utf8(s);
    vstd::utf8::encode_utf8_decode_utf8(s);
}

/// A text of escapes holds neither a query nor a fragment.
proof fn escaped_text_is_all_path(escaped: Seq<char>, s: Seq<char>)
    requires
        is_escaped_text(escaped, s),
    ensures
        path_part(escaped) == escaped,
{
    assert forall|i: int| 0 <= i < escaped.len() implies escaped[i] != '?' && escaped[i] != '#' by {
        let k = place_of(escaped, i);
        let b = encode_utf8(escaped)[k];
        if escaped[i] as u32 <= 0x7f {
            let j = k / 3;
            assert(0 <= j < encode_utf8(s).len());
            let byte = encode_utf8(s)[j];
            assert(escape_at(encode_utf8(escaped), 3 * j, byte));
            assert(k == 3 * j || k == 3 * j + 1 || k == 3 * j + 2);
            assert(b == 0x25 || hex_value(b) is Some);
        }
    }
    path_is_its_path_part(escaped);
}

/// Where the encoding of a character starts, which is the character itself if
/// it is ASCII.
proof fn place_of(s: Seq<char>, i: int) -> (k: int)
    requires
        0 <= i < s.len(),
    ensures
        0 <= k < encode_utf8(s).len(),
        s[i] as u32 <= 0x7f ==> encode_utf8(s)[k] == s[i] as u32,
    decreases s.len(),
{
    let c = s[0] as u32;
    vstd::utf8::char_is_scalar(s[0]);
    if i == 0 {
        if c <= 0x7f {
            assert(leading_byte_width_1(c) == c) by (bit_vector)
                requires
                    c <= 0x7f,
            ;
        }
        0
    } else {
        assert(s.drop_first()[i - 1] == s[i]);
        place_of(s.drop_first(), i - 1) + encode_scalar(c).len()
    }
}

/// Escaping a path, once or twice, never changes the verdict.
pub proof fn escaping_is_seen_through(
    method: Seq<char>,
    path: Seq<char>,
    once: Seq<char>,
    twice: Seq<char>,
)
    requires
        is_plain_path(path),
        is_escaped_text(once, path),
        is_escaped_text(twice, once),
    ensures
        verdict(method, once) == verdict(method, path),
        verdict(method, twice) == verdict(method, path),
{
    path_is_its_path_part(path);
    plain_text_is_left_alone(path);
    escaped_text_is_all_path(once, path);
    escaped_text_is_all_path(twice, once);
    decoding_undoes_encoding(path, once);
    decoding_undoes_encoding(once, twice);
    passes_see_alike(path);
    passes_see_alike(once);
}

/// A byte, in lower case where it is an ASCII capital.
pub open spec fn lower_byte(b: u8) -> u8 {
    if 0x41 <= b <= 0x5a {
        (b + 0x20) as u8
    } else {
        b
    }
}

/// The bytes with every ASCII capital lowered.
pub open spec fn lower_bytes(b: Seq<u8>) -> Seq<u8> {
    b.map_values(|x: u8| lower_byte(x))
}

/// A part of bytes that differ in case alone differs in case alone.
proof fn tails_alike(a: Seq<u8>, b: Seq<u8>, n: int)
    requires
        lower_bytes(a) == lower_bytes(b),
        0 <= n <= a.len(),
    ensures
        a.len() == b.len(),
        lower_bytes(a.subrange(n, a.len() as int)) == lower_bytes(b.subrange(n, b.len() as int)),
        forall|i: int| 0 <= i < a.len() ==> lower_byte(#[trigger] a[i]) == lower_byte(b[i]),
{
    assert(a.len() == lower_bytes(a).len());
    assert(b.len() == lower_bytes(b).len());
    assert forall|i: int| 0 <= i < a.len() implies lower_byte(#[trigger] a[i]) == lower_byte(
        b[i],
    ) by {
        assert(lower_bytes(a)[i] == lower_byte(a[i]));
        assert(lower_bytes(b)[i] == lower_byte(b[i]));
    }
    assert(lower_bytes(a.subrange(n, a.len() as int)) =~= lower_bytes(
        b.subrange(n, b.len() as int),
    ));
}

/// Decoding escapes keeps a difference in case alone.
proof fn decoding_keeps_alike(a: Seq<u8>, b: Seq<u8>)
    requires
        lower_bytes(a) == lower_bytes(b),
    ensures
        lower_bytes(percent_decoded(a)) == lower_bytes(percent_decoded(b)),
    decreases a.len(),
{
    tails_alike(a, b, 0);
    if a.len() > 0 {
        assert(lower_byte(a[0]) == lower_byte(b[0]));
        if a.len() > 2 {
            assert(lower_byte(a[1]) == lower_byte(b[1]));
            assert(lower_byte(a[2]) == lower_byte(b[2]));
            assert(hex_value(a[1]) == hex_value(b[1]));
            assert(hex_value(a[2]) == hex_value(b[2]));
        }
        assert(starts_with_escape(a) == starts_with_escape(b));
        let n: int = if starts_with_escape(a) {
            3
        } else {
            1
        };
        tails_alike(a, b, n);
        decoding_keeps_alike(a.subrange(n, a.len() as int), b.subrange(n, b.len() as int));
        let x = percent_decoded(a.subrange(n, a.len() as int));
        let y = percent_decoded(b.subrange(n, b.len() as int));
        let p = percent_decoded(a)[0];
        let q = percent_decoded(b)[0];
        assert(percent_decoded(a) == seq![p] + x);
        assert(percent_decoded(b) == seq![q] + y);
        assert(lower_byte(p) == lower_byte(q));
        assert(lower_bytes(seq![p] + x) =~= seq![lower_byte(p)] + lower_bytes(x));
        assert(lower_bytes(seq![q] + y) =~= seq![lower_byte(q)] + lower_bytes(y));
    }
}

/// Bytes that differ in case alone are seen so.
proof fn seen_alike(a: Seq<u8>, b: Seq<u8>)
    requires
        lower_bytes(a) == lower_bytes(b),
    ensures
        text::lower(blurred_bytes(a)) == text::lower(blurred_bytes(b)),
    decreases a.len(),
{
    tails_alike(a, b, 0);
    if a.len() > 0 {
        tails_alike(a, b, 1);
        assert(lower_byte(a[0]) == lower_byte(b[0]));
        lowered_byte(a[0]);
        lowered_byte(b[0]);
        let x = blurred_bytes(a.subrange(1, a.len() as int));
        let y = blurred_bytes(b.subrange(1, b.len() as int));
        seen_alike(a.subrange(1, a.len() as int), b.subrange(1, b.len() as int));
        joined_alike(a[0] as char, b[0] as char, x, y);
    } else {
        assert(a =~= b);
    }
}

/// The case of a byte is that of its character.
proof fn lowered_byte(b: u8)
    ensures
        text::lower_char(b as char) == lower_byte(b) as char,
{
}

/// Characters and texts that differ in case alone are joined so.
proof fn joined_alike(c: char, d: char, x: Seq<char>, y: Seq<char>)
    requires
        text::lower_char(c) == text::lower_char(d),
        text::lower(x) == text::lower(y),
    ensures
        text::lower(joined(c, x)) == text::lower(joined(d, y)),
{
    assert(x.len() == text::lower(x).len());
    assert(y.len() == text::lower(y).len());
    lowered_code(c);
    lowered_code(d);
    if x.len() > 0 {
        assert(text::lower(x)[0] == text::lower_char(x[0]));
        assert(text::lower(y)[0] == text::lower_char(y[0]));
        lowered_code(x[0]);
        lowered_code(y[0]);
    }
    assert(text::lower(seq![c] + x) =~= seq![text::lower_char(c)] + text::lower(x));
    assert(text::lower(seq![d] + y) =~= seq![text::lower_char(d)] + text::lower(y));
    assert(text::lower(seq!['\u{fffd}'] + x) =~= seq![text::lower_char('\u{fffd}')] + text::lower(
        x,
    ));
    assert(text::lower(seq!['\u{fffd}'] + y) =~= seq![text::lower_char('\u{fffd}')] + text::lower(
        y,
    ));
}

/// The code of a lowered character.
proof fn lowered_code(c: char)
    ensures
        text::lower_char(c) as u32 == (if 0x41 <= c as u32 <= 0x5a {
            c as u32 + 0x20
        } else {
            c as u32 as int
        }),
{
}

/// Texts that differ in case alone are encoded so.
proof fn bytes_alike(s: Seq<char>, t: Seq<char>)
    requires
        text::lower(s) == text::lower(t),
    ensures
        lower_bytes(encode_utf8(s)) == lower_bytes(encode_utf8(t)),
    decreases s.len(),
{
    assert(s.len() == text::lower(s).len());
    assert(t.len() == text::lower(t).len());
    if s.len() > 0 {
        assert(text::lower(s)[0] == text::lower_char(s[0]));
        assert(text::lower(t)[0] == text::lower_char(t[0]));
        lowered_code(s[0]);
        lowered_code(t[0]);
        assert(text::lower(s.drop_first()) =~= text::lower(s).drop_first());
        assert(text::lower(t.drop_first()) =~= text::lower(t).drop_first());
        bytes_alike(s.drop_first(), t.drop_first());
        let c = s[0] as u32;
        let d = t[0] as u32;
        let x = encode_scalar(c);
        let y = encode_scalar(d);
        if c <= 0x7f && d <= 0x7f {
            assert(leading_byte_width_1(c) == c) by (bit_vector)
                requires
                    c <= 0x7f,
            ;
            assert(leading_byte_width_1(d) == d) by (bit_vector)
                requires
                    d <= 0x7f,
            ;
            assert(x == seq![c as u8] && y == seq![d as u8]);
            assert(lower_byte(x[0]) == lower_byte(y[0]));
            assert(lower_bytes(x) =~= lower_bytes(y));
        } else {
            assert(s[0] == t[0]);
        }
        let m = encode_utf8(s.drop_first());
        let n = encode_utf8(t.drop_first());
        assert(lower_bytes(x + m) =~= lower_bytes(x) + lower_bytes(m));
        assert(lower_bytes(y + n) =~= lower_bytes(y) + lower_bytes(n));
    } else {
        assert(s =~= t);
    }
}

/// The paths of targets that differ in case alone differ so.
proof fn paths_alike(s: Seq<char>, t: Seq<char>)
    requires
        text::lower(s) == text::lower(t),
    ensures
        text::lower(path_part(s)) == text::lower(path_part(t)),
    decreases s.len(),
{
    assert(s.len() == text::lower(s).len());
    assert(t.len() == text::lower(t).len());
    if s.len() > 0 {
        assert(text::lower(s)[0] == text::lower_char(s[0]));
        assert(text::lower(t)[0] == text::lower_char(t[0]));
        lowered_code(s[0]);
        lowered_code(t[0]);
        let a = s.subrange(1, s.len() as int);
        let b = t.subrange(1, t.len() as int);
        assert(text::lower(a) =~= text::lower(s).subrange(1, s.len() as int));
        assert(text::lower(b) =~= text::lower(t).subrange(1, t.len() as int));
        paths_alike(a, b);
        assert(text::lower(seq![s[0]] + path_part(a)) =~= seq![text::lower_char(s[0])]
            + text::lower(path_part(a)));
        assert(text::lower(seq![t[0]] + path_part(b)) =~= seq![text::lower_char(t[0])]
            + text::lower(path_part(b)));
    } else {
        assert(s =~= t);
    }
}

/// One pass of decoding keeps a difference in case alone.
proof fn passes_alike(s: Seq<char>, t: Seq<char>)
    requires
        text::lower(s) == text::lower(t),
    ensures
        text::lower(seen(s)) == text::lower(seen(t)),
{
    bytes_alike(s, t);
    decoding_keeps_alike(encode_utf8(s), encode_utf8(t));
    seen_alike(percent_decoded(encode_utf8(s)), percent_decoded(encode_utf8(t)));
}

/// A text with every ASCII small letter raised.
pub open spec fn upper(s: Seq<char>) -> Seq<char> {
    s.map_values(
        |c: char|
            if 'a' <= c <= 'z' {
                ((c as u32 - 32) as u32) as char
            } else {
                c
            },
    )
}

/// The case of letters in the raw path, in its escapes or not, never changes the
/// verdict.
pub proof fn letter_case_is_seen_through(method: Seq<char>, path: Seq<char>, other: Seq<char>)
    requires
        text::lower(path) == text::lower(other),
    ensures
        verdict(method, other) == verdict(method, path),
{
    let p = path_part(path);
    let q = path_part(other);
    paths_alike(path, other);
    passes_alike(p, q);
    passes_alike(seen(p), seen(q));
}

/// Upper-casing the raw path never changes the verdict.
pub proof fn upper_case_is_seen_through(method: Seq<char>, path: Seq<char>)
    ensures
        verdict(method, upper(path)) == verdict(method, path),
{
    assert(text::lower(upper(path)) =~= text::lower(path));
    letter_case_is_seen_through(method, path, upper(path));
}

} // verus!
