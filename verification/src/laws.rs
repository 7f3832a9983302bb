//! What texts, numbers and the configuration promise.
use crate::config::{
    check_document, check_stored, join, required_key_list, Config, ConfigError, ConfigProblem,
};
use crate::json::{self, DocumentFacts, JsonDocument};
use crate::names::NameMap;
use crate::net::{self, IpAddress, IpFacts};
use crate::number;
use crate::text;
use vstd::prelude::*;

verus! {

/// The twenty-six pairs of letters.
pub open spec fn is_letter_pair(capital: char, small: char) -> bool {
    'A' <= capital <= 'Z' && small as u32 == capital as u32 + 32
}

/// Lowering a text changes its capitals from A to Z to the small letters and nothing else.
pub proof fn capitals_are_lowered(s: &str, r: String, i: int)
    requires
        call_ensures(text::lowered, (s,), r),
    ensures
        r@.len() == s@.len(),
        0 <= i < s@.len() ==> {
            &&& 'A' <= s@[i] <= 'Z' ==> is_letter_pair(s@[i], r@[i])
            &&& !('A' <= s@[i] <= 'Z') ==> r@[i] == s@[i]
        },
{
    if 0 <= i < s@.len() {
        let c = s@[i];
        assert(r@[i] == text::lower_char(c));
    }
}

/// White space is what Unicode says it is.
pub open spec fn is_white(c: char) -> bool {
    let u = c as u32;
    ||| u == 0x9 || u == 0xa || u == 0xb || u == 0xc || u == 0xd || u == 0x20
    ||| u == 0x85 || u == 0xa0 || u == 0x1680
    ||| u == 0x2000 || u == 0x2001 || u == 0x2002 || u == 0x2003 || u == 0x2004 || u == 0x2005
    ||| u == 0x2006 || u == 0x2007 || u == 0x2008 || u == 0x2009 || u == 0x200a
    ||| u == 0x2028 || u == 0x2029 || u == 0x202f || u == 0x205f || u == 0x3000
}

/// Exactly the white space is recognised as such.
pub proof fn white_space_is_this(c: char, r: bool)
    requires
        call_ensures(text::is_whitespace, (c,), r),
    ensures
        r == is_white(c),
{
}

proof fn start_is_cut(s: Seq<char>) -> (n: int)
    ensures
        0 <= n <= s.len(),
        text::trim_start(s) == s.subrange(n, s.len() as int),
        forall|i: int| 0 <= i < n ==> is_white(#[trigger] s[i]),
        n < s.len() ==> !is_white(s[n]),
    decreases s.len(),
{
    if s.len() > 0 && text::is_space(s[0]) {
        let rest = s.subrange(1, s.len() as int);
        let n = start_is_cut(rest);
        assert(rest.subrange(n, rest.len() as int) =~= s.subrange(n + 1, s.len() as int));
        assert forall|i: int| 0 <= i < n + 1 implies is_white(#[trigger] s[i]) by {
            if i > 0 {
                assert(is_white(rest[i - 1]));
            }
        }
        n + 1
    } else {
        assert(s.subrange(0, s.len() as int) =~= s);
        0
    }
}

proof fn end_is_cut(s: Seq<char>) -> (n: int)
    ensures
        0 <= n <= s.len(),
        text::trim_end(s) == s.subrange(0, n),
        forall|i: int| n <= i < s.len() ==> is_white(#[trigger] s[i]),
        n > 0 ==> !is_white(s[n - 1]),
    decreases s.len(),
{
    if s.len() > 0 && text::is_space(s.last()) {
        let rest = s.drop_last();
        let n = end_is_cut(rest);
        assert(rest.subrange(0, n) =~= s.subrange(0, n));
        assert forall|i: int| n <= i < s.len() implies is_white(#[trigger] s[i]) by {
            if i < s.len() - 1 {
                assert(is_white(rest[i]));
            }
        }
        n
    } else {
        assert(s.subrange(0, s.len() as int) =~= s);
        s.len() as int
    }
}

/// Trimming cuts off white space at both ends and nothing else, until none is left there.
pub proof fn ends_are_trimmed(s: &str, r: &str) -> (cut: (int, int))
    requires
        call_ensures(text::trim, (s,), r),
    ensures
        0 <= cut.0 <= cut.1 <= s@.len(),
        r@ == s@.subrange(cut.0, cut.1),
        forall|i: int| 0 <= i < cut.0 || cut.1 <= i < s@.len() ==> is_white(#[trigger] s@[i]),
        r@.len() > 0 ==> !is_white(r@[0]) && !is_white(r@.last()),
{
    let from = start_is_cut(s@);
    let rest = text::trim_start(s@);
    let n = end_is_cut(rest);
    assert(rest.subrange(0, n) =~= s@.subrange(from, from + n));
    assert forall|i: int| 0 <= i < from || from + n <= i < s@.len() implies is_white(
        #[trigger] s@[i],
    ) by {
        if i >= from + n {
            assert(rest[i - from] == s@[i]);
        }
    }
    if n > 0 {
        assert(r@[0] == s@[from]);
        assert(r@.last() == rest[n - 1]);
    }
    (from, from + n)
}

proof fn tail_is_cut(s: Seq<char>, c: char) -> (n: int)
    ensures
        0 <= n <= s.len(),
        text::without_trailing(s, c) == s.subrange(0, n),
        forall|i: int| n <= i < s.len() ==> #[trigger] s[i] == c,
        n > 0 ==> s[n - 1] != c,
    decreases s.len(),
{
    if s.len() > 0 && s.last() == c {
        let rest = s.drop_last();
        let n = tail_is_cut(rest, c);
        assert(rest.subrange(0, n) =~= s.subrange(0, n));
        assert forall|i: int| n <= i < s.len() implies #[trigger] s[i] == c by {
            if i < s.len() - 1 {
                assert(rest[i] == c);
            }
        }
        n
    } else {
        assert(s.subrange(0, s.len() as int) =~= s);
        s.len() as int
    }
}

/// Cutting off a character at the end cuts off all of it that stands there and nothing else.
pub proof fn tails_are_trimmed(s: &str, c: char, r: &str) -> (n: int)
    requires
        call_ensures(text::trim_trailing, (s, c), r),
    ensures
        0 <= n <= s@.len(),
        r@ == s@.subrange(0, n),
        forall|i: int| n <= i < s@.len() ==> #[trigger] s@[i] == c,
        r@.len() > 0 ==> r@.last() != c,
{
    let n = tail_is_cut(s@, c);
    n
}

proof fn first_is_found(s: Seq<char>, c: char, from: int)
    requires
        0 <= from <= s.len(),
    ensures
        ({
            let at = text::find_from(s, c, from);
            &&& from <= at <= s.len()
            &&& at < s.len() ==> s[at] == c
            &&& forall|i: int| from <= i < at ==> #[trigger] s[i] != c
        }),
    decreases s.len() - from,
{
    if from < s.len() && s[from] != c {
        first_is_found(s, c, from + 1);
    }
}

proof fn pieces_of(s: Seq<char>, c: char)
    ensures
        text::split_on(s, c).len() > 0,
        crate::config::joined(text::split_on(s, c), seq![c]) == s,
        forall|i: int, k: int|
            0 <= i < text::split_on(s, c).len() && 0 <= k < text::split_on(s, c)[i].len()
                ==> #[trigger] text::split_on(s, c)[i][k] != c,
    decreases s.len(),
{
    first_is_found(s, c, 0);
    let at = text::find_from(s, c, 0);
    if at < s.len() {
        let rest = s.subrange(at + 1, s.len() as int);
        pieces_of(rest, c);
        let head = s.subrange(0, at);
        let tail = text::split_on(rest, c);
        let all = text::split_on(s, c);
        assert(all =~= seq![head] + tail);
        joined_from_the_front(head, tail, seq![c]);
        assert(head + seq![c] + rest =~= s);
        assert forall|i: int, k: int| 0 <= i < all.len() && 0 <= k < all[i].len() implies
            #[trigger] all[i][k] != c by {
            if i > 0 {
                assert(all[i] == tail[i - 1]);
                assert(tail[i - 1][k] != c);
            } else {
                assert(head[k] == s[k]);
            }
        }
    } else {
        assert(text::split_on(s, c) =~= seq![s]);
    }
}

proof fn joined_from_the_front(head: Seq<char>, tail: Seq<Seq<char>>, sep: Seq<char>)
    requires
        tail.len() > 0,
    ensures
        crate::config::joined(seq![head] + tail, sep) == head + sep + crate::config::joined(
            tail,
            sep,
        ),
    decreases tail.len(),
{
    let all = seq![head] + tail;
    assert(all.drop_last() =~= seq![head] + tail.drop_last());
    assert(all.last() == tail.last());
    if tail.len() > 1 {
        joined_from_the_front(head, tail.drop_last(), sep);
        let part = crate::config::joined(tail.drop_last(), sep);
        assert((head + sep + part) + sep + tail.last() =~= head + sep + (part + sep
            + tail.last()));
    } else {
        assert(all.drop_last() =~= seq![head]);
        assert(crate::config::joined(seq![head], sep) == head);
        assert(crate::config::joined(tail, sep) == tail[0]);
    }
}

/// Splitting a text at a character gives pieces without it that make up the text again when
/// they are joined with it.
pub proof fn splitting_is_undone_by_joining(
    s: &str,
    c: char,
    r: Vec<String>,
    sep: &str,
    back: String,
    i: int,
    k: int,
)
    requires
        call_ensures(text::split, (s, c), r),
        sep@ == seq![c],
        call_ensures(join, (&r, sep), back),
    ensures
        r@.len() > 0,
        back@ == s@,
        0 <= i < r@.len() && 0 <= k < r@[i]@.len() ==> r@[i]@[k] != c,
{
    pieces_of(s@, c);
    let pieces = text::texts(r@);
    assert(pieces.len() == r@.len());
    if 0 <= i < r@.len() && 0 <= k < r@[i]@.len() {
        assert(pieces[i] == r@[i]@);
        assert(pieces[i][k] != c);
    }
}

/// Joining puts the separator between each two texts and nowhere else.
pub proof fn texts_are_joined(v: &Vec<String>, w: &Vec<String>, last: String, sep: &str, r: String, q: String)
    requires
        call_ensures(join, (v, sep), r),
        call_ensures(join, (w, sep), q),
        w@ == v@.push(last),
    ensures
        v@.len() == 0 ==> r@ == Seq::<char>::empty() && q@ == last@,
        v@.len() > 0 ==> q@ == r@ + sep@ + last@,
{
    let a = text::texts(v@);
    let b = text::texts(w@);
    assert(b =~= a.push(last@));
    assert(b.drop_last() =~= a);
}

/// The text is another with something in front and something behind.
pub open spec fn is_around(a: Seq<char>, part: Seq<char>, b: Seq<char>, s: Seq<char>) -> bool {
    s == a + part + b
}

proof fn parts_stand(s: Seq<char>, part: Seq<char>)
    ensures
        text::has(s, part) <==> exists|a: Seq<char>, b: Seq<char>| is_around(a, part, b, s),
{
    if text::has(s, part) {
        let at = choose|at: int| text::stands_at(s, part, at);
        let a = s.subrange(0, at);
        let b = s.subrange(at + part.len(), s.len() as int);
        assert(a + s.subrange(at, at + part.len()) + b =~= s);
        assert(is_around(a, part, b, s));
    }
    if exists|a: Seq<char>, b: Seq<char>| is_around(a, part, b, s) {
        let (a, b) = choose|a: Seq<char>, b: Seq<char>| is_around(a, part, b, s);
        assert(s.subrange(a.len() as int, (a.len() + part.len()) as int) =~= part);
        assert(text::stands_at(s, part, a.len() as int));
    }
}

/// A text contains another exactly where it is that text with something around it, starts
/// with it exactly where something follows, and ends with it exactly where something
/// precedes.
pub proof fn parts_are_found(s: &str, part: &str, inside: bool, first: bool, last: bool)
    requires
        call_ensures(text::contains, (s, part), inside),
        call_ensures(text::starts_with, (s, part), first),
        call_ensures(text::ends_with, (s, part), last),
    ensures
        inside <==> exists|a: Seq<char>, b: Seq<char>| is_around(a, part@, b, s@),
        first <==> exists|b: Seq<char>| is_around(seq![], part@, b, s@),
        last <==> exists|a: Seq<char>| is_around(a, part@, seq![], s@),
{
    parts_stand(s@, part@);
    if first {
        let b = s@.subrange(part@.len() as int, s@.len() as int);
        assert(seq![] + part@ + b =~= s@);
        assert(is_around(seq![], part@, b, s@));
    }
    if exists|b: Seq<char>| is_around(seq![], part@, b, s@) {
        let b = choose|b: Seq<char>| is_around(seq![], part@, b, s@);
        assert(s@.subrange(0, part@.len() as int) =~= part@);
    }
    if last {
        let a = s@.subrange(0, s@.len() - part@.len());
        assert(a + part@ + seq![] =~= s@);
        assert(is_around(a, part@, seq![], s@));
    }
    if exists|a: Seq<char>| is_around(a, part@, seq![], s@) {
        let a = choose|a: Seq<char>| is_around(a, part@, seq![], s@);
        assert(s@.subrange(a.len() as int, s@.len() as int) =~= part@);
    }
}

/// The first text comes before the second: at the first character in which they differ, or
/// because it ends there.
pub open spec fn comes_first(a: Seq<char>, b: Seq<char>, n: int) -> bool {
    &&& 0 <= n <= a.len() && n < b.len()
    &&& forall|i: int| 0 <= i < n ==> #[trigger] a[i] == b[i]
    &&& n == a.len() || a[n] < b[n]
}

proof fn order_is_found(a: Seq<char>, b: Seq<char>, n: int)
    ensures
        comes_first(a, b, n) ==> text::before(a, b),
        text::before(a, b) ==> exists|k: int| comes_first(a, b, k),
    decreases a.len(),
{
    if a.len() > 0 && b.len() > 0 && a[0] == b[0] {
        let x = a.subrange(1, a.len() as int);
        let y = b.subrange(1, b.len() as int);
        order_is_found(x, y, n - 1);
        if comes_first(a, b, n) {
            assert forall|i: int| 0 <= i < n - 1 implies #[trigger] x[i] == y[i] by {
                assert(a[i + 1] == b[i + 1]);
            }
            assert(comes_first(x, y, n - 1));
        }
        if text::before(a, b) {
            let k = choose|k: int| comes_first(x, y, k);
            assert forall|i: int| 0 <= i < k + 1 implies #[trigger] a[i] == b[i] by {
                if i > 0 {
                    assert(x[i - 1] == y[i - 1]);
                }
            }
            assert(comes_first(a, b, k + 1));
        }
    } else if text::before(a, b) {
        assert(comes_first(a, b, 0));
    } else if comes_first(a, b, n) {
        if n > 0 {
            assert(a[0] == b[0]);
        }
    }
}

/// Texts are ordered by the first character in which they differ; a text comes before what
/// it starts.
pub proof fn texts_are_ordered(a: &str, b: &str, r: bool)
    requires
        call_ensures(text::precedes, (a, b), r),
    ensures
        r <==> exists|n: int| comes_first(a@, b@, n),
{
    if exists|n: int| comes_first(a@, b@, n) {
        let n = choose|n: int| comes_first(a@, b@, n);
        order_is_found(a@, b@, n);
    }
    order_is_found(a@, b@, 0);
}

/// Texts are the same where their characters are, and the same in any case where those are
/// that differ at most as a capital and its small letter do.
pub proof fn texts_are_compared(a: &str, b: &str, same: bool, alike: bool, x: String, y: String)
    requires
        call_ensures(text::same, (a, b), same),
        call_ensures(text::same_ignoring_case, (a, b), alike),
        call_ensures(text::lowered, (a,), x),
        call_ensures(text::lowered, (b,), y),
    ensures
        same <==> a@ == b@,
        alike <==> x@ == y@,
{
}

/// A name in a directory is the directory, one slash and the name.
pub proof fn paths_are_joined(dir: &str, name: &str, r: String)
    requires
        call_ensures(text::join_path, (dir, name), r),
        dir@.len() > 0,
    ensures
        dir@.last() == '/' ==> r@ == dir@ + name@,
        dir@.last() != '/' ==> r@ == dir@ + seq!['/'] + name@,
{
    reveal_strlit("/");
    assert("/"@ =~= seq!['/']);
}

/// The number that a row of digits names in a base: the value of the first digit counts the
/// base more than that of the next.
pub open spec fn names_in(s: Seq<char>, base: nat, value: spec_fn(char) -> nat) -> nat
    decreases s.len(),
{
    if s.len() == 0 {
        0
    } else {
        names_in(s.drop_last(), base, value) * base + value(s.last())
    }
}

/// The value of a digit, also of the sixteen lower-case ones.
pub open spec fn digit_value(c: char) -> nat {
    if '0' <= c <= '9' {
        (c as u32 - 0x30) as nat
    } else if 'a' <= c <= 'f' {
        (c as u32 - 0x61 + 10) as nat
    } else {
        99
    }
}

proof fn decimals_name(n: nat)
    ensures
        number::decimal(n).len() > 0,
        forall|i: int|
            0 <= i < number::decimal(n).len() ==> '0' <= #[trigger] number::decimal(n)[i] <= '9',
        names_in(number::decimal(n), 10, |c: char| digit_value(c)) == n,
        n > 0 ==> number::decimal(n)[0] != '0',
        n == 0 ==> number::decimal(n).len() == 1,
    decreases n,
{
    let s = number::decimal(n);
    let value = |c: char| digit_value(c);
    if n < 10 {
        assert(s.drop_last() =~= Seq::<char>::empty());
        assert(names_in(s.drop_last(), 10, value) == 0);
        assert(s.last() as u32 == 0x30 + n);
    } else {
        decimals_name(n / 10);
        assert(s.drop_last() =~= number::decimal(n / 10));
        assert(s.last() as u32 == 0x30 + n % 10);
    }
}

/// A number is written in decimal digits that name it, without zeros in front; a negative
/// one with a minus.
pub proof fn numbers_are_written(n: u64, r: String, z: i64, q: String, w: u128, wide: String)
    requires
        call_ensures(number::decimal_of, (n,), r),
        call_ensures(number::signed_decimal_of, (z,), q),
        call_ensures(number::wide_decimal_of, (w,), wide),
    ensures
        names_in(r@, 10, |c: char| digit_value(c)) == n,
        forall|i: int| 0 <= i < r@.len() ==> '0' <= #[trigger] r@[i] <= '9',
        r@.len() > 0,
        r@[0] != '0' || r@.len() == 1,
        names_in(wide@, 10, |c: char| digit_value(c)) == w,
        forall|i: int| 0 <= i < wide@.len() ==> '0' <= #[trigger] wide@[i] <= '9',
        wide@.len() > 0,
        wide@[0] != '0' || wide@.len() == 1,
        z < 0 ==> q@.len() > 1 && q@[0] == '-' && names_in(
            q@.skip(1),
            10,
            |c: char| digit_value(c),
        ) == -z,
        z >= 0 ==> names_in(q@, 10, |c: char| digit_value(c)) == z,
{
    decimals_name(n as nat);
    decimals_name(w as nat);
    if z < 0 {
        decimals_name((-z) as nat);
        assert(q@.skip(1) =~= number::decimal((-z) as nat));
    } else {
        decimals_name(z as nat);
    }
}

proof fn hexadecimals_name(n: nat)
    ensures
        number::hexadecimal(n).len() > 0,
        forall|i: int|
            0 <= i < number::hexadecimal(n).len() ==> digit_value(
                #[trigger] number::hexadecimal(n)[i],
            ) < 16,
        names_in(number::hexadecimal(n), 16, |c: char| digit_value(c)) == n,
        n > 0 ==> number::hexadecimal(n)[0] != '0',
        n == 0 ==> number::hexadecimal(n).len() == 1,
    decreases n,
{
    let s = number::hexadecimal(n);
    let value = |c: char| digit_value(c);
    hex_digits_name(n % 16);
    if n < 16 {
        assert(s.drop_last() =~= Seq::<char>::empty());
        assert(names_in(s.drop_last(), 16, value) == 0);
    } else {
        hexadecimals_name(n / 16);
        assert(s.drop_last() =~= number::hexadecimal(n / 16));
    }
}

proof fn hex_digits_name(n: nat)
    requires
        n < 16,
    ensures
        digit_value(number::hex_digit(n)) == n,
        n > 0 ==> number::hex_digit(n) != '0',
{
}

proof fn bytes_are_in_hex(bytes: Seq<u8>, i: int)
    requires
        0 <= i < bytes.len(),
    ensures
        number::hex_of(bytes).len() == 2 * bytes.len(),
        digit_value(number::hex_of(bytes)[2 * i]) * 16 + digit_value(
            number::hex_of(bytes)[2 * i + 1],
        ) == bytes[i],
        digit_value(number::hex_of(bytes)[2 * i]) < 16,
        digit_value(number::hex_of(bytes)[2 * i + 1]) < 16,
    decreases bytes.len(),
{
    let b = bytes.last() as nat;
    hex_digits_name(b / 16);
    hex_digits_name(b % 16);
    let rest = bytes.drop_last();
    if i < rest.len() {
        bytes_are_in_hex(rest, i);
    } else if rest.len() > 0 {
        bytes_are_in_hex(rest, 0);
    } else {
        assert(number::hex_of(rest).len() == 0);
    }
}

/// A number is written in lower-case hexadecimal digits that name it, without zeros in
/// front, and a byte in two of them.
pub proof fn hexadecimals_are_written(n: u16, r: String, bytes: &[u8], q: String, i: int)
    requires
        call_ensures(number::hexadecimal_of, (n,), r),
        call_ensures(number::hex_string, (bytes,), q),
    ensures
        names_in(r@, 16, |c: char| digit_value(c)) == n,
        forall|i: int| 0 <= i < r@.len() ==> digit_value(#[trigger] r@[i]) < 16,
        r@.len() > 0,
        r@[0] != '0' || r@.len() == 1,
        0 <= i < bytes@.len() ==> {
            &&& q@.len() == 2 * bytes@.len()
            &&& digit_value(q@[2 * i]) < 16 && digit_value(q@[2 * i + 1]) < 16
            &&& digit_value(q@[2 * i]) * 16 + digit_value(q@[2 * i + 1]) == bytes@[i]
        },
{
    hexadecimals_name(n as nat);
    if 0 <= i < bytes@.len() {
        bytes_are_in_hex(bytes@, i);
    }
}

proof fn digits_name_the_value(s: Seq<char>)
    requires
        number::all_digits(s),
    ensures
        names_in(s, 10, |c: char| digit_value(c)) == number::value_of(s),
    decreases s.len(),
{
    if s.len() > 0 {
        assert(number::is_digit(s.last())) by {
            assert(s.last() == s[s.len() - 1]);
        }
        assert forall|i: int| 0 <= i < s.drop_last().len() implies number::is_digit(
            #[trigger] s.drop_last()[i],
        ) by {
            assert(number::is_digit(s[i]));
        }
        digits_name_the_value(s.drop_last());
    }
}

/// A number is read exactly where there are one or more digits, with a plus in front or not,
/// that name at most the largest number; it is the one they name. Reading gives back what
/// was written.
pub proof fn numbers_are_read(s: &str, max: u64, r: Option<u64>, digits: Seq<char>, i: int)
    requires
        call_ensures(number::parse_unsigned, (s, max), r),
        s@.len() > 0 && s@[0] == '+' ==> s@ == seq!['+'] + digits,
        s@.len() == 0 || s@[0] != '+' ==> s@ == digits,
    ensures
        r is Some <==> digits.len() > 0 && (forall|i: int|
            0 <= i < digits.len() ==> '0' <= #[trigger] digits[i] <= '9') && names_in(
            digits,
            10,
            |c: char| digit_value(c),
        ) <= max,
        r matches Some(n) ==> names_in(digits, 10, |c: char| digit_value(c)) == n,
{
    if s@.len() > 0 && s@[0] == '+' {
        assert(s@.subrange(1, s@.len() as int) =~= digits);
    }
    if forall|i: int| 0 <= i < digits.len() ==> '0' <= #[trigger] digits[i] <= '9' {
        digits_name_the_value(digits);
    }
    if number::all_digits(digits) {
        assert forall|i: int| 0 <= i < digits.len() implies '0' <= #[trigger] digits[i] <= '9' by {
            assert(number::is_digit(digits[i]));
        }
    }
}

/// The configuration lacks a key where it is absent or null.
pub open spec fn lacks(doc: DocumentFacts, key: Seq<char>) -> bool {
    match doc {
        DocumentFacts::Object(m) => !m.contains_key(key) || m[key] is Null,
        DocumentFacts::Other => true,
    }
}

/// A configuration without any of these is refused.
pub open spec fn is_required(key: Seq<char>) -> bool {
    ||| key == "root_domain"@
    ||| key == "admin_email"@
    ||| key == "acme_provider"@
    ||| key == "listen_http"@
    ||| key == "listen_https"@
    ||| key == "control_socket"@
}

proof fn required_is_listed(key: Seq<char>)
    ensures
        is_required(key) == crate::config::required_keys().contains(key),
{
    let keys = crate::config::required_keys();
    assert(keys[0] == "root_domain"@ && keys[1] == "admin_email"@ && keys[2] == "acme_provider"@);
    assert(keys[3] == "listen_http"@ && keys[4] == "listen_https"@ && keys[5]
        == "control_socket"@);
}

/// The error names exactly the required keys that a document lacks.
pub open spec fn misses(doc: DocumentFacts, r: Option<ConfigError>, key: Seq<char>) -> bool {
    &&& doc is Other ==> (r matches Some(e) && (e@ matches ConfigProblem::DeserializationFailed(m)
        && m == "root JSON is not an object"@))
    &&& doc is Object && is_required(key) && lacks(doc, key) ==> r is Some
    &&& doc is Object && r is Some ==> (r->0@ matches ConfigProblem::MissingKeys(keys) && keys.len()
        > 0 && (keys.contains(key) <==> is_required(key) && lacks(doc, key)))
}

proof fn in_filtered(all: Seq<Seq<char>>, p: spec_fn(Seq<char>) -> bool, x: Seq<char>)
    ensures
        all.filter(p).contains(x) == (all.contains(x) && p(x)),
    decreases all.len(),
{
    reveal(Seq::filter);
    if all.len() > 0 {
        let fewer = all.drop_last();
        in_filtered(fewer, p, x);
        assert(all =~= fewer.push(all.last()));
        broadcast use vstd::seq_lib::group_seq_properties;
    }
}

proof fn missing_is_missed(doc: DocumentFacts, r: Option<ConfigError>, key: Seq<char>)
    requires
        (match r {
            Some(e) => Some(e@),
            None => None,
        }) == crate::config::shape_problem(Some(Ok(doc))),
    ensures
        misses(doc, r, key),
{
    let keys = crate::config::required_keys();
    let p = |k: Seq<char>| crate::config::is_missing(doc, k);
    required_is_listed(key);
    in_filtered(keys, p, key);
}

/// A stored configuration is refused before its values are read exactly where there is none,
/// it is no JSON object, or it lacks a required key; all that it lacks are named.
pub proof fn configurations_are_complete(
    doc: &JsonDocument,
    r: Option<ConfigError>,
    stored: Option<&str>,
    q: Option<ConfigError>,
    all: Vec<String>,
    key: Seq<char>,
)
    requires
        call_ensures(check_document, (doc,), r),
        call_ensures(check_stored, (stored,), q),
        call_ensures(required_key_list, (), all),
    ensures
        misses(doc@, r, key),
        text::texts(all@).contains(key) <==> is_required(key),
        all@.len() == 6,
        stored is None ==> (q matches Some(e) && (e@ matches ConfigProblem::MissingKeys(keys)
            && keys.len() == 6 && (keys.contains(key) <==> is_required(key)))),
        stored matches Some(s) ==> (json::parsed_json(s@) matches Err(m) ==> (q matches Some(e) && (
        e@ matches ConfigProblem::DeserializationFailed(n) && n == m))),
        stored matches Some(s) ==> (json::parsed_json(s@) matches Ok(d) ==> misses(d, q, key)),
{
    required_is_listed(key);
    missing_is_missed(doc@, r, key);
    assert(text::texts(all@).len() == all@.len());
    if let Some(s) = stored {
        if let Ok(d) = json::parsed_json(s@) {
            missing_is_missed(d, q, key);
        }
    }
}

/// The value is given, and is more than white space.
pub open spec fn is_given(o: Option<String>) -> bool {
    o matches Some(s) && is_visible(s@)
}

/// The text is more than white space.
pub open spec fn is_visible(s: Seq<char>) -> bool {
    exists|i: int| 0 <= i < s.len() && !is_white(#[trigger] s[i])
}

proof fn blank_is_white(s: Seq<char>)
    ensures
        is_visible(s) == (text::trimmed(s).len() > 0),
{
    let from = start_is_cut(s);
    let rest = text::trim_start(s);
    let n = end_is_cut(rest);
    if text::trimmed(s).len() == 0 {
        assert forall|i: int| 0 <= i < s.len() implies is_white(#[trigger] s[i]) by {
            if i >= from {
                assert(rest[i - from] == s[i]);
            }
        }
    } else {
        assert(rest[n - 1] == s[from + n - 1]);
    }
}

/// A configuration passes exactly where its domain is more than white space, its address has
/// an at sign and a dot, an account of Google or ZeroSSL has both parts of its binding, and
/// a custom provider has its directory.
pub proof fn configurations_are_validated(c: &Config, r: Result<(), ConfigError>, email: &str, text_of_email: &str, at: bool, dot: bool)
    requires
        call_ensures(Config::validate, (c,), r),
        text_of_email@ == c.admin_email@,
        call_ensures(text::trim, (text_of_email,), email),
        call_ensures(text::contains, (email, "@"), at),
        call_ensures(text::contains, (email, "."), dot),
    ensures
        ({
            let provider = text::lower(c.acme_provider@);
            let bound = provider == "google"@ || provider == "zerossl"@;
            let named = is_visible(c.root_domain@);
            let kid = bound && !is_given(c.acme_eab_kid);
            let hmac = bound && !is_given(c.acme_eab_hmac);
            let directory = provider == "custom"@ && !is_given(c.acme_directory);
            &&& r is Ok <==> named && at && dot && !kid && !hmac && !directory
            &&& r matches Err(e) ==> (e@ matches ConfigProblem::ValidationFailed(v) && {
                &&& !named ==> v.contains("root_domain must not be empty"@)
                &&& !at || !dot ==> v.contains(
                    "admin_email '"@ + email@ + "' is not a valid email address"@,
                )
                &&& kid ==> v.contains("acme_provider '"@ + provider + "' requires acme_eab_kid"@)
                &&& hmac ==> v.contains("acme_provider '"@ + provider + "' requires acme_eab_hmac"@)
                &&& directory ==> v.contains(
                    "acme_provider 'custom' requires acme_directory URL"@,
                )
                &&& v.len() == (if !named { 1int } else { 0 }) + (if !at || !dot { 1int } else { 0 })
                    + (if kid { 1int } else { 0 }) + (if hmac { 1int } else { 0 }) + (
                if directory { 1int } else { 0 })
            })
        }),
{
    reveal_strlit("google");
    reveal_strlit("zerossl");
    reveal_strlit("custom");
    assert("google"@[0] == 'g' && "zerossl"@[0] == 'z' && "custom"@[0] == 'c');
    blank_is_white(c.root_domain@);
    if let Some(s) = c.acme_eab_kid {
        blank_is_white(s@);
    }
    if let Some(s) = c.acme_eab_hmac {
        blank_is_white(s@);
    }
    if let Some(s) = c.acme_directory {
        blank_is_white(s@);
    }
    if let Err(e) = r {
        let v = c.issues();
        let provider = text::lower(c.acme_provider@);
        let bound = provider == "google"@ || provider == "zerossl"@;
        let named = is_visible(c.root_domain@);
        let kid = bound && !is_given(c.acme_eab_kid);
        let hmac = bound && !is_given(c.acme_eab_hmac);
        let directory = provider == "custom"@ && !is_given(c.acme_directory);
        let first: int = if !named { 1 } else { 0 };
        let second: int = first + if !at || !dot { 1int } else { 0 };
        let third: int = second + if kid { 1int } else { 0 };
        assert(named == (text::trimmed(c.root_domain@).len() > 0));
        let d = if !named {
            seq!["root_domain must not be empty"@]
        } else {
            seq![]
        };
        let m = if !at || !dot {
            seq!["admin_email '"@ + email@ + "' is not a valid email address"@]
        } else {
            seq![]
        };
        let rest = v.skip(second);
        assert(d.len() == first && m.len() == second - first);
        assert(v.len() >= second);
        assert(v =~= d + m + rest);
        assert(!named ==> (d + m)[0] == d[0]);
        assert(!at || !dot ==> (d + m)[first] == m[0]);
        if !named {
            assert(v[0] == "root_domain must not be empty"@);
        }
        if !at || !dot {
            assert(v[first] == "admin_email '"@ + email@ + "' is not a valid email address"@);
        }
        if kid {
            assert(v[second] == "acme_provider '"@ + provider + "' requires acme_eab_kid"@);
        }
        if hmac {
            assert(v[third] == "acme_provider '"@ + provider + "' requires acme_eab_hmac"@);
        }
        if directory {
            assert(v[second] == "acme_provider 'custom' requires acme_directory URL"@);
        }
    }
}

/// Each error of the configuration is told with what it names.
pub proof fn configuration_errors_are_told(e: &ConfigError, r: String, keys: String, issues: String)
    requires
        call_ensures(ConfigError::message, (e,), r),
        *e matches ConfigError::MissingKeys(v) ==> call_ensures(join, (&v, ", "), keys),
        *e matches ConfigError::ValidationFailed(v) ==> call_ensures(join, (&v, "; "), issues),
    ensures
        *e is MissingKeys ==> r@ == "Configuration missing required keys: "@ + keys@,
        *e is ValidationFailed ==> r@ == "Configuration validation failed: "@ + issues@,
        *e matches ConfigError::DeserializationFailed(s) ==> r@
            == "Config deserialization failed: "@ + s@,
        *e matches ConfigError::Store(s) ==> r@ == "Store error: "@ + s@,
{
}

proof fn word_ends(s: Seq<char>, from: int, to: int)
    requires
        1 <= from <= to <= s.len(),
        forall|i: int| from <= i < to ==> !text::is_space(#[trigger] s[i]),
        to < s.len() ==> text::is_space(s[to]),
    ensures
        text::word_end(s, from) == to,
    decreases to - from,
{
    if from < to {
        assert(!text::is_space(s[from]));
        word_ends(s, from + 1, to);
    }
}

proof fn word_is_solid(s: Seq<char>, from: int)
    requires
        1 <= from <= s.len(),
    ensures
        from <= text::word_end(s, from) <= s.len(),
        forall|i: int| from <= i < text::word_end(s, from) ==> !text::is_space(#[trigger] s[i]),
        text::word_end(s, from) < s.len() ==> text::is_space(s[text::word_end(s, from)]),
    decreases s.len() - from,
{
    if from < s.len() && !text::is_space(s[from]) {
        word_is_solid(s, from + 1);
    }
}

proof fn words_add_up(a: Seq<char>, c: char, b: Seq<char>)
    requires
        text::is_space(c),
    ensures
        text::words_of(a + seq![c] + b) == text::words_of(a) + text::words_of(b),
    decreases a.len(),
{
    let s = a + seq![c] + b;
    let n = s.len() as int;
    if a.len() == 0 {
        assert(s.subrange(1, n) =~= b);
        assert(text::words_of(a) + text::words_of(b) =~= text::words_of(b));
    } else if text::is_space(a[0]) {
        let rest = a.subrange(1, a.len() as int);
        words_add_up(rest, c, b);
        assert(s.subrange(1, n) =~= rest + seq![c] + b);
    } else {
        word_is_solid(a, 1);
        let e = text::word_end(a, 1);
        assert forall|i: int| 1 <= i < e implies !text::is_space(#[trigger] s[i]) by {
            assert(s[i] == a[i]);
        }
        assert(text::is_space(s[e]));
        word_ends(s, 1, e);
        let rest = a.subrange(e, a.len() as int);
        words_add_up(rest, c, b);
        assert(s.subrange(0, e) =~= a.subrange(0, e));
        assert(s.subrange(e, n) =~= rest + seq![c] + b);
        let first = seq![a.subrange(0, e)];
        assert(first + (text::words_of(rest) + text::words_of(b)) =~= first + text::words_of(rest)
            + text::words_of(b));
    }
}

/// The words of a text with white space in it are those before and those after it; a text
/// without any is one word, and an empty one has none.
pub proof fn words_are_parted_by_white_space(
    a: &str,
    b: &str,
    s: &str,
    c: char,
    x: Vec<String>,
    y: Vec<String>,
    r: Vec<String>,
)
    requires
        call_ensures(text::words, (a,), x),
        call_ensures(text::words, (b,), y),
        call_ensures(text::words, (s,), r),
        is_white(c),
        s@ == a@ + seq![c] + b@,
    ensures
        text::texts(r@) == text::texts(x@) + text::texts(y@),
        a@.len() == 0 ==> x@.len() == 0,
        a@.len() > 0 && (forall|i: int| 0 <= i < a@.len() ==> !is_white(#[trigger] a@[i])) ==> x@.len()
            == 1 && x@[0]@ == a@,
{
    words_add_up(a@, c, b@);
    let words = text::texts(x@);
    assert(words.len() == x@.len());
    if a@.len() > 0 && (forall|i: int| 0 <= i < a@.len() ==> !is_white(#[trigger] a@[i])) {
        word_ends(a@, 1, a@.len() as int);
        assert(a@.subrange(0, a@.len() as int) =~= a@);
        assert(a@.subrange(a@.len() as int, a@.len() as int) =~= Seq::<char>::empty());
        assert(!is_white(a@[0]));
        let none = Seq::<char>::empty();
        assert(text::words_of(none) =~= Seq::empty());
        assert(text::words_of(a@) =~= seq![a@]);
        assert(words =~= seq![a@]);
        assert(words[0] == x@[0]@);
    }
}

/// A list holds a text exactly where it is one of its texts.
pub proof fn lists_hold_their_texts(list: &Vec<String>, name: &str, r: bool)
    requires
        call_ensures(text::holds, (list, name), r),
    ensures
        r <==> exists|i: int| 0 <= i < list@.len() && (#[trigger] list@[i])@ == name@,
{
    let t = text::texts(list@);
    if r {
        let i = choose|i: int| 0 <= i < t.len() && t[i] == name@;
        assert(list@[i]@ == name@);
    }
    if exists|i: int| 0 <= i < list@.len() && (#[trigger] list@[i])@ == name@ {
        let i = choose|i: int| 0 <= i < list@.len() && (#[trigger] list@[i])@ == name@;
        assert(t[i] == name@);
    }
}

/// A name has the value that it was last given, until it is removed; other names keep theirs.
pub proof fn names_keep_their_values<V>(
    m: &mut NameMap<V>,
    name: &str,
    value: V,
    d: &mut NameMap<V>,
    gone: Option<V>,
    other: Seq<char>,
    seen: &NameMap<V>,
    held: Option<&V>,
    has: bool,
    fresh: NameMap<V>,
)
    requires
        call_ensures(NameMap::<V>::insert, (m, name, value), ()),
        call_ensures(NameMap::<V>::remove, (d, name), gone),
        call_ensures(NameMap::<V>::get, (seen, name), held),
        call_ensures(NameMap::<V>::contains, (seen, name), has),
        call_ensures(NameMap::<V>::new, (), fresh),
        other != name@,
    ensures
        final(m)@.contains_key(name@) && final(m)@[name@] == value,
        final(m)@.contains_key(other) == old(m)@.contains_key(other),
        old(m)@.contains_key(other) ==> final(m)@[other] == old(m)@[other],
        !final(d)@.contains_key(name@),
        final(d)@.contains_key(other) == old(d)@.contains_key(other),
        old(d)@.contains_key(other) ==> final(d)@[other] == old(d)@[other],
        gone is Some <==> old(d)@.contains_key(name@),
        gone matches Some(v) ==> old(d)@[name@] == v,
        held is Some <==> seen@.contains_key(name@),
        held matches Some(v) ==> seen@[name@] == *v,
        has <==> seen@.contains_key(name@),
        !fresh@.contains_key(name@),
{
}

proof fn octets_are_numbers(p: Seq<char>)
    ensures
        net::is_octet(p) <==> exists|n: nat| n <= 255 && p == #[trigger] number::decimal(n),
{
    if net::is_octet(p) {
        digits_are_written(p);
        assert(number::decimal(number::value_of(p)) == p);
    }
    if exists|n: nat| n <= 255 && p == #[trigger] number::decimal(n) {
        let n = choose|n: nat| n <= 255 && p == #[trigger] number::decimal(n);
        reveal_with_fuel(number::decimal, 4);
        decimals_name(n);
        number::reading_undoes_writing(n, 255);
        assert('0' <= number::decimal(n)[0] <= '9');
    }
}

proof fn digits_are_written(p: Seq<char>)
    requires
        p.len() > 0,
        number::all_digits(p),
        p.len() > 1 ==> p[0] != '0',
    ensures
        number::decimal(number::value_of(p)) == p,
        p[0] != '0' ==> number::value_of(p) > 0,
    decreases p.len(),
{
    let d = p.last();
    assert(d == p[p.len() - 1]);
    assert(number::is_digit(p[p.len() - 1]));
    let rest = p.drop_last();
    if rest.len() > 0 {
        assert forall|i: int| 0 <= i < rest.len() implies number::is_digit(#[trigger] rest[i]) by {
            assert(number::is_digit(p[i]));
        }
        digits_are_written(rest);
        let n = number::value_of(p);
        assert(n / 10 == number::value_of(rest));
        assert(n % 10 == d as u32 - 0x30);
        assert(number::digit(n % 10) == d);
        assert(number::decimal(n) =~= p);
    } else {
        assert(rest =~= Seq::<char>::empty());
        assert(number::value_of(rest) == 0);
        assert(number::digit(number::value_of(p)) == d);
        assert(number::decimal(number::value_of(p)) =~= p);
    }
}

/// A text is an IPv4 address exactly where it is four numbers of at most 255 with a dot
/// between each two, written without zeros in front.
pub proof fn four_numbers_are_an_address(s: &str, r: bool, parts: Vec<String>)
    requires
        call_ensures(net::is_v4, (s,), r),
        call_ensures(text::split, (s, '.'), parts),
    ensures
        r <==> parts@.len() == 4 && forall|i: int|
            0 <= i < 4 ==> exists|n: nat|
                n <= 255 && (#[trigger] parts@[i])@ == #[trigger] number::decimal(n),
{
    let t = text::texts(parts@);
    assert(t.len() == parts@.len());
    if parts@.len() == 4 {
        octets_are_numbers(parts@[0]@);
        octets_are_numbers(parts@[1]@);
        octets_are_numbers(parts@[2]@);
        octets_are_numbers(parts@[3]@);
        assert(t[0] == parts@[0]@ && t[1] == parts@[1]@ && t[2] == parts@[2]@ && t[3]
            == parts@[3]@);
        if r {
            assert(net::is_octet(t[0]) && net::is_octet(t[1]) && net::is_octet(t[2])
                && net::is_octet(t[3]));
        }
    }
}

/// An IPv4 address is written as four numbers with dots between them.
pub proof fn addresses_are_written(ip: &IpAddress, r: String, is_ip: bool, s: &str, v4: bool, v6: bool)
    requires
        call_ensures(IpAddress::to_text, (ip,), r),
        call_ensures(net::is_ip, (s,), is_ip),
        call_ensures(net::is_v4, (s,), v4),
        call_ensures(net::is_v6, (s,), v6),
    ensures
        ip@ matches IpFacts::V4(o) ==> r@ == number::decimal(o[0] as nat) + "."@ + number::decimal(
            o[1] as nat,
        ) + "."@ + number::decimal(o[2] as nat) + "."@ + number::decimal(o[3] as nat),
        is_ip <==> v4 || v6,
{
}

/// So many groups from a place on are zero.
pub open spec fn zeros_at(s: Seq<u16>, from: int, n: int) -> bool {
    0 <= from && from + n <= s.len() && forall|i: int| from <= i < from + n ==> #[trigger] s[i] == 0
}

/// The groups from one place to another, in hexadecimal with colons between them.
pub open spec fn colon_text(s: Seq<u16>, from: int, to: int) -> Seq<char> {
    crate::config::joined(
        Seq::new((to - from) as nat, |i: int| number::hexadecimal(s[from + i] as nat)),
        ":"@,
    )
}

proof fn groups_are_joined(s: Seq<u16>, from: int, to: int)
    requires
        0 <= from <= to <= s.len(),
    ensures
        net::groups_text(s, from, to) == colon_text(s, from, to),
    decreases to - from,
{
    let v = Seq::new((to - from) as nat, |i: int| number::hexadecimal(s[from + i] as nat));
    if to > from + 1 {
        groups_are_joined(s, from, to - 1);
        let w = Seq::new((to - 1 - from) as nat, |i: int| number::hexadecimal(s[from + i] as nat));
        assert(v.drop_last() =~= w);
        assert(v.last() == number::hexadecimal(s[to - 1] as nat));
    }
}

proof fn run_is_maximal(s: Seq<u16>, from: int, n: int)
    requires
        0 <= from <= s.len(),
    ensures
        zeros_at(s, from, net::zero_run(s, from)),
        net::zero_run(s, from) >= 0,
        n >= 0 && zeros_at(s, from, n) ==> n <= net::zero_run(s, from),
    decreases s.len() - from,
{
    if from < s.len() && s[from] == 0 {
        run_is_maximal(s, from + 1, n - 1);
        if n > 0 && zeros_at(s, from, n) {
            assert(zeros_at(s, from + 1, n - 1));
        }
        let r = net::zero_run(s, from + 1);
        assert forall|i: int| from <= i < from + 1 + r implies #[trigger] s[i] == 0 by {
            if i > from {
                assert(s[i] == 0);
            }
        }
    } else if n > 0 && zeros_at(s, from, n) {
        assert(s[from] == 0);
    }
}

proof fn first_longest_is_found(s: Seq<u16>, n: int, k: int)
    requires
        1 <= n <= s.len(),
        0 <= k < n,
    ensures
        0 <= net::longest_run(s, n) < n,
        net::zero_run(s, k) <= net::zero_run(s, net::longest_run(s, n)),
        k < net::longest_run(s, n) ==> net::zero_run(s, k) < net::zero_run(
            s,
            net::longest_run(s, n),
        ),
    decreases n,
{
    if n > 1 {
        if k < n - 1 {
            first_longest_is_found(s, n - 1, k);
        } else {
            first_longest_is_found(s, n - 1, 0);
        }
    }
}

/// An IPv6 address is written in groups with colons between them. The first of the longest
/// runs of two or more zero groups is left out for two colons; an address that stands for an
/// IPv4 address shows that one.
pub proof fn long_addresses_are_written(ip: &IpAddress, r: String, from: int, n: int) -> (run: (
    int,
    int,
))
    requires
        call_ensures(IpAddress::to_text, (ip,), r),
    ensures
        ip@ matches IpFacts::V6(s) ==> {
            let mapped = s[0] == 0 && s[1] == 0 && s[2] == 0 && s[3] == 0 && s[4] == 0 && s[5]
                == 0xffff;
            &&& mapped ==> r@ == "::ffff:"@ + number::decimal((s[6] / 256) as nat) + "."@
                + number::decimal((s[6] % 256) as nat) + "."@ + number::decimal((s[7] / 256) as nat)
                + "."@ + number::decimal((s[7] % 256) as nat)
            &&& zeros_at(s, run.0, run.1)
            &&& n >= 0 && 0 <= from < 8 && zeros_at(s, from, n) ==> n <= run.1 && (from < run.0
                ==> n < run.1)
            &&& !mapped && run.1 > 1 ==> r@ == colon_text(s, 0, run.0) + "::"@ + colon_text(
                s,
                run.0 + run.1,
                8,
            )
            &&& !mapped && run.1 <= 1 ==> r@ == colon_text(s, 0, 8)
        },
{
    match ip@ {
        IpFacts::V6(s) => {
            assert(s.len() == 8);
            let at = net::longest_run(s, 8);
            first_longest_is_found(s, 8, 0);
            run_is_maximal(s, at, 0);
            let len = net::zero_run(s, at);
            if 0 <= from < 8 {
                first_longest_is_found(s, 8, from);
                run_is_maximal(s, from, n);
            }
            groups_are_joined(s, 0, at);
            groups_are_joined(s, at + len, 8);
            groups_are_joined(s, 0, 8);
            let four = "::ffff:"@;
            let o = net::mapped_octets(s);
            assert(o[0] == s[6] / 256 && o[1] == s[6] % 256 && o[2] == s[7] / 256 && o[3] == s[7]
                % 256);
            let a = number::decimal((s[6] / 256) as nat);
            let b = number::decimal((s[6] % 256) as nat);
            let c = number::decimal((s[7] / 256) as nat);
            let d = number::decimal((s[7] % 256) as nat);
            assert(four + (a + "."@ + b + "."@ + c + "."@ + d) =~= four + a + "."@ + b + "."@ + c
                + "."@ + d);
            (at, len)
        },
        IpFacts::V4(_) => (0, 0),
    }
}

/// A group of an IPv6 address: one to four hexadecimal digits.
pub open spec fn is_hex_group(p: Seq<char>) -> bool {
    &&& 1 <= p.len() <= 4
    &&& forall|i: int|
        0 <= i < p.len() ==> {
            ||| '0' <= #[trigger] p[i] <= '9'
            ||| 'a' <= p[i] <= 'f'
            ||| 'A' <= p[i] <= 'F'
        }
}

/// The text is so many groups with colons between them; an IPv4 address at the end counts as
/// two.
pub open spec fn is_groups(s: Seq<char>, n: nat) -> bool {
    let parts = text::split_on(s, ':');
    let k = parts.len();
    ||| s.len() == 0 && n == 0
    ||| s.len() > 0 && (forall|i: int| 0 <= i < k - 1 ==> is_hex_group(#[trigger] parts[i])) && ((
    is_hex_group(parts[k - 1]) && n == k) || (!is_hex_group(parts[k - 1]) && net::is_v4_text(
        parts[k - 1],
    ) && n == k + 1))
}

proof fn groups_are_counted(s: Seq<char>, n: nat)
    ensures
        net::group_count(s) == Some(n) <==> is_groups(s, n),
{
    let parts = text::split_on(s, ':');
    pieces_of(s, ':');
    assert forall|i: int| 0 <= i < parts.len() implies net::is_group(#[trigger] parts[i])
        == is_hex_group(parts[i]) by {
        let p = parts[i];
        if net::is_group(p) {
            assert forall|k: int| 0 <= k < p.len() implies ('0' <= #[trigger] p[k] <= '9' || 'a'
                <= p[k] <= 'f' || 'A' <= p[k] <= 'F') by {
                assert(net::is_hex_char(p[k]));
            }
        }
    }
    assert(parts.last() == parts[parts.len() - 1]);
    if forall|i: int| 0 <= i < parts.len() - 1 ==> net::is_group(#[trigger] parts[i]) {
        assert forall|i: int| 0 <= i < parts.len() - 1 implies is_hex_group(#[trigger] parts[i]) by {
            assert(net::is_group(parts[i]));
        }
    }
    if forall|i: int| 0 <= i < parts.len() - 1 ==> is_hex_group(#[trigger] parts[i]) {
        assert forall|i: int| 0 <= i < parts.len() - 1 implies net::is_group(#[trigger] parts[i]) by {
            assert(is_hex_group(parts[i]));
        }
    }
}

/// Two colons at this place stand for the groups that are missing.
pub open spec fn leaves_out(s: Seq<char>, at: int, before: nat, after: nat) -> bool {
    &&& 0 <= at <= s.len() - 2
    &&& s[at] == ':' && s[at + 1] == ':'
    &&& is_groups(s.subrange(0, at), before)
    &&& is_groups(s.subrange(at + 2, s.len() as int), after)
    &&& !net::is_v4_text(text::split_on(s.subrange(0, at), ':').last())
    &&& before + after <= 7
}

/// A text is an IPv6 address exactly where it is eight groups, or at most seven with two
/// colons for those that are missing.
pub proof fn eight_groups_are_an_address(s: &str, r: bool)
    requires
        call_ensures(net::is_v6, (s,), r),
    ensures
        r <==> is_groups(s@, 8) || exists|at: int, before: nat, after: nat|
            leaves_out(s@, at, before, after),
{
    groups_are_counted(s@, 8);
    if exists|at: int| net::gap_at(s@, at) {
        let at = choose|at: int| net::gap_at(s@, at);
        let a = s@.subrange(0, at);
        let b = s@.subrange(at + 2, s@.len() as int);
        let h = net::group_count(a)->0;
        let t = net::group_count(b)->0;
        groups_are_counted(a, h);
        groups_are_counted(b, t);
        assert(leaves_out(s@, at, h, t));
    }
    if exists|at: int, before: nat, after: nat| leaves_out(s@, at, before, after) {
        let (at, h, t) = choose|at: int, before: nat, after: nat| leaves_out(s@, at, before, after);
        groups_are_counted(s@.subrange(0, at), h);
        groups_are_counted(s@.subrange(at + 2, s@.len() as int), t);
        assert(net::gap_at(s@, at));
    }
}

} // verus!
