//! Strings as sequences of characters: searching, trimming, splitting, case
//! folding and ordering.
use vstd::prelude::*;

verus! {

/// `String::push` appends one character to the string.
pub assume_specification[ String::push ](s: &mut String, c: char)
    ensures
        final(s)@ == old(s)@.push(c),
;

/// The ASCII lower-case form of a character; other characters stand for
/// themselves.
pub open spec fn lower_char(c: char) -> char {
    if 'A' <= c <= 'Z' {
        ((c as u32 + 32) as u32) as char
    } else {
        c
    }
}

/// A text with every ASCII capital lowered.
pub open spec fn lower(s: Seq<char>) -> Seq<char> {
    s.map_values(|c: char| lower_char(c))
}

/// Characters with the Unicode property `White_Space`.
pub open spec fn is_space(c: char) -> bool {
    ||| 0x9 <= c as u32 <= 0xd
    ||| c as u32 == 0x20
    ||| c as u32 == 0x85
    ||| c as u32 == 0xa0
    ||| c as u32 == 0x1680
    ||| 0x2000 <= c as u32 <= 0x200a
    ||| c as u32 == 0x2028
    ||| c as u32 == 0x2029
    ||| c as u32 == 0x202f
    ||| c as u32 == 0x205f
    ||| c as u32 == 0x3000
}

/// `part` stands in `whole` at offset `at`.
pub open spec fn stands_at(whole: Seq<char>, part: Seq<char>, at: int) -> bool {
    0 <= at && at + part.len() <= whole.len() && whole.subrange(at, at + part.len()) == part
}

/// `part` stands somewhere in `whole`.
pub open spec fn has(whole: Seq<char>, part: Seq<char>) -> bool {
    exists|at: int| stands_at(whole, part, at)
}

/// The text without its leading white space.
pub open spec fn trim_start(s: Seq<char>) -> Seq<char>
    decreases s.len(),
{
    if s.len() > 0 && is_space(s[0]) {
        trim_start(s.subrange(1, s.len() as int))
    } else {
        s
    }
}

/// The text without its trailing white space.
pub open spec fn trim_end(s: Seq<char>) -> Seq<char>
    decreases s.len(),
{
    if s.len() > 0 && is_space(s.last()) {
        trim_end(s.drop_last())
    } else {
        s
    }
}

/// The text without white space at either end.
pub open spec fn trimmed(s: Seq<char>) -> Seq<char> {
    trim_end(trim_start(s))
}

/// The text without the characters `c` at its end.
pub open spec fn without_trailing(s: Seq<char>, c: char) -> Seq<char>
    decreases s.len(),
{
    if s.len() > 0 && s.last() == c {
        without_trailing(s.drop_last(), c)
    } else {
        s
    }
}

/// The maximal runs of characters that are no white space.
pub open spec fn words_of(s: Seq<char>) -> Seq<Seq<char>>
    decreases s.len(),
{
    if s.len() == 0 {
        Seq::empty()
    } else if is_space(s[0]) {
        words_of(s.subrange(1, s.len() as int))
    } else {
        proof {
            word_end_bounds(s, 1);
        }
        let n = word_end(s, 1);
        seq![s.subrange(0, n)] + words_of(s.subrange(n, s.len() as int))
    }
}

/// Where a run of characters that are no white space ends.
pub open spec fn word_end(s: Seq<char>, from: int) -> int
    decreases s.len() - from,
{
    if from < 1 || from >= s.len() || is_space(s[from]) {
        if 1 <= from <= s.len() {
            from
        } else {
            s.len() as int
        }
    } else {
        word_end(s, from + 1)
    }
}

/// A word is not empty and ends within the text.
pub proof fn word_end_bounds(s: Seq<char>, from: int)
    requires
        1 <= from <= s.len(),
    ensures
        from <= word_end(s, from) <= s.len(),
    decreases s.len() - from,
{
    if from < s.len() && !is_space(s[from]) {
        word_end_bounds(s, from + 1);
    }
}

/// The first offset from `from` on at which `c` stands, or the length.
pub open spec fn find_from(s: Seq<char>, c: char, from: int) -> int
    decreases s.len() - from,
{
    if from < 0 || from >= s.len() {
        s.len() as int
    } else if s[from] == c {
        from
    } else {
        find_from(s, c, from + 1)
    }
}

/// The pieces of `s` between the occurrences of `c`: one more than there are
/// occurrences.
pub open spec fn split_on(s: Seq<char>, c: char) -> Seq<Seq<char>>
    decreases s.len(),
{
    let at = find_from(s, c, 0);
    if 0 <= at < s.len() {
        seq![s.subrange(0, at)] + split_on(s.subrange(at + 1, s.len() as int), c)
    } else {
        seq![s]
    }
}

/// The texts that a list of strings holds.
pub open spec fn texts(v: Seq<String>) -> Seq<Seq<char>> {
    v.map_values(|s: String| s@)
}

/// `a` comes before `b`: order by the first differing character, a prefix
/// before what it starts. Comparing characters orders as comparing UTF-8 bytes
/// does.
pub open spec fn before(a: Seq<char>, b: Seq<char>) -> bool
    decreases a.len(),
{
    if b.len() == 0 {
        false
    } else if a.len() == 0 {
        true
    } else if a[0] != b[0] {
        a[0] < b[0]
    } else {
        before(a.subrange(1, a.len() as int), b.subrange(1, b.len() as int))
    }
}

/// The characters of a string.
pub fn chars_of(s: &str) -> (v: Vec<char>)
    ensures
        v@ == s@,
{
    let mut v: Vec<char> = Vec::new();
    for c in iter: s.chars()
        invariant
            v@ == s@.take(iter.index() as int),
            iter.seq() == s@,
    {
        v.push(c);
        assert(v@ == s@.take(iter.index() as int + 1));
    }
    assert(s@.take(s@.len() as int) == s@);
    v
}

/// The string made of the characters from `from` up to `to`.
pub fn string_of(v: &[char], from: usize, to: usize) -> (s: String)
    requires
        from <= to <= v@.len(),
    ensures
        s@ == v@.subrange(from as int, to as int),
{
    let mut s = String::new();
    let mut i: usize = from;
    while i < to
        invariant
            from <= i <= to <= v@.len(),
            s@ == v@.subrange(from as int, i as int),
        decreases to - i,
    {
        s.push(v[i]);
        i += 1;
        assert(s@ == v@.subrange(from as int, i as int));
    }
    s
}

/// Whether the slice holds the given characters from `at` on.
pub fn chars_at(v: &[char], at: usize, part: &[char]) -> (r: bool)
    ensures
        r == stands_at(v@, part@, at as int),
{
    if part.len() > v.len() || at > v.len() - part.len() {
        return false;
    }
    let end: usize = at + part.len();
    let mut i: usize = 0;
    while i < part.len()
        invariant
            i <= part@.len(),
            end == at + part@.len(),
            end <= v@.len(),
            forall|j: int| 0 <= j < i ==> v@[at + j] == part@[j],
        decreases part@.len() - i,
    {
        if v[at + i] != part[i] {
            assert(v@.subrange(at as int, at + part@.len())[i as int] != part@[i as int]);
            return false;
        }
        i += 1;
    }
    assert(v@.subrange(at as int, at + part@.len()) =~= part@);
    true
}

/// Whether two strings hold the same characters.
pub fn same(a: &str, b: &str) -> (r: bool)
    ensures
        r == (a@ == b@),
{
    let x = chars_of(a);
    let y = chars_of(b);
    if x.len() != y.len() {
        return false;
    }
    let r = chars_at(x.as_slice(), 0, y.as_slice());
    assert(x@.subrange(0, x@.len() as int) == x@);
    r
}

/// Whether a list holds the given text.
pub fn holds(list: &Vec<String>, name: &str) -> (r: bool)
    ensures
        r == texts(list@).contains(name@),
{
    let mut i: usize = 0;
    while i < list.len()
        invariant
            i <= list@.len(),
            forall|j: int| 0 <= j < i ==> texts(list@)[j] != name@,
        decreases list@.len() - i,
    {
        if same(list[i].as_str(), name) {
            assert(texts(list@)[i as int] == name@);
            return true;
        }
        i += 1;
    }
    false
}

/// `str::starts_with`.
pub fn starts_with(s: &str, prefix: &str) -> (r: bool)
    ensures
        r == prefix@.is_prefix_of(s@),
{
    let x = chars_of(s);
    let y = chars_of(prefix);
    let r = chars_at(x.as_slice(), 0, y.as_slice());
    r
}

/// `str::ends_with`.
pub fn ends_with(s: &str, suffix: &str) -> (r: bool)
    ensures
        r == suffix@.is_suffix_of(s@),
{
    let x = chars_of(s);
    let y = chars_of(suffix);
    if y.len() > x.len() {
        return false;
    }
    let r = chars_at(x.as_slice(), x.len() - y.len(), y.as_slice());
    assert(x@.subrange(x@.len() - y@.len(), x@.len() as int)
        == x@.subrange(x@.len() - y@.len(), x@.len() - y@.len() + y@.len()));
    r
}

/// `str::contains`.
pub fn contains(s: &str, part: &str) -> (r: bool)
    ensures
        r == has(s@, part@),
{
    let x = chars_of(s);
    let y = chars_of(part);
    let mut at: usize = 0;
    while at < x.len()
        invariant
            x@ == s@,
            y@ == part@,
            at <= x@.len(),
            forall|j: int| 0 <= j < at ==> !stands_at(s@, part@, j),
        decreases x@.len() - at,
    {
        if chars_at(x.as_slice(), at, y.as_slice()) {
            return true;
        }
        at += 1;
    }
    let r = chars_at(x.as_slice(), x.len(), y.as_slice());
    r
}

/// The ASCII lower-case form of a character.
pub fn lowered_char(c: char) -> (r: char)
    ensures
        r == lower_char(c),
{
    match c {
        'A' => 'a',
        'B' => 'b',
        'C' => 'c',
        'D' => 'd',
        'E' => 'e',
        'F' => 'f',
        'G' => 'g',
        'H' => 'h',
        'I' => 'i',
        'J' => 'j',
        'K' => 'k',
        'L' => 'l',
        'M' => 'm',
        'N' => 'n',
        'O' => 'o',
        'P' => 'p',
        'Q' => 'q',
        'R' => 'r',
        'S' => 's',
        'T' => 't',
        'U' => 'u',
        'V' => 'v',
        'W' => 'w',
        'X' => 'x',
        'Y' => 'y',
        'Z' => 'z',
        _ => c,
    }
}

/// `str::to_ascii_lowercase`.
pub fn lowered(s: &str) -> (r: String)
    ensures
        r@ == lower(s@),
{
    let mut r = String::new();
    for c in iter: s.chars()
        invariant
            r@ == lower(s@).take(iter.index() as int),
            iter.seq() == s@,
    {
        r.push(lowered_char(c));
        assert(r@ == lower(s@).take(iter.index() as int + 1));
    }
    assert(lower(s@).take(s@.len() as int) == lower(s@));
    r
}

/// `str::eq_ignore_ascii_case`.
pub fn same_ignoring_case(a: &str, b: &str) -> (r: bool)
    ensures
        r == (lower(a@) == lower(b@)),
{
    let x = lowered(a);
    let y = lowered(b);
    same(x.as_str(), y.as_str())
}

/// `char::is_whitespace`.
pub fn is_whitespace(c: char) -> (r: bool)
    ensures
        r == is_space(c),
{
    let u: u32 = c as u32;
    (0x9 <= u && u <= 0xd) || u == 0x20 || u == 0x85 || u == 0xa0 || u == 0x1680 || (0x2000 <= u
        && u <= 0x200a) || u == 0x2028 || u == 0x2029 || u == 0x202f || u == 0x205f || u == 0x3000
}

/// `str::trim`.
pub fn trim<'a>(s: &'a str) -> (r: &'a str)
    ensures
        r@ == trimmed(s@),
{
    let v = chars_of(s);
    let mut from: usize = 0;
    assert(s@.subrange(0, s@.len() as int) == s@);
    while from < v.len() && is_whitespace(v[from])
        invariant
            v@ == s@,
            from <= v@.len(),
            trim_start(s@) == trim_start(s@.subrange(from as int, s@.len() as int)),
        decreases v@.len() - from,
    {
        assert(s@.subrange(from as int, s@.len() as int).subrange(
            1,
            s@.len() - from,
        ) == s@.subrange(from + 1, s@.len() as int));
        from += 1;
    }
    let ghost rest = s@.subrange(from as int, s@.len() as int);
    assert(trim_start(s@) == rest);
    let mut to: usize = v.len();
    while from < to && is_whitespace(v[to - 1])
        invariant
            v@ == s@,
            from <= to <= v@.len(),
            trim_end(rest) == trim_end(s@.subrange(from as int, to as int)),
        decreases to,
    {
        assert(s@.subrange(from as int, to as int).drop_last() == s@.subrange(
            from as int,
            to - 1,
        ));
        to -= 1;
    }
    s.substring_char(from, to)
}

/// What `find_from` gives: the first place of the character, or the length.
pub proof fn find_from_is_first(s: Seq<char>, c: char, from: int)
    requires
        0 <= from <= s.len(),
    ensures
        from <= find_from(s, c, from) <= s.len(),
        find_from(s, c, from) < s.len() ==> s[find_from(s, c, from)] == c,
        forall|j: int| from <= j < find_from(s, c, from) ==> s[j] != c,
    decreases s.len() - from,
{
    if from < s.len() && s[from] != c {
        find_from_is_first(s, c, from + 1);
    }
}

/// A place that holds the character, with none before it, is the one that
/// `find_from` gives.
pub proof fn find_from_unique(s: Seq<char>, c: char, from: int, at: int)
    requires
        0 <= from <= at <= s.len(),
        at < s.len() ==> s[at] == c,
        forall|j: int| from <= j < at ==> s[j] != c,
    ensures
        find_from(s, c, from) == at,
    decreases at - from,
{
    if from < at {
        find_from_unique(s, c, from + 1, at);
    }
}

/// The text without the characters `c` at its end.
pub fn trim_trailing<'a>(s: &'a str, c: char) -> (r: &'a str)
    ensures
        r@ == without_trailing(s@, c),
{
    let v = chars_of(s);
    let mut end: usize = v.len();
    assert(s@.take(end as int) =~= s@);
    while end > 0 && v[end - 1] == c
        invariant
            v@ == s@,
            end <= v@.len(),
            without_trailing(s@, c) == without_trailing(s@.take(end as int), c),
        decreases end,
    {
        assert(s@.take(end as int).drop_last() =~= s@.take(end - 1));
        end -= 1;
    }
    assert(s@.subrange(0, end as int) =~= s@.take(end as int));
    s.substring_char(0, end)
}

proof fn word_end_at(s: Seq<char>, from: int, to: int)
    requires
        1 <= from <= to <= s.len(),
        forall|i: int| from <= i < to ==> !is_space(#[trigger] s[i]),
        to < s.len() ==> is_space(s[to]),
    ensures
        word_end(s, from) == to,
    decreases to - from,
{
    if from < to {
        assert(!is_space(s[from]));
        word_end_at(s, from + 1, to);
    }
}

/// The words of a text.
pub fn words(s: &str) -> (r: Vec<String>)
    ensures
        texts(r@) == words_of(s@),
{
    let v = chars_of(s);
    let n: usize = v.len();
    let mut r: Vec<String> = Vec::new();
    let mut i: usize = 0;
    assert(s@.subrange(0, n as int) =~= s@);
    assert(texts(r@) =~= Seq::<Seq<char>>::empty());
    assert(Seq::<Seq<char>>::empty() + words_of(s@) =~= words_of(s@));
    while i < n
        invariant
            v@ == s@,
            n == v@.len(),
            i <= n,
            texts(r@) + words_of(s@.subrange(i as int, n as int)) == words_of(s@),
        decreases n - i,
    {
        let ghost rest = s@.subrange(i as int, n as int);
        if is_whitespace(v[i]) {
            assert(rest.subrange(1, rest.len() as int) =~= s@.subrange(i + 1, n as int));
            i += 1;
        } else {
            let mut end: usize = i + 1;
            while end < n && !is_whitespace(v[end])
                invariant
                    v@ == s@,
                    n == v@.len(),
                    i < end <= n,
                    forall|j: int| i <= j < end ==> !is_space(#[trigger] s@[j]),
                decreases n - end,
            {
                end += 1;
            }
            proof {
                assert forall|j: int| 1 <= j < end - i implies !is_space(#[trigger] rest[j]) by {
                    assert(rest[j] == s@[i + j]);
                }
                word_end_at(rest, 1, end - i);
                assert(rest.subrange(0, end - i) =~= s@.subrange(i as int, end as int));
                assert(rest.subrange(end - i, rest.len() as int) =~= s@.subrange(
                    end as int,
                    n as int,
                ));
            }
            let ghost before = texts(r@);
            let word = s.substring_char(i, end).to_owned();
            r.push(word);
            proof {
                assert(texts(r@) =~= before.push(word@));
                assert(before + (seq![word@] + words_of(s@.subrange(end as int, n as int)))
                    =~= texts(r@) + words_of(s@.subrange(end as int, n as int)));
            }
            i = end;
        }
    }
    assert(s@.subrange(i as int, n as int) =~= Seq::<char>::empty());
    assert(texts(r@) + Seq::<Seq<char>>::empty() =~= texts(r@));
    r
}

/// `str::split` on one character.
pub fn split(s: &str, c: char) -> (r: Vec<String>)
    ensures
        texts(r@) == split_on(s@, c),
        r@.len() > 0,
{
    let v = chars_of(s);
    let mut r: Vec<String> = Vec::new();
    let mut from: usize = 0;
    let mut i: usize = 0;
    assert(s@.subrange(0, s@.len() as int) == s@);
    while i < v.len()
        invariant
            v@ == s@,
            from <= i <= v@.len(),
            forall|j: int| from <= j < i ==> s@[j] != c,
            split_on(s@, c) == texts(r@) + split_on(
                s@.subrange(from as int, s@.len() as int),
                c,
            ),
        decreases v@.len() - i,
    {
        if v[i] == c {
            let ghost rest = s@.subrange(from as int, s@.len() as int);
            proof {
                find_from_unique(rest, c, 0, i - from);
                assert(rest.subrange(0, i - from) == s@.subrange(from as int, i as int));
                assert(rest.subrange(i - from + 1, rest.len() as int) == s@.subrange(
                    i + 1,
                    s@.len() as int,
                ));
            }
            let ghost before_push = texts(r@);
            r.push(string_of(v.as_slice(), from, i));
            assert(texts(r@) == before_push + seq![s@.subrange(from as int, i as int)]);
            from = i + 1;
        }
        i += 1;
    }
    let ghost rest = s@.subrange(from as int, s@.len() as int);
    proof {
        find_from_unique(rest, c, 0, rest.len() as int);
    }
    let ghost before_push = texts(r@);
    r.push(string_of(v.as_slice(), from, v.len()));
    assert(texts(r@) == before_push + seq![rest]);
    r
}

/// Whether `a` comes before `b`, as `<` on strings has it.
pub fn precedes(a: &str, b: &str) -> (r: bool)
    ensures
        r == before(a@, b@),
{
    let x = chars_of(a);
    let y = chars_of(b);
    let mut i: usize = 0;
    assert(a@.subrange(0, a@.len() as int) == a@);
    assert(b@.subrange(0, b@.len() as int) == b@);
    while i < x.len() && i < y.len() && x[i] == y[i]
        invariant
            x@ == a@,
            y@ == b@,
            i <= x@.len(),
            i <= y@.len(),
            before(a@, b@) == before(
                a@.subrange(i as int, a@.len() as int),
                b@.subrange(i as int, b@.len() as int),
            ),
        decreases x@.len() - i,
    {
        assert(a@.subrange(i as int, a@.len() as int).subrange(1, a@.len() - i) == a@.subrange(
            i + 1,
            a@.len() as int,
        ));
        assert(b@.subrange(i as int, b@.len() as int).subrange(1, b@.len() - i) == b@.subrange(
            i + 1,
            b@.len() as int,
        ));
        i += 1;
    }
    if i >= y.len() {
        false
    } else if i >= x.len() {
        true
    } else {
        x[i] < y[i]
    }
}

/// A name in a directory, as `std::path::Path::join` gives it for a relative
/// name.
pub open spec fn in_directory(dir: Seq<char>, name: Seq<char>) -> Seq<char> {
    if dir.len() == 0 || dir.last() == '/' {
        dir + name
    } else {
        dir + "/"@ + name
    }
}

/// A name in a directory.
pub fn join_path(dir: &str, name: &str) -> (r: String)
    ensures
        r@ == in_directory(dir@, name@),
{
    let v = chars_of(dir);
    let n: usize = v.len();
    if n == 0 || v[n - 1] == '/' {
        cat2(dir, name)
    } else {
        cat3(dir, "/", name)
    }
}

/// Two texts in a row.
pub fn cat2(a: &str, b: &str) -> (r: String)
    ensures
        r@ == a@ + b@,
{
    let mut r = a.to_owned();
    r.append(b);
    r
}

/// Three texts in a row.
pub fn cat3(a: &str, b: &str, c: &str) -> (r: String)
    ensures
        r@ == a@ + b@ + c@,
{
    let mut r = a.to_owned();
    r.append(b);
    r.append(c);
    r
}

/// Four texts in a row.
pub fn cat4(a: &str, b: &str, c: &str, d: &str) -> (r: String)
    ensures
        r@ == a@ + b@ + c@ + d@,
{
    let mut r = a.to_owned();
    r.append(b);
    r.append(c);
    r.append(d);
    r
}

/// Five texts in a row.
pub fn cat5(a: &str, b: &str, c: &str, d: &str, e: &str) -> (r: String)
    ensures
        r@ == a@ + b@ + c@ + d@ + e@,
{
    let mut r = a.to_owned();
    r.append(b);
    r.append(c);
    r.append(d);
    r.append(e);
    r
}

/// Seven texts in a row.
pub fn cat7(a: &str, b: &str, c: &str, d: &str, e: &str, f: &str, g: &str) -> (r: String)
    ensures
        r@ == a@ + b@ + c@ + d@ + e@ + f@ + g@,
{
    let mut r = a.to_owned();
    r.append(b);
    r.append(c);
    r.append(d);
    r.append(e);
    r.append(f);
    r.append(g);
    r
}

/// The text of an optional string.
pub open spec fn opt(o: Option<String>) -> Option<Seq<char>> {
    match o {
        Some(s) => Some(s@),
        None => None,
    }
}

/// Whether a text is empty.
pub fn is_blank(s: &str) -> (r: bool)
    ensures
        r == (s@.len() == 0),
{
    chars_of(s).len() == 0
}

/// Lowering twice changes nothing more.
pub proof fn lower_idempotent(s: Seq<char>)
    ensures
        lower(lower(s)) == lower(s),
{
    assert(lower(lower(s)) =~= lower(s));
}

/// The byte of an ASCII character is its code.
proof fn ascii_code(c: char)
    requires
        c as u32 <= 0x7f,
    ensures
        c as u8 == c as u32,
{
}

/// ASCII text is encoded as itself, character by character.
pub proof fn ascii_encodes_itself(s: Seq<char>)
    requires
        forall|i: int| 0 <= i < s.len() ==> (#[trigger] s[i]) as u32 <= 0x7f,
    ensures
        vstd::utf8::encode_utf8(s) == s.map_values(|c: char| c as u8),
    decreases s.len(),
{
    if s.len() > 0 {
        let c = s[0] as u32;
        let rest = s.drop_first();
        assert forall|i: int| 0 <= i < rest.len() implies (#[trigger] rest[i]) as u32 <= 0x7f by {
            assert(rest[i] == s[i + 1]);
        }
        ascii_encodes_itself(rest);
        assert(vstd::utf8::leading_byte_width_1(c) == c) by (bit_vector)
            requires
                c <= 0x7f,
        ;
        ascii_code(s[0]);
        assert(vstd::utf8::encode_scalar(c) =~= seq![s[0] as u8]);
        assert(s.map_values(|c: char| c as u8) =~= seq![s[0] as u8] + rest.map_values(
            |c: char| c as u8,
        ));
    } else {
        assert(s.map_values(|c: char| c as u8) =~= Seq::<u8>::empty());
    }
}

} // verus!
