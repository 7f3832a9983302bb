//! Numbers as text: decimal and hexadecimal digits, zero padding, and reading
//! a number back.
use crate::text;
use vstd::prelude::*;

verus! {

/// How many characters from `from` on are digits.
pub open spec fn digit_run(s: Seq<char>) -> int
    decreases s.len(),
{
    if s.len() == 0 || !is_digit(s[0]) {
        0
    } else {
        1 + digit_run(s.subrange(1, s.len() as int))
    }
}

/// Why a text is no unsigned number of at most `max`, in the words of
/// `std::num::ParseIntError`: the first character that is no digit or makes
/// the number too large decides.
pub open spec fn failure_of(s: Seq<char>, max: nat) -> Seq<char> {
    let digits = if s.len() > 1 && s[0] == '+' {
        s.subrange(1, s.len() as int)
    } else {
        s
    };
    if s.len() == 0 {
        "cannot parse integer from empty string"@
    } else if value_of(digits.take(digit_run(digits))) > max {
        "number too large to fit in target type"@
    } else {
        "invalid digit found in string"@
    }
}

/// The decimal digit of a value below ten.
pub open spec fn digit(n: nat) -> char {
    (0x30 + n) as char
}

/// The decimal digits of a number, without leading zeros.
pub open spec fn decimal(n: nat) -> Seq<char>
    decreases n,
{
    if n < 10 {
        seq![digit(n)]
    } else {
        decimal(n / 10).push(digit(n % 10))
    }
}

/// A signed number in decimal.
pub open spec fn signed_decimal(n: int) -> Seq<char> {
    if n < 0 {
        seq!['-'] + decimal((-n) as nat)
    } else {
        decimal(n as nat)
    }
}

/// `count` zeros.
pub open spec fn zeros(count: int) -> Seq<char> {
    Seq::new(
        if count > 0 {
            count as nat
        } else {
            0
        },
        |i: int| '0',
    )
}

/// A number in decimal, filled up with zeros to `width` characters; the sign
/// of a negative number counts and comes first.
pub open spec fn padded(n: int, width: int) -> Seq<char> {
    if n < 0 {
        seq!['-'] + zeros(width - 1 - decimal((-n) as nat).len()) + decimal((-n) as nat)
    } else {
        zeros(width - decimal(n as nat).len()) + decimal(n as nat)
    }
}

/// The lower-case hexadecimal digit of a value below sixteen.
pub open spec fn hex_digit(n: nat) -> char {
    if n < 10 {
        (0x30 + n) as char
    } else {
        (0x61 + n - 10) as char
    }
}

/// Bytes in lower-case hexadecimal, two digits each.
pub open spec fn hex_of(bytes: Seq<u8>) -> Seq<char>
    decreases bytes.len(),
{
    if bytes.len() == 0 {
        Seq::empty()
    } else {
        hex_of(bytes.drop_last()).push(hex_digit(bytes.last() as nat / 16)).push(
            hex_digit(bytes.last() as nat % 16),
        )
    }
}

/// A number in hexadecimal, in lower case.
pub open spec fn hexadecimal(n: nat) -> Seq<char>
    decreases n,
{
    if n < 16 {
        seq![hex_digit(n)]
    } else {
        hexadecimal(n / 16).push(hex_digit(n % 16))
    }
}

/// The value of a decimal digit.
pub open spec fn is_digit(c: char) -> bool {
    '0' <= c <= '9'
}

/// Every character is a decimal digit.
pub open spec fn all_digits(s: Seq<char>) -> bool {
    forall|i: int| 0 <= i < s.len() ==> is_digit(#[trigger] s[i])
}

/// The number that a row of decimal digits names.
pub open spec fn value_of(s: Seq<char>) -> nat
    decreases s.len(),
{
    if s.len() == 0 {
        0
    } else {
        value_of(s.drop_last()) * 10 + (s.last() as u32 - 0x30) as nat
    }
}

/// What reading an unsigned number of at most `max` gives, as `str::parse`
/// does it: an optional `+`, then one or more digits, in range.
pub open spec fn parsed_unsigned(s: Seq<char>, max: nat) -> Option<nat> {
    let digits = if s.len() > 0 && s[0] == '+' {
        s.subrange(1, s.len() as int)
    } else {
        s
    };
    if digits.len() > 0 && all_digits(digits) && value_of(digits) <= max {
        Some(value_of(digits))
    } else {
        None
    }
}

/// The decimal digit of a value below ten.
pub fn digit_char(n: u8) -> (c: char)
    requires
        n < 10,
    ensures
        c == digit(n as nat),
{
    (0x30 + n) as char
}

/// A number in decimal.
pub fn decimal_of(n: u64) -> (s: String)
    ensures
        s@ == decimal(n as nat),
    decreases n,
{
    if n < 10 {
        let mut s = String::new();
        s.push(digit_char(n as u8));
        s
    } else {
        let mut s = decimal_of(n / 10);
        s.push(digit_char((n % 10) as u8));
        s
    }
}

/// A large number in decimal.
pub fn wide_decimal_of(n: u128) -> (s: String)
    ensures
        s@ == decimal(n as nat),
    decreases n,
{
    if n < 10 {
        let mut s = String::new();
        s.push(digit_char(n as u8));
        s
    } else {
        let mut s = wide_decimal_of(n / 10);
        s.push(digit_char((n % 10) as u8));
        s
    }
}

/// A signed number in decimal.
pub fn signed_decimal_of(n: i64) -> (s: String)
    ensures
        s@ == signed_decimal(n as int),
{
    if n < 0 {
        let mut s = String::new();
        s.push('-');
        let magnitude: u64 = (-(n as i128)) as u64;
        let digits = decimal_of(magnitude);
        s.append(digits.as_str());
        s
    } else {
        decimal_of(n as u64)
    }
}

/// A number in decimal, filled up with zeros to `width` characters.
pub fn padded_of(n: i64, width: usize) -> (s: String)
    ensures
        s@ == padded(n as int, width as int),
{
    let mut s = String::new();
    let magnitude: u64 = if n < 0 {
        (-(n as i128)) as u64
    } else {
        n as u64
    };
    let digits = decimal_of(magnitude);
    let digit_count: usize = text::chars_of(digits.as_str()).len();
    let mut taken: usize = digit_count;
    if n < 0 {
        s.push('-');
        if taken < usize::MAX {
            taken += 1;
        }
    }
    let ghost start = s@;
    let ghost mut made: int = 0;
    while taken < width
        invariant
            made >= 0,
            digit_count == digits@.len(),
            n >= 0 ==> taken == digit_count + made,
            n < 0 ==> (taken == digit_count + 1 + made || (taken == usize::MAX && made == 0
                && digit_count == usize::MAX)),
            taken > width ==> made == 0,
            s@ == start + zeros(made),
        decreases width - taken,
    {
        s.push('0');
        taken += 1;
        proof {
            made = made + 1;
            assert(zeros(made) == zeros(made - 1).push('0'));
        }
    }
    assert(n >= 0 ==> zeros(made) == zeros(width - digit_count));
    assert(n < 0 ==> zeros(made) == zeros(width - 1 - digit_count));
    s.append(digits.as_str());
    s
}

/// The lower-case hexadecimal digit of a value below sixteen.
pub fn hex_digit_char(n: u8) -> (c: char)
    requires
        n < 16,
    ensures
        c == hex_digit(n as nat),
{
    if n < 10 {
        (0x30 + n) as char
    } else {
        (0x61 + (n - 10)) as char
    }
}

/// A number in hexadecimal, in lower case.
pub fn hexadecimal_of(n: u16) -> (s: String)
    ensures
        s@ == hexadecimal(n as nat),
    decreases n,
{
    if n < 16 {
        let mut s = String::new();
        s.push(hex_digit_char(n as u8));
        s
    } else {
        let mut s = hexadecimal_of(n / 16);
        s.push(hex_digit_char((n % 16) as u8));
        s
    }
}

/// Bytes in lower-case hexadecimal.
pub fn hex_string(bytes: &[u8]) -> (s: String)
    ensures
        s@ == hex_of(bytes@),
{
    let mut s = String::new();
    let mut i: usize = 0;
    while i < bytes.len()
        invariant
            i <= bytes@.len(),
            s@ == hex_of(bytes@.take(i as int)),
        decreases bytes@.len() - i,
    {
        let b: u8 = bytes[i];
        s.push(hex_digit_char(b / 16));
        s.push(hex_digit_char(b % 16));
        i += 1;
        assert(bytes@.take(i as int).drop_last() == bytes@.take(i - 1));
    }
    assert(bytes@.take(bytes@.len() as int) == bytes@);
    s
}

/// Reading more digits never gives a smaller number.
proof fn value_grows(s: Seq<char>, n: int)
    requires
        all_digits(s),
        0 <= n <= s.len(),
    ensures
        value_of(s.take(n)) <= value_of(s),
    decreases s.len(),
{
    if n < s.len() {
        value_grows(s.drop_last(), n);
        assert(s.drop_last().take(n) == s.take(n));
        assert(is_digit(s.last()));
    } else {
        assert(s.take(n) == s);
    }
}

proof fn run_of_digits(s: Seq<char>, n: int)
    requires
        0 <= n <= s.len(),
        forall|i: int| 0 <= i < n ==> is_digit(#[trigger] s[i]),
        n < s.len() ==> !is_digit(s[n]),
    ensures
        digit_run(s) == n,
    decreases s.len(),
{
    if n > 0 {
        let rest = s.subrange(1, s.len() as int);
        assert forall|i: int| 0 <= i < n - 1 implies is_digit(#[trigger] rest[i]) by {
            assert(rest[i] == s[i + 1]);
        }
        assert(is_digit(s[0]));
        run_of_digits(rest, n - 1);
    }
}

/// Says why a text is no unsigned number of at most `max`.
pub fn parse_failure(s: &str, max: u64) -> (r: &'static str)
    ensures
        r@ == failure_of(s@, max as nat),
{
    let v = text::chars_of(s);
    let n: usize = v.len();
    if n == 0 {
        return "cannot parse integer from empty string";
    }
    let start: usize = if n > 1 && v[0] == '+' {
        1
    } else {
        0
    };
    let ghost digits = s@.subrange(start as int, n as int);
    let mut end: usize = start;
    while end < n && '0' <= v[end] && v[end] <= '9'
        invariant
            v@ == s@,
            n == s@.len(),
            start <= end <= n,
            digits == s@.subrange(start as int, n as int),
            forall|i: int| 0 <= i < end - start ==> is_digit(#[trigger] digits[i]),
        decreases n - end,
    {
        end += 1;
    }
    let run = s.substring_char(start, end);
    proof {
        assert(start == 0 ==> digits == s@);
        run_of_digits(digits, end - start);
        assert(run@ =~= digits.take(digit_run(digits)));
        assert(run@.len() > 0 ==> is_digit(digits[0]));
    }
    if end > start && parse_unsigned(run, max).is_none() {
        "number too large to fit in target type"
    } else {
        "invalid digit found in string"
    }
}

/// Reads an unsigned number of at most `max`, as `str::parse` does.
pub fn parse_unsigned(s: &str, max: u64) -> (r: Option<u64>)
    ensures
        match r {
            Some(n) => parsed_unsigned(s@, max as nat) == Some(n as nat),
            None => parsed_unsigned(s@, max as nat) is None,
        },
{
    let v = text::chars_of(s);
    let mut start: usize = 0;
    if v.len() > 0 && v[0] == '+' {
        start = 1;
    }
    let ghost digits = s@.subrange(start as int, s@.len() as int);
    assert(start == 0 ==> digits == s@);
    if start >= v.len() {
        return None;
    }
    let mut n: u64 = 0;
    let mut i: usize = start;
    while i < v.len()
        invariant
            start <= i <= v@.len(),
            v@ == s@,
            digits == s@.subrange(start as int, s@.len() as int),
            digits == (if s@.len() > 0 && s@[0] == '+' {
                s@.subrange(1, s@.len() as int)
            } else {
                s@
            }),
            all_digits(digits.take(i - start)),
            n == value_of(digits.take(i - start)),
            n <= max,
        decreases v@.len() - i,
    {
        let c = v[i];
        if c < '0' || c > '9' {
            assert(!is_digit(digits[i - start]));
            return None;
        }
        let d: u64 = (c as u32 - 0x30) as u64;
        let next: u128 = (n as u128) * 10 + (d as u128);
        assert(digits.take(i - start + 1).drop_last() == digits.take(i - start));
        assert(digits.take(i - start + 1).last() == c);
        assert(next == value_of(digits.take(i - start + 1)));
        if next > max as u128 {
            proof {
                if all_digits(digits) {
                    value_grows(digits, i - start + 1);
                }
            }
            return None;
        }
        n = next as u64;
        i += 1;
        assert forall|j: int| 0 <= j < i - start implies is_digit(
            #[trigger] digits.take(i - start)[j],
        ) by {
            if j < i - start - 1 {
                assert(digits.take(i - start - 1)[j] == digits[j]);
            }
        }
    }
    assert(digits.take(digits.len() as int) == digits);
    Some(n)
}

/// The digits of a number name it again.
pub proof fn decimal_names_the_number(n: nat)
    ensures
        all_digits(decimal(n)),
        decimal(n).len() > 0,
        value_of(decimal(n)) == n,
    decreases n,
{
    if n < 10 {
        assert(decimal(n).drop_last() == Seq::<char>::empty());
        assert(value_of(Seq::<char>::empty()) == 0);
    } else {
        decimal_names_the_number(n / 10);
        assert(decimal(n).drop_last() == decimal(n / 10));
        assert forall|i: int| 0 <= i < decimal(n).len() implies is_digit(
            #[trigger] decimal(n)[i],
        ) by {
            if i < decimal(n / 10).len() {
                assert(decimal(n)[i] == decimal(n / 10)[i]);
            }
        }
    }
}

/// Reading what was written gives the number back.
pub proof fn reading_undoes_writing(n: nat, max: nat)
    requires
        n <= max,
    ensures
        parsed_unsigned(decimal(n), max) == Some(n),
{
    decimal_names_the_number(n);
    assert(is_digit(decimal(n)[0]));
}

/// Zeros in front do not count.
proof fn zeros_do_not_count(count: int, s: Seq<char>)
    requires
        all_digits(s),
    ensures
        all_digits(zeros(count) + s),
        value_of(zeros(count) + s) == value_of(s),
    decreases s.len(), zeros(count).len(),
{
    let all = zeros(count) + s;
    if s.len() > 0 {
        zeros_do_not_count(count, s.drop_last());
        assert(all.drop_last() =~= zeros(count) + s.drop_last());
        assert(all.last() == s.last());
    } else if count > 0 {
        zeros_do_not_count(count - 1, s);
        assert(all.drop_last() =~= zeros(count - 1) + s);
        assert(all.last() == '0');
    } else {
        assert(all =~= s);
    }
    assert forall|i: int| 0 <= i < all.len() implies is_digit(#[trigger] all[i]) by {
        if i >= zeros(count).len() {
            assert(all[i] == s[i - zeros(count).len()]);
        } else {
            assert(all[i] == '0');
        }
    }
}

/// A number that fits a field of two or four digits fills it, and is named by
/// it.
pub proof fn padded_names_the_number(n: int, width: int)
    requires
        (width == 2 && 0 <= n < 100) || (width == 4 && 0 <= n < 10000),
    ensures
        padded(n, width).len() == width,
        all_digits(padded(n, width)),
        value_of(padded(n, width)) == n,
{
    reveal_with_fuel(decimal, 5);
    decimal_names_the_number(n as nat);
    zeros_do_not_count(width - decimal(n as nat).len(), decimal(n as nat));
}

} // verus!
