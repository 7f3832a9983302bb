//! Minimal DER ASN.1 reader that extracts the validity period from an X.509
//! certificate.
use super::clock;
use crate::number;
use vstd::prelude::*;
use vstd::slice::slice_subrange;

verus! {

/// The number that a row of bytes names, most significant first.
pub open spec fn big_endian(b: Seq<u8>) -> nat
    decreases b.len(),
{
    if b.len() == 0 {
        0
    } else {
        big_endian(b.drop_last()) * 256 + b.last() as nat
    }
}

/// The element at the front of a DER encoding: its tag, its contents and what
/// follows it.
pub open spec fn tlv(b: Seq<u8>) -> Result<(u8, Seq<u8>, Seq<u8>), Seq<char>> {
    if b.len() == 0 {
        Err("Unexpected EOF in ASN.1"@)
    } else if b.len() == 1 {
        Err("Unexpected EOF reading length"@)
    } else {
        let octets = if b[1] < 0x80 {
            0
        } else {
            b[1] - 0x80
        };
        let start = 2 + octets;
        if octets > 4 || start > b.len() {
            Err("Invalid ASN.1 length encoding"@)
        } else {
            let len = if b[1] < 0x80 {
                b[1] as int
            } else {
                big_endian(b.subrange(2, start)) as int
            };
            if start + len > b.len() {
                Err("ASN.1 length exceeds buffer"@)
            } else {
                Ok(
                    (
                        b[0],
                        b.subrange(start, start + len),
                        b.subrange(start + len, b.len() as int),
                    ),
                )
            }
        }
    }
}

/// The views of an element that was read.
pub open spec fn element(r: Result<(u8, &[u8], &[u8]), String>) -> Result<
    (u8, Seq<u8>, Seq<u8>),
    Seq<char>,
> {
    match r {
        Ok((tag, value, rest)) => Ok((tag, value@, rest@)),
        Err(e) => Err(e@),
    }
}

/// Reads the element at the front of a DER encoding.
pub fn read_tlv(bytes: &[u8]) -> (r: Result<(u8, &[u8], &[u8]), String>)
    ensures
        element(r) == tlv(bytes@),
{
    if bytes.len() == 0 {
        return Err("Unexpected EOF in ASN.1".to_owned());
    }
    if bytes.len() == 1 {
        return Err("Unexpected EOF reading length".to_owned());
    }
    let tag: u8 = bytes[0];
    let len_byte: u8 = bytes[1];
    let mut pos: usize = 2;
    let mut len: u64 = len_byte as u64;
    if len_byte >= 0x80 {
        let octets: usize = (len_byte - 0x80) as usize;
        if octets > 4 || octets > bytes.len() - 2 {
            return Err("Invalid ASN.1 length encoding".to_owned());
        }
        len = 0;
        let mut i: usize = 0;
        while i < octets
            invariant
                i <= octets <= 4,
                2 + octets <= bytes@.len(),
                len == big_endian(bytes@.subrange(2, 2 + i)),
                i == 0 ==> len == 0,
                i == 1 ==> len < 0x100,
                i == 2 ==> len < 0x1_0000,
                i == 3 ==> len < 0x100_0000,
                i == 4 ==> len < 0x1_0000_0000,
            decreases octets - i,
        {
            len = len * 256 + bytes[2 + i] as u64;
            i += 1;
            assert(bytes@.subrange(2, 2 + i).drop_last() == bytes@.subrange(2, 2 + i - 1));
        }
        pos = 2 + octets;
    }
    if len > (bytes.len() - pos) as u64 {
        return Err("ASN.1 length exceeds buffer".to_owned());
    }
    let end: usize = pos + len as usize;
    let value = slice_subrange(bytes, pos, end);
    let rest = slice_subrange(bytes, end, bytes.len());
    Ok((tag, value, rest))
}

/// The number that a signed decimal field names: an optional sign and one or
/// more digits.
pub open spec fn field_value(b: Seq<u8>) -> Option<int> {
    let signed = b.len() > 0 && (b[0] == 0x2b || b[0] == 0x2d);
    let digits = if signed {
        b.subrange(1, b.len() as int)
    } else {
        b
    };
    let chars = digits.map_values(|x: u8| x as char);
    if digits.len() > 0 && number::all_digits(chars) {
        if b[0] == 0x2d {
            Some(-(number::value_of(chars) as int))
        } else {
            Some(number::value_of(chars) as int)
        }
    } else {
        None
    }
}

/// Reads a signed decimal field of at most four bytes.
fn parse_field(bytes: &[u8], from: usize, to: usize) -> (r: Option<i64>)
    requires
        from < to <= bytes@.len(),
        to - from <= 4,
    ensures
        (match r {
            Some(n) => Some(n as int),
            None => None,
        }) == field_value(bytes@.subrange(from as int, to as int)),
        r matches Some(n) ==> -9999 <= n <= 9999,
        r matches Some(n) ==> to - from <= 2 ==> -9 <= n <= 99,
{
    let ghost b = bytes@.subrange(from as int, to as int);
    let mut start: usize = from;
    let negative: bool = bytes[from] == 0x2d;
    if negative || bytes[from] == 0x2b {
        start = from + 1;
    }
    let ghost digits = bytes@.subrange(start as int, to as int);
    let ghost chars = digits.map_values(|x: u8| x as char);
    assert(start > from ==> digits == b.subrange(1, b.len() as int));
    assert(start == from ==> digits == b);
    if start >= to {
        return None;
    }
    let mut n: i64 = 0;
    let mut i: usize = start;
    while i < to
        invariant
            start <= i <= to <= bytes@.len(),
            to - start <= 4,
            digits == bytes@.subrange(start as int, to as int),
            chars == digits.map_values(|x: u8| x as char),
            number::all_digits(chars.take(i - start)),
            n == number::value_of(chars.take(i - start)),
            i - start == 0 ==> n == 0,
            i - start == 1 ==> 0 <= n <= 9,
            i - start == 2 ==> 0 <= n <= 99,
            i - start == 3 ==> 0 <= n <= 999,
            i - start == 4 ==> 0 <= n <= 9999,
            b == bytes@.subrange(from as int, to as int),
            digits.len() > 0,
            digits == (if b.len() > 0 && (b[0] == 0x2b || b[0] == 0x2d) {
                b.subrange(1, b.len() as int)
            } else {
                b
            }),
        decreases to - i,
    {
        let c: u8 = bytes[i];
        assert(chars[i - start] == c as char);
        if c < 0x30 || c > 0x39 {
            assert(!number::is_digit(chars[i - start]));
            return None;
        }
        assert(chars.take(i - start + 1).drop_last() == chars.take(i - start));
        assert(chars.take(i - start + 1).last() == c as char);
        n = n * 10 + (c - 0x30) as i64;
        i += 1;
        assert forall|j: int| 0 <= j < i - start implies number::is_digit(
            #[trigger] chars.take(i - start)[j],
        ) by {
            if j < i - start - 1 {
                assert(chars.take(i - start - 1)[j] == chars[j]);
            }
        }
    }
    assert(chars.take(chars.len() as int) == chars);
    if negative {
        Some(-n)
    } else {
        Some(n)
    }
}

/// What `std::str::from_utf8` says of bytes that are no UTF-8.
pub uninterp spec fn utf8_error_text(bytes: Seq<u8>) -> Seq<char>;

/// Calls `std::str::from_utf8`: it accepts exactly the valid UTF-8 sequences;
/// the wording of its error is determined by the bytes and otherwise left
/// open.
#[verifier::external_body]
fn utf8_check(bytes: &[u8]) -> (r: Result<(), String>)
    ensures
        r is Ok == vstd::utf8::valid_utf8(bytes@),
        r matches Err(e) ==> e@ == utf8_error_text(bytes@),
{
    std::str::from_utf8(bytes).map(|_| ()).map_err(|e| e.to_string())
}

/// What reading a field that is no number gives.
pub open spec fn bad_digit() -> Seq<char> {
    "invalid digit found in string"@
}

/// A value fits the machine integer of a timestamp.
pub open spec fn fits(n: int) -> bool {
    i64::MIN <= n <= i64::MAX
}

/// The timestamp of the five two-digit fields that follow the year.
pub open spec fn time_in_year(year: int, rest: Seq<u8>) -> Result<int, Seq<char>> {
    match (
        field_value(rest.subrange(0, 2)),
        field_value(rest.subrange(2, 4)),
        field_value(rest.subrange(4, 6)),
        field_value(rest.subrange(6, 8)),
        field_value(rest.subrange(8, 10)),
    ) {
        (Some(month), Some(day), Some(hour), Some(min), Some(sec)) => Ok(
            clock::days_of(year, month, day) * 86400 + hour * 3600 + min * 60 + sec,
        ),
        _ => Err(bad_digit()),
    }
}

/// The timestamp of an ASN.1 time: a `UTCTime` (tag 0x17), whose two-digit
/// year stands for 1950 to 2049, or a `GeneralizedTime` (tag 0x18).
pub open spec fn time_of(b: Seq<u8>, tag: u8) -> Result<int, Seq<char>> {
    if !vstd::utf8::valid_utf8(b) {
        Err(utf8_error_text(b))
    } else if tag == 0x17 {
        if b.len() < 13 {
            Err("UTCTime too short"@)
        } else {
            match field_value(b.subrange(0, 2)) {
                Some(yy) => time_in_year(
                    if yy >= 50 {
                        1900 + yy
                    } else {
                        2000 + yy
                    },
                    b.subrange(2, b.len() as int),
                ),
                None => Err(bad_digit()),
            }
        }
    } else if tag == 0x18 {
        if b.len() < 15 {
            Err("GeneralizedTime too short"@)
        } else {
            match field_value(b.subrange(0, 4)) {
                Some(yyyy) => time_in_year(yyyy, b.subrange(4, b.len() as int)),
                None => Err(bad_digit()),
            }
        }
    } else {
        Err("Unexpected time tag 0x"@ + number::hex_of(seq![tag]))
    }
}

/// Days from 1970-01-01 to a date.
pub fn days_from_civil(year: i64, month: i64, day: i64) -> (r: i64)
    requires
        fits(clock::days_of(year as int, month as int, day as int)),
    ensures
        r == clock::days_of(year as int, month as int, day as int),
{
    let y: i128 = if month <= 2 {
        year as i128 - 1
    } else {
        year as i128
    };
    let mp: i128 = if month > 2 {
        month as i128 - 3
    } else {
        month as i128 + 9
    };
    let era: i128 = y.checked_div_euclid(400).unwrap();
    assert(era == y as int / 400);
    let yoe: i128 = y - era * 400;
    let numerator: i128 = 153 * mp + 2;
    let quotient: i128 = if numerator >= 0 {
        numerator / 5
    } else {
        -((-numerator) / 5)
    };
    assert(quotient == clock::trunc_div(153 * mp + 2, 5));
    let doy: i128 = quotient + day as i128 - 1;
    let doe: i128 = yoe * 365 + yoe / 4 - yoe / 100 + doy;
    (era * 146097 + doe - 719468) as i64
}

/// The timestamp of the five two-digit fields from `at` on.
fn parse_time_in_year(year: i64, bytes: &[u8], at: usize) -> (r: Result<i64, String>)
    requires
        -999 <= year <= 9999,
        at + 10 <= bytes@.len(),
        bytes@.len() <= usize::MAX,
    ensures
        (match r {
            Ok(t) => Ok(t as int),
            Err(e) => Err(e@),
        }) == time_in_year(year as int, bytes@.subrange(at as int, bytes@.len() as int)),
{
    let ghost rest = bytes@.subrange(at as int, bytes@.len() as int);
    assert(rest.subrange(0, 2) == bytes@.subrange(at as int, at + 2));
    assert(rest.subrange(2, 4) == bytes@.subrange(at + 2, at + 4));
    assert(rest.subrange(4, 6) == bytes@.subrange(at + 4, at + 6));
    assert(rest.subrange(6, 8) == bytes@.subrange(at + 6, at + 8));
    assert(rest.subrange(8, 10) == bytes@.subrange(at + 8, at + 10));
    let month = parse_field(bytes, at, at + 2);
    let day = parse_field(bytes, at + 2, at + 4);
    let hour = parse_field(bytes, at + 4, at + 6);
    let min = parse_field(bytes, at + 6, at + 8);
    let sec = parse_field(bytes, at + 8, at + 10);
    match (month, day, hour, min, sec) {
        (Some(month), Some(day), Some(hour), Some(min), Some(sec)) => {
            proof {
                let y = if month <= 2 {
                    year - 1
                } else {
                    year as int
                };
                let era = y / 400;
                assert(-4 <= era <= 25);
                assert(-2_000_000 <= clock::days_of(year as int, month as int, day as int)
                    <= 10_000_000);
            }
            let days: i64 = days_from_civil(year, month, day);
            Ok(days * 86400 + hour * 3600 + min * 60 + sec)
        },
        _ => Err("invalid digit found in string".to_owned()),
    }
}

/// Reads an ASN.1 time as a Unix timestamp.
///
/// A text whose fields are not plain decimal digits is refused, a text with
/// characters beyond ASCII among them.
pub fn parse_time(bytes: &[u8], tag: u8) -> (r: Result<i64, String>)
    ensures
        (match r {
            Ok(t) => Ok(t as int),
            Err(e) => Err(e@),
        }) == time_of(bytes@, tag),
{
    if let Err(e) = utf8_check(bytes) {
        return Err(e);
    }
    if tag == 0x17 {
        if bytes.len() < 13 {
            return Err("UTCTime too short".to_owned());
        }
        match parse_field(bytes, 0, 2) {
            Some(yy) => parse_time_in_year(
                if yy >= 50 {
                    1900 + yy
                } else {
                    2000 + yy
                },
                bytes,
                2,
            ),
            None => Err("invalid digit found in string".to_owned()),
        }
    } else if tag == 0x18 {
        if bytes.len() < 15 {
            return Err("GeneralizedTime too short".to_owned());
        }
        match parse_field(bytes, 0, 4) {
            Some(yyyy) => {
                assert(yyyy >= -999) by {
                    let b = bytes@.subrange(0, 4);
                    if b[0] == 0x2d {
                        let digits = b.subrange(1, 4);
                        let chars = digits.map_values(|x: u8| x as char);
                        three_digits(chars);
                    }
                }
                parse_time_in_year(yyyy, bytes, 4)
            },
            None => Err("invalid digit found in string".to_owned()),
        }
    } else {
        let mut e = "Unexpected time tag 0x".to_owned();
        let tag_bytes: [u8; 1] = [tag];
        let hex = number::hex_string(&tag_bytes);
        e.append(hex.as_str());
        assert(tag_bytes@ == seq![tag]);
        Err(e)
    }
}

/// Three digits name a number below a thousand.
proof fn three_digits(s: Seq<char>)
    requires
        s.len() == 3,
        number::all_digits(s),
    ensures
        number::value_of(s) <= 999,
{
    reveal_with_fuel(number::value_of, 4);
    assert(number::is_digit(s[0]));
    assert(number::is_digit(s[1]));
    assert(number::is_digit(s[2]));
    assert(s.drop_last().last() == s[1]);
    assert(s.drop_last().drop_last().last() == s[0]);
}

/// Opens an element that must have the given tag.
pub open spec fn expect(b: Seq<u8>, tag: u8, otherwise: Seq<char>) -> Result<
    (Seq<u8>, Seq<u8>),
    Seq<char>,
> {
    match tlv(b) {
        Err(e) => Err(e),
        Ok((t, value, rest)) => if t != tag {
            Err(otherwise)
        } else {
            Ok((value, rest))
        },
    }
}

/// The two times of a validity period.
pub open spec fn period_of(b: Seq<u8>) -> Result<(int, int), Seq<char>> {
    match tlv(b) {
        Err(e) => Err(e),
        Ok((tag1, nb, rest)) => match tlv(rest) {
            Err(e) => Err(e),
            Ok((tag2, na, _)) => match time_of(nb, tag1) {
                Err(e) => Err(e),
                Ok(not_before) => match time_of(na, tag2) {
                    Err(e) => Err(e),
                    Ok(not_after) => Ok((not_before, not_after)),
                },
            },
        },
    }
}

/// The validity of the fields of a certificate from its serial number on.
pub open spec fn validity_from_serial(b: Seq<u8>) -> Result<(int, int), Seq<char>> {
    match expect(b, 0x02, "Expected serialNumber INTEGER"@) {
        Err(e) => Err(e),
        Ok((_, rest)) => match expect(rest, 0x30, "Expected signature AlgorithmIdentifier"@) {
            Err(e) => Err(e),
            Ok((_, rest)) => match expect(rest, 0x30, "Expected issuer Name"@) {
                Err(e) => Err(e),
                Ok((_, rest)) => match expect(rest, 0x30, "Expected validity SEQUENCE"@) {
                    Err(e) => Err(e),
                    Ok((validity, _)) => period_of(validity),
                },
            },
        },
    }
}

/// The validity of a DER certificate: the signed part of the outer sequence,
/// past an optional version.
pub open spec fn validity_of(der: Seq<u8>) -> Result<(int, int), Seq<char>> {
    match expect(der, 0x30, "Certificate is not a SEQUENCE"@) {
        Err(e) => Err(e),
        Ok((cert, _)) => match expect(cert, 0x30, "TBSCertificate is not a SEQUENCE"@) {
            Err(e) => Err(e),
            Ok((tbs, _)) => match tlv(tbs) {
                Err(e) => Err(e),
                Ok((tag, _, rest)) => validity_from_serial(
                    if tag == 0xa0 {
                        rest
                    } else {
                        tbs
                    },
                ),
            },
        },
    }
}

/// The views of a validity that was read.
pub open spec fn period(r: Result<(i64, i64), String>) -> Result<(int, int), Seq<char>> {
    match r {
        Ok((a, b)) => Ok((a as int, b as int)),
        Err(e) => Err(e@),
    }
}

fn parse_period(bytes: &[u8]) -> (r: Result<(i64, i64), String>)
    ensures
        period(r) == period_of(bytes@),
{
    let (tag1, nb, rest) = match read_tlv(bytes) {
        Ok(x) => x,
        Err(e) => return Err(e),
    };
    let (tag2, na, _) = match read_tlv(rest) {
        Ok(x) => x,
        Err(e) => return Err(e),
    };
    let not_before: i64 = match parse_time(nb, tag1) {
        Ok(t) => t,
        Err(e) => return Err(e),
    };
    let not_after: i64 = match parse_time(na, tag2) {
        Ok(t) => t,
        Err(e) => return Err(e),
    };
    Ok((not_before, not_after))
}

fn expect_tag<'a>(bytes: &'a [u8], tag: u8, otherwise: &str) -> (r: Result<
    (&'a [u8], &'a [u8]),
    String,
>)
    ensures
        (match r {
            Ok((v, rest)) => Ok((v@, rest@)),
            Err(e) => Err(e@),
        }) == expect(bytes@, tag, otherwise@),
{
    match read_tlv(bytes) {
        Ok((t, value, rest)) => if t != tag {
            Err(otherwise.to_owned())
        } else {
            Ok((value, rest))
        },
        Err(e) => Err(e),
    }
}

/// Extracts the `not_before` and `not_after` Unix timestamps from an X.509
/// certificate in DER.
pub fn parse_cert_validity(cert_der: &[u8]) -> (r: Result<(i64, i64), String>)
    ensures
        period(r) == validity_of(cert_der@),
{
    let (cert, _) = match expect_tag(cert_der, 0x30, "Certificate is not a SEQUENCE") {
        Ok(x) => x,
        Err(e) => return Err(e),
    };
    let (tbs, _) = match expect_tag(cert, 0x30, "TBSCertificate is not a SEQUENCE") {
        Ok(x) => x,
        Err(e) => return Err(e),
    };
    let (tag, _, past_version) = match read_tlv(tbs) {
        Ok(x) => x,
        Err(e) => return Err(e),
    };
    let fields = if tag == 0xa0 {
        past_version
    } else {
        tbs
    };
    let (_, rest) = match expect_tag(fields, 0x02, "Expected serialNumber INTEGER") {
        Ok(x) => x,
        Err(e) => return Err(e),
    };
    let (_, rest) = match expect_tag(rest, 0x30, "Expected signature AlgorithmIdentifier") {
        Ok(x) => x,
        Err(e) => return Err(e),
    };
    let (_, rest) = match expect_tag(rest, 0x30, "Expected issuer Name") {
        Ok(x) => x,
        Err(e) => return Err(e),
    };
    let (validity, _) = match expect_tag(rest, 0x30, "Expected validity SEQUENCE") {
        Ok(x) => x,
        Err(e) => return Err(e),
    };
    parse_period(validity)
}

/// An element that was read lies within the encoding, and what follows it is
/// shorter: reading on always ends.
pub proof fn reading_advances(b: Seq<u8>)
    requires
        tlv(b) is Ok,
    ensures
        ({
            let (tag, value, rest) = tlv(b)->Ok_0;
            &&& tag == b[0]
            &&& value.len() + rest.len() + 2 <= b.len()
            &&& rest == b.subrange(b.len() - rest.len(), b.len() as int)
            &&& value == b.subrange(
                b.len() - rest.len() - value.len(),
                b.len() - rest.len(),
            )
        }),
{
}

/// An element with a short length reads back as it was put together, whatever
/// follows it.
pub proof fn short_element_reads_back(tag: u8, value: Seq<u8>, rest: Seq<u8>)
    requires
        value.len() < 0x80,
    ensures
        tlv(seq![tag, value.len() as u8] + value + rest) == Ok::<_, Seq<char>>((tag, value, rest)),
{
    let b = seq![tag, value.len() as u8] + value + rest;
    assert(b[1] == value.len());
    assert(b.subrange(2, 2 + value.len() as int) == value);
    assert(b.subrange(2 + value.len() as int, b.len() as int) == rest);
}

/// The digits of a text, in order.
pub open spec fn digits_in(s: Seq<char>) -> Seq<char> {
    s.filter(|c: char| number::is_digit(c))
}

/// The GeneralizedTime of a timestamp: the digits of its date and time, in order,
/// and `Z`.
pub open spec fn generalized_time(ts: int) -> Seq<char> {
    digits_in(clock::timestamp_text(ts)) + "Z"@
}

/// Digits at the end stay.
proof fn digits_stay(s: Seq<char>, field: Seq<char>)
    requires
        number::all_digits(field),
    ensures
        digits_in(s + field) == digits_in(s) + field,
    decreases field.len(),
{
    reveal(Seq::filter);
    if field.len() > 0 {
        let rest = field.drop_last();
        assert(number::is_digit(field.last()));
        assert forall|i: int| 0 <= i < rest.len() implies number::is_digit(#[trigger] rest[i]) by {
            assert(rest[i] == field[i]);
        }
        digits_stay(s, rest);
        assert((s + field).drop_last() =~= s + rest);
        assert((digits_in(s) + rest).push(field.last()) =~= digits_in(s) + field);
    } else {
        assert(s + field =~= s);
        assert(digits_in(s) + field =~= digits_in(s));
    }
}

/// What is no digit goes.
proof fn separators_go(s: Seq<char>, separator: Seq<char>)
    requires
        forall|i: int| 0 <= i < separator.len() ==> !number::is_digit(#[trigger] separator[i]),
    ensures
        digits_in(s + separator) == digits_in(s),
    decreases separator.len(),
{
    reveal(Seq::filter);
    if separator.len() > 0 {
        let rest = separator.drop_last();
        assert forall|i: int| 0 <= i < rest.len() implies !number::is_digit(
            #[trigger] rest[i],
        ) by {
            assert(rest[i] == separator[i]);
        }
        assert(!number::is_digit(separator.last()));
        separators_go(s, rest);
        assert((s + separator).drop_last() =~= s + rest);
    } else {
        assert(s + separator =~= s);
    }
}

/// The digits of a date and a time.
proof fn digits_of_fields(
    f0: Seq<char>,
    f1: Seq<char>,
    f2: Seq<char>,
    f3: Seq<char>,
    f4: Seq<char>,
    f5: Seq<char>,
)
    requires
        number::all_digits(f0),
        number::all_digits(f1),
        number::all_digits(f2),
        number::all_digits(f3),
        number::all_digits(f4),
        number::all_digits(f5),
    ensures
        digits_in(
            f0 + "-"@ + f1 + "-"@ + f2 + " "@ + f3 + ":"@ + f4 + ":"@ + f5 + " UTC"@,
        ) == f0 + f1 + f2 + f3 + f4 + f5,
{
    reveal_strlit("-");
    reveal_strlit(" ");
    reveal_strlit(":");
    reveal_strlit(" UTC");
    let none = Seq::<char>::empty();
    assert(digits_in(none) =~= none) by {
        reveal(Seq::filter);
    }
    assert(none + f0 =~= f0);
    digits_stay(none, f0);
    let s = f0;
    separators_go(s, "-"@);
    let s = s + "-"@;
    digits_stay(s, f1);
    let s = s + f1;
    separators_go(s, "-"@);
    let s = s + "-"@;
    digits_stay(s, f2);
    let s = s + f2;
    separators_go(s, " "@);
    let s = s + " "@;
    digits_stay(s, f3);
    let s = s + f3;
    separators_go(s, ":"@);
    let s = s + ":"@;
    digits_stay(s, f4);
    let s = s + f4;
    separators_go(s, ":"@);
    let s = s + ":"@;
    digits_stay(s, f5);
    separators_go(s + f5, " UTC"@);
}

/// A digit is the byte of its code.
proof fn digit_byte(c: char)
    requires
        number::is_digit(c),
    ensures
        0x30 <= c as u8 <= 0x39,
        (c as u8) as char == c,
        c as u32 <= 0x7f,
{
}

/// A field of digits reads as the number it names.
proof fn field_reads_back(b: Seq<u8>, field: Seq<char>)
    requires
        field.len() > 0,
        number::all_digits(field),
        b == field.map_values(|c: char| c as u8),
    ensures
        field_value(b) == Some(number::value_of(field) as int),
{
    assert forall|i: int| 0 <= i < field.len() implies b[i] as char == #[trigger] field[i]
        && 0x30 <= b[i] <= 0x39 by {
        digit_byte(field[i]);
    }
    assert(b[0] as char == field[0]);
    assert(b.map_values(|x: u8| x as char) =~= field);
}

/// A GeneralizedTime is read field by field.
proof fn fields_read_back(
    f0: Seq<char>,
    f1: Seq<char>,
    f2: Seq<char>,
    f3: Seq<char>,
    f4: Seq<char>,
    f5: Seq<char>,
)
    requires
        f0.len() == 4 && number::all_digits(f0),
        f1.len() == 2 && number::all_digits(f1),
        f2.len() == 2 && number::all_digits(f2),
        f3.len() == 2 && number::all_digits(f3),
        f4.len() == 2 && number::all_digits(f4),
        f5.len() == 2 && number::all_digits(f5),
    ensures
        time_of(vstd::utf8::encode_utf8(f0 + f1 + f2 + f3 + f4 + f5 + "Z"@), 0x18) == Ok::<
            int,
            Seq<char>,
        >(
            clock::days_of(
                number::value_of(f0) as int,
                number::value_of(f1) as int,
                number::value_of(f2) as int,
            ) * 86400 + number::value_of(f3) * 3600 + number::value_of(f4) * 60 + number::value_of(
                f5,
            ),
        ),
{
    let s = f0 + f1 + f2 + f3 + f4 + f5 + "Z"@;
    reveal_strlit("Z");
    assert forall|i: int| 0 <= i < s.len() implies (#[trigger] s[i]) as u32 <= 0x7f by {
        if i < 4 {
            digit_byte(f0[i]);
        } else if i < 6 {
            digit_byte(f1[i - 4]);
        } else if i < 8 {
            digit_byte(f2[i - 6]);
        } else if i < 10 {
            digit_byte(f3[i - 8]);
        } else if i < 12 {
            digit_byte(f4[i - 10]);
        } else if i < 14 {
            digit_byte(f5[i - 12]);
        }
    }
    crate::text::ascii_encodes_itself(s);
    vstd::utf8::encode_utf8_valid_utf8(s);
    let b = vstd::utf8::encode_utf8(s);
    let code = |c: char| c as u8;
    assert(b.subrange(0, 4) =~= f0.map_values(code));
    field_reads_back(b.subrange(0, 4), f0);
    let rest = b.subrange(4, b.len() as int);
    assert(rest.subrange(0, 2) =~= f1.map_values(code));
    field_reads_back(rest.subrange(0, 2), f1);
    assert(rest.subrange(2, 4) =~= f2.map_values(code));
    field_reads_back(rest.subrange(2, 4), f2);
    assert(rest.subrange(4, 6) =~= f3.map_values(code));
    field_reads_back(rest.subrange(4, 6), f3);
    assert(rest.subrange(6, 8) =~= f4.map_values(code));
    field_reads_back(rest.subrange(6, 8), f4);
    assert(rest.subrange(8, 10) =~= f5.map_values(code));
    field_reads_back(rest.subrange(8, 10), f5);
}

/// Until the year ten thousand a year has four digits.
proof fn years_have_four_digits(days: int)
    requires
        0 <= days < 2932897,
    ensures
        1 <= clock::date_of(days).0 <= 9999,
{
    let z = days + 719468;
    let era = z / 146097;
    let doe = z - era * 146097;
    assert(4 <= era <= 24);
    let yoe = (doe - doe / 1460 + doe / 36524 - doe / 146096) / 365;
    assert(0 <= yoe <= 399);
    let doy = doe - (365 * yoe + yoe / 4 - yoe / 100);
    let mp = (5 * doy + 2) / 153;
    if era == 24 && yoe == 399 && mp >= 10 {
        assert(doy >= 306);
        assert(doe == 145731 + doy);
    }
}

/// Reading a GeneralizedTime undoes the formatting of a timestamp, for every
/// second from 1970 to 9999.
pub proof fn reading_undoes_formatting(ts: int)
    requires
        0 <= ts < 253402300800,
    ensures
        time_of(vstd::utf8::encode_utf8(generalized_time(ts)), 0x18) == Ok::<int, Seq<char>>(ts),
{
    let secs = ts % 86400;
    let (y, m, d) = clock::date_of(ts / 86400);
    clock::date_names_the_day(ts / 86400);
    years_have_four_digits(ts / 86400);
    number::padded_names_the_number(y, 4);
    number::padded_names_the_number(m, 2);
    number::padded_names_the_number(d, 2);
    number::padded_names_the_number(secs / 3600, 2);
    number::padded_names_the_number(secs % 3600 / 60, 2);
    number::padded_names_the_number(secs % 60, 2);
    let f0 = number::padded(y, 4);
    let f1 = number::padded(m, 2);
    let f2 = number::padded(d, 2);
    let f3 = number::padded(secs / 3600, 2);
    let f4 = number::padded(secs % 3600 / 60, 2);
    let f5 = number::padded(secs % 60, 2);
    digits_of_fields(f0, f1, f2, f3, f4, f5);
    fields_read_back(f0, f1, f2, f3, f4, f5);
}

} // verus!
