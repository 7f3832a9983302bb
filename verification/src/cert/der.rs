//! The DER of the names that a certificate or a signing request is for.
use crate::net::{ip_octets, is_ip_text};
use vstd::prelude::*;

verus! {

/// The bytes stand somewhere in the others.
pub open spec fn bytes_within(part: Seq<u8>, whole: Seq<u8>) -> bool {
    exists|at: int|
        0 <= at && at + part.len() <= whole.len() && #[trigger] whole.subrange(
            at,
            at + part.len(),
        ) == part
}

/// A number in base 256, the highest byte first, without leading zeros.
pub open spec fn big_endian(n: nat) -> Seq<u8>
    decreases n,
{
    if n < 256 {
        seq![n as u8]
    } else {
        big_endian(n / 256).push((n % 256) as u8)
    }
}

/// A length: one byte below 128, and otherwise the number of its bytes before them.
pub open spec fn der_length(n: nat) -> Seq<u8> {
    if n < 128 {
        seq![n as u8]
    } else {
        seq![(0x80 + big_endian(n).len()) as u8] + big_endian(n)
    }
}

/// A value with its tag and its length.
pub open spec fn element(tag: u8, content: Seq<u8>) -> Seq<u8> {
    seq![tag] + der_length(content.len()) + content
}

/// A text of ASCII characters.
pub open spec fn is_ascii_text(s: Seq<char>) -> bool {
    forall|i: int| 0 <= i < s.len() ==> #[trigger] s[i] as u32 <= 0x7f
}

/// A certificate can be made for the name: an IP address, or an ASCII text.
pub open spec fn is_nameable(name: Seq<char>) -> bool {
    is_ip_text(name) || is_ascii_text(name)
}

/// A name of a certificate, a `GeneralName`: `iPAddress` with the octets of an IP
/// address, and `dNSName` with the text of any other name.
pub open spec fn general_name(name: Seq<char>) -> Seq<u8> {
    if is_ip_text(name) {
        element(0x87, ip_octets(name))
    } else {
        element(0x82, vstd::utf8::encode_utf8(name))
    }
}

/// The names of a certificate one after another.
pub open spec fn general_names(names: Seq<Seq<char>>) -> Seq<u8>
    decreases names.len(),
{
    if names.len() == 0 {
        seq![]
    } else {
        general_names(names.drop_last()) + general_name(names.last())
    }
}

/// The extension `subjectAltName` (2.5.29.17) for these names and no others: its
/// identifier, the flag where it is critical, and the list of the names.
pub open spec fn alt_names(critical: bool, names: Seq<Seq<char>>) -> Seq<u8> {
    element(
        0x30,
        seq![0x06u8, 0x03, 0x55, 0x1d, 0x11] + (if critical {
            seq![0x01u8, 0x01, 0xff]
        } else {
            seq![]
        }) + element(0x04, element(0x30, general_names(names))),
    )
}

/// A certificate is for these names, in this order, and no others: each of them is
/// one that it can be made for, and their extension stands in it byte for byte.
/// A certificate has a subject besides, so the extension is not critical.
pub open spec fn is_for(cert: Seq<u8>, names: Seq<Seq<char>>) -> bool {
    &&& forall|i: int| 0 <= i < names.len() ==> is_nameable(#[trigger] names[i])
    &&& bytes_within(alt_names(false, names), cert)
}

/// A signing request is for this name and no other. It has no subject besides, so
/// the extension is critical.
pub open spec fn requests(csr: Seq<u8>, name: Seq<char>) -> bool {
    is_nameable(name) && bytes_within(alt_names(true, seq![name]), csr)
}

} // verus!
