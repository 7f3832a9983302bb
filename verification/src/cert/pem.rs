//! Certificate chains in PEM.
use rustls::pki_types::pem::PemObject;
use rustls::pki_types::CertificateDer;
use vstd::prelude::*;

use super::validity;

verus! {

/// The certificate sections of a PEM text in order: the DER contents of each,
/// or why it could not be decoded.
pub uninterp spec fn pem_sections(pem: Seq<u8>) -> Seq<Result<Seq<u8>, Seq<char>>>;

/// The views of decoded sections.
pub open spec fn sections(v: Seq<Result<Vec<u8>, String>>) -> Seq<Result<Seq<u8>, Seq<char>>> {
    v.map_values(
        |r: Result<Vec<u8>, String>|
            match r {
                Ok(der) => Ok(der@),
                Err(e) => Err(e@),
            },
    )
}

/// Calls `CertificateDer::pem_slice_iter` of `rustls::pki_types` and hands out
/// what it yields: for each certificate section of the text its DER contents,
/// or the error's text.
#[verifier::external_body]
fn certificate_sections(pem: &[u8]) -> (r: Vec<Result<Vec<u8>, String>>)
    ensures
        sections(r@) == pem_sections(pem@),
{
    CertificateDer::pem_slice_iter(pem)
        .map(|item| match item {
            Ok(der) => Ok(der.as_ref().to_vec()),
            Err(e) => Err(e.to_string()),
        })
        .collect()
}

/// The number of leading sections that could be decoded.
pub open spec fn good_sections(s: Seq<Result<Seq<u8>, Seq<char>>>) -> int
    decreases s.len(),
{
    if s.len() == 0 || s[0] is Err {
        0
    } else {
        1 + good_sections(s.subrange(1, s.len() as int))
    }
}

/// The DER certificates of a chain, if every section decodes and there is one.
pub open spec fn chain_of(s: Seq<Result<Seq<u8>, Seq<char>>>) -> Result<Seq<Seq<u8>>, Seq<char>> {
    let n = good_sections(s);
    if n < s.len() {
        Err(s[n]->Err_0)
    } else if n == 0 {
        Err("No certificates found in cert_pem"@)
    } else {
        Ok(s.map_values(|r: Result<Seq<u8>, Seq<char>>| r->Ok_0))
    }
}

proof fn good_sections_of_prefix(s: Seq<Result<Seq<u8>, Seq<char>>>, n: int)
    requires
        0 <= n <= s.len(),
        forall|i: int| 0 <= i < n ==> s[i] is Ok,
        n < s.len() ==> s[n] is Err,
    ensures
        good_sections(s) == n,
    decreases n,
{
    if n > 0 {
        good_sections_of_prefix(s.subrange(1, s.len() as int), n - 1);
    }
}

/// The DER contents of a list of byte strings.
pub open spec fn ders(v: Seq<Vec<u8>>) -> Seq<Seq<u8>> {
    v.map_values(|d: Vec<u8>| d@)
}

/// Gathers the certificates of a chain from its decoded sections.
pub fn gather_chain(items: Vec<Result<Vec<u8>, String>>) -> (r: Result<Vec<Vec<u8>>, String>)
    ensures
        (match r {
            Ok(v) => Ok(ders(v@)),
            Err(e) => Err(e@),
        }) == chain_of(sections(items@)),
{
    let ghost s = sections(items@);
    let mut chain: Vec<Vec<u8>> = Vec::new();
    let mut i: usize = 0;
    while i < items.len()
        invariant
            i <= items@.len(),
            s == sections(items@),
            forall|j: int| 0 <= j < i ==> s[j] is Ok,
            chain@.len() == i,
            forall|j: int| 0 <= j < i ==> #[trigger] chain@[j]@ == s[j]->Ok_0,
        decreases items@.len() - i,
    {
        match &items[i] {
            Ok(der) => {
                let mut copy: Vec<u8> = Vec::new();
                let mut j: usize = 0;
                while j < der.len()
                    invariant
                        j <= der@.len(),
                        copy@ == der@.take(j as int),
                    decreases der@.len() - j,
                {
                    copy.push(der[j]);
                    j += 1;
                    assert(copy@ == der@.take(j as int));
                }
                assert(der@.take(der@.len() as int) == der@);
                assert(s[i as int] == Ok::<Seq<u8>, Seq<char>>(der@));
                chain.push(copy);
            },
            Err(e) => {
                assert(s[i as int] == Err::<Seq<u8>, Seq<char>>(e@));
                proof {
                    good_sections_of_prefix(s, i as int);
                }
                return Err(e.clone());
            },
        }
        i += 1;
    }
    proof {
        good_sections_of_prefix(s, i as int);
    }
    if chain.len() == 0 {
        return Err("No certificates found in cert_pem".to_owned());
    }
    assert(ders(chain@) =~= s.map_values(|r: Result<Seq<u8>, Seq<char>>| r->Ok_0));
    Ok(chain)
}

/// Decodes a PEM certificate chain into its DER certificates.
pub fn certificate_chain(cert_pem: &str) -> (r: Result<Vec<Vec<u8>>, String>)
    ensures
        (match r {
            Ok(v) => Ok(ders(v@)),
            Err(e) => Err(e@),
        }) == chain_of(pem_sections(vstd::utf8::encode_utf8(cert_pem@))),
{
    gather_chain(certificate_sections(cert_pem.as_bytes()))
}

/// The validity of the first certificate of a chain, or why it has none.
pub open spec fn leaf_validity(s: Seq<Result<Seq<u8>, Seq<char>>>) -> Result<
    (int, int),
    Seq<char>,
> {
    if s.len() == 0 {
        Err("Empty certificate chain returned"@)
    } else {
        match s[0] {
            Err(e) => Err("Invalid certificate DER: "@ + e),
            Ok(der) => match validity::validity_of(der) {
                Err(e) => Err("Failed to parse validity: "@ + e),
                Ok(p) => Ok(p),
            },
        }
    }
}

/// The validity of the first of the decoded sections of a chain.
pub fn validity_of_sections(items: &Vec<Result<Vec<u8>, String>>) -> (r: Result<
    (i64, i64),
    String,
>)
    ensures
        validity::period(r) == leaf_validity(sections(items@)),
{
    let ghost s = sections(items@);
    if items.len() == 0 {
        return Err("Empty certificate chain returned".to_owned());
    }
    assert(s[0] == (match items@[0] {
        Ok(der) => Ok::<Seq<u8>, Seq<char>>(der@),
        Err(e) => Err(e@),
    }));
    match &items[0] {
        Err(e) => {
            let mut m = "Invalid certificate DER: ".to_owned();
            m.append(e.as_str());
            Err(m)
        },
        Ok(der) => match validity::parse_cert_validity(der.as_slice()) {
            Err(e) => {
                let mut m = "Failed to parse validity: ".to_owned();
                m.append(e.as_str());
                Err(m)
            },
            Ok(p) => Ok(p),
        },
    }
}

/// The validity of the first certificate of a PEM chain.
pub fn chain_validity(cert_pem: &str) -> (r: Result<(i64, i64), String>)
    ensures
        validity::period(r) == leaf_validity(pem_sections(vstd::utf8::encode_utf8(cert_pem@))),
{
    let items = certificate_sections(cert_pem.as_bytes());
    validity_of_sections(&items)
}

} // verus!
