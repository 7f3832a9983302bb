//! Certificates with their keys, as the TLS server presents them.
use super::challenge::{acme_identifier, acme_identifier_oid, tls_alpn_01_extension};
use super::der::{bytes_within, is_for, is_nameable};
use super::pem::{certificate_chain, chain_of, ders, pem_sections};
use crate::digest::sha256;
use rcgen::{CertificateParams, CustomExtension, KeyPair, PKCS_ECDSA_P256_SHA256};
use rustls::pki_types::pem::PemObject;
use rustls::pki_types::{CertificateDer, PrivateKeyDer};
use rustls::sign::CertifiedKey;
use std::sync::Arc;
use vstd::prelude::*;

verus! {

/// `rustls::sign::CertifiedKey`, a certificate chain and the key to it.
#[verifier::external_type_specification]
#[verifier::external_body]
pub struct ExCertifiedKey(rustls::sign::CertifiedKey);

/// The DER certificates in the field `cert` of a `rustls::sign::CertifiedKey`.
pub uninterp spec fn served_chain(key: rustls::sign::CertifiedKey) -> Seq<Seq<u8>>;

/// `rustls::pki_types::PrivateKeyDer`, a private key as DER.
#[verifier::external_type_specification]
#[verifier::external_body]
pub struct ExPrivateKeyDer<'a>(rustls::pki_types::PrivateKeyDer<'a>);

/// The DER bytes of a `PrivateKeyDer`, which `secret_der` gives.
pub uninterp spec fn secret(key: rustls::pki_types::PrivateKeyDer<'static>) -> Seq<u8>;

/// The DER bytes of the private key that `PrivateKeyDer::from_pem_slice` reads in
/// a PEM text.
pub uninterp spec fn key_in(pem: Seq<u8>) -> Seq<u8>;

/// The public key, as SubjectPublicKeyInfo, that the field `key` of a
/// `rustls::sign::CertifiedKey` signs for: what its `public_key` gives.
pub uninterp spec fn signer_public(key: rustls::sign::CertifiedKey) -> Option<Seq<u8>>;

/// The public key, as SubjectPublicKeyInfo, of a private key in DER, as the
/// signing keys of `rustls::crypto::ring` tell it by `public_key`.
pub uninterp spec fn public_half(der: Seq<u8>) -> Option<Seq<u8>>;

/// Why `PrivateKeyDer::from_pem_slice` finds no private key in a PEM text, in its
/// words.
pub uninterp spec fn key_text_problem(pem: Seq<u8>) -> Option<Seq<char>>;

/// Reads a private key with `PrivateKeyDer::from_pem_slice` of
/// `rustls::pki_types`: whether there is one, and which, depends on the text
/// alone.
#[verifier::external_body]
fn read_key(key_pem: &str) -> (r: Result<PrivateKeyDer<'static>, String>)
    ensures
        match key_text_problem(vstd::utf8::encode_utf8(key_pem@)) {
            Some(why) => r matches Err(e) && e@ == why,
            None => r matches Ok(der) && secret(der) == key_in(vstd::utf8::encode_utf8(key_pem@)),
        },
{
    PrivateKeyDer::from_pem_slice(key_pem.as_bytes()).map_err(|e| e.to_string())
}

/// Makes a signing key of a private key with `any_supported_type` of
/// `rustls::crypto::ring::sign`, and joins it with the chain by
/// `CertifiedKey::new`: it signs for the public half of that private key. An
/// elliptic-curve key takes random bytes to make, so nothing is claimed of when
/// that works.
#[verifier::external_body]
fn signing_key(chain: Vec<Vec<u8>>, der: PrivateKeyDer<'static>) -> (r: Result<
    CertifiedKey,
    String,
>)
    ensures
        r matches Ok(key) ==> served_chain(key) == ders(chain@),
        r matches Ok(key) ==> signer_public(key) == public_half(secret(der)),
{
    let key = rustls::crypto::ring::sign::any_supported_type(&der).map_err(|e| e.to_string())?;
    let chain = chain.into_iter().map(CertificateDer::from).collect();
    Ok(CertifiedKey::new(chain, key))
}

/// What reading a certificate chain and a key gives: the chain, or why not.
pub open spec fn read_pair(cert_pem: Seq<char>, key_pem: Seq<char>) -> Result<
    Seq<Seq<u8>>,
    Seq<char>,
> {
    match chain_of(pem_sections(vstd::utf8::encode_utf8(cert_pem))) {
        Err(why) => Err(why),
        Ok(chain) => match key_text_problem(vstd::utf8::encode_utf8(key_pem)) {
            Some(why) => Err(why),
            None => Ok(chain),
        },
    }
}

/// The certificate with its key, from what became of the texts and then of the
/// signing key.
pub fn served_key(made: Result<Result<CertifiedKey, String>, String>) -> (r: Result<
    Arc<CertifiedKey>,
    String,
>)
    ensures
        match made {
            Ok(Ok(key)) => r matches Ok(shared) && *shared == key,
            Ok(Err(why)) => r == Err::<Arc<CertifiedKey>, _>(why),
            Err(why) => r == Err::<Arc<CertifiedKey>, _>(why),
        },
{
    match made {
        Ok(Ok(key)) => Ok(Arc::new(key)),
        Ok(Err(why)) => Err(why),
        Err(why) => Err(why),
    }
}

/// Helper to parse PEM certificate chain and private key into an `Arc<CertifiedKey>`.
///
/// Texts that cannot be read are refused with the reason. Whether a signing key
/// can be made of a key that was read is up to the random source of the system.
pub fn parse_certified_key(cert_pem: &str, key_pem: &str) -> (r: Result<Arc<CertifiedKey>, String>)
    ensures
        match read_pair(cert_pem@, key_pem@) {
            Ok(chain) => r matches Ok(key) ==> served_chain(*key) == chain && signer_public(*key)
                == public_half(key_in(vstd::utf8::encode_utf8(key_pem@))),
            Err(why) => r matches Err(e) && e@ == why,
        },
{
    let made = match certificate_chain(cert_pem) {
        Ok(chain) => match read_key(key_pem) {
            Ok(der) => Ok(signing_key(chain, der)),
            Err(e) => Err(e),
        },
        Err(e) => Err(e),
    };
    served_key(made)
}

/// The certificate holds the public half of the private key, so that who has the
/// key can answer for the certificate.
pub open spec fn belongs_to(cert: Seq<u8>, key_der: Seq<u8>) -> bool {
    public_half(key_der) matches Some(public) && bytes_within(public, cert)
}

/// The DER of the extension `id-pe-acmeIdentifier` from its identifier on: the
/// flag where it is critical, and the value of 34 bytes.
pub open spec fn acme_extension(critical: bool, value: Seq<u8>) -> Seq<u8> {
    seq![0x06u8, 0x08, 0x2b, 0x06, 0x01, 0x05, 0x05, 0x07, 0x01, 0x1f] + (if critical {
        seq![0x01u8, 0x01, 0xff]
    } else {
        seq![]
    }) + seq![0x04u8, 0x22] + value
}

/// Makes a self-signed certificate with `rcgen`: `CertificateParams::new` for the
/// host, a `CustomExtension` with the identifier, the flag and the value,
/// `KeyPair::generate_for`, and `CertificateParams::self_signed`. Returns the
/// certificate and its key, both as DER. The key is random. What holds of every
/// certificate is that the extension stands in it byte for byte, that it is for
/// the host and no other name, which has to be an IP address or ASCII, and that it
/// holds the public half of the key. How the rest is encoded is not stated, nor when
/// the key can be made.
#[verifier::external_body]
fn challenge_certificate(host: &str, oid: Vec<u64>, critical: bool, value: Vec<u8>) -> (r: Result<
    (Vec<u8>, Vec<u8>),
    rcgen::Error,
>)
    requires
        oid@ == seq![1u64, 3, 6, 1, 5, 5, 7, 1, 31],
        value@.len() == 34 && value@[0] == 0x04 && value@[1] == 0x20,
    ensures
        r matches Ok(made) ==> bytes_within(acme_extension(critical, value@), made.0@),
        r matches Ok(made) ==> is_for(made.0@, seq![host@]),
        r matches Ok(made) ==> belongs_to(made.0@, made.1@),
{
    let mut params = CertificateParams::new(vec![host.to_string()])?;
    let mut extension = CustomExtension::from_oid_content(&oid, value);
    extension.set_criticality(critical);
    params.custom_extensions.push(extension);
    let key = KeyPair::generate_for(&PKCS_ECDSA_P256_SHA256)?;
    let cert = params.self_signed(&key)?;
    Ok((cert.der().to_vec(), key.serialize_der()))
}

/// Makes a signing key of a DER key with `any_ecdsa_type` of
/// `rustls::crypto::ring::sign`, and joins it with the certificate by
/// `CertifiedKey::new`: it signs for the public half of that key. Nothing is
/// claimed of when that works.
#[verifier::external_body]
fn ecdsa_key(cert: Vec<u8>, key: Vec<u8>) -> (r: Result<CertifiedKey, String>)
    ensures
        r matches Ok(made) ==> served_chain(made) == seq![cert@],
        r matches Ok(made) ==> signer_public(made) == public_half(key@),
{
    let der = PrivateKeyDer::try_from(key)?;
    let signer = rustls::crypto::ring::sign::any_ecdsa_type(&der).map_err(|e| e.to_string())?;
    Ok(CertifiedKey::new(vec![CertificateDer::from(cert)], signer))
}

/// Why the key of a challenge could not be made.
pub enum ChallengeKeyError {
    /// The certificate could not be generated.
    Certificate(rcgen::Error),
    /// The generated key cannot sign.
    Key(String),
}

/// The key of a challenge, from what became of its certificate and then of its
/// signing key.
pub fn challenge_key(made: Result<Result<CertifiedKey, String>, rcgen::Error>) -> (r: Result<
    Arc<CertifiedKey>,
    ChallengeKeyError,
>)
    ensures
        match made {
            Ok(Ok(key)) => r matches Ok(shared) && *shared == key,
            Ok(Err(why)) => r == Err::<Arc<CertifiedKey>, _>(ChallengeKeyError::Key(why)),
            Err(e) => r == Err::<Arc<CertifiedKey>, _>(ChallengeKeyError::Certificate(e)),
        },
{
    match made {
        Ok(Ok(key)) => Ok(Arc::new(key)),
        Ok(Err(why)) => Err(ChallengeKeyError::Key(why)),
        Err(e) => Err(ChallengeKeyError::Certificate(e)),
    }
}

/// Generates an ephemeral self-signed `CertifiedKey` for a TLS-ALPN-01 challenge.
///
/// Complies with RFC 8737 section 3:
/// - SAN includes the exact domain name being validated
/// - Contains critical extension `id-pe-acmeIdentifier` (1.3.6.1.5.5.7.1.31)
/// - Extension value is an ASN.1 DER OCTET STRING (32 bytes) of the SHA-256 digest of key authorization.
///
/// No certificate can be generated for a host that is neither an IP address nor
/// ASCII. For any other host it is up to the random source of the system.
pub fn create_tls_alpn_01_certified_key(host: &str, key_authorization: &str) -> (r: Result<
    Arc<CertifiedKey>,
    ChallengeKeyError,
>)
    ensures
        !is_nameable(host@) ==> r matches Err(ChallengeKeyError::Certificate(_)),
        r matches Ok(key) ==> {
            &&& served_chain(*key).len() == 1
            &&& bytes_within(
                acme_extension(
                    true,
                    acme_identifier(sha256(vstd::utf8::encode_utf8(key_authorization@))),
                ),
                served_chain(*key)[0],
            )
            &&& is_for(served_chain(*key)[0], seq![host@])
            &&& signer_public(*key) matches Some(public) && bytes_within(
                public,
                served_chain(*key)[0],
            )
        },
{
    let value = tls_alpn_01_extension(key_authorization);
    let oid = acme_identifier_oid();
    let made = match challenge_certificate(host, oid, true, value) {
        Ok((cert, key)) => Ok(ecdsa_key(cert, key)),
        Err(e) => Err(e),
    };
    challenge_key(made)
}

/// Without a certificate in its text no chain is served, whatever the key.
pub proof fn a_chain_is_never_empty(cert_pem: Seq<char>, key_pem: Seq<char>)
    ensures
        read_pair(cert_pem, key_pem) matches Ok(chain) ==> chain.len() > 0,
{
}

} // verus!
