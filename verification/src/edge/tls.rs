//! In-memory self-signed TLS certificate generation and rustls configuration.
//!
//! Generates temporary self-signed X.509 certificates for the configured root
//! domain and its wildcard to bootstrap HTTPS serving prior to ACME issuance.
use crate::cert::der::{bytes_within, is_ascii_text, is_for, is_nameable};
use crate::cert::keys::{belongs_to, public_half};
use crate::text;
use rustls::pki_types::{CertificateDer, PrivateKeyDer};
use std::sync::Arc;
use vstd::prelude::*;

verus! {

/// `rcgen::Error`, the failure of a certificate generation.
#[verifier::external_type_specification]
#[verifier::external_body]
pub struct ExRcgenError(rcgen::Error);

/// `rustls::Error`, the failure of a TLS configuration.
#[verifier::external_type_specification]
#[verifier::external_body]
pub struct ExRustlsError(rustls::Error);

/// `rustls::ServerConfig`, the configuration of a TLS server.
#[verifier::external_type_specification]
#[verifier::external_body]
pub struct ExServerConfig(rustls::ServerConfig);

/// Errors that can occur during TLS configuration and certificate generation.
pub enum TlsError {
    /// Failed to generate self-signed certificate using rcgen.
    Rcgen(rcgen::Error),
    /// Rustls configuration error.
    Rustls(rustls::Error),
}

/// The protocols in the field `alpn_protocols` of a `rustls::ServerConfig`.
pub uninterp spec fn offered_protocols(config: rustls::ServerConfig) -> Seq<Seq<u8>>;

/// The DER certificates that a `rustls::ServerConfig` made by `with_single_cert`
/// presents.
pub uninterp spec fn presented_chain(config: rustls::ServerConfig) -> Seq<Seq<u8>>;

/// The public key, as SubjectPublicKeyInfo, that a `rustls::ServerConfig` made by
/// `with_single_cert` signs for.
pub uninterp spec fn config_public(config: rustls::ServerConfig) -> Option<Seq<u8>>;

/// The names of a self-signed certificate: the root domain and its subdomains.
pub open spec fn names_of(root: Seq<char>) -> Seq<Seq<char>> {
    seq![root, "*."@ + root]
}

/// The names of a self-signed certificate.
pub fn certificate_names(root_domain: &str) -> (r: Vec<String>)
    ensures
        text::texts(r@) == names_of(root_domain@),
{
    let mut names: Vec<String> = Vec::new();
    names.push(root_domain.to_owned());
    names.push(text::cat2("*.", root_domain));
    assert(text::texts(names@) =~= names_of(root_domain@));
    names
}

/// The lists as sequences.
pub open spec fn bytes_of(v: Seq<Vec<u8>>) -> Seq<Seq<u8>> {
    v.map_values(|b: Vec<u8>| b@)
}

/// The ALPN protocols that the edge speaks: `h2`, and `http/1.1`.
pub open spec fn edge_protocols() -> Seq<Seq<u8>> {
    seq![seq![0x68u8, 0x32], seq![0x68u8, 0x74, 0x74, 0x70, 0x2f, 0x31, 0x2e, 0x31]]
}

/// The ALPN protocols that the edge speaks, preferred first.
pub fn alpn_protocols() -> (r: Vec<Vec<u8>>)
    ensures
        bytes_of(r@) == edge_protocols(),
{
    let mut list: Vec<Vec<u8>> = Vec::new();
    list.push(vec![0x68, 0x32]);
    list.push(vec![0x68, 0x74, 0x74, 0x70, 0x2f, 0x31, 0x2e, 0x31]);
    assert(bytes_of(list@)[0] =~= edge_protocols()[0]);
    assert(bytes_of(list@)[1] =~= edge_protocols()[1]);
    assert(bytes_of(list@) =~= edge_protocols());
    list
}

/// The ALPN protocol of TLS-ALPN-01 challenges, `acme-tls/1`.
pub open spec fn challenge_protocol() -> Seq<u8> {
    seq![0x61u8, 0x63, 0x6d, 0x65, 0x2d, 0x74, 0x6c, 0x73, 0x2f, 0x31]
}

/// The ALPN protocols that the edge offers where it answers challenges: those it
/// speaks, and that of the challenges.
pub fn served_protocols() -> (r: Vec<Vec<u8>>)
    ensures
        bytes_of(r@) == edge_protocols().push(challenge_protocol()),
{
    let mut list = alpn_protocols();
    let ghost spoken = bytes_of(list@);
    list.push(vec![0x61, 0x63, 0x6d, 0x65, 0x2d, 0x74, 0x6c, 0x73, 0x2f, 0x31]);
    assert(list@.last()@ =~= challenge_protocol());
    assert(bytes_of(list@) =~= spoken.push(challenge_protocol()));
    list
}

/// Calls `rcgen::generate_simple_self_signed` and returns the certificate and
/// its key, both as DER. The key is random; the certificate is for the names and no
/// others, which have to be IP addresses or ASCII, and holds the public half of the
/// key. How it is encoded otherwise is not stated, nor when the key can be made.
#[verifier::external_body]
fn self_signed(names: Vec<String>) -> (r: Result<(Vec<u8>, Vec<u8>), rcgen::Error>)
    ensures
        r matches Ok(made) ==> is_for(made.0@, text::texts(names@)),
        r matches Ok(made) ==> belongs_to(made.0@, made.1@),
{
    let made = rcgen::generate_simple_self_signed(names)?;
    Ok((made.cert.der().to_vec(), made.signing_key.serialize_der()))
}

/// Builds a `rustls::ServerConfig` with the ring provider, the default protocol
/// versions and no client authentication, for one certificate and its key: it
/// presents that certificate and signs for the public half of that key. When the
/// certificate and the key are accepted is not stated.
#[verifier::external_body]
fn single_cert_config(cert: Vec<u8>, key: Vec<u8>) -> (r: Result<
    rustls::ServerConfig,
    rustls::Error,
>)
    ensures
        r matches Ok(config) ==> presented_chain(config) == seq![cert@],
        r matches Ok(config) ==> config_public(config) == public_half(key@),
{
    let key = PrivateKeyDer::try_from(key).map_err(
        |e| rustls::Error::General(format!("Invalid private key: {e}")),
    )?;
    let provider = Arc::new(rustls::crypto::ring::default_provider());
    rustls::ServerConfig::builder_with_provider(provider)
        .with_safe_default_protocol_versions()?
        .with_no_client_auth()
        .with_single_cert(vec![CertificateDer::from(cert)], key)
}

/// Sets the field `alpn_protocols` of a `rustls::ServerConfig`: the
/// configuration then offers these protocols, and presents and signs for what it
/// did.
#[verifier::external_body]
fn offer(config: &mut rustls::ServerConfig, protocols: Vec<Vec<u8>>)
    ensures
        offered_protocols(*final(config)) == bytes_of(protocols@),
        presented_chain(*final(config)) == presented_chain(*old(config)),
        config_public(*final(config)) == config_public(*old(config)),
{
    config.alpn_protocols = protocols;
}

/// The configuration of the edge, from what became of its certificate and then
/// of the configuration that presents it: the protocols of the edge are offered.
pub fn edge_config(built: Result<Result<rustls::ServerConfig, rustls::Error>, rcgen::Error>) -> (r:
    Result<Arc<rustls::ServerConfig>, TlsError>)
    ensures
        match built {
            Ok(Ok(plain)) => r matches Ok(config) && offered_protocols(*config) == edge_protocols()
                && presented_chain(*config) == presented_chain(plain) && config_public(*config)
                == config_public(plain),
            Ok(Err(e)) => r == Err::<Arc<rustls::ServerConfig>, _>(TlsError::Rustls(e)),
            Err(e) => r == Err::<Arc<rustls::ServerConfig>, _>(TlsError::Rcgen(e)),
        },
{
    match built {
        Ok(Ok(plain)) => {
            let mut config = plain;
            offer(&mut config, alpn_protocols());
            Ok(Arc::new(config))
        },
        Ok(Err(e)) => Err(TlsError::Rustls(e)),
        Err(e) => Err(TlsError::Rcgen(e)),
    }
}

/// Generates an in-memory self-signed certificate and builds a
/// `rustls::ServerConfig` configured with ALPN `h2` and `http/1.1`.
///
/// No certificate can be generated for a root domain that is not ASCII. For any
/// other it is up to the random source of the system.
pub fn create_self_signed_server_config(root_domain: &str) -> (r: Result<
    Arc<rustls::ServerConfig>,
    TlsError,
>)
    ensures
        !is_ascii_text(root_domain@) ==> r matches Err(TlsError::Rcgen(_)),
        r matches Ok(config) ==> {
            &&& offered_protocols(*config) == edge_protocols()
            &&& presented_chain(*config).len() == 1
            &&& is_for(presented_chain(*config)[0], names_of(root_domain@))
            &&& config_public(*config) matches Some(public) && bytes_within(
                public,
                presented_chain(*config)[0],
            )
        },
{
    let names = certificate_names(root_domain);
    proof {
        let wildcard = "*."@ + root_domain@;
        reveal_strlit("*.");
        crate::net::wildcard_is_no_address(wildcard);
        assert(names_of(root_domain@)[1] == wildcard);
        assert forall|i: int| 0 <= i < root_domain@.len() && is_ascii_text(wildcard) implies
            #[trigger] root_domain@[i] as u32 <= 0x7f by {
            assert(wildcard[i + 2] == root_domain@[i]);
        }
    }
    let built = match self_signed(names) {
        Ok((cert, key)) => Ok(single_cert_config(cert, key)),
        Err(e) => Err(e),
    };
    edge_config(built)
}

} // verus!
