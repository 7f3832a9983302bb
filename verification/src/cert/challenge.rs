//! Active ACME challenges and the responses to them.
use crate::digest;
use crate::names::NameMap;
use crate::text;
use vstd::prelude::*;

verus! {

/// The path under which ACME servers look for the answers to HTTP-01 challenges.
pub const CHALLENGE_PREFIX: &'static str = "/.well-known/acme-challenge/";

/// The token that a path asks for, where it lies under the prefix.
pub open spec fn token_in(path: Seq<char>) -> Option<Seq<char>> {
    if CHALLENGE_PREFIX@.is_prefix_of(path) {
        Some(path.subrange(CHALLENGE_PREFIX@.len() as int, path.len() as int))
    } else {
        None
    }
}

/// In-memory registry for active ACME HTTP-01 and TLS-ALPN-01 challenges. `K`
/// is what answers a TLS-ALPN-01 handshake.
pub struct ChallengeRegistry<K> {
    http_01: NameMap<String>,
    tls_alpn_01: NameMap<K>,
}

impl<K> ChallengeRegistry<K> {
    /// The maps are in order.
    pub closed spec fn wf(&self) -> bool {
        self.http_01.wf() && self.tls_alpn_01.wf()
    }

    /// The key authorization of each token.
    pub closed spec fn tokens(&self) -> Map<Seq<char>, String> {
        self.http_01@
    }

    /// The key of each hostname, in lower case.
    pub closed spec fn hosts(&self) -> Map<Seq<char>, K> {
        self.tls_alpn_01@
    }

    /// Creates a new empty challenge registry.
    pub fn new() -> (r: Self)
        ensures
            r.wf(),
            r.tokens() == Map::<Seq<char>, String>::empty(),
            r.hosts() == Map::<Seq<char>, K>::empty(),
    {
        ChallengeRegistry { http_01: NameMap::new(), tls_alpn_01: NameMap::new() }
    }

    /// Registers an active HTTP-01 challenge token and its corresponding key authorization.
    pub fn register_http_01(&mut self, token: String, key_authorization: String)
        requires
            old(self).wf(),
        ensures
            final(self).wf(),
            final(self).tokens() == old(self).tokens().insert(token@, key_authorization),
            final(self).hosts() == old(self).hosts(),
    {
        self.http_01.insert(token.as_str(), key_authorization);
    }

    /// Looks up key authorization for an HTTP-01 challenge token.
    pub fn get_http_01(&self, token: &str) -> (r: Option<String>)
        requires
            self.wf(),
        ensures
            match r {
                Some(k) => self.tokens().contains_key(token@) && k@ == self.tokens()[token@]@,
                None => !self.tokens().contains_key(token@),
            },
    {
        match self.http_01.get(token) {
            Some(k) => Some(k.clone()),
            None => None,
        }
    }

    /// The answer to a request for a path: the key authorization of the token it asks for, where
    /// it asks for one that is registered.
    pub fn answer_to(&self, path: &str) -> (r: Option<String>)
        requires
            self.wf(),
        ensures
            text::opt(r) == (match token_in(path@) {
                Some(token) => if self.tokens().contains_key(token) {
                    Some(self.tokens()[token]@)
                } else {
                    None
                },
                None => None,
            }),
    {
        if !text::starts_with(path, CHALLENGE_PREFIX) {
            return None;
        }
        let v = text::chars_of(path);
        let from: usize = text::chars_of(CHALLENGE_PREFIX).len();
        let token = text::string_of(v.as_slice(), from, v.len());
        self.get_http_01(token.as_str())
    }

    /// Unregisters an HTTP-01 challenge token after completion or cleanup.
    pub fn remove_http_01(&mut self, token: &str)
        requires
            old(self).wf(),
        ensures
            final(self).wf(),
            final(self).tokens() == old(self).tokens().remove(token@),
            final(self).hosts() == old(self).hosts(),
    {
        let _ = self.http_01.remove(token);
    }

    /// Registers an active TLS-ALPN-01 certified key for a hostname.
    pub fn register_tls_alpn_01(&mut self, host: String, cert: K)
        requires
            old(self).wf(),
        ensures
            final(self).wf(),
            final(self).tokens() == old(self).tokens(),
            final(self).hosts() == old(self).hosts().insert(text::lower(host@), cert),
    {
        let name = text::lowered(host.as_str());
        self.tls_alpn_01.insert(name.as_str(), cert);
    }

    /// Looks up a TLS-ALPN-01 certified key for a hostname.
    pub fn get_tls_alpn_01(&self, host: &str) -> (r: Option<&K>)
        requires
            self.wf(),
        ensures
            match r {
                Some(k) => self.hosts().contains_key(text::lower(host@)) && *k
                    == self.hosts()[text::lower(host@)],
                None => !self.hosts().contains_key(text::lower(host@)),
            },
    {
        let name = text::lowered(host);
        self.tls_alpn_01.get(name.as_str())
    }

    /// Unregisters a TLS-ALPN-01 challenge after completion or cleanup.
    pub fn remove_tls_alpn_01(&mut self, host: &str)
        requires
            old(self).wf(),
        ensures
            final(self).wf(),
            final(self).tokens() == old(self).tokens(),
            final(self).hosts() == old(self).hosts().remove(text::lower(host@)),
    {
        let name = text::lowered(host);
        let _ = self.tls_alpn_01.remove(name.as_str());
    }
}

/// The object identifier `id-pe-acmeIdentifier`, 1.3.6.1.5.5.7.1.31.
pub fn acme_identifier_oid() -> (v: Vec<u64>)
    ensures
        v@ == seq![1u64, 3, 6, 1, 5, 5, 7, 1, 31],
{
    let v: Vec<u64> = vec![1, 3, 6, 1, 5, 5, 7, 1, 31];
    assert(v@ =~= seq![1u64, 3, 6, 1, 5, 5, 7, 1, 31]);
    v
}

/// The value of the `id-pe-acmeIdentifier` extension for a digest: a DER OCTET
/// STRING of it.
pub open spec fn acme_identifier(digest: Seq<u8>) -> Seq<u8> {
    seq![0x04u8, digest.len() as u8] + digest
}

/// Frames a digest as the value of the extension.
pub fn acme_identifier_value(digest: &Vec<u8>) -> (v: Vec<u8>)
    requires
        digest@.len() == 32,
    ensures
        v@ == acme_identifier(digest@),
        v@.len() == 34,
{
    let mut v: Vec<u8> = Vec::new();
    v.push(0x04);
    v.push(0x20);
    let mut i: usize = 0;
    while i < digest.len()
        invariant
            i <= digest@.len(),
            digest@.len() == 32,
            v@ == seq![0x04u8, 0x20u8] + digest@.take(i as int),
        decreases digest@.len() - i,
    {
        v.push(digest[i]);
        i += 1;
        assert(v@ == seq![0x04u8, 0x20u8] + digest@.take(i as int));
    }
    assert(digest@.take(32) == digest@);
    v
}

/// The value of the critical extension `id-pe-acmeIdentifier` (1.3.6.1.5.5.7.1.31)
/// of a TLS-ALPN-01 challenge certificate (RFC 8737 section 3): a DER OCTET
/// STRING of the SHA-256 digest of the key authorization.
pub fn tls_alpn_01_extension(key_authorization: &str) -> (v: Vec<u8>)
    ensures
        v@ == acme_identifier(digest::sha256(vstd::utf8::encode_utf8(key_authorization@))),
        v@.len() == 34,
{
    let digest = digest::sha256_digest(key_authorization.as_bytes());
    acme_identifier_value(&digest)
}

/// A token answers with what it was registered with, until it is removed.
pub proof fn token_answers_until_removed(
    tokens: Map<Seq<char>, String>,
    token: Seq<char>,
    key_authorization: String,
)
    ensures
        tokens.insert(token, key_authorization).contains_key(token),
        tokens.insert(token, key_authorization)[token] == key_authorization,
        !tokens.insert(token, key_authorization).remove(token).contains_key(token),
        !tokens.contains_key(token) ==> tokens.insert(token, key_authorization).remove(token)
            == tokens,
{
    if !tokens.contains_key(token) {
        assert(tokens.insert(token, key_authorization).remove(token) =~= tokens);
    }
}

} // verus!
