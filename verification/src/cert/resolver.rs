//! Which certificate answers a TLS handshake.
use super::challenge::ChallengeRegistry;
use super::validity;
use crate::names::NameMap;
use crate::text;
use core::time::Duration;
use vstd::prelude::*;

verus! {

/// In-memory stored certificate with its parsed expiration timestamp.
pub struct StoredCert<K> {
    pub key: K,
    pub not_after: i64,
}

/// The seconds a handshake is held for a certificate under issuance.
pub const DEFAULT_HOLD_SECS: u64 = 30;

/// How long a handshake is held by default.
pub fn default_hold_timeout() -> (d: Duration)
    ensures
        d == super::renewal::duration_of_secs(30),
{
    Duration::from_secs(DEFAULT_HOLD_SECS)
}

/// The state of an in-flight TLS handshake that waits for a certificate.
pub struct HandshakeWaiter {
    notified: bool,
}

impl HandshakeWaiter {
    /// The wait is over.
    pub closed spec fn is_notified(&self) -> bool {
        self.notified
    }

    /// A waiter that nobody has notified.
    pub fn new() -> (w: Self)
        ensures
            !w.is_notified(),
    {
        HandshakeWaiter { notified: false }
    }

    /// Ends the wait.
    pub fn notify(&mut self)
        ensures
            final(self).is_notified(),
    {
        self.notified = true;
    }

    /// How much longer to wait, in milliseconds, once `elapsed` have passed;
    /// `None` once notified or out of time.
    pub fn wait_timeout(&self, elapsed: u64, timeout: u64) -> (r: Option<u64>)
        ensures
            r == (if self.is_notified() || elapsed >= timeout {
                None
            } else {
                Some((timeout - elapsed) as u64)
            }),
    {
        if self.notified || elapsed >= timeout {
            None
        } else {
            Some(timeout - elapsed)
        }
    }
}

/// What of a TLS ClientHello decides which certificate answers it.
pub struct ClientHello<'a> {
    /// The ALPN protocols the client offers.
    pub alpn: Vec<Vec<u8>>,
    /// The name of the SNI extension.
    pub server_name: Option<&'a str>,
}

/// How a handshake is answered.
pub enum Resolution<'a, K> {
    /// With the certificate of a TLS-ALPN-01 challenge.
    Challenge(&'a K),
    /// With an issued certificate.
    Serve(&'a K),
    /// Not yet: the certificate is under issuance.
    Hold,
    /// Not at all: the connection is ended.
    Reject,
}

/// The ALPN protocol of TLS-ALPN-01 validation, `acme-tls/1`.
pub open spec fn acme_alpn() -> Seq<u8> {
    seq![0x61u8, 0x63, 0x6d, 0x65, 0x2d, 0x74, 0x6c, 0x73, 0x2f, 0x31]
}

/// The client offers the protocol of TLS-ALPN-01 validation.
pub open spec fn offers_acme(alpn: Seq<Vec<u8>>) -> bool {
    exists|i: int| 0 <= i < alpn.len() && #[trigger] alpn[i]@ == acme_alpn()
}

/// Dynamic TLS certificate resolver. `K` is a certificate with its key.
///
/// Dispatches incoming TLS connections:
/// - Responds to ALPN `acme-tls/1` TLS-ALPN-01 challenges via `ChallengeRegistry`
/// - Serves valid unexpired issued ACME certificates per SNI
/// - Holds handshakes when connecting to a hostname undergoing ACME issuance
/// - Rejects unknown hostnames, missing SNI, failed orders, and timed-out orders at the TCP level
/// - Strictly prohibits serving self-signed or placeholder certificates to public HTTPS clients
pub struct CertResolver<K> {
    root_domain: String,
    certs: NameMap<StoredCert<K>>,
    waiting: NameMap<()>,
}

fn is_acme_alpn(proto: &Vec<u8>) -> (r: bool)
    ensures
        r == (proto@ == acme_alpn()),
{
    if proto.len() != 10 {
        return false;
    }
    let r = proto[0] == 0x61 && proto[1] == 0x63 && proto[2] == 0x6d && proto[3] == 0x65 && proto[4]
        == 0x2d && proto[5] == 0x74 && proto[6] == 0x6c && proto[7] == 0x73 && proto[8] == 0x2f
        && proto[9] == 0x31;
    assert(r ==> proto@ =~= acme_alpn());
    r
}

impl<K> CertResolver<K> {
    /// The maps are in order.
    pub closed spec fn wf(&self) -> bool {
        self.certs.wf() && self.waiting.wf()
    }

    /// The root domain, in lower case.
    pub closed spec fn root(&self) -> Seq<char> {
        self.root_domain@
    }

    /// The certificate of each hostname, in lower case.
    pub closed spec fn stored(&self) -> Map<Seq<char>, StoredCert<K>> {
        self.certs@
    }

    /// The hostnames, in lower case, whose certificate is under issuance.
    pub closed spec fn ordering(&self) -> Set<Seq<char>> {
        self.waiting@.dom()
    }

    /// The certificate that may be served for a name at a time.
    pub open spec fn valid_for(&self, name: Seq<char>, now: i64) -> Option<K> {
        let host = text::lower(name);
        if self.stored().contains_key(host) && self.stored()[host].not_after > now {
            Some(self.stored()[host].key)
        } else {
            None
        }
    }

    /// Creates a new `CertResolver` with the given root domain.
    pub fn new(root_domain: &str) -> (r: Self)
        ensures
            r.wf(),
            r.root() == text::lower(root_domain@),
            r.stored() == Map::<Seq<char>, StoredCert<K>>::empty(),
            r.ordering() == Set::<Seq<char>>::empty(),
    {
        let r = CertResolver {
            root_domain: text::lowered(root_domain),
            certs: NameMap::new(),
            waiting: NameMap::new(),
        };
        assert(r.waiting@.dom() =~= Set::<Seq<char>>::empty());
        r
    }

    /// Checks whether the certificate currently served for `name` is a placeholder certificate.
    /// Under strict TLS doctrine, placeholder certificates are never served, so this returns
    /// `false` if an unexpired certificate exists, or `true` otherwise.
    pub fn is_placeholder(&self, name: &str, now: i64) -> (r: bool)
        requires
            self.wf(),
        ensures
            r == self.valid_for(name@, now) is None,
    {
        let lower = text::lowered(name);
        match self.certs.get(lower.as_str()) {
            Some(cert) => cert.not_after <= now,
            None => true,
        }
    }

    /// Stores an issued certificate for `name` with an explicit `not_after` expiration timestamp;
    /// returns whether handshakes were waiting for it, and are to be unblocked.
    pub fn insert_cert_with_expiry(&mut self, name: &str, key: K, not_after: i64) -> (woken: bool)
        requires
            old(self).wf(),
        ensures
            final(self).wf(),
            final(self).root() == old(self).root(),
            final(self).stored() == old(self).stored().insert(
                text::lower(name@),
                (StoredCert { key, not_after }),
            ),
            final(self).ordering() == old(self).ordering().remove(text::lower(name@)),
            woken == old(self).ordering().contains(text::lower(name@)),
    {
        let lower = text::lowered(name);
        self.certs.insert(lower.as_str(), StoredCert { key, not_after });
        let woken = self.waiting.remove(lower.as_str()).is_some();
        assert(self.waiting@.dom() =~= old(self).waiting@.dom().remove(text::lower(name@)));
        woken
    }

    /// The expiry that the leaf of a chain states, or the end of time where it
    /// cannot be read.
    pub open spec fn stated_expiry(leaf: Option<Seq<u8>>) -> int {
        match leaf {
            Some(der) => match validity::validity_of(der) {
                Ok((_, not_after)) => not_after,
                Err(_) => i64::MAX as int,
            },
            None => i64::MAX as int,
        }
    }

    /// Stores an issued certificate for `name`; returns whether handshakes were waiting for it.
    /// Automatically extracts `not_after` expiration timestamp from the leaf certificate.
    pub fn insert_cert(&mut self, name: &str, key: K, leaf: Option<&[u8]>) -> (woken: bool)
        requires
            old(self).wf(),
        ensures
            final(self).wf(),
            final(self).root() == old(self).root(),
            final(self).stored() == old(self).stored().insert(
                text::lower(name@),
                (StoredCert {
                    key,
                    not_after: Self::stated_expiry(
                        match leaf {
                            Some(der) => Some(der@),
                            None => None,
                        },
                    ) as i64,
                }),
            ),
            final(self).ordering() == old(self).ordering().remove(text::lower(name@)),
            woken == old(self).ordering().contains(text::lower(name@)),
    {
        let not_after: i64 = match leaf {
            Some(der) => match validity::parse_cert_validity(der) {
                Ok((_, not_after)) => not_after,
                Err(_) => i64::MAX,
            },
            None => i64::MAX,
        };
        self.insert_cert_with_expiry(name, key, not_after)
    }

    /// Marks a hostname as currently undergoing ordering, preparing a wait queue.
    pub fn mark_ordering(&mut self, name: &str)
        requires
            old(self).wf(),
        ensures
            final(self).wf(),
            final(self).root() == old(self).root(),
            final(self).stored() == old(self).stored(),
            final(self).ordering() == old(self).ordering().insert(text::lower(name@)),
    {
        let lower = text::lowered(name);
        self.waiting.insert(lower.as_str(), ());
        assert(self.waiting@.dom() =~= old(self).waiting@.dom().insert(text::lower(name@)));
    }

    /// Clears the ordering status for `name` on failure; returns whether waiting handshakes are to
    /// be unblocked.
    pub fn clear_ordering(&mut self, name: &str) -> (woken: bool)
        requires
            old(self).wf(),
        ensures
            final(self).wf(),
            final(self).root() == old(self).root(),
            final(self).stored() == old(self).stored(),
            final(self).ordering() == old(self).ordering().remove(text::lower(name@)),
            woken == old(self).ordering().contains(text::lower(name@)),
    {
        let lower = text::lowered(name);
        let woken = self.waiting.remove(lower.as_str()).is_some();
        assert(self.waiting@.dom() =~= old(self).waiting@.dom().remove(text::lower(name@)));
        woken
    }

    /// Checks if a hostname is currently marked as undergoing ordering.
    pub fn is_ordering(&self, name: &str) -> (r: bool)
        requires
            self.wf(),
        ensures
            r == self.ordering().contains(text::lower(name@)),
    {
        let lower = text::lowered(name);
        self.waiting.contains(lower.as_str())
    }

    /// The unexpired certificate of a name, if there is one: what answers a
    /// handshake at once, and what answers a held one when its wait is over.
    pub fn valid_certificate(&self, name: &str, now: i64) -> (r: Option<&K>)
        requires
            self.wf(),
        ensures
            (match r {
                Some(k) => Some(*k),
                None => None,
            }) == self.valid_for(name@, now),
    {
        let lower = text::lowered(name);
        match self.certs.get(lower.as_str()) {
            Some(cert) => if cert.not_after > now {
                Some(&cert.key)
            } else {
                None
            },
            None => None,
        }
    }

    /// Decides how a handshake is answered.
    pub fn resolve<'a>(
        &'a self,
        hello: &ClientHello<'_>,
        challenges: &'a ChallengeRegistry<K>,
        now: i64,
    ) -> (r: Resolution<'a, K>)
        requires
            self.wf(),
            challenges.wf(),
        ensures
            r == self.resolution(*hello, *challenges, now),
    {
        let mut i: usize = 0;
        let mut acme: bool = false;
        while i < hello.alpn.len()
            invariant
                i <= hello.alpn@.len(),
                acme == exists|j: int| 0 <= j < i && #[trigger] hello.alpn@[j]@ == acme_alpn(),
            decreases hello.alpn@.len() - i,
        {
            if is_acme_alpn(&hello.alpn[i]) {
                assert(hello.alpn@[i as int]@ == acme_alpn());
                acme = true;
            }
            i += 1;
        }
        assert(acme == offers_acme(hello.alpn@));
        if acme {
            return match hello.server_name {
                Some(sni) => match challenges.get_tls_alpn_01(sni) {
                    Some(key) => Resolution::Challenge(key),
                    None => Resolution::Reject,
                },
                None => Resolution::Reject,
            };
        }
        let sni = match hello.server_name {
            Some(sni) => sni,
            None => return Resolution::Reject,
        };
        match self.valid_certificate(sni, now) {
            Some(key) => Resolution::Serve(key),
            None => if self.is_ordering(sni) {
                Resolution::Hold
            } else {
                Resolution::Reject
            },
        }
    }

    /// How a handshake is answered: a validation handshake with the challenge
    /// certificate or not at all; another with an unexpired certificate of the
    /// named host, held while one is under issuance.
    pub open spec fn resolution<'a>(
        &self,
        hello: ClientHello<'a>,
        challenges: ChallengeRegistry<K>,
        now: i64,
    ) -> Resolution<'a, K> {
        match hello.server_name {
            None => Resolution::Reject,
            Some(sni) => if offers_acme(hello.alpn@) {
                if challenges.hosts().contains_key(text::lower(sni@)) {
                    Resolution::Challenge(&challenges.hosts()[text::lower(sni@)])
                } else {
                    Resolution::Reject
                }
            } else {
                match self.valid_for(sni@, now) {
                    Some(key) => Resolution::Serve(&key),
                    None => if self.ordering().contains(text::lower(sni@)) {
                        Resolution::Hold
                    } else {
                        Resolution::Reject
                    },
                }
            },
        }
    }

    /// Only an unexpired certificate stored for the named host is ever served:
    /// never an expired one, a placeholder or another host's.
    pub proof fn only_valid_certificates_are_served(
        &self,
        hello: ClientHello<'_>,
        challenges: ChallengeRegistry<K>,
        now: i64,
    )
        requires
            self.resolution(hello, challenges, now) is Serve,
        ensures
            hello.server_name is Some,
            !offers_acme(hello.alpn@),
            self.stored().contains_key(text::lower(hello.server_name->0@)),
            self.stored()[text::lower(hello.server_name->0@)].not_after > now,
            self.resolution(hello, challenges, now)->Serve_0
                == self.stored()[text::lower(hello.server_name->0@)].key,
    {
    }

    /// A handshake without SNI is always rejected.
    pub proof fn missing_sni_is_rejected(
        &self,
        hello: ClientHello<'_>,
        challenges: ChallengeRegistry<K>,
        now: i64,
    )
        requires
            hello.server_name is None,
        ensures
            self.resolution(hello, challenges, now) is Reject,
    {
    }
}

} // verus!
