//! The life of one ACME order against one directory: what each reply leads to,
//! and which challenges are answered meanwhile.
use super::acme::{
    choose_challenge, chosen_challenge, classified, map_instant_acme_error, AcmeError, AcmeProblem,
    ChallengeKind, IssuedCertificate, UpstreamError,
};
use super::challenge::ChallengeRegistry;
use super::der::{is_nameable, requests};
use super::keys::{belongs_to, key_in, key_text_problem};
use super::pem;
use crate::text;
use rcgen::{CertificateParams, DistinguishedName, KeyPair, PKCS_ECDSA_P256_SHA256};
use vstd::prelude::*;

verus! {

/// What the order waits for.
#[derive(Debug, Clone, Copy, PartialEq, Eq, Structural)]
pub enum OrderPhase {
    /// The account of the directory.
    Account,
    /// A fresh ECDSA P-256 key pair and the signing request for the hostname.
    Request,
    /// The new order.
    NewOrder,
    /// The next authorization of the order.
    Authorization,
    /// The key authorization of the challenge that is answered.
    Challenge(ChallengeKind),
    /// The server's word that it knows the challenge to be ready.
    SetReady,
    /// The server's word that the order is ready.
    PollReady,
    /// The server's word that it took the signing request.
    Finalize,
    /// The certificate chain.
    Certificate,
    /// The store's word that the certificate is saved.
    Save,
    /// Nothing: the certificate is issued.
    Issued,
    /// Nothing: the order failed.
    Failed,
}

/// Why a signing request could not be made.
#[derive(Debug)]
pub enum CsrFailure {
    /// No key pair could be generated.
    Key(String),
    /// The hostname cannot be requested.
    Params(String),
    /// The request could not be signed.
    Request(String),
}

/// A key pair in PEM, and the signing request that it signed, as DER.
#[derive(Debug)]
pub struct SigningRequest {
    pub key_pem: String,
    pub csr: Vec<u8>,
}

/// The text of the key holds a private key, and the request its public half.
pub open spec fn has_its_key(request: SigningRequest) -> bool {
    let pem = vstd::utf8::encode_utf8(request.key_pem@);
    key_text_problem(pem) is None && belongs_to(request.csr@, key_in(pem))
}

/// Makes a signing request with `rcgen`: `KeyPair::generate_for` with ECDSA
/// P-256, `CertificateParams::new` for the host, without a distinguished name,
/// and `CertificateParams::serialize_request`. The key is random. What holds of
/// every request is that it is for the host and no other name, which has to be an IP
/// address or ASCII, that the text of the key, by `KeyPair::serialize_pem`, can be read, and
/// that the request holds the public half of that key. How the rest is encoded is
/// not stated, nor when the key can be made.
#[verifier::external_body]
fn generate_request(host: &str) -> (r: Result<SigningRequest, CsrFailure>)
    ensures
        r matches Ok(made) ==> requests(made.csr@, host@),
        r matches Ok(made) ==> has_its_key(made),
        !is_nameable(host@) ==> !(r matches Err(CsrFailure::Request(_))),
{
    let key = KeyPair::generate_for(&PKCS_ECDSA_P256_SHA256).map_err(
        |e| CsrFailure::Key(e.to_string()),
    )?;
    let mut params = CertificateParams::new(vec![host.to_string()]).map_err(
        |e| CsrFailure::Params(e.to_string()),
    )?;
    params.distinguished_name = DistinguishedName::new();
    let csr = params.serialize_request(&key).map_err(|e| CsrFailure::Request(e.to_string()))?;
    Ok(SigningRequest { key_pem: key.serialize_pem(), csr: csr.der().to_vec() })
}

/// The challenges that an authorization offers, of those that are answered.
#[derive(Debug, Clone, Copy, PartialEq, Eq, Structural)]
pub struct OfferedChallenges {
    pub http: bool,
    pub alpn: bool,
}

/// A reply to what the order waits for. `K` is a certificate with its key.
pub enum OrderEvent<K> {
    Account(Result<(), AcmeError>),
    Request(Result<SigningRequest, CsrFailure>),
    /// The server took the order, the readiness, or the signing request.
    Accepted(Result<(), UpstreamError>),
    /// The next authorization; `None` when there are no more.
    Authorization(Result<Option<OfferedChallenges>, UpstreamError>),
    /// The token and key authorization of an HTTP-01 challenge.
    HttpChallenge { token: String, key_authorization: String },
    /// The certificate that answers a TLS-ALPN-01 challenge.
    AlpnChallenge(Result<K, String>),
    /// The certificate chain in PEM.
    Certificate(Result<String, UpstreamError>),
    Saved(Result<(), String>),
}

impl OrderPhase {
    /// The reply is one to what the order waits for.
    pub open spec fn accepts<K>(self, event: OrderEvent<K>) -> bool {
        match self {
            OrderPhase::Account => event is Account,
            OrderPhase::Request => event is Request,
            OrderPhase::NewOrder => event is Accepted,
            OrderPhase::Authorization => event is Authorization,
            OrderPhase::Challenge(ChallengeKind::Http01) => event is HttpChallenge,
            OrderPhase::Challenge(ChallengeKind::TlsAlpn01) => event is AlpnChallenge,
            OrderPhase::SetReady => event is Accepted,
            OrderPhase::PollReady => event is Accepted,
            OrderPhase::Finalize => event is Accepted,
            OrderPhase::Certificate => event is Certificate,
            OrderPhase::Save => event is Saved,
            OrderPhase::Issued => false,
            OrderPhase::Failed => false,
        }
    }
}

/// An order for a certificate.
pub struct OrderSession {
    hostname: String,
    directory: String,
    http_enabled: bool,
    phase: OrderPhase,
    key_pem: String,
    csr: Vec<u8>,
    cert_pem: String,
    not_before: i64,
    not_after: i64,
    tokens: Vec<String>,
    alpn: bool,
}

/// What is known of an order.
pub struct OrderFacts {
    pub hostname: Seq<char>,
    pub directory: Seq<char>,
    pub http_enabled: bool,
    pub phase: OrderPhase,
    pub key_pem: Seq<char>,
    pub csr: Seq<u8>,
    pub cert_pem: Seq<char>,
    pub not_before: int,
    pub not_after: int,
    /// The HTTP-01 tokens that were registered.
    pub tokens: Seq<Seq<char>>,
    /// A TLS-ALPN-01 certificate was registered for the hostname.
    pub alpn: bool,
}

impl View for OrderSession {
    type V = OrderFacts;

    closed spec fn view(&self) -> OrderFacts {
        OrderFacts {
            hostname: self.hostname@,
            directory: self.directory@,
            http_enabled: self.http_enabled,
            phase: self.phase,
            key_pem: self.key_pem@,
            csr: self.csr@,
            cert_pem: self.cert_pem@,
            not_before: self.not_before as int,
            not_after: self.not_after as int,
            tokens: text::texts(self.tokens@),
            alpn: self.alpn,
        }
    }
}

/// The answers in force: the key authorization of each token, and the
/// certificate of each hostname.
#[verifier::reject_recursive_types(K)]
pub struct Answers<K> {
    pub tokens: Map<Seq<char>, String>,
    pub hosts: Map<Seq<char>, K>,
}

/// The answers that a registry holds.
pub open spec fn answers<K>(r: ChallengeRegistry<K>) -> Answers<K> {
    Answers { tokens: r.tokens(), hosts: r.hosts() }
}

/// The answers without those to the challenges of an order.
pub open spec fn without_challenges<K>(o: OrderFacts, a: Answers<K>) -> Answers<K> {
    Answers {
        tokens: a.tokens.remove_keys(o.tokens.to_set()),
        hosts: if o.alpn {
            a.hosts.remove(text::lower(o.hostname))
        } else {
            a.hosts
        },
    }
}

/// The order in another phase.
pub open spec fn in_phase(o: OrderFacts, phase: OrderPhase) -> OrderFacts {
    OrderFacts { phase, ..o }
}

/// What a reply makes of an order and of the answers in force, and the error
/// where it ends the order.
pub open spec fn reply<K>(o: OrderFacts, a: Answers<K>, event: OrderEvent<K>) -> (
    OrderFacts,
    Answers<K>,
    Option<AcmeProblem>,
) {
    let failed = in_phase(o, OrderPhase::Failed);
    match event {
        OrderEvent::Account(Err(e)) => (failed, a, Some(e@)),
        OrderEvent::Account(Ok(_)) => (in_phase(o, OrderPhase::Request), a, None),
        OrderEvent::Request(Err(CsrFailure::Key(e))) => (
            failed,
            a,
            Some(AcmeProblem::Other("Failed to generate P-256 keypair: "@ + e@)),
        ),
        OrderEvent::Request(Err(CsrFailure::Params(e))) => (
            failed,
            a,
            Some(AcmeProblem::Other("Failed to create CertificateParams: "@ + e@)),
        ),
        OrderEvent::Request(Err(CsrFailure::Request(e))) => (
            failed,
            a,
            Some(AcmeProblem::Other("Failed to generate CSR: "@ + e@)),
        ),
        OrderEvent::Request(Ok(made)) => (
            OrderFacts {
                key_pem: made.key_pem@,
                csr: made.csr@,
                phase: OrderPhase::NewOrder,
                ..o
            },
            a,
            None,
        ),
        OrderEvent::Accepted(Err(e)) => (
            failed,
            if o.phase == OrderPhase::PollReady {
                without_challenges(o, a)
            } else {
                a
            },
            Some(classified(e)),
        ),
        OrderEvent::Accepted(Ok(_)) => if o.phase == OrderPhase::NewOrder {
            (in_phase(o, OrderPhase::Authorization), a, None)
        } else if o.phase == OrderPhase::SetReady {
            (in_phase(o, OrderPhase::Authorization), a, None)
        } else if o.phase == OrderPhase::PollReady {
            (in_phase(o, OrderPhase::Finalize), without_challenges(o, a), None)
        } else {
            (in_phase(o, OrderPhase::Certificate), a, None)
        },
        OrderEvent::Authorization(Err(e)) => (failed, a, Some(classified(e))),
        OrderEvent::Authorization(Ok(None)) => (in_phase(o, OrderPhase::PollReady), a, None),
        OrderEvent::Authorization(Ok(Some(offered))) => match chosen_challenge(
            o.http_enabled,
            offered.http,
            offered.alpn,
        ) {
            Some(kind) => (in_phase(o, OrderPhase::Challenge(kind)), a, None),
            None => (
                failed,
                a,
                Some(
                    AcmeProblem::Other(
                        "No supported challenge type found in authorization for "@ + o.hostname,
                    ),
                ),
            ),
        },
        OrderEvent::HttpChallenge { token, key_authorization } => (
            OrderFacts { tokens: o.tokens.push(token@), phase: OrderPhase::SetReady, ..o },
            Answers { tokens: a.tokens.insert(token@, key_authorization), ..a },
            None,
        ),
        OrderEvent::AlpnChallenge(Err(e)) => (
            failed,
            a,
            Some(AcmeProblem::Other("Failed to create TLS-ALPN-01 cert: "@ + e@)),
        ),
        OrderEvent::AlpnChallenge(Ok(key)) => (
            OrderFacts { alpn: true, phase: OrderPhase::SetReady, ..o },
            Answers { hosts: a.hosts.insert(text::lower(o.hostname), key), ..a },
            None,
        ),
        OrderEvent::Certificate(Err(e)) => (failed, a, Some(classified(e))),
        OrderEvent::Certificate(Ok(chain)) => match pem::leaf_validity(
            pem::pem_sections(vstd::utf8::encode_utf8(chain@)),
        ) {
            Err(e) => (failed, a, Some(AcmeProblem::Other(e))),
            Ok((not_before, not_after)) => (
                OrderFacts {
                    cert_pem: chain@,
                    not_before,
                    not_after,
                    phase: OrderPhase::Save,
                    ..o
                },
                a,
                None,
            ),
        },
        OrderEvent::Saved(Err(e)) => (
            failed,
            a,
            Some(AcmeProblem::Other("Failed to save certificate: "@ + e@)),
        ),
        OrderEvent::Saved(Ok(_)) => (in_phase(o, OrderPhase::Issued), a, None),
    }
}

impl OrderSession {
    /// Starts an order for a hostname against a directory.
    pub fn start(hostname: &str, directory: &str, http_enabled: bool) -> (r: Self)
        ensures
            r@.hostname == hostname@,
            r@.directory == directory@,
            r@.http_enabled == http_enabled,
            r@.phase == OrderPhase::Account,
            r@.tokens == Seq::<Seq<char>>::empty(),
            !r@.alpn,
    {
        let r = OrderSession {
            hostname: hostname.to_owned(),
            directory: directory.to_owned(),
            http_enabled,
            phase: OrderPhase::Account,
            key_pem: String::new(),
            csr: Vec::new(),
            cert_pem: String::new(),
            not_before: 0,
            not_after: 0,
            tokens: Vec::new(),
            alpn: false,
        };
        assert(text::texts(r.tokens@) =~= Seq::<Seq<char>>::empty());
        r
    }

    /// What the order waits for.
    pub fn phase(&self) -> (r: OrderPhase)
        ensures
            r == self@.phase,
    {
        self.phase
    }

    /// Makes a key pair and the signing request for the hostname of the order. None can be made
    /// for a hostname that is neither an IP address nor ASCII; for any other it is up to the
    /// random source of the system.
    pub fn signing_request(&self) -> (r: Result<SigningRequest, CsrFailure>)
        ensures
            r matches Ok(made) ==> requests(made.csr@, self@.hostname) && has_its_key(made),
            !is_nameable(self@.hostname) ==> (r matches Err(CsrFailure::Key(_)) || r matches Err(
                CsrFailure::Params(_),
            )),
    {
        generate_request(self.hostname.as_str())
    }

    /// The signing request that finalizes the order, as DER.
    pub fn csr(&self) -> (r: &[u8])
        ensures
            r@ == self@.csr,
    {
        self.csr.as_slice()
    }

    /// Takes the answers to this order's challenges out of the registry.
    fn clean_up<K>(&self, registry: &mut ChallengeRegistry<K>)
        requires
            old(registry).wf(),
        ensures
            final(registry).wf(),
            answers(*final(registry)) == without_challenges(self@, answers(*old(registry))),
    {
        let ghost all = text::texts(self.tokens@);
        let ghost tokens0 = registry.tokens();
        let ghost hosts0 = registry.hosts();
        assert(tokens0.remove_keys(all.take(0).to_set()) =~= tokens0);
        let mut i: usize = 0;
        while i < self.tokens.len()
            invariant
                i <= self.tokens@.len(),
                all == text::texts(self.tokens@),
                registry.wf(),
                registry.hosts() == hosts0,
                registry.tokens() == tokens0.remove_keys(all.take(i as int).to_set()),
            decreases self.tokens@.len() - i,
        {
            registry.remove_http_01(self.tokens[i].as_str());
            proof {
                let now = all.take(i + 1);
                let then = all.take(i as int);
                assert(now =~= then.push(all[i as int]));
                assert forall|k: Seq<char>| now.to_set().contains(k) == (then.to_set().contains(k)
                    || k == all[i as int]) by {
                    if then.contains(k) {
                        let j = choose|j: int| 0 <= j < then.len() && then[j] == k;
                        assert(now[j] == k);
                    }
                    if k == all[i as int] {
                        assert(now[i as int] == k);
                    }
                    if now.contains(k) {
                        let j = choose|j: int| 0 <= j < now.len() && now[j] == k;
                        if j < i {
                            assert(then[j] == k);
                        }
                    }
                }
                assert(registry.tokens() =~= tokens0.remove_keys(now.to_set()));
            }
            i += 1;
        }
        assert(all.take(all.len() as int) == all);
        if self.alpn {
            registry.remove_tls_alpn_01(self.hostname.as_str());
        }
    }

    fn fail(&mut self, error: AcmeError) -> (r: Result<(), AcmeError>)
        ensures
            final(self)@ == in_phase(old(self)@, OrderPhase::Failed),
            r == Err::<(), AcmeError>(error),
    {
        self.phase = OrderPhase::Failed;
        Err(error)
    }

    /// Takes the reply to what the order waits for.
    pub fn step<K>(&mut self, event: OrderEvent<K>, registry: &mut ChallengeRegistry<K>) -> (r:
        Result<(), AcmeError>)
        requires
            old(self)@.phase.accepts(event),
            old(registry).wf(),
        ensures
            final(registry).wf(),
            ({
                let (o, a, error) = reply(old(self)@, answers(*old(registry)), event);
                &&& final(self)@ == o
                &&& answers(*final(registry)) == a
                &&& match r {
                    Ok(()) => error is None,
                    Err(e) => error == Some(e@),
                }
            }),
    {
        match event {
            OrderEvent::Account(Err(e)) => self.fail(e),
            OrderEvent::Account(Ok(_)) => {
                self.phase = OrderPhase::Request;
                Ok(())
            },
            OrderEvent::Request(Err(CsrFailure::Key(e))) => self.fail(
                AcmeError::Other(text::cat2("Failed to generate P-256 keypair: ", e.as_str())),
            ),
            OrderEvent::Request(Err(CsrFailure::Params(e))) => self.fail(
                AcmeError::Other(text::cat2("Failed to create CertificateParams: ", e.as_str())),
            ),
            OrderEvent::Request(Err(CsrFailure::Request(e))) => self.fail(
                AcmeError::Other(text::cat2("Failed to generate CSR: ", e.as_str())),
            ),
            OrderEvent::Request(Ok(made)) => {
                self.key_pem = made.key_pem;
                self.csr = made.csr;
                self.phase = OrderPhase::NewOrder;
                Ok(())
            },
            OrderEvent::Accepted(outcome) => {
                if self.phase == OrderPhase::PollReady {
                    self.clean_up(registry);
                }
                match outcome {
                    Err(e) => self.fail(map_instant_acme_error(e)),
                    Ok(_) => {
                        if self.phase == OrderPhase::NewOrder || self.phase
                            == OrderPhase::SetReady {
                            self.phase = OrderPhase::Authorization;
                        } else if self.phase == OrderPhase::PollReady {
                            self.phase = OrderPhase::Finalize;
                        } else {
                            self.phase = OrderPhase::Certificate;
                        }
                        Ok(())
                    },
                }
            },
            OrderEvent::Authorization(Err(e)) => self.fail(map_instant_acme_error(e)),
            OrderEvent::Authorization(Ok(None)) => {
                self.phase = OrderPhase::PollReady;
                Ok(())
            },
            OrderEvent::Authorization(Ok(Some(offered))) => {
                match choose_challenge(self.http_enabled, offered.http, offered.alpn) {
                    Some(kind) => {
                        self.phase = OrderPhase::Challenge(kind);
                        Ok(())
                    },
                    None => {
                        let message = text::cat2(
                            "No supported challenge type found in authorization for ",
                            self.hostname.as_str(),
                        );
                        self.fail(AcmeError::Other(message))
                    },
                }
            },
            OrderEvent::HttpChallenge { token, key_authorization } => {
                let copy = token.clone();
                registry.register_http_01(copy, key_authorization);
                let ghost before = text::texts(self.tokens@);
                self.tokens.push(token);
                assert(text::texts(self.tokens@) =~= before.push(token@));
                self.phase = OrderPhase::SetReady;
                Ok(())
            },
            OrderEvent::AlpnChallenge(Err(e)) => self.fail(
                AcmeError::Other(text::cat2("Failed to create TLS-ALPN-01 cert: ", e.as_str())),
            ),
            OrderEvent::AlpnChallenge(Ok(key)) => {
                registry.register_tls_alpn_01(self.hostname.clone(), key);
                self.alpn = true;
                self.phase = OrderPhase::SetReady;
                Ok(())
            },
            OrderEvent::Certificate(Err(e)) => self.fail(map_instant_acme_error(e)),
            OrderEvent::Certificate(Ok(chain)) => {
                match pem::chain_validity(chain.as_str()) {
                    Err(e) => self.fail(AcmeError::Other(e)),
                    Ok((not_before, not_after)) => {
                        self.cert_pem = chain;
                        self.not_before = not_before;
                        self.not_after = not_after;
                        self.phase = OrderPhase::Save;
                        Ok(())
                    },
                }
            },
            OrderEvent::Saved(Err(e)) => self.fail(
                AcmeError::Other(text::cat2("Failed to save certificate: ", e.as_str())),
            ),
            OrderEvent::Saved(Ok(_)) => {
                self.phase = OrderPhase::Issued;
                Ok(())
            },
        }
    }

    /// The certificate that is to be saved, or has been issued.
    pub fn certificate(&self) -> (r: IssuedCertificate)
        requires
            self@.phase == OrderPhase::Save || self@.phase == OrderPhase::Issued,
        ensures
            r.name@ == self@.hostname,
            r.cert_pem@ == self@.cert_pem,
            r.key_pem@ == self@.key_pem,
            r.not_before == self@.not_before,
            r.not_after == self@.not_after,
            r.directory@ == self@.directory,
    {
        IssuedCertificate {
            name: self.hostname.clone(),
            cert_pem: self.cert_pem.clone(),
            key_pem: self.key_pem.clone(),
            not_before: self.not_before,
            not_after: self.not_after,
            directory: self.directory.clone(),
        }
    }

    /// The detail of the `issued` event that is recorded.
    pub fn issued_detail(&self) -> (r: String)
        ensures
            r@ == "directory: "@ + self@.directory,
    {
        text::cat2("directory: ", self.directory.as_str())
    }
}

/// Once the server has said whether the order is ready, no challenge of the
/// order is answered any more, whatever it said.
pub proof fn polled_order_answers_no_challenge<K>(
    o: OrderFacts,
    a: Answers<K>,
    outcome: Result<(), UpstreamError>,
    i: int,
)
    requires
        o.phase == OrderPhase::PollReady,
    ensures
        ({
            let (_, after, _) = reply(o, a, OrderEvent::<K>::Accepted(outcome));
            &&& 0 <= i < o.tokens.len() ==> !after.tokens.contains_key(o.tokens[i])
            &&& o.alpn ==> !after.hosts.contains_key(text::lower(o.hostname))
        }),
{
    if 0 <= i < o.tokens.len() {
        assert(o.tokens.to_set().contains(o.tokens[i]));
    }
}

/// An order never touches the answers to other orders' challenges.
pub proof fn other_challenges_stay<K>(
    o: OrderFacts,
    a: Answers<K>,
    event: OrderEvent<K>,
    token: Seq<char>,
    host: Seq<char>,
)
    requires
        !o.tokens.contains(token),
        event matches OrderEvent::HttpChallenge { token: t, .. } ==> t@ != token,
        host != text::lower(o.hostname),
    ensures
        ({
            let (_, after, _) = reply(o, a, event);
            &&& after.tokens.contains_key(token) == a.tokens.contains_key(token)
            &&& a.tokens.contains_key(token) ==> after.tokens[token] == a.tokens[token]
            &&& after.hosts.contains_key(host) == a.hosts.contains_key(host)
            &&& a.hosts.contains_key(host) ==> after.hosts[host] == a.hosts[host]
        }),
{
    assert(!o.tokens.to_set().contains(token));
}

/// A certificate is issued only where the store has said that it is saved, and
/// an order that has ended takes no further reply.
pub proof fn issued_is_saved<K>(o: OrderFacts, a: Answers<K>, event: OrderEvent<K>)
    requires
        o.phase.accepts(event),
    ensures
        reply(o, a, event).0.phase == OrderPhase::Issued <==> o.phase == OrderPhase::Save
            && (event matches OrderEvent::Saved(Ok(_))),
        reply(o, a, event).0.phase == OrderPhase::Failed <==> reply(o, a, event).2 is Some,
        o.phase != OrderPhase::Issued && o.phase != OrderPhase::Failed,
{
}

} // verus!
