//! What an order for a certificate promises, from the choice of the directory to the
//! certificate that is saved.
use super::acme::{
    choose_challenge, debug_optional, decoding, first_decoded, map_instant_acme_error, pairs,
    AccountStep, AcmeEngine, AcmeError, ChallengeKind, EabKey, Failover, FailoverStep,
    IssuedCertificate, UpstreamError,
};
use super::challenge::{
    acme_identifier_oid, acme_identifier_value, tls_alpn_01_extension, ChallengeRegistry,
};
use super::clock::{format_unix_timestamp, unix_timestamp, MockClock};
use super::order::{CsrFailure, OrderEvent, OrderFacts, OrderPhase, OrderSession, SigningRequest};
use super::pem::{chain_validity, ders, gather_chain, sections, validity_of_sections};
use super::providers::{
    find_provider, providers, requires_eab, resolve_directory_url, AcmeProviderInfo,
};
use super::validity::{parse_cert_validity, parse_time, read_tlv};
use crate::number;
use crate::text;
use vstd::prelude::*;

verus! {

/// What is asked for never changes in the course of an order.
pub open spec fn same_order(a: OrderFacts, b: OrderFacts) -> bool {
    b.hostname == a.hostname && b.directory == a.directory && b.http_enabled == a.http_enabled
}

/// What was obtained so far stays.
pub open spec fn keeps_what_it_has(a: OrderFacts, b: OrderFacts) -> bool {
    &&& b.key_pem == a.key_pem
    &&& b.csr == a.csr
    &&& b.cert_pem == a.cert_pem
    &&& b.not_before == a.not_before
    &&& b.not_after == a.not_after
}

/// The challenges that the order answers stay.
pub open spec fn keeps_its_challenges(a: OrderFacts, b: OrderFacts) -> bool {
    b.tokens == a.tokens && b.alpn == a.alpn
}

/// An order starts with the account and has answered nothing.
pub proof fn orders_start(hostname: &str, directory: &str, http: bool, r: OrderSession)
    requires
        call_ensures(OrderSession::start, (hostname, directory, http), r),
    ensures
        r@.hostname == hostname@,
        r@.directory == directory@,
        r@.http_enabled == http,
        r@.phase == OrderPhase::Account,
        r@.tokens.len() == 0,
        !r@.alpn,
{
}

/// The account comes first: with it the request is made, without it the order fails.
pub proof fn accounts_come_first<K>(
    o: &mut OrderSession,
    outcome: Result<(), AcmeError>,
    registry: &mut ChallengeRegistry<K>,
    r: Result<(), AcmeError>,
)
    requires
        call_ensures(OrderSession::step::<K>, (o, OrderEvent::Account(outcome), registry), r),
    ensures
        outcome is Ok ==> r is Ok && final(o)@.phase == OrderPhase::Request,
        outcome matches Err(e) ==> final(o)@.phase == OrderPhase::Failed && (r matches Err(f) && f@
            == e@),
        same_order(old(o)@, final(o)@),
        keeps_what_it_has(old(o)@, final(o)@),
        keeps_its_challenges(old(o)@, final(o)@),
        final(registry).tokens() == old(registry).tokens(),
        final(registry).hosts() == old(registry).hosts(),
{
}

/// The signing request and its key are kept, and the order is placed; a request that cannot
/// be made fails the order and says at which step.
pub proof fn requests_are_kept<K>(
    o: &mut OrderSession,
    outcome: Result<SigningRequest, CsrFailure>,
    registry: &mut ChallengeRegistry<K>,
    r: Result<(), AcmeError>,
)
    requires
        call_ensures(OrderSession::step::<K>, (o, OrderEvent::Request(outcome), registry), r),
    ensures
        outcome matches Ok(made) ==> r is Ok && final(o)@.phase == OrderPhase::NewOrder && final(o)@.key_pem == made.key_pem@ && final(o)@.csr == made.csr@,
        outcome matches Err(e) ==> final(o)@.phase == OrderPhase::Failed && (r matches Err(
            AcmeError::Other(s),
        ) && s@ == (match e {
            CsrFailure::Key(w) => "Failed to generate P-256 keypair: "@ + w@,
            CsrFailure::Params(w) => "Failed to create CertificateParams: "@ + w@,
            CsrFailure::Request(w) => "Failed to generate CSR: "@ + w@,
        })),
        same_order(old(o)@, final(o)@),
        keeps_its_challenges(old(o)@, final(o)@),
        final(registry).tokens() == old(registry).tokens(),
        final(registry).hosts() == old(registry).hosts(),
{
    if outcome is Err {
        assert(r->Err_0 is Other);
    }
}

/// What the server accepts leads on: a placed order and a challenge that is ready to the
/// next authorization, a ready order to its completion, and a completed one to the
/// certificate. Once the server has said whether the order is ready, its challenges are no
/// longer answered. A refusal fails the order with what the server said.
pub proof fn accepted_orders_go_on<K>(
    o: &mut OrderSession,
    outcome: Result<(), UpstreamError>,
    registry: &mut ChallengeRegistry<K>,
    r: Result<(), AcmeError>,
    error: UpstreamError,
    mapped: AcmeError,
)
    requires
        call_ensures(OrderSession::step::<K>, (o, OrderEvent::Accepted(outcome), registry), r),
        outcome matches Err(e) ==> e == error,
        call_ensures(map_instant_acme_error, (error,), mapped),
    ensures
        ({
            let a = old(o)@;
            let b = final(o)@;
            let polled = a.phase == OrderPhase::PollReady;
            &&& outcome is Ok ==> r is Ok
            &&& outcome is Ok && (a.phase == OrderPhase::NewOrder || a.phase
                == OrderPhase::SetReady) ==> b.phase == OrderPhase::Authorization
            &&& outcome is Ok && polled ==> b.phase == OrderPhase::Finalize
            &&& outcome is Ok && a.phase == OrderPhase::Finalize ==> b.phase
                == OrderPhase::Certificate
            &&& outcome is Err ==> b.phase == OrderPhase::Failed && (r matches Err(f) && f@
                == mapped@)
            &&& same_order(a, b)
            &&& keeps_what_it_has(a, b)
            &&& keeps_its_challenges(a, b)
            &&& !polled ==> final(registry).tokens() == old(registry).tokens() && final(registry).hosts() == old(registry).hosts()
            &&& polled ==> forall|t: Seq<char>| #[trigger]
                final(registry).tokens().contains_key(t) == (old(registry).tokens().contains_key(t)
                    && !a.tokens.contains(t))
            &&& polled ==> forall|t: Seq<char>| #[trigger]
                final(registry).tokens().contains_key(t) ==> final(registry).tokens()[t] == old(registry).tokens()[t]
            &&& polled && a.alpn ==> final(registry).hosts() == old(registry).hosts().remove(
                text::lower(a.hostname),
            )
            &&& polled && !a.alpn ==> final(registry).hosts() == old(registry).hosts()
        }),
{
}

/// Each authorization is answered by the challenge that is chosen of those it offers; where
/// none is left the order is polled, and where none can be answered it fails.
pub proof fn authorizations_are_answered<K>(
    o: &mut OrderSession,
    outcome: Result<Option<super::order::OfferedChallenges>, UpstreamError>,
    registry: &mut ChallengeRegistry<K>,
    r: Result<(), AcmeError>,
    http: bool,
    alpn: bool,
    chosen: Option<ChallengeKind>,
    error: UpstreamError,
    mapped: AcmeError,
)
    requires
        call_ensures(OrderSession::step::<K>, (o, OrderEvent::Authorization(outcome), registry), r),
        outcome matches Ok(Some(offered)) ==> http == offered.http && alpn == offered.alpn,
        call_ensures(choose_challenge, (old(o)@.http_enabled, http, alpn), chosen),
        outcome matches Err(e) ==> e == error,
        call_ensures(map_instant_acme_error, (error,), mapped),
    ensures
        ({
            let b = final(o)@;
            &&& outcome matches Ok(None) ==> r is Ok && b.phase == OrderPhase::PollReady
            &&& outcome matches Ok(Some(_)) ==> (chosen matches Some(kind) ==> r is Ok && b.phase
                == OrderPhase::Challenge(kind))
            &&& outcome matches Ok(Some(_)) ==> (chosen is None ==> b.phase == OrderPhase::Failed
                && (r matches Err(AcmeError::Other(s)) && s@
                == "No supported challenge type found in authorization for "@ + old(o)@.hostname))
            &&& outcome is Err ==> b.phase == OrderPhase::Failed && (r matches Err(f) && f@
                == mapped@)
            &&& same_order(old(o)@, b)
            &&& keeps_what_it_has(old(o)@, b)
            &&& keeps_its_challenges(old(o)@, b)
            &&& final(registry).tokens() == old(registry).tokens()
            &&& final(registry).hosts() == old(registry).hosts()
        }),
{
    if outcome is Ok && outcome->Ok_0 is Some && chosen is None {
        assert(r->Err_0 is Other);
    }
}

/// A challenge is answered as the server will ask: an HTTP-01 token with its key
/// authorization, a TLS-ALPN-01 handshake for the hostname with its certificate. The order
/// knows what it has to take back.
pub proof fn challenges_are_answered<K>(
    o: &mut OrderSession,
    token: String,
    authorization: String,
    registry: &mut ChallengeRegistry<K>,
    r: Result<(), AcmeError>,
    p: &mut OrderSession,
    made: Result<K, String>,
    other: &mut ChallengeRegistry<K>,
    s: Result<(), AcmeError>,
)
    requires
        call_ensures(
            OrderSession::step::<K>,
            (
                o,
                OrderEvent::HttpChallenge { token, key_authorization: authorization },
                registry,
            ),
            r,
        ),
        call_ensures(OrderSession::step::<K>, (p, OrderEvent::AlpnChallenge(made), other), s),
    ensures
        r is Ok,
        final(o)@.phase == OrderPhase::SetReady,
        final(o)@.tokens == old(o)@.tokens.push(token@),
        final(o)@.alpn == old(o)@.alpn,
        same_order(old(o)@, final(o)@),
        keeps_what_it_has(old(o)@, final(o)@),
        final(registry).tokens() == old(registry).tokens().insert(token@, authorization),
        final(registry).hosts() == old(registry).hosts(),
        made matches Ok(key) ==> s is Ok && final(p)@.phase == OrderPhase::SetReady && final(p)@.alpn && final(other).hosts() == old(other).hosts().insert(
            text::lower(old(p)@.hostname),
            key,
        ),
        made matches Err(e) ==> final(p)@.phase == OrderPhase::Failed && final(other).hosts()
            == old(other).hosts() && (s matches Err(AcmeError::Other(m)) && m@
            == "Failed to create TLS-ALPN-01 cert: "@ + e@),
        final(p)@.tokens == old(p)@.tokens,
        final(other).tokens() == old(other).tokens(),
        same_order(old(p)@, final(p)@),
        keeps_what_it_has(old(p)@, final(p)@),
{
    if made is Err {
        assert(s->Err_0 is Other);
    }
}

/// A certificate is saved with the validity that its chain states, and is issued when it
/// is saved; what cannot be read or saved fails the order.
pub proof fn certificates_are_saved<K>(
    o: &mut OrderSession,
    outcome: Result<String, UpstreamError>,
    registry: &mut ChallengeRegistry<K>,
    r: Result<(), AcmeError>,
    chain: &str,
    validity: Result<(i64, i64), String>,
    error: UpstreamError,
    mapped: AcmeError,
    p: &mut OrderSession,
    saved: Result<(), String>,
    other: &mut ChallengeRegistry<K>,
    s: Result<(), AcmeError>,
)
    requires
        call_ensures(OrderSession::step::<K>, (o, OrderEvent::Certificate(outcome), registry), r),
        outcome matches Ok(c) ==> chain@ == c@,
        call_ensures(chain_validity, (chain,), validity),
        outcome matches Err(e) ==> e == error,
        call_ensures(map_instant_acme_error, (error,), mapped),
        call_ensures(OrderSession::step::<K>, (p, OrderEvent::Saved(saved), other), s),
    ensures
        ({
            let b = final(o)@;
            &&& outcome is Ok && validity is Ok ==> r is Ok && b.phase == OrderPhase::Save
                && b.cert_pem == chain@ && b.not_before == validity->Ok_0.0 && b.not_after
                == validity->Ok_0.1
            &&& outcome is Ok && validity is Err ==> b.phase == OrderPhase::Failed && (
            r matches Err(AcmeError::Other(m)) && m@ == validity->Err_0@)
            &&& outcome is Err ==> b.phase == OrderPhase::Failed && (r matches Err(f) && f@
                == mapped@)
            &&& same_order(old(o)@, b)
            &&& b.key_pem == old(o)@.key_pem
            &&& final(registry).tokens() == old(registry).tokens()
            &&& final(registry).hosts() == old(registry).hosts()
        }),
        saved is Ok ==> s is Ok && final(p)@.phase == OrderPhase::Issued,
        saved matches Err(e) ==> final(p)@.phase == OrderPhase::Failed && (s matches Err(
            AcmeError::Other(m),
        ) && m@ == "Failed to save certificate: "@ + e@),
        same_order(old(p)@, final(p)@),
        keeps_what_it_has(old(p)@, final(p)@),
        final(other).tokens() == old(other).tokens(),
        final(other).hosts() == old(other).hosts(),
{
    if saved is Err {
        assert(s->Err_0 is Other);
    }
    if outcome is Ok && validity is Err {
        assert(r->Err_0 is Other);
    }
}

/// The certificate that an order hands out is what it obtained.
pub proof fn orders_hand_out_what_they_got(
    o: &OrderSession,
    cert: IssuedCertificate,
    detail: String,
    phase: OrderPhase,
    csr: &[u8],
)
    requires
        call_ensures(OrderSession::certificate, (o,), cert),
        call_ensures(OrderSession::issued_detail, (o,), detail),
        call_ensures(OrderSession::phase, (o,), phase),
        call_ensures(OrderSession::csr, (o,), csr),
    ensures
        cert.name@ == o@.hostname,
        cert.cert_pem@ == o@.cert_pem,
        cert.key_pem@ == o@.key_pem,
        cert.not_before == o@.not_before,
        cert.not_after == o@.not_after,
        cert.directory@ == o@.directory,
        detail@ == "directory: "@ + o@.directory,
        phase == o@.phase,
        csr@ == o@.csr,
{
}

/// HTTP-01 is chosen where cleartext is served and it is offered, else TLS-ALPN-01 where
/// that is offered, else HTTP-01 where that is.
pub proof fn challenges_are_chosen(enabled: bool, http: bool, alpn: bool, r: Option<ChallengeKind>)
    requires
        call_ensures(choose_challenge, (enabled, http, alpn), r),
    ensures
        (r == Some(ChallengeKind::Http01)) == (http && (enabled || !alpn)),
        (r == Some(ChallengeKind::TlsAlpn01)) == (alpn && !(enabled && http)),
        r is None == (!http && !alpn),
{
}

/// What a failure is called.
pub proof fn order_failures_are_named(
    e: &AcmeError,
    r: String,
    n: Option<u64>,
    shown: String,
    limited: bool,
    server: bool,
    after: Option<u64>,
)
    requires
        call_ensures(AcmeError::message, (e,), r),
        call_ensures(debug_optional, (n,), shown),
        call_ensures(AcmeError::is_rate_limited, (e,), limited),
        call_ensures(AcmeError::is_server_error, (e,), server),
        call_ensures(AcmeError::retry_after_secs, (e,), after),
        *e matches AcmeError::RateLimited { retry_after_secs, .. } ==> n == retry_after_secs,
        *e matches AcmeError::ServerError { status, .. } ==> n == (match status {
            Some(s) => Some(s as u64),
            None => None,
        }),
    ensures
        match *e {
            AcmeError::RateLimited { detail, retry_after_secs } => r@ == "ACME rate limited: "@
                + detail@ + " (retry after "@ + shown@ + "s)"@ && limited && !server && after
                == retry_after_secs,
            AcmeError::ServerError { status, detail } => r@ == "ACME server error ("@ + shown@
                + "): "@ + detail@ && !limited && server && after is None,
            AcmeError::AllProvidersFailed(s) => r@ == "All ACME providers failed. Last error: "@
                + s@ && !limited && !server && after is None,
            AcmeError::Other(s) => r@ == "ACME failure: "@ + s@ && !limited && !server && after
                is None,
        },
        n is None ==> shown@ == "None"@,
        n matches Some(k) ==> shown@ == "Some("@ + number::decimal(k as nat) + ")"@,
{
}

/// A problem of the server is a rate limit where its status is 429 or its type says so, a
/// server error from 500 on, and otherwise a failure with its status and detail.
pub proof fn server_problems_are_classified(
    e: UpstreamError,
    r: AcmeError,
    n: Option<u64>,
    shown: String,
)
    requires
        call_ensures(map_instant_acme_error, (e,), r),
        e matches UpstreamError::Problem { status, .. } ==> n == (match status {
            Some(s) => Some(s as u64),
            None => None,
        }),
        call_ensures(debug_optional, (n,), shown),
    ensures
        match e {
            UpstreamError::Other(s) => r matches AcmeError::Other(t) && t@ == s@,
            UpstreamError::Problem { kind, detail, status } => {
                let said = match detail {
                    Some(d) => d@,
                    None => "ACME error"@,
                };
                let limited = status == Some(429u16) || (kind matches Some(k) && (text::has(
                    k@,
                    "rateLimited"@,
                ) || text::has(k@, "rate-limit"@)));
                let server = status matches Some(s) && s >= 500;
                &&& limited ==> (r matches AcmeError::RateLimited { detail: d, retry_after_secs }
                    && d@ == said && retry_after_secs is None)
                &&& !limited && server ==> (r matches AcmeError::ServerError {
                    status: st,
                    detail: d,
                } && d@ == said && st == status)
                &&& !limited && !server ==> (r matches AcmeError::Other(t) && t@ == "API error ("@
                    + shown@ + "): "@ + said)
            },
        },
{
    match e {
        UpstreamError::Other(s) => {
            assert(r is Other);
        },
        UpstreamError::Problem { kind, detail, status } => {
            let limited = status == Some(429u16) || super::acme::names_rate_limit(kind);
            if limited {
                assert(r is RateLimited);
            } else if status is Some && status->0 >= 500 {
                assert(r is ServerError);
            } else {
                assert(r is Other);
            }
        },
    }
}

/// Directory by directory: a certificate ends the attempt, a rate limit or a server error
/// goes on to the next directory and fails with the last message when none is left, and any
/// other failure ends it at once.
pub proof fn directories_are_tried_in_turn(
    f: &mut Failover,
    outcome: Result<IssuedCertificate, AcmeError>,
    r: FailoverStep,
    error: &AcmeError,
    message: String,
)
    requires
        call_ensures(Failover::after, (f, outcome), r),
        outcome matches Err(e) ==> *error == e,
        call_ensures(AcmeError::message, (error,), message),
    ensures
        ({
            let passing = outcome matches Err(e) && (e is RateLimited || e is ServerError);
            let left = old(f).place() + 1 < old(f).list().len();
            &&& outcome matches Ok(cert) ==> r == FailoverStep::Issued(cert)
            &&& outcome is Err && !passing ==> r == FailoverStep::Failed(outcome->Err_0)
            &&& passing && left ==> r is TryNext && final(f).place() == old(f).place() + 1
            &&& passing && !left ==> (r matches FailoverStep::Failed(
                AcmeError::AllProvidersFailed(m),
            ) && m@ == message@)
            &&& !(passing && left) ==> final(f).place() == old(f).place()
            &&& final(f).list() == old(f).list()
        }),
{
    if outcome is Err {
        let e = outcome->Err_0;
        if (e is RateLimited || e is ServerError) && !(old(f).place() + 1 < old(f).list().len()) {
            assert(r is Failed);
            assert(r->Failed_0 is AllProvidersFailed);
        }
    }
}

/// An attempt starts with the first directory of its list.
pub proof fn attempts_start_with_the_first(
    list: Vec<(String, String)>,
    r: Result<Failover, AcmeError>,
    f: &Failover,
    current: (&str, &str),
)
    requires
        call_ensures(Failover::start, (list,), r),
        call_ensures(Failover::current, (f,), current),
    ensures
        list@.len() == 0 ==> (r matches Err(AcmeError::Other(s)) && s@
            == "No ACME directories available"@),
        list@.len() > 0 ==> (r matches Ok(s) && s.place() == 0 && s.list() == pairs(list@)),
        (current.0@, current.1@) == f.list()[f.place()],
{
    if list@.len() == 0 {
        assert(r->Err_0 is Other);
    }
}

/// The account of a directory is restored where its credentials can be read, and registered
/// anew where they cannot or where restoring failed.
pub proof fn accounts_are_restored(readable: bool, restored: Option<bool>, r: AccountStep)
    requires
        call_ensures(AcmeEngine::account_step, (readable, restored), r),
    ensures
        (r == AccountStep::Create) == (!readable || restored == Some(false)),
        (r == AccountStep::Restore) == (readable && restored is None),
        (r == AccountStep::UseRestored) == (readable && restored == Some(true)),
{
    if restored is Some {
        if restored->0 {
            assert(restored == Some(true));
        } else {
            assert(restored == Some(false));
        }
    }
}

/// A new account is bound to the key that is configured, as soon as both of its parts are;
/// without them it is bound to nothing, unless the provider demands it.
pub proof fn accounts_are_bound(
    engine: &AcmeEngine,
    id: &str,
    decoded: Result<Vec<u8>, String>,
    r: Result<Option<EabKey>, AcmeError>,
    needed: bool,
    contact: String,
)
    requires
        call_ensures(AcmeEngine::bind_eab, (engine, id, decoded), r),
        call_ensures(requires_eab, (id,), needed),
        call_ensures(AcmeEngine::contact, (engine,), contact),
    ensures
        ({
            let given = engine.config.acme_eab_kid is Some && engine.config.acme_eab_hmac is Some;
            &&& given && decoded is Ok ==> (r matches Ok(Some(k)) && k.kid@
                == engine.config.acme_eab_kid->0@ && k.hmac@ == decoded->Ok_0@)
            &&& given && decoded is Err ==> (r matches Err(AcmeError::Other(s)) && s@
                == "Invalid base64 in acme_eab_hmac: "@ + decoded->Err_0@)
            &&& !given && needed ==> (r matches Err(AcmeError::Other(s)) && s@ == "Provider '"@
                + id@ + "' mandates EAB, but acme_eab_kid/acme_eab_hmac are unset"@)
            &&& !given && !needed ==> r matches Ok(None)
        }),
        contact@ == "mailto:"@ + engine.config.admin_email@,
{
    let given = engine.config.acme_eab_kid is Some && engine.config.acme_eab_hmac is Some;
    if given && decoded is Ok {
        assert(r is Ok);
        assert(r->Ok_0 is Some);
    } else if given || needed {
        assert(r is Err);
        assert(r->Err_0 is Other);
    } else {
        assert(r is Ok);
        assert(r->Ok_0 is None);
    }
}

/// A key is read in URL-safe base64 without padding, else in the standard alphabet, else in
/// the URL-safe one with padding.
pub proof fn keys_are_decoded(
    a: Result<Vec<u8>, String>,
    b: Result<Vec<u8>, String>,
    c: Result<Vec<u8>, String>,
    r: Result<Vec<u8>, String>,
)
    requires
        call_ensures(first_decoded, (a, b, c), r),
    ensures
        a is Ok ==> (r matches Ok(v) && v@ == a->Ok_0@),
        a is Err && b is Ok ==> (r matches Ok(v) && v@ == b->Ok_0@),
        a is Err && b is Err && c is Ok ==> (r matches Ok(v) && v@ == c->Ok_0@),
        a is Err && b is Err && c is Err ==> (r matches Err(e) && e@ == c->Err_0@),
{
}

/// The configured key is the one that is bound, by the decoding that comes first.
pub proof fn configured_keys_are_bound(
    engine: &AcmeEngine,
    id: &str,
    r: Result<Option<EabKey>, AcmeError>,
    decoded: Result<Vec<u8>, String>,
    bound: Result<Option<EabKey>, AcmeError>,
)
    requires
        call_ensures(AcmeEngine::prepare_eab, (engine, id), r),
        engine.config.acme_eab_hmac is Some,
        ({
            let h = engine.config.acme_eab_hmac->0@;
            let a = super::acme::base64_url_unpadded(h);
            let b = super::acme::base64_standard(h);
            decoding(decoded) == (if a is Ok {
                a
            } else if b is Ok {
                b
            } else {
                super::acme::base64_url(h)
            })
        }),
        call_ensures(AcmeEngine::bind_eab, (engine, id, decoded), bound),
    ensures
        r matches Ok(Some(k)) ==> (bound matches Ok(Some(l)) && k.kid@ == l.kid@ && k.hmac@
            == l.hmac@),
        r matches Ok(None) ==> bound matches Ok(None),
        r matches Err(e) ==> (bound matches Err(f) && e@ == f@),
{
}

/// The directories to try: none twice, and another fallback provider adds its directory
/// behind the others, unless it is there already.
pub proof fn fallbacks_come_last(
    a: &AcmeEngine,
    b: &AcmeEngine,
    list: Vec<(String, String)>,
    longer: Vec<(String, String)>,
    id: &str,
    url: Option<String>,
)
    requires
        call_ensures(AcmeEngine::resolve_directory_list, (a,), list),
        call_ensures(AcmeEngine::resolve_directory_list, (b,), longer),
        call_ensures(resolve_directory_url, (id, None), url),
        b.config.acme_provider == a.config.acme_provider,
        b.config.acme_directory == a.config.acme_directory,
        text::texts(b.config.acme_fallback_providers@) == text::texts(
            a.config.acme_fallback_providers@,
        ).push(id@),
    ensures
        ({
            let known = url matches Some(u) && exists|i: int|
                0 <= i < list@.len() && (#[trigger] list@[i]).1@ == u@;
            &&& url is Some && !known ==> pairs(longer@) == pairs(list@).push((id@, url->0@))
            &&& url is None || known ==> pairs(longer@) == pairs(list@)
        }),
{
    let ids = text::texts(a.config.acme_fallback_providers@);
    let more = text::texts(b.config.acme_fallback_providers@);
    assert(more.drop_last() =~= ids);
    assert(more.last() == id@);
    let p = pairs(list@);
    if url is Some {
        let u = url->0@;
        if super::acme::lists_url(p, u) {
            let i = choose|i: int| 0 <= i < p.len() && (#[trigger] p[i]).1 == u;
            assert(list@[i].1@ == u);
        }
        if exists|i: int| 0 <= i < list@.len() && (#[trigger] list@[i]).1@ == u {
            let i = choose|i: int| 0 <= i < list@.len() && (#[trigger] list@[i]).1@ == u;
            assert(p[i].1 == u);
        }
    }
}

/// Without fallback providers the directory of the configured provider is the only one.
pub proof fn the_provider_comes_first(
    a: &AcmeEngine,
    list: Vec<(String, String)>,
    id: &str,
    custom: Option<&str>,
    url: Option<String>,
)
    requires
        call_ensures(AcmeEngine::resolve_directory_list, (a,), list),
        a.config.acme_fallback_providers@.len() == 0,
        id@ == a.config.acme_provider@,
        custom is Some == a.config.acme_directory is Some,
        custom matches Some(c) ==> c@ == a.config.acme_directory->0@,
        call_ensures(resolve_directory_url, (id, custom), url),
    ensures
        url is None ==> list@.len() == 0,
        url matches Some(u) ==> pairs(list@) == seq![(id@, u@)],
{
    assert(pairs(list@).len() == list@.len());
}

/// The providers that are known by name, in any case, with their directories and whether
/// they demand a binding of the account.
pub proof fn providers_are_known(
    id: &str,
    custom: Option<&str>,
    url: Option<String>,
    needed: bool,
    found: Option<AcmeProviderInfo>,
)
    requires
        call_ensures(resolve_directory_url, (id, custom), url),
        call_ensures(requires_eab, (id,), needed),
        call_ensures(find_provider, (id,), found),
    ensures
        ({
            let name = text::lower(id@);
            let listed = name == "letsencrypt"@ || name == "letsencrypt-staging"@ || name
                == "google"@ || name == "zerossl"@ || name == "buypass"@;
            &&& name == "letsencrypt"@ ==> (url matches Some(u) && u@
                == "https://acme-v02.api.letsencrypt.org/directory"@)
            &&& name == "letsencrypt-staging"@ ==> (url matches Some(u) && u@
                == "https://acme-staging-v02.api.letsencrypt.org/directory"@)
            &&& name == "google"@ ==> (url matches Some(u) && u@
                == "https://dv.acme-v02.api.pki.goog/directory"@)
            &&& name == "zerossl"@ ==> (url matches Some(u) && u@
                == "https://acme.zerossl.com/v2/DV90"@)
            &&& name == "buypass"@ ==> (url matches Some(u) && u@
                == "https://api.buypass.com/acme/directory"@)
            &&& name == "custom"@ ==> url is Some == custom is Some
            &&& name == "custom"@ && custom is Some ==> url->0@ == custom->0@
            &&& !listed && name != "custom"@ ==> url is None
            &&& needed == (name == "google"@ || name == "zerossl"@)
            &&& found is Some == (listed || name == "custom"@)
            &&& found matches Some(p) ==> p.id@ == name && p.eab_required == needed
        }),
{
    let list = super::providers::catalog();
    reveal_with_fuel(super::providers::find_in, 8);
    ids_are_lower();
    let l1 = list.subrange(1, 6);
    let l2 = l1.subrange(1, 5);
    let l3 = l2.subrange(1, 4);
    let l4 = l3.subrange(1, 3);
    let l5 = l4.subrange(1, 2);
    let l6 = l5.subrange(1, 1);
    assert(list.len() == 6);
    assert(l1[0] == list[1] && l2[0] == list[2] && l3[0] == list[3] && l4[0] == list[4] && l5[0]
        == list[5] && l6.len() == 0);
}

proof fn ids_are_lower()
    ensures
        text::lower("letsencrypt"@) == "letsencrypt"@,
        text::lower("letsencrypt-staging"@) == "letsencrypt-staging"@,
        text::lower("google"@) == "google"@,
        text::lower("zerossl"@) == "zerossl"@,
        text::lower("buypass"@) == "buypass"@,
        text::lower("custom"@) == "custom"@,
        "letsencrypt"@.len() == 11,
        "letsencrypt-staging"@.len() == 19,
        "google"@.len() == 6,
        "zerossl"@.len() == 7,
        "buypass"@.len() == 7,
        "custom"@.len() == 6,
        "zerossl"@ != "buypass"@,
        "google"@ != "custom"@,
{
    reveal_strlit("letsencrypt");
    reveal_strlit("letsencrypt-staging");
    reveal_strlit("google");
    reveal_strlit("zerossl");
    reveal_strlit("buypass");
    reveal_strlit("custom");
    assert(text::lower("letsencrypt"@) =~= "letsencrypt"@);
    assert(text::lower("letsencrypt-staging"@) =~= "letsencrypt-staging"@);
    assert(text::lower("google"@) =~= "google"@);
    assert(text::lower("zerossl"@) =~= "zerossl"@);
    assert(text::lower("buypass"@) =~= "buypass"@);
    assert(text::lower("custom"@) =~= "custom"@);
    assert("zerossl"@[0] == 'z' && "buypass"@[0] == 'b' && "google"@[0] == 'g' && "custom"@[0]
        == 'c');
}

/// A challenge answers with what it was registered for, until it is taken back; others are
/// not touched.
pub proof fn registered_challenges_answer<K>(
    r: &mut ChallengeRegistry<K>,
    token: String,
    authorization: String,
    s: &mut ChallengeRegistry<K>,
    t: &str,
    u: &mut ChallengeRegistry<K>,
    host: String,
    key: K,
    v: &mut ChallengeRegistry<K>,
    h: &str,
)
    requires
        call_ensures(
            ChallengeRegistry::<K>::register_http_01,
            (r, token, authorization),
            (),
        ),
        call_ensures(ChallengeRegistry::<K>::remove_http_01, (s, t), ()),
        call_ensures(ChallengeRegistry::<K>::register_tls_alpn_01, (u, host, key), ()),
        call_ensures(ChallengeRegistry::<K>::remove_tls_alpn_01, (v, h), ()),
    ensures
        final(r).tokens() == old(r).tokens().insert(token@, authorization),
        final(r).hosts() == old(r).hosts(),
        final(s).tokens() == old(s).tokens().remove(t@),
        final(s).hosts() == old(s).hosts(),
        final(u).hosts() == old(u).hosts().insert(text::lower(host@), key),
        final(u).tokens() == old(u).tokens(),
        final(v).hosts() == old(v).hosts().remove(text::lower(h@)),
        final(v).tokens() == old(v).tokens(),
{
}

/// A request under `/.well-known/acme-challenge/` is answered with the key authorization of
/// the token that it names, where there is one, and no other request is.
pub proof fn tokens_are_answered<K>(
    r: &ChallengeRegistry<K>,
    path: &str,
    answer: Option<String>,
    token: &str,
    found: Option<String>,
    host: &str,
    key: Option<&K>,
)
    requires
        call_ensures(ChallengeRegistry::<K>::answer_to, (r, path), answer),
        call_ensures(ChallengeRegistry::<K>::get_http_01, (r, token), found),
        call_ensures(ChallengeRegistry::<K>::get_tls_alpn_01, (r, host), key),
    ensures
        found is Some == r.tokens().contains_key(token@),
        found matches Some(a) ==> a@ == r.tokens()[token@]@,
        key is Some == r.hosts().contains_key(text::lower(host@)),
        key matches Some(k) ==> *k == r.hosts()[text::lower(host@)],
        path@ == "/.well-known/acme-challenge/"@ + token@ ==> text::opt(answer) == text::opt(found),
        !"/.well-known/acme-challenge/"@.is_prefix_of(path@) ==> answer is None,
{
    let prefix = "/.well-known/acme-challenge/"@;
    if path@ == prefix + token@ {
        assert(prefix.is_prefix_of(path@));
        assert(path@.subrange(prefix.len() as int, path@.len() as int) =~= token@);
    }
}

/// The certificate of a TLS-ALPN-01 challenge holds the SHA-256 digest of the key
/// authorization as an OCTET STRING, under 1.3.6.1.5.5.7.1.31.
pub proof fn challenge_extensions_hold_the_digest(
    authorization: &str,
    v: Vec<u8>,
    digest: &Vec<u8>,
    w: Vec<u8>,
    oid: Vec<u64>,
)
    requires
        call_ensures(tls_alpn_01_extension, (authorization,), v),
        call_ensures(acme_identifier_value, (digest,), w),
        call_ensures(acme_identifier_oid, (), oid),
        digest@.len() == 32,
    ensures
        digest@ == crate::digest::sha256(vstd::utf8::encode_utf8(authorization@)) ==> v@ == w@,
        w@ == seq![0x04u8, 0x20u8] + digest@,
        v@.len() == 34,
        oid@ == seq![1u64, 3, 6, 1, 5, 5, 7, 1, 31],
{
}

/// A chain is made of all of its sections in order; one that cannot be read, or none at
/// all, is an error.
pub proof fn chains_are_gathered(
    items: Vec<Result<Vec<u8>, String>>,
    r: Result<Vec<Vec<u8>>, String>,
    i: int,
)
    requires
        call_ensures(gather_chain, (items,), r),
    ensures
        (forall|j: int| 0 <= j < items@.len() ==> #[trigger] items@[j] is Ok) && items@.len() > 0
            ==> (r matches Ok(v) && v@.len() == items@.len()),
        r is Ok && 0 <= i < items@.len() ==> items@[i] is Ok && r->Ok_0@[i]@ == items@[i]->Ok_0@,
        items@.len() == 0 ==> (r matches Err(e) && e@ == "No certificates found in cert_pem"@),
        0 <= i < items@.len() && items@[i] is Err && (forall|j: int|
            0 <= j < i ==> #[trigger] items@[j] is Ok) ==> (r matches Err(e) && e@
            == items@[i]->Err_0@),
{
    let s = sections(items@);
    assert(s.len() == items@.len());
    assert forall|j: int| 0 <= j < s.len() implies (#[trigger] s[j] is Ok) == items@[j] is Ok by {}
    good_prefix(s);
    if r is Ok {
        let v = r->Ok_0@;
        assert(ders(v).len() == v.len());
        if 0 <= i < items@.len() {
            assert(s[i] is Ok);
            assert(ders(v)[i] == s[i]->Ok_0);
        }
    }
    if 0 <= i < items@.len() && items@[i] is Err && (forall|j: int|
        0 <= j < i ==> #[trigger] items@[j] is Ok) {
        assert(s[i] is Err);
        let n = super::pem::good_sections(s);
        if n > i {
            assert(s[i] is Ok);
        }
        if n < i {
            assert(items@[n] is Ok);
            assert(s[n] is Ok);
        }
    }
}

proof fn good_prefix(s: Seq<Result<Seq<u8>, Seq<char>>>)
    ensures
        ({
            let n = super::pem::good_sections(s);
            &&& 0 <= n <= s.len()
            &&& forall|j: int| 0 <= j < n ==> #[trigger] s[j] is Ok
            &&& n < s.len() ==> s[n] is Err
        }),
    decreases s.len(),
{
    if s.len() > 0 && s[0] is Ok {
        let rest = s.subrange(1, s.len() as int);
        good_prefix(rest);
        let n = super::pem::good_sections(s);
        assert forall|j: int| 0 <= j < n implies #[trigger] s[j] is Ok by {
            if j > 0 {
                assert(rest[j - 1] == s[j]);
            }
        }
        if n < s.len() {
            assert(rest[n - 1] == s[n]);
        }
    }
}

/// The validity of a chain is that of its first certificate.
pub proof fn chains_are_valid_as_their_leaf(
    items: &Vec<Result<Vec<u8>, String>>,
    r: Result<(i64, i64), String>,
    leaf: &[u8],
    parsed: Result<(i64, i64), String>,
)
    requires
        call_ensures(validity_of_sections, (items,), r),
        items@.len() > 0 && items@[0] is Ok ==> leaf@ == items@[0]->Ok_0@,
        call_ensures(parse_cert_validity, (leaf,), parsed),
    ensures
        items@.len() == 0 ==> (r matches Err(e) && e@ == "Empty certificate chain returned"@),
        items@.len() > 0 && items@[0] is Err ==> (r matches Err(e) && e@
            == "Invalid certificate DER: "@ + items@[0]->Err_0@),
        items@.len() > 0 && items@[0] is Ok && parsed is Ok ==> r == parsed,
        items@.len() > 0 && items@[0] is Ok && parsed is Err ==> (r matches Err(e) && e@
            == "Failed to parse validity: "@ + parsed->Err_0@),
{
    let s = sections(items@);
    if items@.len() > 0 {
        assert(s[0] == (match items@[0] {
            Ok(der) => Ok::<Seq<u8>, Seq<char>>(der@),
            Err(e) => Err(e@),
        }));
    }
}

/// What stands at the front of some bytes.
pub open spec fn reads(b: Seq<u8>, x: (u8, &[u8], &[u8])) -> bool {
    super::validity::tlv(b) == Ok::<(u8, Seq<u8>, Seq<u8>), Seq<char>>((x.0, x.1@, x.2@))
}

proof fn element_is_read(b: &[u8], x: (u8, &[u8], &[u8]))
    requires
        call_ensures(read_tlv, (b,), Ok::<(u8, &[u8], &[u8]), String>(x)),
    ensures
        reads(b@, x),
{
}

proof fn period_is_read(
    b: &[u8],
    from: (u8, &[u8], &[u8]),
    to: (u8, &[u8], &[u8]),
    not_before: i64,
    not_after: i64,
)
    requires
        call_ensures(read_tlv, (b,), Ok::<(u8, &[u8], &[u8]), String>(from)),
        call_ensures(read_tlv, (from.2,), Ok::<(u8, &[u8], &[u8]), String>(to)),
        call_ensures(parse_time, (from.1, from.0), Ok::<i64, String>(not_before)),
        call_ensures(parse_time, (to.1, to.0), Ok::<i64, String>(not_after)),
    ensures
        super::validity::period_of(b@) == Ok::<(int, int), Seq<char>>(
            (not_before as int, not_after as int),
        ),
{
    element_is_read(b, from);
    element_is_read(from.2, to);
}

proof fn fields_are_read(
    b: Seq<u8>,
    serial: (u8, &[u8], &[u8]),
    algorithm: (u8, &[u8], &[u8]),
    issuer: (u8, &[u8], &[u8]),
    validity: (u8, &[u8], &[u8]),
)
    requires
        reads(b, serial),
        reads(serial.2@, algorithm),
        reads(algorithm.2@, issuer),
        reads(issuer.2@, validity),
    ensures
        serial.0 == 0x02 && algorithm.0 == 0x30 && issuer.0 == 0x30 && validity.0 == 0x30
            ==> super::validity::validity_from_serial(b) == super::validity::period_of(
            validity.1@,
        ),
        serial.0 != 0x02 || algorithm.0 != 0x30 || issuer.0 != 0x30 || validity.0 != 0x30
            ==> super::validity::validity_from_serial(b) is Err,
{
}

proof fn frame_is_read(
    der: Seq<u8>,
    cert: (u8, &[u8], &[u8]),
    tbs: (u8, &[u8], &[u8]),
    version: (u8, &[u8], &[u8]),
    fields: Seq<u8>,
)
    requires
        reads(der, cert),
        reads(cert.1@, tbs),
        reads(tbs.1@, version),
        fields == (if version.0 == 0xa0 {
            version.2@
        } else {
            tbs.1@
        }),
    ensures
        cert.0 == 0x30 && tbs.0 == 0x30 ==> super::validity::validity_of(der)
            == super::validity::validity_from_serial(fields),
        cert.0 != 0x30 || tbs.0 != 0x30 ==> super::validity::validity_of(der) is Err,
{
}

/// The validity of a certificate is what the two times of its validity sequence say, behind
/// the serial number, the signature algorithm and the issuer, with a version before them or
/// without.
#[verifier::rlimit(100)]
#[verifier::spinoff_prover]
pub proof fn certificates_state_their_validity(
    der: &[u8],
    r: Result<(i64, i64), String>,
    cert: (u8, &[u8], &[u8]),
    tbs: (u8, &[u8], &[u8]),
    version: (u8, &[u8], &[u8]),
    fields: &[u8],
    serial: (u8, &[u8], &[u8]),
    algorithm: (u8, &[u8], &[u8]),
    issuer: (u8, &[u8], &[u8]),
    validity: (u8, &[u8], &[u8]),
    from: (u8, &[u8], &[u8]),
    to: (u8, &[u8], &[u8]),
    not_before: i64,
    not_after: i64,
)
    requires
        call_ensures(parse_cert_validity, (der,), r),
        call_ensures(read_tlv, (der,), Ok::<(u8, &[u8], &[u8]), String>(cert)),
        call_ensures(read_tlv, (cert.1,), Ok::<(u8, &[u8], &[u8]), String>(tbs)),
        call_ensures(read_tlv, (tbs.1,), Ok::<(u8, &[u8], &[u8]), String>(version)),
        fields@ == (if version.0 == 0xa0 {
            version.2@
        } else {
            tbs.1@
        }),
        call_ensures(read_tlv, (fields,), Ok::<(u8, &[u8], &[u8]), String>(serial)),
        call_ensures(read_tlv, (serial.2,), Ok::<(u8, &[u8], &[u8]), String>(algorithm)),
        call_ensures(read_tlv, (algorithm.2,), Ok::<(u8, &[u8], &[u8]), String>(issuer)),
        call_ensures(read_tlv, (issuer.2,), Ok::<(u8, &[u8], &[u8]), String>(validity)),
        call_ensures(read_tlv, (validity.1,), Ok::<(u8, &[u8], &[u8]), String>(from)),
        call_ensures(read_tlv, (from.2,), Ok::<(u8, &[u8], &[u8]), String>(to)),
        call_ensures(parse_time, (from.1, from.0), Ok::<i64, String>(not_before)),
        call_ensures(parse_time, (to.1, to.0), Ok::<i64, String>(not_after)),
    ensures
        cert.0 == 0x30 && tbs.0 == 0x30 && serial.0 == 0x02 && algorithm.0 == 0x30 && issuer.0
            == 0x30 && validity.0 == 0x30 ==> r == Ok::<(i64, i64), String>(
            (not_before, not_after),
        ),
        cert.0 != 0x30 || tbs.0 != 0x30 || serial.0 != 0x02 || algorithm.0 != 0x30 || issuer.0
            != 0x30 || validity.0 != 0x30 ==> r is Err,
{
    assert(reads(der@, cert)) by {
        element_is_read(der, cert);
    }
    assert(reads(cert.1@, tbs)) by {
        element_is_read(cert.1, tbs);
    }
    assert(reads(tbs.1@, version)) by {
        element_is_read(tbs.1, version);
    }
    assert(reads(fields@, serial)) by {
        element_is_read(fields, serial);
    }
    assert(reads(serial.2@, algorithm)) by {
        element_is_read(serial.2, algorithm);
    }
    assert(reads(algorithm.2@, issuer)) by {
        element_is_read(algorithm.2, issuer);
    }
    assert(reads(issuer.2@, validity)) by {
        element_is_read(issuer.2, validity);
    }
    frame_is_read(der@, cert, tbs, version, fields@);
    fields_are_read(fields@, serial, algorithm, issuer, validity);
    period_is_read(validity.1, from, to, not_before, not_after);
    assert(super::validity::period(r) == super::validity::validity_of(der@));
}

/// A timestamp is written as its date and time of day, which name it.
pub proof fn timestamps_are_written(ts: i64, r: String, days: int, y: int, m: int, d: int, s: int)
    requires
        call_ensures(format_unix_timestamp, (ts,), r),
        super::clock::is_date(y, m, d),
        days == super::clock::days_of(y, m, d),
        ts == days * 86400 + s,
        0 <= s < 86400,
    ensures
        r@ == number::padded(y, 4) + "-"@ + number::padded(m, 2) + "-"@ + number::padded(d, 2)
            + " "@ + number::padded(s / 3600, 2) + ":"@ + number::padded(s % 3600 / 60, 2) + ":"@
            + number::padded(s % 60, 2) + " UTC"@,
{
    super::clock::day_names_the_date(y, m, d);
    whole_days(days, s);
    timestamp_of_date(ts as int, days, y, m, d, s);
}

proof fn whole_days(days: int, s: int)
    requires
        0 <= s < 86400,
    ensures
        (days * 86400 + s) / 86400 == days,
        (days * 86400 + s) % 86400 == s,
{
}

proof fn timestamp_of_date(ts: int, days: int, y: int, m: int, d: int, s: int)
    requires
        super::clock::date_of(days) == (y, m, d),
        ts / 86400 == days,
        ts % 86400 == s,
    ensures
        super::clock::timestamp_text(ts) == number::padded(y, 4) + "-"@ + number::padded(m, 2)
            + "-"@ + number::padded(d, 2) + " "@ + number::padded(s / 3600, 2) + ":"@
            + number::padded(s % 3600 / 60, 2) + ":"@ + number::padded(s % 60, 2) + " UTC"@,
{
}

/// A clock that is set shows what it was set to, and is moved by what it is moved.
pub proof fn clocks_show_their_time(
    since: Option<u64>,
    read: i64,
    c: &mut MockClock,
    ts: i64,
    e: &mut MockClock,
    secs: i64,
    fresh: MockClock,
)
    requires
        call_ensures(unix_timestamp, (since,), read),
        call_ensures(MockClock::set, (c, ts), ()),
        call_ensures(MockClock::advance, (e, secs), ()),
        call_ensures(MockClock::new, (ts,), fresh),
    ensures
        since is None ==> read == 0,
        since matches Some(s) && s <= i64::MAX ==> read == since->0,
        final(c).shows() == ts,
        fresh.shows() == ts,
        i64::MIN <= old(e).shows() + secs <= i64::MAX ==> final(e).shows() == old(e).shows() + secs,
{
}

} // verus!
