//! What the certificate manager and the handshakes promise.
use super::acme::AcmeError;
use super::challenge::ChallengeRegistry;
use super::keys::{challenge_key, parse_certified_key, served_chain, served_key, ChallengeKeyError};
use super::pem::certificate_chain;
use super::manager::{
    follower_result, lowered_names, renewal_delay_secs, renewal_failure, CachedCert, CertManager,
    DueRenewal, EnsureStep, IssuanceOutcome, IssuanceReport, LoadedKey, ManagerFacts, RenewError,
    RenewalRow,
};
use super::renewal::{compute_backoff, compute_backoff_secs, should_renew};
use super::resolver::{
    default_hold_timeout, CertResolver, ClientHello, HandshakeWaiter, Resolution,
};
use super::state::{CertState, StateFacts};
use super::validity::parse_cert_validity;
use crate::control::protocol::{CertCounts, RenewResponse};
use crate::number;
use crate::text;
use core::time::Duration;
use rustls::sign::CertifiedKey;
use std::sync::Arc;
use vstd::prelude::*;

verus! {

/// Nothing changes for any other hostname, nor for the manager as a whole.
pub open spec fn others_stay<K>(a: ManagerFacts<K>, b: ManagerFacts<K>, host: Seq<char>) -> bool {
    &&& b.root == a.root
    &&& b.orders == a.orders
    &&& forall|h: Seq<char>|
        h != host ==> #[trigger] b.states.contains_key(h) == a.states.contains_key(h) && (
        a.states.contains_key(h) ==> b.states[h] == a.states[h])
    &&& forall|h: Seq<char>|
        h != host ==> #[trigger] b.stored.contains_key(h) == a.stored.contains_key(h) && (
        a.stored.contains_key(h) ==> b.stored[h] == a.stored[h])
    &&& forall|h: Seq<char>|
        h != host ==> #[trigger] b.failures.contains_key(h) == a.failures.contains_key(h) && (
        a.failures.contains_key(h) ==> b.failures[h] == a.failures[h])
    &&& forall|h: Seq<char>|
        h != host ==> #[trigger] b.ordering.contains(h) == a.ordering.contains(h)
    &&& forall|h: Seq<char>|
        h != host ==> #[trigger] b.in_flight.contains(h) == a.in_flight.contains(h)
    &&& forall|h: Seq<char>| h != host ==> #[trigger] b.active.contains(h) == a.active.contains(h)
    &&& forall|h: Seq<char>|
        h != host ==> #[trigger] b.released.contains(h) == a.released.contains(h)
    &&& forall|h: Seq<char>|
        h != host ==> #[trigger] b.unsaved.contains(h) == a.unsaved.contains(h)
}

/// Whether the hostname is active does not change.
pub open spec fn activity_stays<K>(a: ManagerFacts<K>, b: ManagerFacts<K>) -> bool {
    b.active == a.active && b.released == a.released && b.unsaved == a.unsaved
}

/// The certificate that is served for a hostname does not change.
pub open spec fn service_stays<K>(a: ManagerFacts<K>, b: ManagerFacts<K>) -> bool {
    b.stored == a.stored
}

/// The hostname has the state, and those who watch are told of it.
pub open spec fn enters<K>(
    a: ManagerFacts<K>,
    b: ManagerFacts<K>,
    host: Seq<char>,
    state: StateFacts,
) -> bool {
    b.states.contains_key(host) && b.states[host] == state && b.changes == a.changes.push(
        (host, state),
    )
}

/// The certificate is served for the hostname until the expiry that its leaf states; one
/// without an expiry is served without end.
pub open spec fn is_in_service<K>(
    b: ManagerFacts<K>,
    host: Seq<char>,
    loaded: LoadedKey<K>,
    parsed: Result<(i64, i64), String>,
) -> bool {
    &&& b.stored.contains_key(host)
    &&& b.stored[host].key == loaded.key
    &&& loaded.leaf is Some && parsed is Ok ==> b.stored[host].not_after == parsed->Ok_0.1
    &&& loaded.leaf is None || parsed is Err ==> b.stored[host].not_after == 0x7fff_ffff_ffff_ffff
}

proof fn leaf_expiry_is_parsed<K>(
    loaded: LoadedKey<K>,
    leaf: &[u8],
    parsed: Result<(i64, i64), String>,
)
    requires
        loaded.leaf matches Some(der) ==> leaf@ == der@,
        call_ensures(parse_cert_validity, (leaf,), parsed),
    ensures
        loaded.leaf is Some && parsed is Ok ==> super::manager::leaf_expiry(loaded)
            == parsed->Ok_0.1,
        loaded.leaf is None || parsed is Err ==> super::manager::leaf_expiry(loaded)
            == 0x7fff_ffff_ffff_ffff,
{
}

/// An issued certificate is put into service: the hostname is issued, its handshakes are
/// no longer held, its failures are forgotten, everyone who waited for the order is told,
/// and the root's success is reported.
pub proof fn issued_certificates_are_put_in_service<K>(
    m: &mut CertManager<K>,
    name: &str,
    loaded: LoadedKey<K>,
    not_after: i64,
    now: i64,
    r: IssuanceReport,
    leaf: &[u8],
    parsed: Result<(i64, i64), String>,
)
    requires
        call_ensures(
            CertManager::<K>::end_issuance,
            (m, name, IssuanceOutcome::Issued { loaded, not_after }, now),
            r,
        ),
        loaded.leaf matches Some(der) ==> leaf@ == der@,
        call_ensures(parse_cert_validity, (leaf,), parsed),
    ensures
        ({
            let a = old(m)@;
            let b = final(m)@;
            let host = text::lower(name@);
            &&& is_in_service(b, host, loaded, parsed)
            &&& enters(a, b, host, StateFacts::Issued { not_after })
            &&& !b.failures.contains_key(host)
            &&& !b.in_flight.contains(host)
            &&& !b.ordering.contains(host)
            &&& activity_stays(a, b)
            &&& others_stay(a, b, host)
            &&& r.result is Ok
            &&& r.failed_event is None
            &&& r.wake == a.ordering.contains(host)
            &&& r.followers is Some == a.in_flight.contains(host)
            &&& r.followers matches Some(f) ==> f is Ok
            &&& r.notify is Some == (host == a.root)
            &&& r.notify matches Some(s) ==> s@ == "issued"@
        }),
{
    leaf_expiry_is_parsed(loaded, leaf, parsed);
}

/// The client offers `acme-tls/1`, the protocol of challenges.
pub open spec fn validates(hello: ClientHello<'_>) -> bool {
    exists|i: int|
        0 <= i < hello.alpn@.len() && (#[trigger] hello.alpn@[i])@ == seq![
            0x61u8,
            0x63,
            0x6d,
            0x65,
            0x2d,
            0x74,
            0x6c,
            0x73,
            0x2f,
            0x31,
        ]
}

proof fn validating_offers_acme(hello: ClientHello<'_>)
    ensures
        validates(hello) == super::resolver::offers_acme(hello.alpn@),
{
}

/// A handshake for a hostname whose certificate was issued is answered with that
/// certificate until it expires, whatever the letters' case, and not after that.
pub proof fn handshakes_get_what_was_issued<K>(
    m: &mut CertManager<K>,
    name: &str,
    loaded: LoadedKey<K>,
    not_after: i64,
    now: i64,
    r: IssuanceReport,
    after: &CertManager<K>,
    resolver: &CertResolver<K>,
    hello: &ClientHello<'_>,
    challenges: &ChallengeRegistry<K>,
    later: i64,
    answer: Resolution<'_, K>,
)
    requires
        call_ensures(
            CertManager::<K>::end_issuance,
            (m, name, IssuanceOutcome::Issued { loaded, not_after }, now),
            r,
        ),
        *after == *final(m),
        call_ensures(CertManager::<K>::resolver, (after,), resolver),
        call_ensures(CertResolver::<K>::resolve, (resolver, hello, challenges, later), answer),
        hello.server_name is Some,
        text::lower(hello.server_name->0@) == text::lower(name@),
        !validates(*hello),
    ensures
        ({
            let expiry = final(m)@.stored[text::lower(name@)].not_after;
            &&& later < expiry ==> (answer matches Resolution::Serve(k) && *k == loaded.key)
            &&& later >= expiry ==> answer is Reject
        }),
{
    validating_offers_acme(*hello);
}

/// An order that failed leaves what is served alone. The hostname is failed with the
/// reason, may be tried again after the backoff for one more failure, and no one waits for
/// it any more.
pub proof fn failed_orders_are_reported<K>(
    m: &mut CertManager<K>,
    name: &str,
    error: AcmeError,
    now: i64,
    r: IssuanceReport,
    seen: &AcmeError,
    message: String,
    asked: Option<u64>,
    count: u32,
    backoff: u64,
)
    requires
        call_ensures(
            CertManager::<K>::end_issuance,
            (m, name, IssuanceOutcome::Failed(error), now),
            r,
        ),
        *seen == error,
        call_ensures(AcmeError::message, (seen,), message),
        call_ensures(AcmeError::retry_after_secs, (seen,), asked),
        count == (if old(m)@.failures.contains_key(text::lower(name@)) {
            old(m)@.failures[text::lower(name@)] + 1
        } else {
            1
        }),
        call_ensures(compute_backoff_secs, (count, asked), backoff),
        backoff <= i64::MAX,
        now + backoff <= i64::MAX,
    ensures
        ({
            let a = old(m)@;
            let b = final(m)@;
            let host = text::lower(name@);
            &&& enters(
                a,
                b,
                host,
                StateFacts::Failed { error: message@, next_retry: (now + backoff) as i64 },
            )
            &&& b.failures.contains_key(host)
            &&& b.failures[host] == count
            &&& !b.in_flight.contains(host)
            &&& !b.ordering.contains(host)
            &&& service_stays(a, b)
            &&& activity_stays(a, b)
            &&& others_stay(a, b, host)
            &&& r.result == Err::<(), AcmeError>(error)
            &&& r.failed_event matches Some(d) && d@ == message@
            &&& r.wake == a.ordering.contains(host)
            &&& r.followers is Some == a.in_flight.contains(host)
            &&& r.followers matches Some(f) ==> (f matches Err(e) && e@ == message@)
            &&& r.notify is Some == (host == a.root)
            &&& r.notify matches Some(s) ==> s@ == "failed"@
        }),
{
    let secs = super::renewal::backoff_secs(count as nat, asked);
    assert(secs as u64 as i64 == backoff);
}

/// A certificate whose key cannot be read is a failed order: what is served stays, and the
/// failure is counted and named.
pub proof fn unreadable_keys_are_failures<K>(
    m: &mut CertManager<K>,
    name: &str,
    why: String,
    now: i64,
    r: IssuanceReport,
)
    requires
        call_ensures(
            CertManager::<K>::end_issuance,
            (m, name, IssuanceOutcome::Unreadable(why), now),
            r,
        ),
        !old(m)@.failures.contains_key(text::lower(name@)) || old(m)@.failures[text::lower(name@)]
            < u32::MAX,
    ensures
        ({
            let a = old(m)@;
            let b = final(m)@;
            let host = text::lower(name@);
            let message = "ACME failure: "@ + ("Failed to parse issued key: "@ + why@);
            &&& b.states.contains_key(host)
            &&& b.states[host] matches StateFacts::Failed { error, .. } && error == message
            &&& b.failures.contains_key(host)
            &&& b.failures[host] == (if a.failures.contains_key(host) {
                a.failures[host] + 1
            } else {
                1
            })
            &&& !b.in_flight.contains(host)
            &&& !b.ordering.contains(host)
            &&& service_stays(a, b)
            &&& activity_stays(a, b)
            &&& others_stay(a, b, host)
            &&& r.result is Err
            &&& r.failed_event matches Some(d) && d@ == message
            &&& r.wake == a.ordering.contains(host)
            &&& r.followers is Some == a.in_flight.contains(host)
            &&& r.followers matches Some(f) ==> (f matches Err(e) && e@ == message)
            &&& r.notify is Some == (host == a.root)
        }),
{
}

/// An order that begins holds the handshakes of its hostname and says so, unless the
/// certificate that it renews is still valid: then nothing changes.
pub proof fn orders_begin<K>(
    m: &mut CertManager<K>,
    name: &str,
    now: i64,
    notify: Option<&'static str>,
)
    requires
        call_ensures(CertManager::<K>::begin_issuance, (m, name, now), notify),
    ensures
        begins(old(m)@, final(m)@, name@, now, notify),
{
}

/// What the beginning of an order changes, and what is reported of it.
pub open spec fn begins<K>(
    a: ManagerFacts<K>,
    b: ManagerFacts<K>,
    name: Seq<char>,
    now: i64,
    notify: Option<&'static str>,
) -> bool {
    let host = text::lower(name);
    let renews = a.states.contains_key(host) && (a.states[host] matches StateFacts::Renewing {
        not_after,
    } && not_after > now);
    &&& renews ==> b == a
    &&& !renews ==> {
        &&& enters(a, b, host, StateFacts::OrderInProgress)
        &&& b.ordering.contains(host)
        &&& b.in_flight == a.in_flight
        &&& b.failures == a.failures
        &&& service_stays(a, b)
        &&& activity_stays(a, b)
        &&& others_stay(a, b, host)
    }
    &&& notify is Some == (host == a.root)
    &&& notify matches Some(s) ==> s@ == (if renews {
        "renewing"@
    } else {
        "ordering"@
    })
}

/// A certificate that is asked for makes its hostname active. A valid one is not ordered
/// again, an order under way is followed, and otherwise the request leads the order.
pub proof fn certificates_are_ensured<K>(
    m: &mut CertManager<K>,
    name: &str,
    now: i64,
    r: EnsureStep,
)
    requires
        call_ensures(CertManager::<K>::ensure, (m, name, now), r),
    ensures
        ({
            let a = old(m)@;
            let b = final(m)@;
            let host = text::lower(name@);
            let valid = a.states.contains_key(host) && (a.states[host] matches StateFacts::Issued {
                not_after,
            } && not_after > now);
            let renews = a.states.contains_key(host) && (
            a.states[host] matches StateFacts::Renewing { not_after } && not_after > now);
            let under_way = a.in_flight.contains(host);
            &&& r is AlreadyIssued == valid
            &&& r is Follow == (!valid && under_way)
            &&& r is Lead == (!valid && !under_way)
            &&& b.active.contains(host)
            &&& !b.released.contains(host)
            &&& b.unsaved.contains(host)
            &&& others_stay(a, b, host)
            &&& service_stays(a, b)
            &&& b.failures == a.failures
            &&& !(r is Lead) ==> b.states == a.states && b.in_flight == a.in_flight && b.ordering
                == a.ordering && b.changes == a.changes
            &&& r is Lead ==> b.in_flight.contains(host)
            &&& r is Lead && !renews ==> enters(a, b, host, StateFacts::OrderInProgress)
                && b.ordering.contains(host)
            &&& r is Lead && renews ==> b.states == a.states && b.ordering == a.ordering
                && b.changes == a.changes
            &&& r matches EnsureStep::Lead(n) ==> n is Some == (host == a.root)
            &&& r matches EnsureStep::Lead(Some(s)) ==> s@ == (if renews {
                "renewing"@
            } else {
                "ordering"@
            })
        }),
{
}

/// At most four orders are in flight; one that ends gives its place back.
pub proof fn orders_are_limited<K>(
    m: &mut CertManager<K>,
    started: bool,
    n: &mut CertManager<K>,
    seen: &CertManager<K>,
    count: usize,
)
    requires
        call_ensures(CertManager::<K>::start_order, (m,), started),
        call_ensures(CertManager::<K>::finish_order, (n,), ()),
        call_ensures(CertManager::<K>::orders_in_flight, (seen,), count),
    ensures
        started == (old(m)@.orders < 4),
        final(m)@.orders == (if started {
            old(m)@.orders + 1
        } else {
            old(m)@.orders
        }),
        final(n)@.orders == old(n)@.orders - 1,
        final(m)@.states == old(m)@.states && final(n)@.states == old(n)@.states,
        final(m)@.stored == old(m)@.stored && final(n)@.stored == old(n)@.stored,
        final(m)@.ordering == old(m)@.ordering && final(n)@.ordering == old(n)@.ordering,
        final(m)@.in_flight == old(m)@.in_flight && final(n)@.in_flight == old(n)@.in_flight,
        final(m)@.active == old(m)@.active && final(n)@.active == old(n)@.active,
        final(m)@.failures == old(m)@.failures && final(n)@.failures == old(n)@.failures,
        count == seen@.orders,
{
}

/// A hostname that is made active or inactive is so, and that is to be stored; nothing else
/// changes.
pub proof fn activity_is_set<K>(m: &mut CertManager<K>, name: &str, active: bool)
    requires
        call_ensures(CertManager::<K>::set_active, (m, name, active), ()),
    ensures
        ({
            let a = old(m)@;
            let b = final(m)@;
            let host = text::lower(name@);
            &&& b.active.contains(host) == active
            &&& b.released.contains(host) == !active
            &&& b.unsaved.contains(host)
            &&& b.states == a.states
            &&& b.changes == a.changes
            &&& b.failures == a.failures
            &&& b.in_flight == a.in_flight
            &&& b.ordering == a.ordering
            &&& service_stays(a, b)
            &&& others_stay(a, b, host)
        }),
{
}

/// A state that is set is the hostname's, and is told to those who watch.
pub proof fn states_are_set<K>(m: &mut CertManager<K>, name: &str, state: CertState)
    requires
        call_ensures(CertManager::<K>::set_state, (m, name, state), ()),
    ensures
        ({
            let a = old(m)@;
            let b = final(m)@;
            let host = text::lower(name@);
            &&& enters(a, b, host, state@)
            &&& service_stays(a, b)
            &&& activity_stays(a, b)
            &&& b.failures == a.failures
            &&& b.in_flight == a.in_flight
            &&& b.ordering == a.ordering
            &&& others_stay(a, b, host)
        }),
{
}

/// What is asked of a manager is answered from what it knows of the hostname, in any case.
pub proof fn questions_are_answered<K>(
    m: &CertManager<K>,
    name: &str,
    state: CertState,
    active: bool,
    failures: u32,
    listed: bool,
    root: &str,
    label: &'static str,
    eager: Option<String>,
)
    requires
        call_ensures(CertManager::<K>::status, (m, name), state),
        call_ensures(CertManager::<K>::is_active, (m, name), active),
        call_ensures(CertManager::<K>::failure_count, (m, name), failures),
        call_ensures(CertManager::<K>::tracks, (m, name), listed),
        call_ensures(CertManager::<K>::root_domain, (m,), root),
        call_ensures(CertManager::<K>::root_cert_status, (m,), label),
        call_ensures(CertManager::<K>::spawn_eager_order_if_pending, (m,), eager),
        m.wf(),
    ensures
        ({
            let host = text::lower(name@);
            let own = m@.states.contains_key(m@.root);
            &&& m@.states.contains_key(host) ==> state@ == m@.states[host]
            &&& !m@.states.contains_key(host) ==> state@ is Pending
            &&& active == m@.active.contains(host)
            &&& m@.failures.contains_key(host) ==> failures == m@.failures[host]
            &&& !m@.failures.contains_key(host) ==> failures == 0
            &&& listed == m@.states.contains_key(name@)
            &&& root@ == m@.root
            &&& !own || m@.states[m@.root] is Pending ==> label@ == "pending"@
            &&& own && m@.states[m@.root] is OrderInProgress ==> label@ == "ordering"@
            &&& own && m@.states[m@.root] is Issued ==> label@ == "issued"@
            &&& own && m@.states[m@.root] is Failed ==> label@ == "failed"@
            &&& own && m@.states[m@.root] is Renewing ==> label@ == "renewing"@
            &&& eager is Some == (own && m@.states[m@.root] is Pending)
            &&& eager matches Some(e) ==> e@ == m@.root
        }),
{
    m.always();
}

/// A certificate of the store that is valid and can be read is served again after a
/// restart, unless a later one is of the same hostname.
pub proof fn stored_certificates_are_served_again<K>(
    m: &mut CertManager<K>,
    rows: Vec<CachedCert<K>>,
    now: i64,
    i: int,
    leaf: &[u8],
    parsed: Result<(i64, i64), String>,
)
    requires
        call_ensures(CertManager::<K>::init, (m, rows, now), ()),
        text::lower(old(m)@.root) == old(m)@.root,
        0 <= i < rows@.len(),
        rows@[i].not_after > now,
        rows@[i].loaded is Some,
        forall|j: int|
            i < j < rows@.len() ==> text::lower((#[trigger] rows@[j]).name@) != text::lower(
                rows@[i].name@,
            ),
        rows@[i].loaded->0.leaf matches Some(der) ==> leaf@ == der@,
        call_ensures(parse_cert_validity, (leaf,), parsed),
    ensures
        ({
            let host = text::lower(rows@[i].name@);
            let b = final(m)@;
            &&& is_in_service(b, host, rows@[i].loaded->0, parsed)
            &&& b.states.contains_key(host)
            &&& b.states[host] == (StateFacts::Issued { not_after: rows@[i].not_after })
            &&& rows@[i].last_active_at is Some || host == b.root ==> b.active.contains(host)
            &&& b.root == old(m)@.root
        }),
{
    let a = old(m)@;
    let all = rows@;
    let host = text::lower(all[i].name@);
    leaf_expiry_is_parsed(all[i].loaded->0, leaf, parsed);
    taken_over(a, all, now, i);
    if host == a.root {
        assert(super::manager::is_loadable(all[i], now));
    } else {
        text::lower_idempotent(a.root);
    }
}

proof fn taken_over<K>(a: ManagerFacts<K>, rows: Seq<CachedCert<K>>, now: i64, i: int)
    requires
        0 <= i < rows.len(),
        super::manager::is_loadable(rows[i], now),
        forall|j: int|
            i < j < rows.len() ==> text::lower((#[trigger] rows[j]).name@) != text::lower(
                rows[i].name@,
            ),
    ensures
        ({
            let host = text::lower(rows[i].name@);
            let b = a.with_all_cached(rows, now);
            let loaded = rows[i].loaded->0;
            &&& b.root == a.root
            &&& b.stored.contains_key(host)
            &&& b.stored[host].key == loaded.key
            &&& b.stored[host].not_after == super::manager::leaf_expiry(loaded)
            &&& b.states.contains_key(host)
            &&& b.states[host] == (StateFacts::Issued { not_after: rows[i].not_after })
            &&& rows[i].last_active_at is Some || host == a.root ==> b.active.contains(host)
        }),
    decreases rows.len(),
{
    let rest = rows.drop_last();
    text::lower_idempotent(rows.last().name@);
    root_is_kept(a, rest, now);
    if i < rows.len() - 1 {
        assert forall|j: int| i < j < rest.len() implies text::lower((#[trigger] rest[j]).name@)
            != text::lower(rest[i].name@) by {
            assert(rest[j] == rows[j]);
        }
        taken_over(a, rest, now, i);
    }
}

proof fn root_is_kept<K>(a: ManagerFacts<K>, rows: Seq<CachedCert<K>>, now: i64)
    ensures
        a.with_all_cached(rows, now).root == a.root,
    decreases rows.len(),
{
    if rows.len() > 0 {
        root_is_kept(a, rows.drop_last(), now);
    }
}

proof fn untouched<K>(
    a: ManagerFacts<K>,
    rows: Seq<CachedCert<K>>,
    now: i64,
    host: Seq<char>,
)
    requires
        forall|j: int|
            0 <= j < rows.len() && text::lower((#[trigger] rows[j]).name@) == host ==> rows[j].not_after
                <= now || rows[j].loaded is None,
    ensures
        ({
            let b = a.with_all_cached(rows, now);
            &&& b.stored.contains_key(host) == a.stored.contains_key(host)
            &&& a.stored.contains_key(host) ==> b.stored[host] == a.stored[host]
            &&& b.states.contains_key(host) == a.states.contains_key(host)
            &&& a.states.contains_key(host) ==> b.states[host] == a.states[host]
            &&& b.active.contains(host) == a.active.contains(host)
            &&& b.ordering.contains(host) == a.ordering.contains(host)
        }),
    decreases rows.len(),
{
    if rows.len() > 0 {
        let rest = rows.drop_last();
        assert forall|j: int|
            0 <= j < rest.len() && text::lower((#[trigger] rest[j]).name@) == host implies
            rest[j].not_after <= now || rest[j].loaded is None by {
            assert(rest[j] == rows[j]);
        }
        untouched(a, rest, now, host);
        text::lower_idempotent(rows.last().name@);
    }
}

/// A certificate that has expired or cannot be read leaves no trace of its hostname after
/// a restart; without one of the root, the root is pending and its handshakes are held.
pub proof fn other_stored_certificates_are_ignored<K>(
    m: &mut CertManager<K>,
    rows: Vec<CachedCert<K>>,
    now: i64,
    host: Seq<char>,
)
    requires
        call_ensures(CertManager::<K>::init, (m, rows, now), ()),
        text::lower(old(m)@.root) == old(m)@.root,
        forall|j: int|
            0 <= j < rows@.len() && text::lower((#[trigger] rows@[j]).name@) == host
                ==> rows@[j].not_after <= now || rows@[j].loaded is None,
    ensures
        ({
            let a = old(m)@;
            let b = final(m)@;
            &&& b.stored.contains_key(host) == a.stored.contains_key(host)
            &&& a.stored.contains_key(host) ==> b.stored[host] == a.stored[host]
            &&& b.active.contains(host) == a.active.contains(host)
            &&& host != a.root ==> b.states.contains_key(host) == a.states.contains_key(host)
            &&& host != a.root && a.states.contains_key(host) ==> b.states[host] == a.states[host]
            &&& host == a.root ==> b.states.contains_key(host) && b.states[host] is Pending
                && b.ordering.contains(host)
        }),
{
    let a = old(m)@;
    let all = rows@;
    untouched(a, all, now, host);
    root_is_kept(a, all, now);
    if host == a.root {
        assert forall|j: int| 0 <= j < all.len() implies !(super::manager::is_loadable(
            #[trigger] all[j],
            now,
        ) && text::lower(all[j].name@) == a.root) by {}
    }
}

/// A renewal that is asked for by name is refused only where the hostname is unknown to the
/// manager and the store, has to wait after a failure, or four orders are in flight; the
/// latter two do not count where it is forced. Otherwise the hostname is renewing while
/// it holds a certificate, and ordering where it holds none.
pub proof fn named_renewals_are_queued<K>(
    m: &mut CertManager<K>,
    name: &str,
    force: bool,
    in_store: Result<bool, String>,
    now: i64,
    r: Result<String, RenewError>,
)
    requires
        call_ensures(CertManager::<K>::renew_hostname, (m, name, force, in_store, now), r),
        text::lower(old(m)@.root) == old(m)@.root,
    ensures
        ({
            let a = old(m)@;
            let b = final(m)@;
            let host = if name@ == "root"@ {
                a.root
            } else {
                text::lower(name@)
            };
            let known = host == a.root || a.states.contains_key(host);
            let waits = a.states.contains_key(host) && (a.states[host] matches StateFacts::Failed {
                next_retry,
                ..
            } && now < next_retry);
            let missing = !known && (in_store matches Ok(s) && !s);
            let broken = !known && in_store is Err;
            let full = a.orders >= 4;
            &&& broken ==> (r matches Err(RenewError::Store(e)) && e@ == in_store->Err_0@)
            &&& missing ==> (r matches Err(RenewError::NotFound(n)) && n@ == host)
            &&& !broken && !missing && !force && waits ==> (
            r matches Err(RenewError::RateLimited { name: n, retry_at }) && n@ == host
                && a.states[host]->next_retry == retry_at)
            &&& !broken && !missing && !force && !waits && full ==> (r matches Err(
                RenewError::CapacityExceeded,
            ))
            &&& r is Ok == (!broken && !missing && (force || (!waits && !full)))
            &&& r is Err ==> b == a
            &&& r is Ok ==> r->Ok_0@ == host && queued(a, b, host)
        }),
{
    let a = old(m)@;
    text::lower_idempotent(name@);
}

/// The renewal of a hostname is queued: it is renewing where it holds a certificate, and
/// otherwise ordering; what is served stays.
pub open spec fn queued<K>(a: ManagerFacts<K>, b: ManagerFacts<K>, host: Seq<char>) -> bool {
    let held = a.states.contains_key(host) && match a.states[host] {
        StateFacts::Issued { not_after } => not_after > 0,
        StateFacts::Renewing { not_after } => not_after > 0,
        _ => false,
    };
    &&& held ==> enters(
        a,
        b,
        host,
        StateFacts::Renewing {
            not_after: match a.states[host] {
                StateFacts::Issued { not_after } => not_after,
                StateFacts::Renewing { not_after } => not_after,
                _ => 0,
            },
        },
    )
    &&& !held ==> enters(a, b, host, StateFacts::OrderInProgress)
    &&& service_stays(a, b)
    &&& activity_stays(a, b)
    &&& b.failures == a.failures
    &&& b.in_flight == a.in_flight
    &&& b.ordering == a.ordering
    &&& others_stay(a, b, host)
}

/// A certificate of the store is renewed exactly where at most a third of its lifetime
/// remains and its hostname is the root, is active, or was so when it was stored and has
/// not been released since. It is then renewing, and that of the root is reported.
pub proof fn due_certificates_are_renewed<K>(
    m: &mut CertManager<K>,
    row: &RenewalRow,
    now: i64,
    r: Option<DueRenewal>,
    due: bool,
)
    requires
        call_ensures(CertManager::<K>::renew_eligible, (m, row, now), r),
        call_ensures(should_renew, (row.not_before, row.not_after, now), due),
    ensures
        ({
            let a = old(m)@;
            let b = final(m)@;
            let host = text::lower(row.name@);
            let active = host == a.root || a.active.contains(host) || (row.last_active_at is Some
                && !a.released.contains(host));
            &&& r is Some == (active && due)
            &&& r is None ==> b == a
            &&& r matches Some(d) ==> {
                &&& d.hostname@ == host
                &&& d.notify is Some == (host == a.root)
                &&& d.notify matches Some(s) ==> s@ == "renewing"@
                &&& enters(a, b, host, StateFacts::Renewing { not_after: row.not_after })
                &&& service_stays(a, b)
                &&& activity_stays(a, b)
                &&& b.failures == a.failures
                &&& b.in_flight == a.in_flight
                &&& b.ordering == a.ordering
                &&& others_stay(a, b, host)
            }
        }),
{
}

/// A certificate is due from the moment on when a third of its lifetime remains.
pub proof fn the_last_third_is_due(not_before: i64, not_after: i64, now: i64, r: bool)
    requires
        call_ensures(should_renew, (not_before, not_after, now), r),
        not_before <= not_after,
        not_after - not_before <= i64::MAX,
        not_before <= now,
    ensures
        r == (3 * (not_after - now) <= not_after - not_before),
{
}

/// The wait after each failure in a row is 1, 2, 4, 8, 16 and then 24 hours, and never
/// shorter than the CA asked for.
pub proof fn failures_back_off(count: u32, asked: Option<u64>, r: u64, d: Duration)
    requires
        call_ensures(compute_backoff_secs, (count, asked), r),
        call_ensures(compute_backoff, (count, asked), d),
    ensures
        ({
            let hours: int = if count <= 1 {
                1
            } else if count == 2 {
                2
            } else if count == 3 {
                4
            } else if count == 4 {
                8
            } else if count == 5 {
                16
            } else {
                24
            };
            &&& asked is None ==> r == hours * 3600
            &&& asked matches Some(s) ==> r == (if s > hours * 3600 {
                s as int
            } else {
                hours * 3600
            })
            &&& d == super::renewal::duration_of_secs(r)
        }),
{
    reveal_with_fuel(super::renewal::doubled, 8);
}

/// The renewal loop runs every twelve hours, with less than ten minutes of jitter.
pub proof fn renewals_run_twice_a_day(noise: u64, r: u64)
    requires
        call_ensures(renewal_delay_secs, (noise,), r),
    ensures
        43200 <= r < 43800,
        r - 43200 == noise % 600,
{
}

/// What a request that followed another's order is answered.
pub proof fn followers_share_the_outcome(
    received: Option<Result<(), String>>,
    r: Result<(), AcmeError>,
    name: &str,
    error: &AcmeError,
    message: String,
    told: String,
)
    requires
        call_ensures(follower_result, (received,), r),
        call_ensures(AcmeError::message, (error,), message),
        call_ensures(renewal_failure, (name, error), told),
    ensures
        r is Ok == (received matches Some(Ok(_))),
        received matches Some(Err(e)) ==> (r matches Err(AcmeError::Other(s)) && s@ == e@),
        received is None ==> (r matches Err(AcmeError::Other(s)) && s@
            == "In-flight order channel closed"@),
        told@ == "Renewal for "@ + name@ + " failed: "@ + message@,
{
}

/// Every known hostname is counted once, by its state: the root, those of the store and
/// those that are tracked.
pub proof fn hostnames_are_counted<K>(m: &CertManager<K>, stored: &Vec<String>, r: CertCounts)
    requires
        call_ensures(CertManager::<K>::cert_counts, (m, stored), r),
    ensures
        ({
            let known = Set::new(
                |n: Seq<char>|
                    n == m@.root || m@.states.contains_key(n) || lowered_names(stored@).contains(n),
            );
            let state = |n: Seq<char>|
                if m@.states.contains_key(text::lower(n)) {
                    m@.states[text::lower(n)]
                } else {
                    StateFacts::Pending
                };
            let active = |n: Seq<char>| m@.active.contains(text::lower(n));
            &&& r.inactive == known.filter(|n: Seq<char>| !active(n)).len()
            &&& r.issued == known.filter(
                |n: Seq<char>| active(n) && (state(n) is Issued || state(n) is Renewing),
            ).len()
            &&& r.ordering == known.filter(
                |n: Seq<char>| active(n) && (state(n) is OrderInProgress || state(n) is Pending),
            ).len()
            &&& r.failed == known.filter(|n: Seq<char>| active(n) && state(n) is Failed).len()
        }),
{
    let known = Set::new(
        |n: Seq<char>|
            n == m@.root || m@.states.contains_key(n) || lowered_names(stored@).contains(n),
    );
    let state = |n: Seq<char>|
        if m@.states.contains_key(text::lower(n)) {
            m@.states[text::lower(n)]
        } else {
            StateFacts::Pending
        };
    let active = |n: Seq<char>| m@.active.contains(text::lower(n));
    assert(m@.known(stored@) =~= known);
    assert(known.filter(m@.counts_inactive()) =~= known.filter(|n: Seq<char>| !active(n)));
    assert(known.filter(m@.counts_issued()) =~= known.filter(
        |n: Seq<char>| active(n) && (state(n) is Issued || state(n) is Renewing),
    ));
    assert(known.filter(m@.counts_ordering()) =~= known.filter(
        |n: Seq<char>| active(n) && (state(n) is OrderInProgress || state(n) is Pending),
    ));
    assert(known.filter(m@.counts_failed()) =~= known.filter(
        |n: Seq<char>| active(n) && state(n) is Failed,
    ));
}

/// All renewals together are those of the root and of every active hostname; the others are
/// skipped and listed. Unless forced, none may have to wait and fewer than four orders may
/// be in flight; otherwise nothing changes.
pub proof fn renewals_together<K>(
    m: &mut CertManager<K>,
    force: bool,
    stored: &Vec<String>,
    now: i64,
    r: Result<RenewResponse, RenewError>,
    host: Seq<char>,
)
    requires
        call_ensures(CertManager::<K>::renew_all, (m, force, stored, now), r),
        host == text::lower(host),
        text::lower(old(m)@.root) == old(m)@.root,
        forall|h: Seq<char>| #[trigger]
            old(m)@.states.contains_key(h) ==> text::lower(h) == h,
    ensures
        ({
            let a = old(m)@;
            let b = final(m)@;
            let known = host == a.root || a.states.contains_key(host) || lowered_names(
                stored@,
            ).contains(host);
            let together = known && (host == a.root || a.active.contains(host));
            let waits = a.states.contains_key(host) && (a.states[host] matches StateFacts::Failed {
                next_retry,
                ..
            } && now < next_retry);
            &&& r matches Ok(resp) ==> {
                &&& resp.ok
                &&& resp.status@ == "queued"@
                &&& text::texts(resp.renewed@).contains(host) == together
                &&& text::texts(resp.skipped_inactive@).contains(host) == (known && !together)
                &&& !force && together ==> !waits
                &&& !force ==> a.orders < 4
                &&& b.stored == a.stored
                &&& b.active == a.active
                &&& !together ==> b.states.contains_key(host) == a.states.contains_key(host) && (
                a.states.contains_key(host) ==> b.states[host] == a.states[host])
                &&& together ==> b.states.contains_key(host) && (b.states[host] is Renewing
                    || b.states[host] is OrderInProgress)
            }
            &&& r is Err ==> !force && b == a
            &&& r matches Err(RenewError::RateLimited { name, retry_at }) ==> now < retry_at
            &&& r matches Err(RenewError::CapacityExceeded) ==> a.orders >= 4 && !(together && waits)
            &&& !(r matches Err(RenewError::NotFound(_))) && !(r matches Err(RenewError::Store(_)))
            &&& force ==> r is Ok
        }),
{
    let a = old(m)@;
    let lowers = lowered_names(stored@);
    let known = a.known(stored@);
    let p = |n: Seq<char>| a.renewed_together(n);
    assert(known.contains(host) == (host == a.root || a.states.contains_key(host)
        || lowers.contains(host)));
    let set = known.filter(p);
    assert(set.contains(host) == (known.contains(host) && (host == a.root || a.active.contains(
        host,
    ))));
    match r {
        Ok(resp) => {
            let renewed = text::texts(resp.renewed@);
            assert(renewed.contains(host) == renewed.to_set().contains(host));
            assert(text::texts(resp.skipped_inactive@).contains(host) == text::texts(
                resp.skipped_inactive@,
            ).to_set().contains(host));
            all_queued(a, renewed, host);
            if !force && renewed.contains(host) {
                nobody_waits(a, renewed, now, host);
            }
            assert forall|i: int| 0 <= i < renewed.len() implies text::lower(#[trigger] renewed[i])
                == renewed[i] by {
                assert(renewed.to_set().contains(renewed[i]));
                assert(known.contains(renewed[i]));
                if lowers.contains(renewed[i]) {
                    let k = choose|k: int| 0 <= k < lowers.len() && lowers[k] == renewed[i];
                    text::lower_idempotent(stored@[k]@);
                }
            }
        },
        Err(e) => {
            let renewed = choose|renewed: Seq<Seq<char>>|
                {
                    &&& #[trigger] crate::names::ascending(renewed)
                    &&& renewed.to_set() == set
                    &&& Some(e@) == (match a.first_waiting(renewed, now) {
                        Some(problem) => Some(problem),
                        None => if a.orders >= super::manager::MAX_ORDERS {
                            Some(super::manager::RenewProblem::CapacityExceeded)
                        } else {
                            None
                        },
                    })
                };
            assert(renewed.contains(host) == renewed.to_set().contains(host));
            first_waits(a, renewed, now);
            if a.first_waiting(renewed, now) is None && renewed.contains(host) {
                nobody_waits(a, renewed, now, host);
            }
        },
    }
}

proof fn first_waits<K>(a: ManagerFacts<K>, list: Seq<Seq<char>>, now: i64)
    ensures
        a.first_waiting(list, now) matches Some(p) ==> (
        p matches super::manager::RenewProblem::RateLimited { retry_at, .. } && now < retry_at),
    decreases list.len(),
{
    if list.len() > 0 {
        first_waits(a, list.subrange(1, list.len() as int), now);
    }
}

proof fn nobody_waits<K>(a: ManagerFacts<K>, list: Seq<Seq<char>>, now: i64, host: Seq<char>)
    requires
        a.first_waiting(list, now) is None,
        list.contains(host),
    ensures
        a.waits_until(host, now) is None,
    decreases list.len(),
{
    let i = choose|i: int| 0 <= i < list.len() && list[i] == host;
    if i > 0 {
        let rest = list.subrange(1, list.len() as int);
        assert(rest[i - 1] == host);
        nobody_waits(a, rest, now, host);
    }
}

proof fn all_queued<K>(a: ManagerFacts<K>, list: Seq<Seq<char>>, host: Seq<char>)
    requires
        host == text::lower(host),
    ensures
        ({
            let b = a.with_renewals_queued(list);
            &&& b.stored == a.stored
            &&& b.active == a.active
            &&& list.contains(host) ==> b.states.contains_key(host) && (b.states[host] is Renewing
                || b.states[host] is OrderInProgress)
            &&& (forall|i: int| 0 <= i < list.len() ==> text::lower(#[trigger] list[i]) != host)
                ==> b.states.contains_key(host) == a.states.contains_key(host) && (
            a.states.contains_key(host) ==> b.states[host] == a.states[host])
        }),
    decreases list.len(),
{
    if list.len() > 0 {
        let rest = list.drop_last();
        all_queued(a, rest, host);
        assert(list.last() == list[list.len() - 1]);
        if list.contains(host) && list.last() != host {
            let i = choose|i: int| 0 <= i < list.len() && list[i] == host;
            assert(rest[i] == host);
        }
        if forall|i: int| 0 <= i < list.len() ==> text::lower(#[trigger] list[i]) != host {
            assert forall|i: int| 0 <= i < rest.len() implies text::lower(#[trigger] rest[i])
                != host by {
                assert(rest[i] == list[i]);
            }
        }
    }
}

/// How every handshake is answered. One that validates a challenge gets the certificate of
/// the challenge or nothing. Any other gets the unexpired certificate of the host it names;
/// without one it waits while the certificate is ordered, and is otherwise rejected.
pub proof fn handshakes_are_answered<K>(
    resolver: &CertResolver<K>,
    hello: &ClientHello<'_>,
    challenges: &ChallengeRegistry<K>,
    now: i64,
    r: Resolution<'_, K>,
)
    requires
        call_ensures(CertResolver::<K>::resolve, (resolver, hello, challenges, now), r),
    ensures
        ({
            let acme = validates(*hello);
            &&& hello.server_name is None ==> r is Reject
            &&& hello.server_name matches Some(sni) ==> {
                let host = text::lower(sni@);
                let valid = resolver.stored().contains_key(host)
                    && resolver.stored()[host].not_after > now;
                let held = resolver.ordering().contains(host);
                let known = challenges.hosts().contains_key(host);
                &&& acme && known ==> (r matches Resolution::Challenge(k) && *k
                    == challenges.hosts()[host])
                &&& acme && !known ==> r is Reject
                &&& !acme && valid ==> (r matches Resolution::Serve(k) && *k
                    == resolver.stored()[host].key)
                &&& !acme && !valid && held ==> r is Hold
                &&& !acme && !valid && !held ==> r is Reject
            }
        }),
{
    validating_offers_acme(*hello);
}

/// The resolver keeps one certificate for each hostname: the one that was stored last, until
/// the expiry that was given with it, or that its leaf states.
pub proof fn certificates_are_stored<K>(
    r: &mut CertResolver<K>,
    name: &str,
    key: K,
    not_after: i64,
    woken: bool,
    s: &mut CertResolver<K>,
    leaf: Option<&[u8]>,
    also: bool,
    parsed: Result<(i64, i64), String>,
)
    requires
        call_ensures(CertResolver::<K>::insert_cert_with_expiry, (r, name, key, not_after), woken),
        call_ensures(CertResolver::<K>::insert_cert, (s, name, key, leaf), also),
        leaf matches Some(der) ==> call_ensures(parse_cert_validity, (der,), parsed),
    ensures
        ({
            let host = text::lower(name@);
            let a = final(r).stored();
            let b = final(s).stored();
            &&& a.contains_key(host) && a[host].key == key && a[host].not_after == not_after
            &&& a.remove(host) == old(r).stored().remove(host)
            &&& b.contains_key(host) && b[host].key == key
            &&& leaf is Some && parsed is Ok ==> b[host].not_after == parsed->Ok_0.1
            &&& leaf is None || parsed is Err ==> b[host].not_after == 0x7fff_ffff_ffff_ffff
            &&& b.remove(host) == old(s).stored().remove(host)
            &&& woken == old(r).ordering().contains(host)
            &&& also == old(s).ordering().contains(host)
            &&& final(r).ordering() == old(r).ordering().remove(host)
            &&& final(s).ordering() == old(s).ordering().remove(host)
        }),
{
    let host = text::lower(name@);
    assert(final(r).stored().remove(host) =~= old(r).stored().remove(host));
    assert(final(s).stored().remove(host) =~= old(s).stored().remove(host));
}

/// A hostname is held while it is ordered, and its certificate is a placeholder where no
/// unexpired one is stored.
pub proof fn ordered_hostnames_are_held<K>(
    r: &mut CertResolver<K>,
    s: &mut CertResolver<K>,
    name: &str,
    woken: bool,
    seen: &CertResolver<K>,
    held: bool,
    now: i64,
    placeholder: bool,
    valid: Option<&K>,
)
    requires
        call_ensures(CertResolver::<K>::mark_ordering, (r, name), ()),
        call_ensures(CertResolver::<K>::clear_ordering, (s, name), woken),
        call_ensures(CertResolver::<K>::is_ordering, (seen, name), held),
        call_ensures(CertResolver::<K>::is_placeholder, (seen, name, now), placeholder),
        call_ensures(CertResolver::<K>::valid_certificate, (seen, name, now), valid),
    ensures
        ({
            let host = text::lower(name@);
            let serves = seen.stored().contains_key(host) && seen.stored()[host].not_after > now;
            &&& final(r).ordering() == old(r).ordering().insert(host)
            &&& final(r).stored() == old(r).stored()
            &&& final(s).ordering() == old(s).ordering().remove(host)
            &&& final(s).stored() == old(s).stored()
            &&& woken == old(s).ordering().contains(host)
            &&& held == seen.ordering().contains(host)
            &&& placeholder == !serves
            &&& valid is Some == serves
            &&& valid matches Some(k) ==> *k == seen.stored()[host].key
        }),
{
}

/// A handshake waits for what is left of its time, and no longer once it was notified. By
/// default it waits half a minute.
pub proof fn handshakes_wait_in_time(
    w: &HandshakeWaiter,
    elapsed: u64,
    timeout: u64,
    r: Option<u64>,
    d: Duration,
    fresh: HandshakeWaiter,
    told: &mut HandshakeWaiter,
)
    requires
        call_ensures(HandshakeWaiter::wait_timeout, (w, elapsed, timeout), r),
        call_ensures(default_hold_timeout, (), d),
        call_ensures(HandshakeWaiter::new, (), fresh),
        call_ensures(HandshakeWaiter::notify, (told,), ()),
    ensures
        r is Some == (!w.is_notified() && elapsed < timeout),
        r matches Some(left) ==> elapsed + left == timeout,
        d == super::renewal::duration_of_secs(30),
        !fresh.is_notified(),
        final(told).is_notified(),
{
}

/// What a state says of itself.
pub proof fn states_speak(
    s: &CertState,
    issued: bool,
    expiry: Option<i64>,
    label: &'static str,
    t: &CertState,
    same: bool,
)
    requires
        call_ensures(CertState::is_issued, (s,), issued),
        call_ensures(CertState::not_after, (s,), expiry),
        call_ensures(CertState::label, (s,), label),
        call_ensures(CertState::same, (s, t), same),
    ensures
        match *s {
            CertState::Pending => !issued && expiry is None && label@ == "pending"@,
            CertState::OrderInProgress => !issued && expiry is None && label@ == "ordering"@,
            CertState::Issued { not_after } => issued && expiry == Some(not_after) && label@
                == "issued"@,
            CertState::Failed { .. } => !issued && expiry is None && label@ == "failed"@,
            CertState::Renewing { not_after } => issued && expiry == Some(not_after) && label@
                == "renewing"@,
        },
        same == (s@ == t@),
{
}

/// What a refused renewal is called.
pub proof fn refused_renewals_are_named(e: &RenewError, r: String)
    requires
        call_ensures(RenewError::message, (e,), r),
    ensures
        r@ == (match *e {
            RenewError::NotFound(s) => "Certificate for hostname '"@ + s@
                + "' not found in store"@,
            RenewError::RateLimited { name, retry_at } => "Rate limited: retry for hostname '"@
                + name@ + "' allowed after "@ + number::signed_decimal(retry_at as int),
            RenewError::CapacityExceeded =>
                "Global in-flight ACME order limit reached (4 concurrent orders)"@,
            RenewError::Store(s) => "Store error: "@ + s@,
        }),
{
}

/// Every transition is told once, oldest first, and every change of activity once, with what
/// it is now; the manager is otherwise as it was.
pub proof fn changes_are_told_once<K>(
    m: &mut CertManager<K>,
    r: Vec<(String, CertState)>,
    n: &mut CertManager<K>,
    q: Vec<(String, bool)>,
    i: int,
    host: Seq<char>,
)
    requires
        call_ensures(CertManager::<K>::take_state_changes, (m,), r),
        call_ensures(CertManager::<K>::take_activity_changes, (n,), q),
    ensures
        r@.len() == old(m)@.changes.len(),
        0 <= i < r@.len() ==> r@[i].0@ == old(m)@.changes[i].0 && r@[i].1@ == old(m)@.changes[i].1,
        final(m)@.changes.len() == 0,
        final(m)@.states == old(m)@.states && final(m)@.stored == old(m)@.stored,
        final(m)@.active == old(m)@.active && final(m)@.unsaved == old(m)@.unsaved,
        old(n)@.unsaved.contains(host) <==> exists|k: int|
            0 <= k < q@.len() && (#[trigger] q@[k]).0@ == host,
        0 <= i < q@.len() ==> (q@[i].1 <==> old(n)@.active.contains(q@[i].0@)),
        !final(n)@.unsaved.contains(host),
        final(n)@.states == old(n)@.states && final(n)@.active == old(n)@.active,
        final(n)@.changes == old(n)@.changes,
{
    let t = super::manager::transitions(r@);
    assert(t.len() == r@.len());
    if 0 <= i < r@.len() {
        assert(t[i] == (r@[i].0@, r@[i].1@));
    }
    let names = super::manager::changed_names(q@);
    assert(names.len() == q@.len());
    assert(names.to_set().contains(host) == names.contains(host));
    if names.contains(host) {
        let k = choose|k: int| 0 <= k < names.len() && names[k] == host;
        assert(q@[k].0@ == host);
    }
    if exists|k: int| 0 <= k < q@.len() && (#[trigger] q@[k]).0@ == host {
        let k = choose|k: int| 0 <= k < q@.len() && (#[trigger] q@[k]).0@ == host;
        assert(names[k] == host);
    }
}

/// Every tracked hostname is listed with its state, and nothing else is.
pub proof fn tracked_hostnames_are_listed<K>(
    m: &CertManager<K>,
    r: Vec<(String, CertState)>,
    i: int,
    host: Seq<char>,
)
    requires
        call_ensures(CertManager::<K>::list_states, (m,), r),
    ensures
        m@.states.contains_key(host) <==> exists|k: int|
            0 <= k < r@.len() && (#[trigger] r@[k]).0@ == host,
        0 <= i < r@.len() ==> m@.states.contains_key(r@[i].0@) && m@.states[r@[i].0@] == r@[i].1@,
{
    let t = super::manager::transitions(r@);
    let names = t.map_values(|c: (Seq<char>, StateFacts)| c.0);
    assert(names.to_set().contains(host) == names.contains(host));
    if names.contains(host) {
        let k = choose|k: int| 0 <= k < names.len() && names[k] == host;
        assert(r@[k].0@ == host);
    }
    if exists|k: int| 0 <= k < r@.len() && (#[trigger] r@[k]).0@ == host {
        let k = choose|k: int| 0 <= k < r@.len() && (#[trigger] r@[k]).0@ == host;
        assert(names[k] == host);
    }
}

/// A certificate is served with its key exactly where both were made; otherwise the reason
/// is handed on.
pub proof fn made_keys_are_served(
    made: Result<Result<CertifiedKey, String>, String>,
    r: Result<Arc<CertifiedKey>, String>,
    challenge: Result<Result<CertifiedKey, String>, rcgen::Error>,
    q: Result<Arc<CertifiedKey>, ChallengeKeyError>,
)
    requires
        call_ensures(served_key, (made,), r),
        call_ensures(challenge_key, (challenge,), q),
    ensures
        r is Ok <==> made is Ok && made->Ok_0 is Ok,
        r matches Ok(k) ==> *k == made->Ok_0->Ok_0,
        r is Err && made is Err ==> r->Err_0@ == made->Err_0@,
        r is Err && made is Ok ==> r->Err_0@ == made->Ok_0->Err_0@,
        q is Ok <==> challenge is Ok && challenge->Ok_0 is Ok,
        q matches Ok(k) ==> *k == challenge->Ok_0->Ok_0,
        challenge is Err <==> (q matches Err(ChallengeKeyError::Certificate(_))),
        q matches Err(ChallengeKeyError::Key(why)) ==> why@ == challenge->Ok_0->Err_0@,
{
}

/// A key that is served presents the chain that its text holds, and a text without one is
/// refused with the reason that reading the chain gives.
pub proof fn chains_are_served(
    cert_pem: &str,
    key_pem: &str,
    r: Result<Arc<CertifiedKey>, String>,
    chain: Result<Vec<Vec<u8>>, String>,
)
    requires
        call_ensures(parse_certified_key, (cert_pem, key_pem), r),
        call_ensures(certificate_chain, (cert_pem,), chain),
    ensures
        chain matches Err(why) ==> (r matches Err(e) && e@ == why@),
        chain matches Ok(v) ==> (r matches Ok(key) ==> served_chain(*key).len() == v@.len() && forall|
            i: int,
        |
            0 <= i < v@.len() ==> #[trigger] served_chain(*key)[i] == v@[i]@),
{
}

} // verus!
