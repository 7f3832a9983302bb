//! The certificate manager: the state of every hostname's certificate, who is
//! active, what is being ordered, and what is renewed when.
use super::acme::{AcmeError, AcmeProblem};
use super::renewal;
use super::resolver::{CertResolver, StoredCert};
use super::state::{CertState, StateFacts};
use crate::control::protocol::{CertCounts, RenewResponse};
use crate::names;
use crate::names::NameMap;
use crate::number;
use crate::text;
use vstd::prelude::*;

verus! {

/// At most this many ACME orders are in flight at a time.
pub const MAX_ORDERS: usize = 4;

/// Hours between two runs of the renewal loop.
pub const RENEWAL_INTERVAL_HOURS: u64 = 12;

/// The jitter between two runs of the renewal loop is below this many seconds.
pub const RENEWAL_JITTER_SECS: u64 = 600;

/// The seconds until the next run of the renewal loop: twelve hours, and some
/// jitter that comes of the noise.
pub fn renewal_delay_secs(noise: u64) -> (r: u64)
    ensures
        r == 12 * 3600 + noise % RENEWAL_JITTER_SECS,
{
    RENEWAL_INTERVAL_HOURS * 3600 + noise % RENEWAL_JITTER_SECS
}

/// Error conditions that can occur during manual or batch certificate renewal.
#[derive(Debug, PartialEq, Eq)]
pub enum RenewError {
    /// Requested hostname was not found in the certificate store.
    NotFound(String),
    /// Renewal request was rejected due to backoff rate limiting.
    RateLimited { name: String, retry_at: i64 },
    /// Renewal request was rejected because the global order limit has been reached.
    CapacityExceeded,
    /// Store or ACME error.
    Store(String),
}

/// A renewal error with its text.
pub enum RenewProblem {
    NotFound(Seq<char>),
    RateLimited { name: Seq<char>, retry_at: i64 },
    CapacityExceeded,
    Store(Seq<char>),
}

impl View for RenewError {
    type V = RenewProblem;

    open spec fn view(&self) -> RenewProblem {
        match *self {
            RenewError::NotFound(s) => RenewProblem::NotFound(s@),
            RenewError::RateLimited { name, retry_at } => RenewProblem::RateLimited {
                name: name@,
                retry_at,
            },
            RenewError::CapacityExceeded => RenewProblem::CapacityExceeded,
            RenewError::Store(s) => RenewProblem::Store(s@),
        }
    }
}

impl RenewProblem {
    /// The message of the error.
    pub open spec fn message(self) -> Seq<char> {
        match self {
            RenewProblem::NotFound(s) => "Certificate for hostname '"@ + s
                + "' not found in store"@,
            RenewProblem::RateLimited { name, retry_at } => "Rate limited: retry for hostname '"@
                + name + "' allowed after "@ + number::signed_decimal(retry_at as int),
            RenewProblem::CapacityExceeded =>
                "Global in-flight ACME order limit reached (4 concurrent orders)"@,
            RenewProblem::Store(s) => "Store error: "@ + s,
        }
    }
}

impl RenewError {
    /// The message of the error.
    pub fn message(&self) -> (r: String)
        ensures
            r@ == self@.message(),
    {
        match self {
            RenewError::NotFound(s) => text::cat3(
                "Certificate for hostname '",
                s.as_str(),
                "' not found in store",
            ),
            RenewError::RateLimited { name, retry_at } => {
                let at = number::signed_decimal_of(*retry_at);
                text::cat4(
                    "Rate limited: retry for hostname '",
                    name.as_str(),
                    "' allowed after ",
                    at.as_str(),
                )
            },
            RenewError::CapacityExceeded =>
                "Global in-flight ACME order limit reached (4 concurrent orders)".to_owned(),
            RenewError::Store(s) => text::cat2("Store error: ", s.as_str()),
        }
    }
}

/// A certificate and its key, ready to serve, with the DER leaf of its chain.
pub struct LoadedKey<K> {
    pub key: K,
    pub leaf: Option<Vec<u8>>,
}

/// A certificate of the store, with its key where that could be read.
pub struct CachedCert<K> {
    pub name: String,
    pub not_after: i64,
    pub last_active_at: Option<i64>,
    pub loaded: Option<LoadedKey<K>>,
}

/// How an order ended.
pub enum IssuanceOutcome<K> {
    /// The certificate was issued.
    Issued { loaded: LoadedKey<K>, not_after: i64 },
    /// The certificate was issued and its key could not be read.
    Unreadable(String),
    /// The order failed.
    Failed(AcmeError),
}

/// What an order failed of that did not end with a certificate in service. A
/// certificate whose key cannot be read is as good as none.
pub open spec fn failure_of<K>(outcome: IssuanceOutcome<K>) -> AcmeProblem {
    match outcome {
        IssuanceOutcome::Unreadable(e) => AcmeProblem::Other(
            "Failed to parse issued key: "@ + e@,
        ),
        IssuanceOutcome::Failed(e) => e@,
        IssuanceOutcome::Issued { .. } => AcmeProblem::Other(Seq::empty()),
    }
}

/// A renewal that is due.
#[derive(Debug)]
pub struct DueRenewal {
    /// The hostname whose order is to be started.
    pub hostname: String,
    /// The status to report to the supervisor before.
    pub notify: Option<&'static str>,
}

/// What a request for a certificate comes to.
#[derive(Debug)]
pub enum EnsureStep {
    /// A valid certificate is there.
    AlreadyIssued,
    /// Another request for the hostname is being served: its outcome counts.
    Follow,
    /// This request orders; the status to report to the supervisor, if any.
    Lead(Option<&'static str>),
}

/// What is to be done when an order has ended.
pub struct IssuanceReport {
    /// What the order's caller is answered.
    pub result: Result<(), AcmeError>,
    /// The status to report to the supervisor, if any.
    pub notify: Option<&'static str>,
    /// What the callers that wait for the same hostname are answered, if any do.
    pub followers: Option<Result<(), String>>,
    /// The detail of the `failed` event that is recorded, if any.
    pub failed_event: Option<String>,
    /// Held handshakes are to be woken.
    pub wake: bool,
}

/// A certificate of the store that may be due for renewal.
pub struct RenewalRow {
    pub name: String,
    pub not_before: i64,
    pub not_after: i64,
    pub last_active_at: Option<i64>,
}

/// What the manager knows. Every hostname is in lower case.
#[verifier::reject_recursive_types(K)]
pub struct ManagerFacts<K> {
    pub root: Seq<char>,
    pub states: Map<Seq<char>, StateFacts>,
    pub active: Set<Seq<char>>,
    pub failures: Map<Seq<char>, u32>,
    pub in_flight: Set<Seq<char>>,
    pub orders: int,
    pub stored: Map<Seq<char>, StoredCert<K>>,
    pub ordering: Set<Seq<char>>,
    /// The state transitions since they were last taken.
    pub changes: Seq<(Seq<char>, StateFacts)>,
    /// The hostnames that were made inactive and not active again.
    pub released: Set<Seq<char>>,
    /// The hostnames whose stored activity is to be set or cleared.
    pub unsaved: Set<Seq<char>>,
}

/// The expiry that the leaf of a loaded chain states.
pub open spec fn leaf_expiry<K>(loaded: LoadedKey<K>) -> i64 {
    CertResolver::<K>::stated_expiry(
        match loaded.leaf {
            Some(der) => Some(der@),
            None => None,
        },
    ) as i64
}

/// The names of a list in lower case.
pub open spec fn lowered_names(v: Seq<String>) -> Seq<Seq<char>> {
    v.map_values(|s: String| text::lower(s@))
}

/// A certificate of the store that is served after a restart.
pub open spec fn is_loadable<K>(row: CachedCert<K>, now: i64) -> bool {
    row.not_after > now && row.loaded is Some
}

impl<K> ManagerFacts<K> {
    /// The state of a hostname.
    pub open spec fn status(self, name: Seq<char>) -> StateFacts {
        if self.states.contains_key(text::lower(name)) {
            self.states[text::lower(name)]
        } else {
            StateFacts::Pending
        }
    }

    /// The hostname is active.
    pub open spec fn is_active(self, name: Seq<char>) -> bool {
        self.active.contains(text::lower(name))
    }

    /// A state is set and the transition noted.
    pub open spec fn with_state(self, name: Seq<char>, state: StateFacts) -> Self {
        ManagerFacts {
            states: self.states.insert(text::lower(name), state),
            changes: self.changes.push((text::lower(name), state)),
            ..self
        }
    }

    /// A hostname is made active or inactive, and that is to be stored.
    pub open spec fn with_active(self, name: Seq<char>, active: bool) -> Self {
        let host = text::lower(name);
        ManagerFacts {
            active: if active {
                self.active.insert(host)
            } else {
                self.active.remove(host)
            },
            released: if active {
                self.released.remove(host)
            } else {
                self.released.insert(host)
            },
            unsaved: self.unsaved.insert(host),
            ..self
        }
    }

    /// A certificate is put into service.
    pub open spec fn with_certificate(self, name: Seq<char>, loaded: LoadedKey<K>) -> Self {
        ManagerFacts {
            stored: self.stored.insert(
                text::lower(name),
                StoredCert { key: loaded.key, not_after: leaf_expiry(loaded) },
            ),
            ordering: self.ordering.remove(text::lower(name)),
            ..self
        }
    }

    /// A certificate of the store is taken over after a restart, if it is
    /// valid and its key can be read.
    pub open spec fn with_cached(self, row: CachedCert<K>, now: i64) -> Self {
        let name = text::lower(row.name@);
        if is_loadable(row, now) {
            let served = self.with_certificate(name, row.loaded->0).with_state(
                name,
                StateFacts::Issued { not_after: row.not_after },
            );
            if row.last_active_at is Some || name == self.root {
                ManagerFacts { active: served.active.insert(name), ..served }
            } else {
                served
            }
        } else {
            self
        }
    }

    /// The certificates of the store are taken over, in order.
    pub open spec fn with_all_cached(self, rows: Seq<CachedCert<K>>, now: i64) -> Self
        decreases rows.len(),
    {
        if rows.len() == 0 {
            self
        } else {
            self.with_all_cached(rows.drop_last(), now).with_cached(rows.last(), now)
        }
    }

    /// The manager after a restart: without a valid root certificate the root
    /// is pending, and handshakes for it are held.
    pub open spec fn initialized(self, rows: Seq<CachedCert<K>>, now: i64) -> Self {
        let loaded = self.with_all_cached(rows, now);
        if exists|i: int|
            0 <= i < rows.len() && is_loadable(#[trigger] rows[i], now) && text::lower(rows[i].name@)
                == self.root {
            loaded
        } else {
            let pending = loaded.with_state(self.root, StateFacts::Pending);
            ManagerFacts { ordering: pending.ordering.insert(text::lower(self.root)), ..pending }
        }
    }

    /// A certificate is under renewal and still valid.
    pub open spec fn renewing_valid(self, name: Seq<char>, now: i64) -> bool {
        self.status(name) matches StateFacts::Renewing { not_after } && not_after > now
    }

    /// An order begins: unless a valid certificate is being renewed, the
    /// hostname is ordering and handshakes for it are held.
    pub open spec fn with_order_begun(self, name: Seq<char>, now: i64) -> Self {
        if self.renewing_valid(name, now) {
            self
        } else {
            let m = self.with_state(name, StateFacts::OrderInProgress);
            ManagerFacts { ordering: m.ordering.insert(text::lower(name)), ..m }
        }
    }

    /// The number of consecutive failures of a hostname.
    pub open spec fn failure_count(self, name: Seq<char>) -> int {
        if self.failures.contains_key(text::lower(name)) {
            self.failures[text::lower(name)] as int
        } else {
            0
        }
    }

    /// When a hostname whose order fails now may be tried again.
    pub open spec fn next_retry(self, name: Seq<char>, error: AcmeProblem, now: i64) -> int {
        now + (renewal::backoff_secs(
            (self.failure_count(name) + 1) as nat,
            error.retry_after(),
        ) as u64 as i64)
    }

    /// An order ends.
    pub open spec fn with_order_ended(
        self,
        name: Seq<char>,
        outcome: IssuanceOutcome<K>,
        now: i64,
    ) -> Self {
        let host = text::lower(name);
        match outcome {
            IssuanceOutcome::Issued { loaded, not_after } => {
                let m = self.with_certificate(name, loaded).with_state(
                    name,
                    StateFacts::Issued { not_after },
                );
                ManagerFacts {
                    failures: m.failures.remove(host),
                    in_flight: m.in_flight.remove(host),
                    ..m
                }
            },
            _ => {
                let problem = failure_of(outcome);
                let m = self.with_state(
                    name,
                    StateFacts::Failed {
                        error: problem.message(),
                        next_retry: self.next_retry(name, problem, now) as i64,
                    },
                );
                ManagerFacts {
                    failures: m.failures.insert(host, (self.failure_count(name) + 1) as u32),
                    ordering: m.ordering.remove(host),
                    in_flight: m.in_flight.remove(host),
                    ..m
                }
            },
        }
    }

    /// The state of a hostname whose renewal is queued.
    pub open spec fn queued_state(self, name: Seq<char>) -> StateFacts {
        match self.status(name).expiry() {
            Some(not_after) => if not_after > 0 {
                StateFacts::Renewing { not_after }
            } else {
                StateFacts::OrderInProgress
            },
            None => StateFacts::OrderInProgress,
        }
    }

    /// The renewal of a hostname is queued.
    pub open spec fn with_renewal_queued(self, name: Seq<char>) -> Self {
        self.with_state(name, self.queued_state(name))
    }

    /// The renewals of hostnames are queued, in order.
    pub open spec fn with_renewals_queued(self, names: Seq<Seq<char>>) -> Self
        decreases names.len(),
    {
        if names.len() == 0 {
            self
        } else {
            self.with_renewals_queued(names.drop_last()).with_renewal_queued(names.last())
        }
    }

    /// When the hostname may be tried again, where it has to wait.
    pub open spec fn waits_until(self, name: Seq<char>, now: i64) -> Option<i64> {
        match self.status(name) {
            StateFacts::Failed { next_retry, .. } => if now < next_retry {
                Some(next_retry)
            } else {
                None
            },
            _ => None,
        }
    }

    /// Every hostname that is known: the root, the store's and the tracked ones.
    pub open spec fn known(self, stored: Seq<String>) -> Set<Seq<char>> {
        lowered_names(stored).to_set().union(self.states.dom()).insert(self.root)
    }

    /// The root and the active hostnames are renewed together.
    pub open spec fn renewed_together(self, name: Seq<char>) -> bool {
        name == self.root || self.is_active(name)
    }

    /// The first hostname of a list that has to wait.
    pub open spec fn first_waiting(self, list: Seq<Seq<char>>, now: i64) -> Option<RenewProblem>
        decreases list.len(),
    {
        if list.len() == 0 {
            None
        } else {
            match self.waits_until(list[0], now) {
                Some(retry_at) => Some(RenewProblem::RateLimited { name: list[0], retry_at }),
                None => self.first_waiting(list.subrange(1, list.len() as int), now),
            }
        }
    }

    /// The hostname of the store is due for renewal.
    pub open spec fn row_is_due(self, row: RenewalRow, now: i64) -> bool {
        let name = text::lower(row.name@);
        (name == self.root || self.active.contains(name) || (row.last_active_at is Some
            && !self.released.contains(name)))
            && renewal::renewal_due(row.not_before as int, row.not_after as int, now as int)
    }
}

/// High-level certificate manager. `K` is a certificate with its key.
///
/// Coordinates:
/// - Eager initial issuance for `root_domain`
/// - Lazy per-hostname issuance via `ensure(name)`
/// - Deduplication of concurrent in-flight orders for the same hostname
/// - Global concurrency limit on in-flight ACME orders
/// - Per-name state tracking
/// - Background renewal with exponential backoff on failure
pub struct CertManager<K> {
    root_domain: String,
    resolver: CertResolver<K>,
    states: NameMap<CertState>,
    active: NameMap<()>,
    failures: NameMap<u32>,
    in_flight: NameMap<()>,
    orders: usize,
    changes: Vec<(String, CertState)>,
    released: NameMap<()>,
    unsaved: NameMap<()>,
}

/// The hostnames of a list of activity changes.
pub open spec fn changed_names(v: Seq<(String, bool)>) -> Seq<Seq<char>> {
    v.map_values(|c: (String, bool)| c.0@)
}

/// The transitions of a list, as text.
pub open spec fn transitions(v: Seq<(String, CertState)>) -> Seq<(Seq<char>, StateFacts)> {
    v.map_values(|c: (String, CertState)| (c.0@, c.1@))
}

/// The states of a map, as text.
pub open spec fn state_facts(m: Map<Seq<char>, CertState>) -> Map<Seq<char>, StateFacts> {
    m.map_values(|s: CertState| s@)
}

impl<K> View for CertManager<K> {
    type V = ManagerFacts<K>;

    closed spec fn view(&self) -> ManagerFacts<K> {
        ManagerFacts {
            root: self.root_domain@,
            states: state_facts(self.states@),
            active: self.active@.dom(),
            failures: self.failures@,
            in_flight: self.in_flight@.dom(),
            orders: self.orders as int,
            stored: self.resolver.stored(),
            ordering: self.resolver.ordering(),
            changes: transitions(self.changes@),
            released: self.released@.dom(),
            unsaved: self.unsaved@.dom(),
        }
    }
}

impl<K> CertManager<K> {
    /// The maps are in order, the root domain is in lower case, and no more
    /// orders are in flight than are allowed.
    pub closed spec fn wf(&self) -> bool {
        &&& self.resolver.wf()
        &&& self.states.wf()
        &&& self.active.wf()
        &&& self.failures.wf()
        &&& self.in_flight.wf()
        &&& self.released.wf()
        &&& self.unsaved.wf()
        &&& self.orders <= MAX_ORDERS
        &&& text::lower(self.root_domain@) == self.root_domain@
    }

    /// What always holds of a manager.
    pub proof fn always(&self)
        requires
            self.wf(),
        ensures
            0 <= self@.orders <= MAX_ORDERS,
            text::lower(self@.root) == self@.root,
    {
    }

    /// Creates a new manager that knows no certificate.
    pub fn new(root_domain: &str) -> (r: Self)
        ensures
            r.wf(),
            r@.root == text::lower(root_domain@),
            r@.states == Map::<Seq<char>, StateFacts>::empty(),
            r@.active == Set::<Seq<char>>::empty(),
            r@.failures == Map::<Seq<char>, u32>::empty(),
            r@.in_flight == Set::<Seq<char>>::empty(),
            r@.orders == 0,
            r@.stored == Map::<Seq<char>, StoredCert<K>>::empty(),
            r@.ordering == Set::<Seq<char>>::empty(),
            r@.changes == Seq::<(Seq<char>, StateFacts)>::empty(),
            r@.released == Set::<Seq<char>>::empty(),
            r@.unsaved == Set::<Seq<char>>::empty(),
    {
        let r = CertManager {
            root_domain: text::lowered(root_domain),
            resolver: CertResolver::new(root_domain),
            states: NameMap::new(),
            active: NameMap::new(),
            failures: NameMap::new(),
            in_flight: NameMap::new(),
            orders: 0,
            changes: Vec::new(),
            released: NameMap::new(),
            unsaved: NameMap::new(),
        };
        proof {
            text::lower_idempotent(root_domain@);
            assert(r@.states =~= Map::<Seq<char>, StateFacts>::empty());
            assert(r@.active =~= Set::<Seq<char>>::empty());
            assert(r@.in_flight =~= Set::<Seq<char>>::empty());
            assert(r@.released =~= Set::<Seq<char>>::empty());
            assert(r@.unsaved =~= Set::<Seq<char>>::empty());
            assert(r@.changes =~= Seq::<(Seq<char>, StateFacts)>::empty());
        }
        r
    }

    /// The dynamic certificate resolver.
    pub fn resolver(&self) -> (r: &CertResolver<K>)
        requires
            self.wf(),
        ensures
            r.wf(),
            r.stored() == self@.stored,
            r.ordering() == self@.ordering,
    {
        &self.resolver
    }

    /// The root domain, in lower case.
    pub fn root_domain(&self) -> (r: &str)
        ensures
            r@ == self@.root,
    {
        self.root_domain.as_str()
    }

    /// Sets the certificate state for a hostname and notes the transition.
    pub fn set_state(&mut self, name: &str, state: CertState)
        requires
            old(self).wf(),
        ensures
            final(self).wf(),
            final(self)@ == old(self)@.with_state(name@, state@),
    {
        let lower = text::lowered(name);
        let ghost before = self.states@;
        let ghost noted = transitions(self.changes@);
        self.states.insert(lower.as_str(), state.clone());
        self.changes.push((lower, state));
        proof {
            assert(state_facts(self.states@) =~= state_facts(before).insert(
                text::lower(name@),
                state@,
            ));
            assert(transitions(self.changes@) =~= noted.push((text::lower(name@), state@)));
        }
    }

    /// Takes the state transitions since they were last taken, oldest first.
    pub fn take_state_changes(&mut self) -> (r: Vec<(String, CertState)>)
        requires
            old(self).wf(),
        ensures
            final(self).wf(),
            transitions(r@) == old(self)@.changes,
            final(self)@ == (ManagerFacts { changes: Seq::empty(), ..old(self)@ }),
    {
        let mut taken: Vec<(String, CertState)> = Vec::new();
        std::mem::swap(&mut taken, &mut self.changes);
        assert(transitions(self.changes@) =~= Seq::<(Seq<char>, StateFacts)>::empty());
        taken
    }

    /// Sets the active status for a hostname.
    ///
    /// Inactive hostnames are skipped by the background renewal loop, allowing their
    /// certificates to expire until re-activated or requested via `ensure`.
    pub fn set_active(&mut self, name: &str, active: bool)
        requires
            old(self).wf(),
        ensures
            final(self).wf(),
            final(self)@ == old(self)@.with_active(name@, active),
    {
        let lower = text::lowered(name);
        let ghost before = *self;
        if active {
            self.active.insert(lower.as_str(), ());
            let _ = self.released.remove(lower.as_str());
        } else {
            let _ = self.active.remove(lower.as_str());
            self.released.insert(lower.as_str(), ());
        }
        self.unsaved.insert(lower.as_str(), ());
        proof {
            let after = before@.with_active(name@, active);
            assert(self.active@.dom() =~= after.active);
            assert(self.released@.dom() =~= after.released);
            assert(self.unsaved@.dom() =~= after.unsaved);
        }
    }

    /// Takes the hostnames whose activity changed since they were last taken, each with whether
    /// it is active now: its stored stamp is to be set, or cleared.
    pub fn take_activity_changes(&mut self) -> (r: Vec<(String, bool)>)
        requires
            old(self).wf(),
        ensures
            final(self).wf(),
            changed_names(r@).no_duplicates(),
            changed_names(r@).to_set() == old(self)@.unsaved,
            forall|i: int| 0 <= i < r@.len() ==> (#[trigger] r@[i]).1 == old(self)@.active.contains(r@[i].0@),
            final(self)@ == (ManagerFacts { unsaved: Set::empty(), ..old(self)@ }),
    {
        let mut r: Vec<(String, bool)> = Vec::new();
        let ghost order = self.unsaved.order();
        let mut i: usize = 0;
        proof {
            self.unsaved.order_lists_the_names();
        }
        let n: usize = self.unsaved.len();
        while i < n
            invariant
                self.wf(),
                n == order.len(),
                i <= n,
                order == self.unsaved.order(),
                r@.len() == i,
                forall|j: int|
                    0 <= j < i ==> (#[trigger] r@[j]).0@ == order[j] && r@[j].1
                        == self@.active.contains(order[j]),
            decreases n - i,
        {
            let name = self.unsaved.name_at(i);
            r.push((name.to_owned(), self.active.contains(name)));
            i += 1;
        }
        assert(changed_names(r@) =~= order);
        self.unsaved = NameMap::new();
        assert(self.unsaved@.dom() =~= Set::<Seq<char>>::empty());
        r
    }

    /// Returns true if `name` is currently marked as active.
    pub fn is_active(&self, name: &str) -> (r: bool)
        requires
            self.wf(),
        ensures
            r == self@.is_active(name@),
    {
        let lower = text::lowered(name);
        self.active.contains(lower.as_str())
    }

    /// Retrieves the current certificate state for a hostname.
    pub fn status(&self, name: &str) -> (r: CertState)
        requires
            self.wf(),
        ensures
            r@ == self@.status(name@),
    {
        let lower = text::lowered(name);
        match self.states.get(lower.as_str()) {
            Some(s) => s.clone(),
            None => CertState::Pending,
        }
    }

    /// Whether a hostname is tracked.
    pub fn tracks(&self, name: &str) -> (r: bool)
        requires
            self.wf(),
        ensures
            r == self@.states.contains_key(name@),
    {
        self.states.contains(name)
    }

    /// Returns the current state label for the root domain ("pending", "ordering", "issued", etc.).
    pub fn root_cert_status(&self) -> (r: &'static str)
        requires
            self.wf(),
        ensures
            r@ == self@.status(self@.root).label(),
    {
        self.status(self.root_domain.as_str()).label()
    }

    /// Returns a snapshot of all tracked hostname certificate states.
    pub fn list_states(&self) -> (r: Vec<(String, CertState)>)
        requires
            self.wf(),
        ensures
            transitions(r@).map_values(|c: (Seq<char>, StateFacts)| c.0).no_duplicates(),
            transitions(r@).map_values(|c: (Seq<char>, StateFacts)| c.0).to_set()
                == self@.states.dom(),
            forall|i: int|
                0 <= i < r@.len() ==> self@.states.contains_key((#[trigger] r@[i]).0@)
                    && self@.states[r@[i].0@] == r@[i].1@,
    {
        let mut r: Vec<(String, CertState)> = Vec::new();
        let ghost order = self.states.order();
        let mut i: usize = 0;
        proof {
            self.states.order_lists_the_names();
        }
        let n: usize = self.states.len();
        while i < n
            invariant
                self.wf(),
                n == order.len(),
                i <= n,
                order == self.states.order(),
                order.to_set() == self.states@.dom(),
                r@.len() == i,
                forall|j: int|
                    0 <= j < i ==> (#[trigger] r@[j]).0@ == order[j] && r@[j].1@
                        == self.states@[order[j]]@,
            decreases n - i,
        {
            r.push((self.states.name_at(i).to_owned(), self.states.value_at(i).clone()));
            i += 1;
        }
        proof {
            assert(transitions(r@).map_values(|c: (Seq<char>, StateFacts)| c.0) =~= order);
            assert(self@.states.dom() =~= self.states@.dom());
            assert forall|j: int| 0 <= j < r@.len() implies self@.states.contains_key(
                (#[trigger] r@[j]).0@,
            ) && self@.states[r@[j].0@] == r@[j].1@ by {
                assert(order.to_set().contains(order[j]));
            }
        }
        r
    }

    fn put_in_service(&mut self, name: &str, loaded: LoadedKey<K>) -> (woken: bool)
        requires
            old(self).wf(),
        ensures
            final(self).wf(),
            final(self)@ == old(self)@.with_certificate(name@, loaded),
            woken == old(self)@.ordering.contains(text::lower(name@)),
    {
        let leaf: Option<&[u8]> = match &loaded.leaf {
            Some(der) => Some(der.as_slice()),
            None => None,
        };
        self.resolver.insert_cert(name, loaded.key, leaf)
    }

    fn take_over(&mut self, row: CachedCert<K>, now: i64) -> (is_root: bool)
        requires
            old(self).wf(),
        ensures
            final(self).wf(),
            final(self)@ == old(self)@.with_cached(row, now),
            is_root == (is_loadable(row, now) && text::lower(row.name@) == old(self)@.root),
    {
        let lower = text::lowered(row.name.as_str());
        if row.not_after <= now {
            return false;
        }
        match row.loaded {
            Some(loaded) => {
                let is_root = text::same(lower.as_str(), self.root_domain.as_str());
                let _ = self.put_in_service(lower.as_str(), loaded);
                self.set_state(lower.as_str(), CertState::Issued { not_after: row.not_after });
                if row.last_active_at.is_some() || is_root {
                    let ghost before = self.active@;
                    self.active.insert(lower.as_str(), ());
                    assert(self.active@.dom() =~= before.dom().insert(lower@));
                }
                is_root
            },
            None => false,
        }
    }

    /// Takes the certificates of the store over; where no valid root certificate is among them,
    /// the root domain is pending and handshakes for it are held.
    pub fn init(&mut self, rows: Vec<CachedCert<K>>, now: i64)
        requires
            old(self).wf(),
        ensures
            final(self).wf(),
            final(self)@ == old(self)@.initialized(rows@, now),
    {
        let ghost all = rows@;
        let ghost start = self@;
        let mut rows = rows;
        let mut root_valid: bool = false;
        let ghost mut done: int = 0;
        assert(all.subrange(0, all.len() as int) == all);
        assert(all.take(0) == Seq::<CachedCert<K>>::empty());
        while rows.len() > 0
            invariant
                self.wf(),
                0 <= done <= all.len(),
                rows@ == all.subrange(done, all.len() as int),
                self@ == start.with_all_cached(all.take(done), now),
                self@.root == start.root,
                root_valid == exists|i: int|
                    0 <= i < done && is_loadable(#[trigger] all[i], now) && text::lower(all[i].name@)
                        == start.root,
            decreases rows@.len(),
        {
            let row = rows.remove(0);
            assert(row == all[done]);
            let is_root = self.take_over(row, now);
            proof {
                assert(all.take(done + 1).drop_last() == all.take(done));
                assert(all.take(done + 1).last() == all[done]);
                if is_root {
                    assert(is_loadable(all[done], now) && text::lower(all[done].name@)
                        == start.root);
                }
                done = done + 1;
                assert(rows@ =~= all.subrange(done, all.len() as int));
            }
            root_valid = root_valid || is_root;
        }
        assert(all.take(all.len() as int) == all);
        if !root_valid {
            let root = self.root_domain.clone();
            self.set_state(root.as_str(), CertState::Pending);
            self.resolver.mark_ordering(root.as_str());
        }
    }

    /// The root domain, where its order is to be started eagerly.
    pub fn spawn_eager_order_if_pending(&self) -> (r: Option<String>)
        requires
            self.wf(),
        ensures
            match r {
                Some(name) => name@ == self@.root,
                None => true,
            },
            r is Some == (self@.states.contains_key(self@.root) && self@.states[self@.root]
                is Pending),
    {
        match self.states.get(self.root_domain.as_str()) {
            Some(CertState::Pending) => Some(self.root_domain.clone()),
            _ => None,
        }
    }

    /// An order begins; returns the status to report to the supervisor, if the hostname is the
    /// root domain.
    pub fn begin_issuance(&mut self, name: &str, now: i64) -> (notify: Option<&'static str>)
        requires
            old(self).wf(),
        ensures
            final(self).wf(),
            final(self)@ == old(self)@.with_order_begun(name@, now),
            (match notify {
                Some(s) => Some(s@),
                None => None,
            }) == (if text::lower(name@) != old(self)@.root {
                None
            } else if old(self)@.renewing_valid(name@, now) {
                Some("renewing"@)
            } else {
                Some("ordering"@)
            }),
    {
        let lower = text::lowered(name);
        let is_root = text::same(lower.as_str(), self.root_domain.as_str());
        let is_renewing = match self.status(name) {
            CertState::Renewing { not_after } => not_after > now,
            _ => false,
        };
        if !is_renewing {
            self.set_state(name, CertState::OrderInProgress);
            self.resolver.mark_ordering(name);
            if is_root {
                Some("ordering")
            } else {
                None
            }
        } else if is_root {
            Some("renewing")
        } else {
            None
        }
    }

    /// Lazily issues a certificate for `name` if no valid certificate exists, deduplicating concurrent calls.
    pub fn ensure(&mut self, name: &str, now: i64) -> (r: EnsureStep)
        requires
            old(self).wf(),
        ensures
            final(self).wf(),
            ({
                let m = old(self)@.with_active(name@, true);
                let host = text::lower(name@);
                if m.states.contains_key(host) && (m.states[host] matches StateFacts::Issued {
                    not_after,
                } && not_after > now) {
                    r is AlreadyIssued && final(self)@ == m
                } else if m.in_flight.contains(host) {
                    r is Follow && final(self)@ == m
                } else {
                    let led = ManagerFacts { in_flight: m.in_flight.insert(host), ..m };
                    &&& r is Lead
                    &&& final(self)@ == led.with_order_begun(name@, now)
                    &&& (match r->Lead_0 {
                        Some(s) => Some(s@),
                        None => None,
                    }) == (if host != m.root {
                        None
                    } else if m.renewing_valid(name@, now) {
                        Some("renewing"@)
                    } else {
                        Some("ordering"@)
                    })
                }
            }),
    {
        let lower = text::lowered(name);
        self.set_active(name, true);
        if let Some(CertState::Issued { not_after }) = self.states.get(lower.as_str()) {
            if *not_after > now {
                return EnsureStep::AlreadyIssued;
            }
        }
        if self.in_flight.contains(lower.as_str()) {
            return EnsureStep::Follow;
        }
        let ghost before = self.in_flight@;
        self.in_flight.insert(lower.as_str(), ());
        assert(self.in_flight@.dom() =~= before.dom().insert(text::lower(name@)));
        let notify = self.begin_issuance(name, now);
        EnsureStep::Lead(notify)
    }

    /// Takes one of the places for in-flight orders, if one is free.
    pub fn start_order(&mut self) -> (r: bool)
        requires
            old(self).wf(),
        ensures
            final(self).wf(),
            r == (old(self)@.orders < MAX_ORDERS),
            final(self)@ == (ManagerFacts {
                orders: if r {
                    old(self)@.orders + 1
                } else {
                    old(self)@.orders
                },
                ..old(self)@
            }),
    {
        if self.orders < MAX_ORDERS {
            self.orders += 1;
            true
        } else {
            false
        }
    }

    /// Gives the place of an order back that was in flight.
    pub fn finish_order(&mut self)
        requires
            old(self).wf(),
            old(self)@.orders > 0,
        ensures
            final(self).wf(),
            final(self)@ == (ManagerFacts { orders: old(self)@.orders - 1, ..old(self)@ }),
    {
        self.orders -= 1;
    }

    /// The number of orders in flight.
    pub fn orders_in_flight(&self) -> (r: usize)
        ensures
            r == self@.orders,
    {
        self.orders
    }

    /// The number of consecutive failures of a hostname.
    pub fn failure_count(&self, name: &str) -> (r: u32)
        requires
            self.wf(),
        ensures
            r == self@.failure_count(name@),
    {
        let lower = text::lowered(name);
        match self.failures.get(lower.as_str()) {
            Some(n) => *n,
            None => 0,
        }
    }

    /// An order ends.
    pub fn end_issuance(&mut self, name: &str, outcome: IssuanceOutcome<K>, now: i64) -> (r:
        IssuanceReport)
        requires
            old(self).wf(),
            !(outcome is Issued) ==> old(self)@.failure_count(name@) < u32::MAX && i64::MIN <= old(
                self,
            )@.next_retry(name@, failure_of(outcome), now) <= i64::MAX,
        ensures
            final(self).wf(),
            final(self)@ == old(self)@.with_order_ended(name@, outcome, now),
            ({
                let host = text::lower(name@);
                let is_root = host == old(self)@.root;
                let followed = old(self)@.in_flight.contains(host);
                match outcome {
                    IssuanceOutcome::Issued { .. } => {
                        &&& r.result is Ok
                        &&& opt_str(r.notify) == (if is_root {
                            Some("issued"@)
                        } else {
                            None
                        })
                        &&& r.followers is Some == followed
                        &&& followed ==> r.followers->0 is Ok
                        &&& r.failed_event is None
                        &&& r.wake == old(self)@.ordering.contains(host)
                    },
                    _ => {
                        let problem = failure_of(outcome);
                        &&& r.result is Err
                        &&& r.result->Err_0@ == problem
                        &&& outcome matches IssuanceOutcome::Failed(e) ==> r.result->Err_0 == e
                        &&& opt_str(r.notify) == (if is_root {
                            Some("failed"@)
                        } else {
                            None
                        })
                        &&& r.followers is Some == followed
                        &&& followed ==> r.followers->0 is Err && r.followers->0->Err_0@
                            == problem.message()
                        &&& r.failed_event is Some
                        &&& r.failed_event->0@ == problem.message()
                        &&& r.wake == old(self)@.ordering.contains(host)
                    },
                }
            }),
    {
        let e = match outcome {
            IssuanceOutcome::Issued { loaded, not_after } => {
                return self.end_issued(name, loaded, not_after);
            },
            IssuanceOutcome::Unreadable(e) => AcmeError::Other(
                text::cat2("Failed to parse issued key: ", e.as_str()),
            ),
            IssuanceOutcome::Failed(e) => e,
        };
        let lower = text::lowered(name);
        let is_root = text::same(lower.as_str(), self.root_domain.as_str());
        let wake = self.resolver.clear_ordering(name);
        let count: u32 = self.failure_count(name) + 1;
        self.failures.insert(lower.as_str(), count);
        let backoff: u64 = renewal::compute_backoff_secs(count, e.retry_after_secs());
        let wait: i64 = backoff as i64;
        let next_retry: i64 = now + wait;
        let message = e.message();
        self.set_state(name, CertState::Failed { error: message.clone(), next_retry });
        let ghost flying = self.in_flight@;
        let followed = self.in_flight.remove(lower.as_str()).is_some();
        assert(self.in_flight@.dom() =~= flying.dom().remove(text::lower(name@)));
        IssuanceReport {
            result: Err(e),
            notify: if is_root {
                Some("failed")
            } else {
                None
            },
            followers: if followed {
                Some(Err(message.clone()))
            } else {
                None
            },
            failed_event: Some(message),
            wake,
        }
    }

    fn end_issued(&mut self, name: &str, loaded: LoadedKey<K>, not_after: i64) -> (r: IssuanceReport)
        requires
            old(self).wf(),
        ensures
            final(self).wf(),
            forall|now: i64|
                final(self)@ == #[trigger] old(self)@.with_order_ended(
                    name@,
                    IssuanceOutcome::Issued { loaded, not_after },
                    now,
                ),
            ({
                let host = text::lower(name@);
                let followed = old(self)@.in_flight.contains(host);
                &&& r.result is Ok
                &&& opt_str(r.notify) == (if host == old(self)@.root {
                    Some("issued"@)
                } else {
                    None
                })
                &&& r.followers is Some == followed
                &&& followed ==> r.followers->0 is Ok
                &&& r.failed_event is None
                &&& r.wake == old(self)@.ordering.contains(host)
            }),
    {
        let lower = text::lowered(name);
        let is_root = text::same(lower.as_str(), self.root_domain.as_str());
        let wake = self.put_in_service(name, loaded);
        self.set_state(name, CertState::Issued { not_after });
        let _ = self.failures.remove(lower.as_str());
        let ghost flying = self.in_flight@;
        let followed = self.in_flight.remove(lower.as_str()).is_some();
        assert(self.in_flight@.dom() =~= flying.dom().remove(text::lower(name@)));
        IssuanceReport {
            result: Ok(()),
            notify: if is_root {
                Some("issued")
            } else {
                None
            },
            followers: if followed {
                Some(Ok(()))
            } else {
                None
            },
            failed_event: None,
            wake,
        }
    }
}

/// The text of an optional literal.
pub open spec fn opt_str(o: Option<&'static str>) -> Option<Seq<char>> {
    match o {
        Some(s) => Some(s@),
        None => None,
    }
}

/// What a request that waited for another's order is answered: that order's
/// outcome; `None` where the order was abandoned.
pub fn follower_result(received: Option<Result<(), String>>) -> (r: Result<(), AcmeError>)
    ensures
        match received {
            Some(Ok(_)) => r is Ok,
            Some(Err(e)) => r is Err && r->Err_0@ == AcmeProblem::Other(e@),
            None => r is Err && r->Err_0@ == AcmeProblem::Other(
                "In-flight order channel closed"@,
            ),
        },
{
    match received {
        Some(Ok(_)) => Ok(()),
        Some(Err(e)) => Err(AcmeError::Other(e)),
        None => Err(AcmeError::Other("In-flight order channel closed".to_owned())),
    }
}

/// The elements of a list for which a predicate holds, counted.
pub open spec fn count_if(list: Seq<Seq<char>>, p: spec_fn(Seq<char>) -> bool) -> nat
    decreases list.len(),
{
    if list.len() == 0 {
        0
    } else {
        count_if(list.drop_last(), p) + if p(list.last()) {
            1nat
        } else {
            0
        }
    }
}

/// Counting along a list without repetition is counting in its set.
proof fn count_is_cardinality(list: Seq<Seq<char>>, p: spec_fn(Seq<char>) -> bool)
    requires
        list.no_duplicates(),
    ensures
        list.to_set().filter(p).len() == count_if(list, p),
        list.to_set().filter(p).finite(),
        list.to_set().len() == list.len(),
        list.to_set().finite(),
    decreases list.len(),
{
    list.unique_seq_to_set();
    if list.len() == 0 {
        assert(list.to_set().filter(p) =~= Set::<Seq<char>>::empty());
    } else {
        let rest = list.drop_last();
        let last = list.last();
        assert(rest.no_duplicates());
        count_is_cardinality(rest, p);
        assert(!rest.contains(last)) by {
            if rest.contains(last) {
                let i = choose|i: int| 0 <= i < rest.len() && rest[i] == last;
                assert(list[i] == list[list.len() - 1]);
            }
        }
        assert(list.to_set() =~= rest.to_set().insert(last)) by {
            assert forall|k: Seq<char>| list.to_set().contains(k) == rest.to_set().insert(
                last,
            ).contains(k) by {
                if list.contains(k) {
                    let i = choose|i: int| 0 <= i < list.len() && list[i] == k;
                    if i < rest.len() {
                        assert(rest[i] == k);
                    }
                }
                if rest.contains(k) {
                    let i = choose|i: int| 0 <= i < rest.len() && rest[i] == k;
                    assert(list[i] == k);
                }
                assert(list[list.len() - 1] == last);
            }
        }
        if p(last) {
            assert(list.to_set().filter(p) =~= rest.to_set().filter(p).insert(last));
        } else {
            assert(list.to_set().filter(p) =~= rest.to_set().filter(p));
        }
    }
}

impl<K> ManagerFacts<K> {
    /// The hostname is inactive.
    pub open spec fn counts_inactive(self) -> spec_fn(Seq<char>) -> bool {
        |n: Seq<char>| !self.is_active(n)
    }

    /// The hostname is active and holds a certificate.
    pub open spec fn counts_issued(self) -> spec_fn(Seq<char>) -> bool {
        |n: Seq<char>| self.is_active(n) && self.status(n).holds_certificate()
    }

    /// The hostname is active and waits for a certificate.
    pub open spec fn counts_ordering(self) -> spec_fn(Seq<char>) -> bool {
        |n: Seq<char>|
            self.is_active(n) && (self.status(n) is OrderInProgress || self.status(n) is Pending)
    }

    /// The hostname is active and its order failed.
    pub open spec fn counts_failed(self) -> spec_fn(Seq<char>) -> bool {
        |n: Seq<char>| self.is_active(n) && self.status(n) is Failed
    }

    /// A renewal of a hostname that is named is refused: it is unknown, has to
    /// wait, or too many orders are in flight. Force overrides the latter two.
    pub open spec fn renewal_refused(
        self,
        host: Seq<char>,
        force: bool,
        in_store: Result<bool, String>,
        now: i64,
    ) -> Option<RenewProblem> {
        if host != self.root && !self.states.contains_key(host) && in_store is Err {
            Some(RenewProblem::Store(in_store->Err_0@))
        } else if host != self.root && !self.states.contains_key(host) && in_store
            == Ok::<bool, String>(false) {
            Some(RenewProblem::NotFound(host))
        } else if !force && self.waits_until(host, now) is Some {
            Some(
                RenewProblem::RateLimited {
                    name: host,
                    retry_at: self.waits_until(host, now)->0,
                },
            )
        } else if !force && self.orders >= MAX_ORDERS {
            Some(RenewProblem::CapacityExceeded)
        } else {
            None
        }
    }
}

impl<K> CertManager<K> {
    /// Every hostname that is known, in order: the root, the store's and the tracked ones.
    pub fn known_names(&self, stored: &Vec<String>) -> (list: Vec<String>)
        requires
            self.wf(),
        ensures
            names::ascending(text::texts(list@)),
            text::texts(list@).to_set() == self@.known(stored@),
    {
        let mut list: Vec<String> = Vec::new();
        assert(text::texts(list@) =~= Seq::<Seq<char>>::empty());
        names::add_name(&mut list, self.root_domain.as_str());
        let ghost lowers = lowered_names(stored@);
        let ghost root = self.root_domain@;
        let mut i: usize = 0;
        assert(text::texts(list@).to_set() =~= lowers.take(0).to_set().insert(root));
        while i < stored.len()
            invariant
                i <= stored@.len(),
                lowers == lowered_names(stored@),
                names::ascending(text::texts(list@)),
                text::texts(list@).to_set() == lowers.take(i as int).to_set().insert(root),
            decreases stored@.len() - i,
        {
            let lower = text::lowered(stored[i].as_str());
            names::add_name(&mut list, lower.as_str());
            proof {
                set_of_prefix(lowers, i as int);
                assert(text::texts(list@).to_set() =~= lowers.take(i + 1).to_set().insert(root));
            }
            i += 1;
        }
        assert(lowers.take(lowers.len() as int) == lowers);
        let ghost order = self.states.order();
        let n: usize = self.states.len();
        let mut j: usize = 0;
        assert(text::texts(list@).to_set() =~= lowers.to_set().union(
            order.take(0).to_set(),
        ).insert(root));
        while j < n
            invariant
                self.states.wf(),
                order == self.states.order(),
                n == order.len(),
                j <= n,
                names::ascending(text::texts(list@)),
                text::texts(list@).to_set() == lowers.to_set().union(
                    order.take(j as int).to_set(),
                ).insert(root),
            decreases n - j,
        {
            names::add_name(&mut list, self.states.name_at(j));
            proof {
                set_of_prefix(order, j as int);
                assert(text::texts(list@).to_set() =~= lowers.to_set().union(
                    order.take(j + 1).to_set(),
                ).insert(root));
            }
            j += 1;
        }
        proof {
            self.states.order_lists_the_names();
            assert(order.take(order.len() as int) == order);
            assert(self@.states.dom() =~= self.states@.dom());
        }
        list
    }

    /// Computes per-name certificate counts partitioned mutually exclusively:
    /// inactive names count under `inactive`; active names partition into
    /// `issued`, `ordering`, or `failed`.
    pub fn cert_counts(&self, stored: &Vec<String>) -> (r: CertCounts)
        requires
            self.wf(),
        ensures
            r.inactive == self@.known(stored@).filter(self@.counts_inactive()).len(),
            r.issued == self@.known(stored@).filter(self@.counts_issued()).len(),
            r.ordering == self@.known(stored@).filter(self@.counts_ordering()).len(),
            r.failed == self@.known(stored@).filter(self@.counts_failed()).len(),
            r.inactive + r.issued + r.ordering + r.failed == self@.known(stored@).len(),
    {
        let list = self.known_names(stored);
        let ghost all = text::texts(list@);
        let mut counts = CertCounts::default();
        let mut i: usize = 0;
        while i < list.len()
            invariant
                self.wf(),
                i <= list@.len(),
                all == text::texts(list@),
                counts.inactive == count_if(all.take(i as int), self@.counts_inactive()),
                counts.issued == count_if(all.take(i as int), self@.counts_issued()),
                counts.ordering == count_if(all.take(i as int), self@.counts_ordering()),
                counts.failed == count_if(all.take(i as int), self@.counts_failed()),
                counts.inactive + counts.issued + counts.ordering + counts.failed == i,
            decreases list@.len() - i,
        {
            let name = list[i].as_str();
            assert(all.take(i + 1).drop_last() == all.take(i as int));
            assert(all.take(i + 1).last() == name@);
            if !self.is_active(name) {
                counts.inactive += 1;
            } else {
                match self.status(name) {
                    CertState::Issued { .. } => counts.issued += 1,
                    CertState::Renewing { .. } => counts.issued += 1,
                    CertState::OrderInProgress => counts.ordering += 1,
                    CertState::Pending => counts.ordering += 1,
                    CertState::Failed { .. } => counts.failed += 1,
                }
            }
            i += 1;
        }
        proof {
            assert(all.take(all.len() as int) == all);
            names::ascending_is_distinct(all);
            count_is_cardinality(all, self@.counts_inactive());
            count_is_cardinality(all, self@.counts_issued());
            count_is_cardinality(all, self@.counts_ordering());
            count_is_cardinality(all, self@.counts_failed());
        }
        counts
    }

    fn queue_renewal(&mut self, name: &str)
        requires
            old(self).wf(),
        ensures
            final(self).wf(),
            final(self)@ == old(self)@.with_renewal_queued(name@),
    {
        let not_after: i64 = match self.status(name).not_after() {
            Some(t) => t,
            None => 0,
        };
        if not_after > 0 {
            self.set_state(name, CertState::Renewing { not_after });
        } else {
            self.set_state(name, CertState::OrderInProgress);
        }
    }

    fn must_wait(&self, name: &str, now: i64) -> (r: Option<i64>)
        requires
            self.wf(),
        ensures
            r == self@.waits_until(name@, now),
    {
        match self.status(name) {
            CertState::Failed { next_retry, .. } => if now < next_retry {
                Some(next_retry)
            } else {
                None
            },
            _ => None,
        }
    }

    /// Manually triggers renewal for a specific hostname (or root domain); returns the hostname
    /// whose order is to be started.
    ///
    /// Respects the rate-limit backoff and global in-flight cap unless `force` is true.
    /// Inactive hostnames are permitted if explicitly named.
    pub fn renew_hostname(
        &mut self,
        name: &str,
        force: bool,
        in_store: Result<bool, String>,
        now: i64,
    ) -> (r: Result<String, RenewError>)
        requires
            old(self).wf(),
        ensures
            final(self).wf(),
            ({
                let host = if name@ == "root"@ {
                    old(self)@.root
                } else {
                    text::lower(name@)
                };
                match old(self)@.renewal_refused(host, force, in_store, now) {
                    Some(problem) => r is Err && r->Err_0@ == problem && final(self)@ == old(self)@,
                    None => r is Ok && r->Ok_0@ == host && final(self)@ == old(
                        self,
                    )@.with_renewal_queued(host),
                }
            }),
    {
        let lower = if text::same(name, "root") {
            self.root_domain.clone()
        } else {
            text::lowered(name)
        };
        if !text::same(lower.as_str(), self.root_domain.as_str()) && !self.tracks(lower.as_str()) {
            match in_store {
                Err(e) => return Err(RenewError::Store(e)),
                Ok(false) => return Err(RenewError::NotFound(lower)),
                Ok(true) => {},
            }
        }
        if !force {
            if let Some(retry_at) = self.must_wait(lower.as_str(), now) {
                return Err(RenewError::RateLimited { name: lower, retry_at });
            }
            if self.orders >= MAX_ORDERS {
                return Err(RenewError::CapacityExceeded);
            }
        }
        self.queue_renewal(lower.as_str());
        Ok(lower)
    }

    /// Triggers renewal for the root domain and all active hostnames, skipping inactive ones; the
    /// orders of the renewed hostnames are to be started.
    pub fn renew_all(&mut self, force: bool, stored: &Vec<String>, now: i64) -> (r: Result<
        RenewResponse,
        RenewError,
    >)
        requires
            old(self).wf(),
        ensures
            final(self).wf(),
            ({
                let m = old(self)@;
                let together = m.known(stored@).filter(|n: Seq<char>| m.renewed_together(n));
                match r {
                    Ok(resp) => {
                        let renewed = text::texts(resp.renewed@);
                        &&& resp.ok
                        &&& resp.status@ == "queued"@
                        &&& names::ascending(renewed)
                        &&& renewed.to_set() == together
                        &&& names::ascending(text::texts(resp.skipped_inactive@))
                        &&& text::texts(resp.skipped_inactive@).to_set() == m.known(
                            stored@,
                        ).difference(together)
                        &&& force || (m.first_waiting(renewed, now) is None && m.orders
                            < MAX_ORDERS)
                        &&& final(self)@ == m.with_renewals_queued(renewed)
                    },
                    Err(e) => {
                        &&& !force
                        &&& final(self)@ == m
                        &&& exists|renewed: Seq<Seq<char>>|
                            #![trigger names::ascending(renewed)]
                            {
                                &&& names::ascending(renewed)
                                &&& renewed.to_set() == together
                                &&& Some(e@) == (match m.first_waiting(renewed, now) {
                                    Some(problem) => Some(problem),
                                    None => if m.orders >= MAX_ORDERS {
                                        Some(RenewProblem::CapacityExceeded)
                                    } else {
                                        None
                                    },
                                })
                            }
                    },
                }
            }),
    {
        let ghost m = self@;
        let ghost is_together = |n: Seq<char>| m.renewed_together(n);
        let list = self.known_names(stored);
        let ghost all = text::texts(list@);
        let mut renewed: Vec<String> = Vec::new();
        let mut skipped: Vec<String> = Vec::new();
        let mut i: usize = 0;
        proof {
            assert(text::texts(renewed@) =~= Seq::<Seq<char>>::empty());
            assert(text::texts(skipped@) =~= Seq::<Seq<char>>::empty());
            assert(all.take(0).to_set().filter(is_together) =~= Seq::<Seq<char>>::empty().to_set());
            assert(all.take(0).to_set().difference(all.take(0).to_set().filter(is_together))
                =~= Seq::<Seq<char>>::empty().to_set());
        }
        while i < list.len()
            invariant
                self.wf(),
                self@ == m,
                i <= list@.len(),
                all == text::texts(list@),
                is_together == (|n: Seq<char>| m.renewed_together(n)),
                names::ascending(text::texts(renewed@)),
                names::ascending(text::texts(skipped@)),
                text::texts(renewed@).to_set() == all.take(i as int).to_set().filter(is_together),
                text::texts(skipped@).to_set() == all.take(i as int).to_set().difference(
                    all.take(i as int).to_set().filter(is_together),
                ),
            decreases list@.len() - i,
        {
            let name = list[i].as_str();
            proof {
                set_of_prefix(all, i as int);
            }
            if text::same(name, self.root_domain.as_str()) || self.is_active(name) {
                names::add_name(&mut renewed, name);
            } else {
                names::add_name(&mut skipped, name);
            }
            proof {
                let now_set = all.take(i + 1).to_set();
                assert(text::texts(renewed@).to_set() =~= now_set.filter(is_together));
                assert(text::texts(skipped@).to_set() =~= now_set.difference(
                    now_set.filter(is_together),
                ));
            }
            i += 1;
        }
        assert(all.take(all.len() as int) == all);
        let ghost targets = text::texts(renewed@);
        if !force {
            let mut j: usize = 0;
            assert(targets.subrange(0, targets.len() as int) == targets);
            while j < renewed.len()
                invariant
                    self.wf(),
                    self@ == m,
                    !force,
                    j <= renewed@.len(),
                    targets == text::texts(renewed@),
                    names::ascending(targets),
                    targets.to_set() == m.known(stored@).filter(
                        |n: Seq<char>| m.renewed_together(n),
                    ),
                    m.first_waiting(targets, now) == m.first_waiting(
                        targets.subrange(j as int, targets.len() as int),
                        now,
                    ),
                decreases renewed@.len() - j,
            {
                let ghost rest = targets.subrange(j as int, targets.len() as int);
                assert(rest[0] == renewed@[j as int]@);
                assert(rest.subrange(1, rest.len() as int) == targets.subrange(
                    j + 1,
                    targets.len() as int,
                ));
                if let Some(retry_at) = self.must_wait(renewed[j].as_str(), now) {
                    return Err(RenewError::RateLimited { name: renewed[j].clone(), retry_at });
                }
                j += 1;
            }
            if self.orders >= MAX_ORDERS {
                return Err(RenewError::CapacityExceeded);
            }
        }
        let mut k: usize = 0;
        assert(targets.take(0) == Seq::<Seq<char>>::empty());
        while k < renewed.len()
            invariant
                self.wf(),
                k <= renewed@.len(),
                targets == text::texts(renewed@),
                self@ == m.with_renewals_queued(targets.take(k as int)),
            decreases renewed@.len() - k,
        {
            assert(targets.take(k + 1).drop_last() == targets.take(k as int));
            assert(targets.take(k + 1).last() == renewed@[k as int]@);
            self.queue_renewal(renewed[k].as_str());
            k += 1;
        }
        assert(targets.take(targets.len() as int) == targets);
        Ok(
            RenewResponse {
                ok: true,
                renewed,
                status: "queued".to_owned(),
                skipped_inactive: skipped,
            },
        )
    }

    /// Considers a certificate of the store for renewal (no more than 1/3 lifetime remaining);
    /// if it is due, returns the hostname whose order is to be started, and the status to report
    /// to the supervisor before, if it is the root domain.
    pub fn renew_eligible(&mut self, row: &RenewalRow, now: i64) -> (r: Option<DueRenewal>)
        requires
            old(self).wf(),
        ensures
            final(self).wf(),
            r is Some == old(self)@.row_is_due(*row, now),
            r matches Some(due) ==> due.hostname@ == text::lower(row.name@) && match due.notify {
                Some(s) => text::lower(row.name@) == old(self)@.root && s@ == "renewing"@,
                None => text::lower(row.name@) != old(self)@.root,
            },
            final(self)@ == (if old(self)@.row_is_due(*row, now) {
                old(self)@.with_state(
                    row.name@,
                    StateFacts::Renewing { not_after: row.not_after },
                )
            } else {
                old(self)@
            }),
    {
        let lower = text::lowered(row.name.as_str());
        let is_root = text::same(lower.as_str(), self.root_domain.as_str());
        let is_active = is_root || self.active.contains(lower.as_str()) || (
        row.last_active_at.is_some() && !self.released.contains(lower.as_str()));
        if is_active && renewal::should_renew(row.not_before, row.not_after, now) {
            self.set_state(row.name.as_str(), CertState::Renewing { not_after: row.not_after });
            let notify = if is_root {
                Some("renewing")
            } else {
                None
            };
            Some(DueRenewal { hostname: lower, notify })
        } else {
            None
        }
    }
}

/// The message of a renewal that failed.
pub fn renewal_failure(name: &str, error: &AcmeError) -> (r: String)
    ensures
        r@ == "Renewal for "@ + name@ + " failed: "@ + error@.message(),
{
    let message = error.message();
    text::cat4("Renewal for ", name, " failed: ", message.as_str())
}

/// One more element of a list is one more element of its set.
proof fn set_of_prefix(list: Seq<Seq<char>>, i: int)
    requires
        0 <= i < list.len(),
    ensures
        list.take(i + 1).to_set() == list.take(i).to_set().insert(list[i]),
{
    let now = list.take(i + 1);
    let earlier = list.take(i);
    assert forall|k: Seq<char>| now.to_set().contains(k) == earlier.to_set().insert(
        list[i],
    ).contains(k) by {
        if now.contains(k) {
            let j = choose|j: int| 0 <= j < now.len() && now[j] == k;
            if j < i {
                assert(earlier[j] == k);
            }
        }
        if earlier.contains(k) {
            let j = choose|j: int| 0 <= j < earlier.len() && earlier[j] == k;
            assert(now[j] == k);
        }
        assert(now[i] == list[i]);
    }
    assert(now.to_set() =~= earlier.to_set().insert(list[i]));
}

/// Requests for one hostname share one order: once a request leads, the next
/// follows until the order has ended, whatever is asked for meanwhile.
pub proof fn orders_are_shared<K>(m: ManagerFacts<K>, name: Seq<char>, other: Seq<char>, now: i64)
    requires
        m.in_flight.contains(text::lower(name)),
    ensures
        m.with_active(other, true).in_flight.contains(text::lower(name)),
        m.with_order_begun(other, now).in_flight.contains(text::lower(name)),
        m.with_renewal_queued(other).in_flight.contains(text::lower(name)),
{
}

/// An order that ends, in whatever way, leaves no request waiting for the
/// hostname and no handshake held.
pub proof fn ended_order_holds_nothing<K>(
    m: ManagerFacts<K>,
    name: Seq<char>,
    outcome: IssuanceOutcome<K>,
    now: i64,
)
    ensures
        ({
            let after = m.with_order_ended(name, outcome, now);
            &&& !after.in_flight.contains(text::lower(name))
            &&& !after.ordering.contains(text::lower(name))
        }),
{
}

/// Renewal does not interrupt service: while a valid certificate is renewed,
/// no handshake is held, and beginning or failing an order never takes a
/// certificate out of service.
pub proof fn renewal_keeps_serving<K>(
    m: ManagerFacts<K>,
    name: Seq<char>,
    error: AcmeError,
    now: i64,
)
    ensures
        m.renewing_valid(name, now) ==> m.with_order_begun(name, now) == m,
        m.with_order_begun(name, now).stored == m.stored,
        m.with_order_ended(name, IssuanceOutcome::Failed(error), now).stored == m.stored,
        m.with_renewal_queued(name).stored == m.stored,
        m.with_renewal_queued(name).ordering == m.ordering,
{
}

/// A hostname whose order failed has to wait an hour at least before it is
/// tried again unforced; after another failure the wait is never shorter, and
/// it doubles until it is a day long.
pub proof fn failed_order_backs_off<K>(
    m: ManagerFacts<K>,
    name: Seq<char>,
    error: AcmeError,
    now: i64,
    later: i64,
)
    requires
        m.failure_count(name) < u32::MAX,
        error@.retry_after() is None,
        now + 86400 <= i64::MAX,
        now <= later < now + 3600,
    ensures
        ({
            let after = m.with_order_ended(name, IssuanceOutcome::Failed(error), now);
            &&& after.failure_count(name) == m.failure_count(name) + 1
            &&& after.waits_until(name, later) is Some
            &&& now + 3600 <= after.waits_until(name, later)->0 <= now + 86400
            &&& after.next_retry(name, error@, now) >= m.next_retry(name, error@, now)
            &&& after.next_retry(name, error@, now) - now
                == (if 2 * (m.next_retry(name, error@, now) - now) > 86400 {
                86400
            } else {
                2 * (m.next_retry(name, error@, now) - now)
            })
        }),
{
    let failures = (m.failure_count(name) + 1) as u32;
    renewal::backoff_is_bounded(failures, None);
    let secs = renewal::backoff_secs(failures as nat, None);
    assert(secs as u64 as i64 == secs);
    renewal::backoff_doubles(failures as nat);
    let more = renewal::backoff_secs(failures as nat + 1, None);
    assert(more as u64 as i64 == more);
}

/// Every known hostname is counted once: inactive, or active and issued,
/// ordering or failed.
pub proof fn counts_add_up<K>(m: ManagerFacts<K>, stored: Seq<String>)
    requires
        m.states.dom().finite(),
    ensures
        ({
            let known = m.known(stored);
            known.len() == known.filter(m.counts_inactive()).len() + known.filter(
                m.counts_issued(),
            ).len() + known.filter(m.counts_ordering()).len() + known.filter(
                m.counts_failed(),
            ).len()
        }),
{
    let known = m.known(stored);
    vstd::seq_lib::seq_to_set_is_finite(lowered_names(stored));
    assert(known.finite());
    let a = known.filter(m.counts_inactive());
    let b = known.filter(m.counts_issued());
    let c = known.filter(m.counts_ordering());
    let d = known.filter(m.counts_failed());
    vstd::set_lib::lemma_set_disjoint_lens(c, d);
    vstd::set_lib::lemma_set_disjoint_lens(b, c + d);
    vstd::set_lib::lemma_set_disjoint_lens(a, b + (c + d));
    assert(a + (b + (c + d)) =~= known);
}

/// An inactive hostname is skipped by background renewal: once it was made
/// inactive its certificate is not due, whatever stamp the store still holds,
/// and the stamp is to be cleared.
pub proof fn inactive_is_skipped<K>(m: ManagerFacts<K>, name: Seq<char>, row: RenewalRow, now: i64)
    requires
        text::lower(row.name@) == text::lower(name),
        text::lower(name) != m.root,
    ensures
        ({
            let after = m.with_active(name, false);
            &&& !after.row_is_due(row, now)
            &&& after.unsaved.contains(text::lower(name))
            &&& !after.active.contains(text::lower(name))
        }),
{
}

/// After a restart a hostname without a stamp is not active, and its
/// certificate is not due, unless it is the root or was active already.
pub proof fn cleared_stamp_stays_inactive<K>(
    m: ManagerFacts<K>,
    cached: CachedCert<K>,
    row: RenewalRow,
    now: i64,
)
    requires
        cached.last_active_at is None,
        row.last_active_at is None,
        text::lower(row.name@) == text::lower(cached.name@),
        text::lower(row.name@) != m.root,
        !m.active.contains(text::lower(row.name@)),
    ensures
        !m.with_cached(cached, now).row_is_due(row, now),
{
}

/// Success forgets the failures: the next failure starts over at an hour.
pub proof fn success_forgets_failures<K>(
    m: ManagerFacts<K>,
    name: Seq<char>,
    loaded: LoadedKey<K>,
    not_after: i64,
    now: i64,
)
    ensures
        m.with_order_ended(
            name,
            IssuanceOutcome::Issued { loaded, not_after },
            now,
        ).failure_count(name) == 0,
{
}

/// What happens to one hostname leaves every other hostname's state alone.
pub proof fn hostnames_are_independent<K>(
    m: ManagerFacts<K>,
    name: Seq<char>,
    other: Seq<char>,
    outcome: IssuanceOutcome<K>,
    now: i64,
)
    requires
        text::lower(name) != text::lower(other),
    ensures
        m.with_order_begun(name, now).status(other) == m.status(other),
        m.with_order_ended(name, outcome, now).status(other) == m.status(other),
        m.with_renewal_queued(name).status(other) == m.status(other),
        m.with_order_ended(name, outcome, now).failure_count(other) == m.failure_count(other),
{
}

/// A restart never puts an expired certificate into service.
pub proof fn expired_cache_is_ignored<K>(m: ManagerFacts<K>, row: CachedCert<K>, now: i64)
    requires
        row.not_after <= now,
    ensures
        m.with_cached(row, now) == m,
{
}

/// After a restart the root domain holds a certificate or is being ordered.
pub proof fn restart_settles_the_root<K>(m: ManagerFacts<K>, rows: Seq<CachedCert<K>>, now: i64)
    requires
        text::lower(m.root) == m.root,
    ensures
        ({
            let after = m.initialized(rows, now);
            after.states.contains_key(m.root) && (after.status(m.root).holds_certificate() || (
            after.status(m.root) is Pending && after.ordering.contains(m.root)))
        }),
{
    cached_root(m, rows, now);
}

proof fn cached_root<K>(m: ManagerFacts<K>, rows: Seq<CachedCert<K>>, now: i64)
    requires
        text::lower(m.root) == m.root,
    ensures
        m.with_all_cached(rows, now).root == m.root,
        (exists|i: int|
            0 <= i < rows.len() && is_loadable(#[trigger] rows[i], now) && text::lower(rows[i].name@)
                == m.root) ==> {
            let after = m.with_all_cached(rows, now);
            after.states.contains_key(m.root) && after.states[m.root] is Issued
        },
    decreases rows.len(),
{
    if rows.len() > 0 {
        let rest = rows.drop_last();
        cached_root(m, rest, now);
        let last = rows.last();
        text::lower_idempotent(last.name@);
        if exists|i: int|
            0 <= i < rows.len() && is_loadable(#[trigger] rows[i], now) && text::lower(rows[i].name@)
                == m.root {
            let i = choose|i: int|
                0 <= i < rows.len() && is_loadable(#[trigger] rows[i], now) && text::lower(
                    rows[i].name@,
                ) == m.root;
            if i < rest.len() {
                assert(rest[i] == rows[i]);
            }
        }
    }
}

} // verus!
