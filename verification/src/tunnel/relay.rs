//! One client connection: the leases that its control streams hold on
//! registrations, and the visitor exchanges on its other streams.
use super::exchange::{Exchange, ExchangeFacts, Pump};
use super::proxy::ProxyError;
use super::registry::{
    deactivated, given_up, refusal_message, refused, RefusalCode, TunnelRegistry,
};
use crate::cert::manager::CertManager;
use crate::cert::state::{CertState, StateFacts};
use crate::text;
use std::collections::HashMap;
use vstd::prelude::*;

verus! {

broadcast use vstd::std_specs::hash::group_hash_axioms;

/// How often, in seconds, it is asked whether the connected key is still
/// acceptable.
pub const REVERIFY_INTERVAL_SECS: u64 = 60;

/// A control stream is the lease on a registration: the service stays
/// registered exactly as long as the stream is open. Finishing or resetting it
/// unregisters the service; closing the connection unregisters all of them.
#[derive(Debug, PartialEq, Eq)]
pub enum Lease {
    /// The registration is running; no hostname yet.
    Pending,
    /// Registered under this hostname.
    Registered(String),
    /// The client closed the stream while registration was still pending;
    /// unregister as soon as the hostname is known.
    Released,
}

/// A lease with its text.
pub enum LeaseFacts {
    Pending,
    Registered(Seq<char>),
    Released,
}

impl View for Lease {
    type V = LeaseFacts;

    open spec fn view(&self) -> LeaseFacts {
        match *self {
            Lease::Pending => LeaseFacts::Pending,
            Lease::Registered(hostname) => LeaseFacts::Registered(hostname@),
            Lease::Released => LeaseFacts::Released,
        }
    }
}

/// What a message on a stream that became readable is.
#[derive(Debug, Clone, Copy, PartialEq, Eq, Structural)]
pub enum MessagePlace {
    /// Part of a response to a visitor.
    Response,
    /// Unexpected: the control stream has said all it may.
    AfterControl,
    /// The first of a stream that the client opened.
    First,
}

/// A request to register a service, as its first message gives it.
pub struct Registration {
    pub service: String,
    /// Why the request is refused before it is looked at further.
    pub invalid: Option<RefusalCode>,
}

/// What the first message of a stream leads to.
#[derive(Debug)]
pub enum FirstStep {
    /// The stream is reset.
    Reset,
    /// The refusal is sent, and the stream's half finished.
    Refuse { code: RefusalCode, message: String },
    /// The service is to be registered for the key's connection.
    Register { key: String, conn_id: u64, service: String },
}

/// What the end of a registration leads to.
#[derive(Debug)]
pub enum RegisteredStep {
    /// The client has given the stream up: nothing is answered.
    Gone,
    /// The hostname is sent, and its certificate watched.
    Registered { hostname: String },
    /// The refusal is sent, and the stream's half finished.
    Refuse { code: RefusalCode, message: String },
}

/// What the end of a stream leads to.
#[derive(Debug)]
pub struct StreamEnd {
    /// The relay's half is still open and is to be finished.
    pub finish: bool,
    /// What the visitor is answered, where it still waits for a response.
    pub error: Option<ProxyError>,
}

/// What is known of a client connection.
#[verifier::reject_recursive_types(U)]
#[verifier::reject_recursive_types(D)]
pub struct RelayFacts<U, D> {
    pub key: Option<Seq<char>>,
    pub conn_id: Option<u64>,
    pub leases: Map<u64, LeaseFacts>,
    pub exchanges: Map<u64, ExchangeFacts<U, D>>,
}

impl<U, D> RelayFacts<U, D> {
    /// The stream holds a registration under a hostname.
    pub open spec fn holds(self, id: u64, hostname: Seq<char>) -> bool {
        self.leases.contains_key(id) && self.leases[id] == LeaseFacts::Registered(hostname)
    }

    /// The stream holds a registration.
    pub open spec fn is_registered(self, id: u64) -> bool {
        self.leases.contains_key(id) && self.leases[id] is Registered
    }

    /// The client has given the stream up while its registration was running.
    pub open spec fn is_released(self, id: u64) -> bool {
        self.leases.contains_key(id) && self.leases[id] is Released
    }

    /// The connection without the lease of a stream: one that is still pending
    /// stays, marked, until its registration ends.
    pub open spec fn without_lease(self, id: u64) -> Self {
        if self.is_registered(id) {
            RelayFacts { leases: self.leases.remove(id), ..self }
        } else if self.leases.contains_key(id) {
            RelayFacts { leases: self.leases.insert(id, LeaseFacts::Released), ..self }
        } else {
            self
        }
    }

    /// The connection without the exchange of a stream.
    pub open spec fn without_exchange(self, id: u64) -> Self {
        RelayFacts { exchanges: self.exchanges.remove(id), ..self }
    }

    /// The connection with another exchange on a stream.
    pub open spec fn with_exchange(self, id: u64, x: ExchangeFacts<U, D>) -> Self {
        RelayFacts { exchanges: self.exchanges.insert(id, x), ..self }
    }

    /// The connection with another lease on a stream.
    pub open spec fn with_lease(self, id: u64, lease: LeaseFacts) -> Self {
        RelayFacts { leases: self.leases.insert(id, lease), ..self }
    }
}

/// The state of one client connection.
#[verifier::reject_recursive_types(U)]
#[verifier::reject_recursive_types(D)]
pub struct RelayHandler<U, D> {
    conn_id: Option<u64>,
    key: Option<String>,
    leases: HashMap<u64, Lease>,
    inflight: HashMap<u64, Exchange<U, D>>,
}

impl<U, D> View for RelayHandler<U, D> {
    type V = RelayFacts<U, D>;

    closed spec fn view(&self) -> RelayFacts<U, D> {
        RelayFacts {
            key: text::opt(self.key),
            conn_id: self.conn_id,
            leases: self.leases@.map_values(|l: Lease| l@),
            exchanges: self.inflight@.map_values(|x: Exchange<U, D>| x@),
        }
    }
}

impl<U, D> RelayHandler<U, D> {
    /// The queues of every exchange are bounded.
    pub open spec fn wf(&self) -> bool {
        forall|id: u64| #[trigger]
            self@.exchanges.contains_key(id) ==> self@.exchanges[id].bounded()
    }

    /// A connection that has not been authenticated.
    pub fn new() -> (r: Self)
        ensures
            r.wf(),
            r@ == (RelayFacts::<U, D> {
                key: None,
                conn_id: None,
                leases: Map::empty(),
                exchanges: Map::empty(),
            }),
    {
        let r = RelayHandler {
            conn_id: None,
            key: None,
            leases: HashMap::new(),
            inflight: HashMap::new(),
        };
        assert(r@.leases =~= Map::<u64, LeaseFacts>::empty());
        assert(r@.exchanges =~= Map::<u64, ExchangeFacts<U, D>>::empty());
        r
    }

    /// The client proved its key: the connection is registered. Returns its
    /// number, and that of the connection that it supersedes.
    pub fn on_authenticated<C, K>(
        &mut self,
        key_id: &str,
        registry: &mut TunnelRegistry<C>,
        manager: &mut CertManager<K>,
    ) -> (r: (u64, Option<u64>))
        requires
            old(self).wf(),
            old(registry).wf(),
            old(manager).wf(),
        ensures
            final(self).wf(),
            final(self)@ == (RelayFacts { key: Some(key_id@), conn_id: Some(r.0), ..old(self)@ }),
            final(registry).wf(),
            final(registry)@ == old(registry)@.with_connection(key_id@),
            final(manager).wf(),
            final(manager)@ == deactivated(old(manager)@, old(registry)@.served_by(key_id@)),
            r.0 == old(registry)@.next_id,
            r.1 == (if old(registry)@.connections.contains_key(key_id@) {
                Some(old(registry)@.connections[key_id@].id)
            } else {
                None
            }),
    {
        let (id, superseded, _) = registry.register_connection(key_id, manager);
        self.key = Some(key_id.to_owned());
        self.conn_id = Some(id);
        (id, superseded)
    }

    /// The connection closed: all of its services are unregistered, unless a
    /// newer connection of the key has taken its place.
    pub fn on_closed<C, K>(
        &self,
        registry: &mut TunnelRegistry<C>,
        manager: &mut CertManager<K>,
    )
        requires
            self.wf(),
            old(registry).wf(),
            old(manager).wf(),
        ensures
            final(registry).wf(),
            final(manager).wf(),
            match (self@.key, self@.conn_id) {
                (Some(key), Some(id)) => {
                    &&& final(registry)@ == old(registry)@.without_connection(key, id)
                    &&& final(manager)@ == (if old(registry)@.is_current(key, id) {
                        deactivated(old(manager)@, old(registry)@.connections[key].services)
                    } else {
                        old(manager)@
                    })
                },
                _ => final(registry)@ == old(registry)@ && final(manager)@ == old(manager)@,
            },
    {
        if let (Some(key), Some(id)) = (&self.key, self.conn_id) {
            let _ = registry.unregister_connection(key.as_str(), id, manager);
        }
    }

    /// Tells what a message on a readable stream is.
    pub fn message_place(&self, id: u64) -> (r: MessagePlace)
        ensures
            r == (if self@.exchanges.contains_key(id) {
                MessagePlace::Response
            } else if self@.leases.contains_key(id) {
                MessagePlace::AfterControl
            } else {
                MessagePlace::First
            }),
    {
        if self.inflight.contains_key(&id) {
            MessagePlace::Response
        } else if self.leases.contains_key(&id) {
            MessagePlace::AfterControl
        } else {
            MessagePlace::First
        }
    }

    /// The client gave up a control stream: the registration it carried is
    /// dropped; returns whether the relay's half is to be finished. A lease
    /// that is still pending stays, so that the end of the registration sees
    /// the stream is gone and unregisters right after.
    pub fn release_lease<C, K>(
        &mut self,
        id: u64,
        registry: &mut TunnelRegistry<C>,
        manager: &mut CertManager<K>,
    ) -> (finish: bool)
        requires
            old(self).wf(),
            old(registry).wf(),
            old(manager).wf(),
        ensures
            final(self).wf(),
            final(self)@ == old(self)@.without_lease(id),
            finish == old(self)@.is_registered(id),
            final(registry).wf(),
            final(manager).wf(),
            match (old(self)@.key, finish) {
                (Some(key), true) => {
                    let host = old(self)@.leases[id]->Registered_0;
                    &&& final(registry)@ == old(registry)@.without_service(key, host)
                    &&& final(manager)@ == given_up(old(registry)@, old(manager)@, key, host)
                },
                _ => final(registry)@ == old(registry)@ && final(manager)@ == old(manager)@,
            },
    {
        let ghost before = self@;
        match self.leases.remove(&id) {
            Some(Lease::Registered(hostname)) => {
                if let Some(key) = &self.key {
                    let _ = registry.unregister_service(key.as_str(), hostname.as_str(), manager);
                }
                assert(self@.leases =~= before.leases.remove(id));
                true
            },
            Some(Lease::Pending) | Some(Lease::Released) => {
                self.leases.insert(id, Lease::Released);
                assert(self@.leases =~= before.leases.insert(id, LeaseFacts::Released));
                false
            },
            None => {
                assert(self@.leases =~= before.leases);
                false
            },
        }
    }

    /// The first message on a stream that the client opened must ask for a
    /// registration; anything else, or one before the client is known, resets
    /// the stream.
    pub fn on_first_message(&mut self, id: u64, message: Option<Registration>) -> (r: FirstStep)
        requires
            old(self).wf(),
        ensures
            final(self).wf(),
            match (message, old(self)@.key, old(self)@.conn_id) {
                (Some(asked), Some(own), Some(number)) => match asked.invalid {
                    Some(why) => {
                        &&& r matches FirstStep::Refuse { code, message }
                        &&& code == why
                        &&& message@ == refusal_message(why, asked.service@)
                        &&& final(self)@ == old(self)@
                    },
                    None => {
                        &&& r matches FirstStep::Register { key, conn_id, service }
                        &&& key@ == own
                        &&& conn_id == number
                        &&& service@ == asked.service@
                        &&& final(self)@ == old(self)@.with_lease(id, LeaseFacts::Pending)
                    },
                },
                _ => r is Reset && final(self)@ == old(self)@,
            },
    {
        let ghost before = self@;
        let asked = match message {
            Some(asked) => asked,
            None => return FirstStep::Reset,
        };
        let (key, conn_id) = match (&self.key, self.conn_id) {
            (Some(key), Some(conn_id)) => (key.clone(), conn_id),
            _ => return FirstStep::Reset,
        };
        match asked.invalid {
            Some(code) => {
                let message = refused(&code, asked.service.as_str());
                FirstStep::Refuse { code, message }
            },
            None => {
                self.leases.insert(id, Lease::Pending);
                assert(self@.leases =~= before.leases.insert(id, LeaseFacts::Pending));
                FirstStep::Register { key, conn_id, service: asked.service }
            },
        }
    }

    /// A registration ended. Where the client has given its stream up
    /// meanwhile the service is unregistered at once and nothing is answered.
    pub fn on_registered<C, K>(
        &mut self,
        id: u64,
        key: &str,
        service: &str,
        outcome: Result<String, RefusalCode>,
        registry: &mut TunnelRegistry<C>,
        manager: &mut CertManager<K>,
    ) -> (r: RegisteredStep)
        requires
            old(self).wf(),
            old(registry).wf(),
            old(manager).wf(),
        ensures
            final(self).wf(),
            final(registry).wf(),
            final(manager).wf(),
            match outcome {
                Ok(host) => if old(self)@.is_released(id) {
                    &&& r is Gone
                    &&& final(self)@ == (RelayFacts {
                        leases: old(self)@.leases.remove(id),
                        ..old(self)@
                    })
                    &&& final(registry)@ == old(registry)@.without_service(key@, host@)
                    &&& final(manager)@ == given_up(old(registry)@, old(manager)@, key@, host@)
                } else {
                    &&& r matches RegisteredStep::Registered { hostname }
                    &&& hostname@ == host@
                    &&& final(self)@ == old(self)@.with_lease(id, LeaseFacts::Registered(host@))
                    &&& final(registry)@ == old(registry)@
                    &&& final(manager)@ == old(manager)@
                },
                Err(why) => {
                    &&& r matches RegisteredStep::Refuse { code, message }
                    &&& code == why
                    &&& message@ == refusal_message(why, service@)
                    &&& final(self)@ == (RelayFacts {
                        leases: old(self)@.leases.remove(id),
                        ..old(self)@
                    })
                    &&& final(registry)@ == old(registry)@
                    &&& final(manager)@ == old(manager)@
                },
            },
    {
        let ghost before = self@;
        let held = self.leases.remove(&id);
        match outcome {
            Ok(hostname) => {
                if let Some(Lease::Released) = held {
                    let _ = registry.unregister_service(key, hostname.as_str(), manager);
                    assert(self@.leases =~= before.leases.remove(id));
                    RegisteredStep::Gone
                } else {
                    self.leases.insert(id, Lease::Registered(hostname.clone()));
                    assert(self@.leases =~= before.leases.insert(
                        id,
                        LeaseFacts::Registered(hostname@),
                    ));
                    RegisteredStep::Registered { hostname }
                }
            },
            Err(code) => {
                let message = refused(&code, service);
                assert(self@.leases =~= before.leases.remove(id));
                RegisteredStep::Refuse { code, message }
            },
        }
    }

    /// Whether the stream holds a registration: certificate states are sent on
    /// it only as long as it does.
    pub fn is_registered(&self, id: u64) -> (r: bool)
        ensures
            r == self@.is_registered(id),
    {
        match self.leases.get(&id) {
            Some(Lease::Registered(_)) => true,
            _ => false,
        }
    }

    /// A stream for a visitor's request is open, and the head is sent.
    pub fn open_visitor_stream(&mut self, id: u64, upgrade_wanted: bool, visitor_connect: bool)
        requires
            old(self).wf(),
        ensures
            final(self).wf(),
            final(self)@ == old(self)@.with_exchange(
                id,
                (ExchangeFacts::<U, D> {
                    awaiting_head: true,
                    has_sink: false,
                    up: Seq::empty(),
                    reader_parked: false,
                    body_done: false,
                    upgrade_wanted,
                    visitor_connect,
                    piped: false,
                    down: Seq::empty(),
                    forwarding: false,
                    down_paused: false,
                    client_done: false,
                }),
            ),
    {
        let x = Exchange::new(upgrade_wanted, visitor_connect);
        self.put_exchange(id, x);
    }

    /// The exchange on a stream, taken out to be worked on.
    pub fn take_exchange(&mut self, id: u64) -> (r: Option<Exchange<U, D>>)
        requires
            old(self).wf(),
        ensures
            final(self).wf(),
            final(self)@ == old(self)@.without_exchange(id),
            match r {
                Some(x) => {
                    &&& old(self)@.exchanges.contains_key(id)
                    &&& x@ == old(self)@.exchanges[id]
                    &&& x.wf()
                },
                None => !old(self)@.exchanges.contains_key(id),
            },
    {
        let ghost before = self@;
        let r = self.inflight.remove(&id);
        proof {
            assert(self@.exchanges =~= before.exchanges.remove(id));
            if before.exchanges.contains_key(id) {
                assert(before.exchanges[id].bounded());
            }
            assert forall|k: u64| #[trigger] self@.exchanges.contains_key(k) implies
                self@.exchanges[k].bounded() by {
                assert(before.exchanges.contains_key(k));
            }
        }
        r
    }

    /// Puts an exchange back.
    pub fn put_exchange(&mut self, id: u64, x: Exchange<U, D>)
        requires
            old(self).wf(),
            x.wf(),
        ensures
            final(self).wf(),
            final(self)@ == old(self)@.with_exchange(id, x@),
    {
        let ghost before = self@;
        self.inflight.insert(id, x);
        proof {
            assert(self@.exchanges =~= before.exchanges.insert(id, x@));
            assert forall|k: u64| #[trigger] self@.exchanges.contains_key(k) implies
                self@.exchanges[k].bounded() by {
                if k != id {
                    assert(before.exchanges.contains_key(k));
                }
            }
        }
    }

    /// Whether the stream of an exchange may be read.
    pub fn may_read(&self, id: u64) -> (r: bool)
        ensures
            r == (self@.exchanges.contains_key(id) && !self@.exchanges[id].down_paused),
    {
        match self.inflight.get(&id) {
            Some(x) => x.may_read(),
            None => false,
        }
    }

    /// Decides what is to be done toward the visitor of a stream; a complete
    /// exchange ends.
    pub fn pump_down(&mut self, id: u64) -> (r: Pump<D>)
        requires
            old(self).wf(),
        ensures
            final(self).wf(),
            if !old(self)@.exchanges.contains_key(id) {
                r is Idle && final(self)@ == old(self)@
            } else {
                let (pumped, step) = old(self)@.exchanges[id].pumped();
                &&& r == step
                &&& final(self)@ == (if step is Fin {
                    old(self)@.without_exchange(id)
                } else {
                    old(self)@.with_exchange(id, pumped)
                })
            },
    {
        let ghost before = self@;
        match self.take_exchange(id) {
            Some(x) => {
                let mut x = x;
                let step = x.pump_down();
                if let Pump::Fin = step {
                } else {
                    self.put_exchange(id, x);
                    assert(self@.exchanges =~= before.exchanges.insert(id, x@));
                }
                step
            },
            None => {
                assert(self@.exchanges =~= before.exchanges);
                Pump::Idle
            },
        }
    }

    /// The client finished its half of a stream. An exchange whose response is
    /// not all with the visitor yet goes on until it is.
    pub fn on_finished<C, K>(
        &mut self,
        id: u64,
        registry: &mut TunnelRegistry<C>,
        manager: &mut CertManager<K>,
    ) -> (r: StreamEnd)
        requires
            old(self).wf(),
            old(registry).wf(),
            old(manager).wf(),
        ensures
            final(self).wf(),
            r.finish == old(self)@.is_registered(id),
            r.error is None,
            ({
                let left = old(self)@.without_lease(id);
                final(self)@ == (if !old(self)@.exchanges.contains_key(id) {
                    left
                } else if old(self)@.exchanges[id].is_drained() {
                    left.without_exchange(id)
                } else {
                    left.with_exchange(
                        id,
                        (ExchangeFacts { client_done: true, ..old(self)@.exchanges[id] }),
                    )
                })
            }),
            final(registry).wf(),
            final(manager).wf(),
            match (old(self)@.key, r.finish) {
                (Some(key), true) => {
                    let host = old(self)@.leases[id]->Registered_0;
                    &&& final(registry)@ == old(registry)@.without_service(key, host)
                    &&& final(manager)@ == given_up(old(registry)@, old(manager)@, key, host)
                },
                _ => final(registry)@ == old(registry)@ && final(manager)@ == old(manager)@,
            },
    {
        let ghost before = self@;
        let finish = self.release_lease(id, registry, manager);
        let ghost left = self@;
        match self.take_exchange(id) {
            Some(x) => {
                let mut x = x;
                let ends = x.client_finished();
                if !ends {
                    self.put_exchange(id, x);
                    assert(self@.exchanges =~= left.exchanges.insert(id, x@));
                }
            },
            None => {
                assert(self@.exchanges =~= left.exchanges);
            },
        }
        StreamEnd { finish, error: None }
    }

    /// A stream was reset: its exchange ends, and a visitor that still waits
    /// for a response head gets an error.
    pub fn on_reset<C, K>(
        &mut self,
        id: u64,
        origin_unreachable: bool,
        registry: &mut TunnelRegistry<C>,
        manager: &mut CertManager<K>,
    ) -> (r: StreamEnd)
        requires
            old(self).wf(),
            old(registry).wf(),
            old(manager).wf(),
        ensures
            final(self).wf(),
            final(self)@ == old(self)@.without_lease(id).without_exchange(id),
            r.finish == old(self)@.is_registered(id),
            r.error == (if old(self)@.exchanges.contains_key(id)
                && old(self)@.exchanges[id].awaiting_head {
                Some(
                    if origin_unreachable {
                        ProxyError::OriginUnreachable
                    } else {
                        ProxyError::Reset
                    },
                )
            } else {
                None
            }),
            final(registry).wf(),
            final(manager).wf(),
            match (old(self)@.key, r.finish) {
                (Some(key), true) => {
                    let host = old(self)@.leases[id]->Registered_0;
                    &&& final(registry)@ == old(registry)@.without_service(key, host)
                    &&& final(manager)@ == given_up(old(registry)@, old(manager)@, key, host)
                },
                _ => final(registry)@ == old(registry)@ && final(manager)@ == old(manager)@,
            },
    {
        let finish = self.release_lease(id, registry, manager);
        let waits = match self.take_exchange(id) {
            Some(x) => x.awaits_head(),
            None => false,
        };
        let error = if waits {
            if origin_unreachable {
                Some(ProxyError::OriginUnreachable)
            } else {
                Some(ProxyError::Reset)
            }
        } else {
            None
        };
        StreamEnd { finish, error }
    }
}

/// A certificate state as it goes on a control stream.
#[derive(Debug, Clone, Copy, PartialEq, Eq, Structural)]
pub enum CertStatus {
    Pending,
    OrderInProgress,
    Issued,
    Renewing,
    Failed,
}

/// The state without its details.
pub open spec fn status_of(s: StateFacts) -> CertStatus {
    match s {
        StateFacts::Pending => CertStatus::Pending,
        StateFacts::OrderInProgress => CertStatus::OrderInProgress,
        StateFacts::Issued { .. } => CertStatus::Issued,
        StateFacts::Renewing { .. } => CertStatus::Renewing,
        StateFacts::Failed { .. } => CertStatus::Failed,
    }
}

/// The state without its details.
pub fn cert_status(state: &CertState) -> (r: CertStatus)
    ensures
        r == status_of(state@),
{
    match state {
        CertState::Pending => CertStatus::Pending,
        CertState::OrderInProgress => CertStatus::OrderInProgress,
        CertState::Issued { .. } => CertStatus::Issued,
        CertState::Renewing { .. } => CertStatus::Renewing,
        CertState::Failed { .. } => CertStatus::Failed,
    }
}

/// The certificate of one hostname, as a control stream follows it.
pub struct CertWatch {
    hostname: String,
    last: CertState,
}

/// What a watch knows.
pub struct WatchFacts {
    pub hostname: Seq<char>,
    pub last: StateFacts,
}

impl View for CertWatch {
    type V = WatchFacts;

    closed spec fn view(&self) -> WatchFacts {
        WatchFacts { hostname: self.hostname@, last: self.last@ }
    }
}

impl CertWatch {
    /// Starts to follow a hostname; its current state is sent.
    pub fn start(hostname: String, current: CertState) -> (r: (Self, CertStatus))
        ensures
            r.0@ == (WatchFacts { hostname: hostname@, last: current@ }),
            r.1 == status_of(current@),
    {
        let status = cert_status(&current);
        (CertWatch { hostname, last: current }, status)
    }

    /// Takes a transition of some hostname; only one that changes the state of
    /// this hostname is sent.
    pub fn on_change(&mut self, name: &str, state: CertState) -> (r: Option<CertStatus>)
        ensures
            if name@ == old(self)@.hostname && state@ != old(self)@.last {
                &&& r == Some(status_of(state@))
                &&& final(self)@ == (WatchFacts { last: state@, ..old(self)@ })
            } else {
                r is None && final(self)@ == old(self)@
            },
    {
        if text::same(name, self.hostname.as_str()) {
            self.resync(state)
        } else {
            None
        }
    }

    /// Takes the current state, after transitions were missed.
    pub fn resync(&mut self, current: CertState) -> (r: Option<CertStatus>)
        ensures
            if current@ != old(self)@.last {
                &&& r == Some(status_of(current@))
                &&& final(self)@ == (WatchFacts { last: current@, ..old(self)@ })
            } else {
                r is None && final(self)@ == old(self)@
            },
    {
        if current.same(&self.last) {
            None
        } else {
            let status = cert_status(&current);
            self.last = current;
            Some(status)
        }
    }
}

/// A service is registered exactly as long as its control stream is open:
/// given up before the registration ends, it never becomes registered; given
/// up later, its lease is gone.
pub proof fn closed_stream_holds_nothing<U, D>(f: RelayFacts<U, D>, id: u64)
    ensures
        !f.without_lease(id).is_registered(id),
        f.leases.contains_key(id) && f.leases[id] is Pending ==> f.without_lease(id).is_released(
            id,
        ),
        f.without_lease(id).without_lease(id) == f.without_lease(id),
{
    let once = f.without_lease(id);
    assert(once.without_lease(id).leases =~= once.leases);
}

/// What happens on one stream leaves the leases and the exchanges of all
/// others alone.
pub proof fn streams_are_independent<U, D>(
    f: RelayFacts<U, D>,
    id: u64,
    other: u64,
    x: ExchangeFacts<U, D>,
    lease: LeaseFacts,
)
    requires
        id != other,
    ensures
        f.without_lease(id).leases.contains_key(other) == f.leases.contains_key(other),
        f.without_lease(id).leases[other] == f.leases[other],
        f.with_lease(id, lease).leases[other] == f.leases[other],
        f.without_exchange(id).exchanges.contains_key(other) == f.exchanges.contains_key(other),
        f.without_exchange(id).exchanges[other] == f.exchanges[other],
        f.with_exchange(id, x).exchanges[other] == f.exchanges[other],
{
}

} // verus!
