//! In-memory tunnel service registry mapping hostnames to active connections.
use super::identity::{derive_hostname, hostname_of, Identity};
use crate::cert::manager::{CertManager, ManagerFacts, RenewalRow};
use crate::names::NameMap;
use crate::number;
use crate::text;
use vstd::prelude::*;

verus! {

/// Why a registration is refused.
#[derive(Debug, PartialEq, Eq)]
pub enum RefusalCode {
    AlreadyRegistered,
    InvalidName,
    Unauthorized,
    UnsupportedVersion { min: u32, max: u32 },
    Other(String),
}

/// The message that goes with a refusal.
pub open spec fn refusal_message(code: RefusalCode, service: Seq<char>) -> Seq<char> {
    match code {
        RefusalCode::AlreadyRegistered => "Service '"@ + service + "' is already registered"@,
        RefusalCode::InvalidName => "Service '"@ + service + "' is not a valid DNS label"@,
        RefusalCode::Unauthorized => "Unauthorized client identity"@,
        RefusalCode::UnsupportedVersion { min, max } =>
            "unsupported application protocol version (relay accepts "@ + number::decimal(
            min as nat,
        ) + "..="@ + number::decimal(max as nat) + ")"@,
        RefusalCode::Other(s) => s@,
    }
}

/// The message that goes with a refusal.
pub fn refused(code: &RefusalCode, service: &str) -> (r: String)
    ensures
        r@ == refusal_message(*code, service@),
{
    match code {
        RefusalCode::AlreadyRegistered => text::cat3(
            "Service '",
            service,
            "' is already registered",
        ),
        RefusalCode::InvalidName => text::cat3("Service '", service, "' is not a valid DNS label"),
        RefusalCode::Unauthorized => "Unauthorized client identity".to_owned(),
        RefusalCode::UnsupportedVersion { min, max } => {
            let low = number::decimal_of(*min as u64);
            let high = number::decimal_of(*max as u64);
            text::cat5(
                "unsupported application protocol version (relay accepts ",
                low.as_str(),
                "..=",
                high.as_str(),
                ")",
            )
        },
        RefusalCode::Other(s) => s.clone(),
    }
}

/// Route information for a registered tunnel service. `C` is the channel that
/// forwards visitor requests to the tunnel connection.
pub struct TunnelRoute<C> {
    /// Fully-qualified hostname (e.g. "web.laptop.poc.example.com").
    pub hostname: String,
    /// Registered service name (e.g. "web").
    pub service: String,
    /// Authenticated public key ID of the tunnel client.
    pub key_id: String,
    /// Channel for forwarding visitor proxy requests to this tunnel connection.
    pub channel: C,
}

/// A connection of a client, and the hostnames it serves.
pub struct ActiveConnection {
    connection_id: u64,
    services: NameMap<()>,
}

impl ActiveConnection {
    /// What is known of the connection.
    pub closed spec fn facts(&self) -> ConnectionFacts {
        ConnectionFacts { id: self.connection_id, services: self.services@.dom() }
    }

    /// The names are in order.
    pub closed spec fn wf(&self) -> bool {
        self.services.wf()
    }
}

/// A connection of a client.
pub struct ConnectionFacts {
    pub id: u64,
    pub services: Set<Seq<char>>,
}

/// What the registry knows: the route of each hostname, in lower case, and the
/// connection of each key.
#[verifier::reject_recursive_types(C)]
pub struct RegistryFacts<C> {
    pub root: Seq<char>,
    pub routes: Map<Seq<char>, TunnelRoute<C>>,
    pub connections: Map<Seq<char>, ConnectionFacts>,
    pub next_id: u64,
}

/// The connection number after another.
pub open spec fn following_id(id: u64) -> u64 {
    if id == u64::MAX {
        0
    } else {
        (id + 1) as u64
    }
}

impl<C> RegistryFacts<C> {
    /// Every hostname of a connection is routed to the connection's key, and
    /// hostnames are in lower case.
    pub open spec fn consistent(self) -> bool {
        &&& forall|k: Seq<char>, h: Seq<char>|
            self.connections.contains_key(k) && #[trigger] self.connections[k].services.contains(h)
                ==> self.routes.contains_key(h) && self.routes[h].key_id@ == k
        &&& forall|h: Seq<char>| #[trigger] self.routes.contains_key(h) ==> text::lower(h) == h
        &&& forall|h: Seq<char>| #[trigger]
            self.routes.contains_key(h) ==> self.routes[h].hostname@ == h
    }

    /// The hostnames of a key's connection.
    pub open spec fn served_by(self, key: Seq<char>) -> Set<Seq<char>> {
        if self.connections.contains_key(key) {
            self.connections[key].services
        } else {
            Set::empty()
        }
    }

    /// A connection is registered: it takes the place of the key's earlier
    /// one, whose hostnames are no longer routed.
    pub open spec fn with_connection(self, key: Seq<char>) -> Self {
        RegistryFacts {
            routes: self.routes.remove_keys(self.served_by(key)),
            connections: self.connections.insert(
                key,
                ConnectionFacts { id: self.next_id, services: Set::empty() },
            ),
            next_id: following_id(self.next_id),
            ..self
        }
    }

    /// The connection is the key's current one.
    pub open spec fn is_current(self, key: Seq<char>, id: u64) -> bool {
        self.connections.contains_key(key) && self.connections[key].id == id
    }

    /// A connection ends: its hostnames are no longer routed. An earlier
    /// connection of the key leaves nothing behind to take away.
    pub open spec fn without_connection(self, key: Seq<char>, id: u64) -> Self {
        if self.is_current(key, id) {
            RegistryFacts {
                routes: self.routes.remove_keys(self.connections[key].services),
                connections: self.connections.remove(key),
                ..self
            }
        } else {
            self
        }
    }

    /// A service is routed.
    pub open spec fn with_service(self, host: Seq<char>, route: TunnelRoute<C>, id: u64) -> Self {
        let key = route.key_id@;
        RegistryFacts {
            routes: self.routes.insert(host, route),
            connections: if self.is_current(key, id) {
                self.connections.insert(
                    key,
                    ConnectionFacts {
                        id,
                        services: self.connections[key].services.insert(host),
                    },
                )
            } else {
                self.connections
            },
            ..self
        }
    }

    /// The hostname is routed to the key.
    pub open spec fn owns(self, key: Seq<char>, hostname: Seq<char>) -> bool {
        self.routes.contains_key(text::lower(hostname)) && self.routes[text::lower(
            hostname,
        )].key_id@ == key
    }

    /// A service is given up by the key it is routed to.
    pub open spec fn without_service(self, key: Seq<char>, hostname: Seq<char>) -> Self {
        let host = text::lower(hostname);
        if self.owns(key, hostname) {
            RegistryFacts {
                routes: self.routes.remove(host),
                connections: if self.connections.contains_key(key) {
                    self.connections.insert(
                        key,
                        ConnectionFacts {
                            id: self.connections[key].id,
                            services: self.connections[key].services.remove(host),
                        },
                    )
                } else {
                    self.connections
                },
                ..self
            }
        } else {
            self
        }
    }
}

/// Registry managing active tunnel connections and registered services.
pub struct TunnelRegistry<C> {
    root_domain: String,
    routes: NameMap<TunnelRoute<C>>,
    connections: NameMap<ActiveConnection>,
    next_conn_id: u64,
}

/// The connections of a map.
pub open spec fn connection_facts(m: Map<Seq<char>, ActiveConnection>) -> Map<
    Seq<char>,
    ConnectionFacts,
> {
    m.map_values(|c: ActiveConnection| c.facts())
}

impl<C> View for TunnelRegistry<C> {
    type V = RegistryFacts<C>;

    closed spec fn view(&self) -> RegistryFacts<C> {
        RegistryFacts {
            root: self.root_domain@,
            routes: self.routes@,
            connections: connection_facts(self.connections@),
            next_id: self.next_conn_id,
        }
    }
}

/// Some hostnames of a manager are made inactive.
pub open spec fn deactivated<K>(m: ManagerFacts<K>, hosts: Set<Seq<char>>) -> ManagerFacts<K> {
    ManagerFacts {
        active: m.active.difference(hosts),
        released: m.released.union(hosts),
        unsaved: m.unsaved.union(hosts),
        ..m
    }
}

/// The manager after a key gave a hostname up: one that was its own is no
/// longer active.
pub open spec fn given_up<C, K>(
    f: RegistryFacts<C>,
    m: ManagerFacts<K>,
    key: Seq<char>,
    hostname: Seq<char>,
) -> ManagerFacts<K> {
    if f.owns(key, hostname) {
        m.with_active(hostname, false)
    } else {
        m
    }
}

impl<C> TunnelRegistry<C> {
    /// The maps are in order and agree with each other.
    pub closed spec fn wf(&self) -> bool {
        &&& self.routes.wf()
        &&& self.connections.wf()
        &&& forall|k: Seq<char>| #[trigger]
            self.connections@.contains_key(k) ==> self.connections@[k].wf()
        &&& self@.consistent()
    }

    /// The maps of a registry agree with each other.
    pub proof fn always_consistent(&self)
        requires
            self.wf(),
        ensures
            self@.consistent(),
    {
    }

    /// Creates a new in-memory registry tied to the given root domain.
    pub fn new(root_domain: String) -> (r: Self)
        ensures
            r.wf(),
            r@.root == root_domain@,
            r@.routes == Map::<Seq<char>, TunnelRoute<C>>::empty(),
            r@.connections == Map::<Seq<char>, ConnectionFacts>::empty(),
            r@.next_id == 1,
    {
        let r = TunnelRegistry {
            root_domain,
            routes: NameMap::new(),
            connections: NameMap::new(),
            next_conn_id: 1,
        };
        assert(r@.connections =~= Map::<Seq<char>, ConnectionFacts>::empty());
        r
    }

    /// Takes the routes of a connection away and makes its hostnames inactive.
    fn evict<K>(
        routes: &mut NameMap<TunnelRoute<C>>,
        conn: &ActiveConnection,
        manager: &mut CertManager<K>,
    ) -> (evicted: Vec<String>)
        requires
            old(routes).wf(),
            conn.wf(),
            old(manager).wf(),
            forall|h: Seq<char>| #[trigger]
                conn.facts().services.contains(h) ==> text::lower(h) == h,
        ensures
            final(routes).wf(),
            final(routes)@ == old(routes)@.remove_keys(conn.facts().services),
            final(manager).wf(),
            final(manager)@ == deactivated(old(manager)@, conn.facts().services),
            text::texts(evicted@).to_set() == conn.facts().services,
            text::texts(evicted@).no_duplicates(),
    {
        let ghost order = conn.services.order();
        let ghost routes0 = routes@;
        let ghost manager0 = manager@;
        let n: usize = conn.services.len();
        let mut evicted: Vec<String> = Vec::new();
        let mut i: usize = 0;
        proof {
            conn.services.order_lists_the_names();
            assert(routes0.remove_keys(order.take(0).to_set()) =~= routes0);
            assert(manager0.active.difference(order.take(0).to_set()) =~= manager0.active);
            assert(manager0.released.union(order.take(0).to_set()) =~= manager0.released);
            assert(manager0.unsaved.union(order.take(0).to_set()) =~= manager0.unsaved);
            assert(text::texts(evicted@) =~= order.take(0));
        }
        while i < n
            invariant
                n == order.len(),
                i <= n,
                conn.wf(),
                order == conn.services.order(),
                order.to_set() == conn.facts().services,
                forall|h: Seq<char>| #[trigger]
                    conn.facts().services.contains(h) ==> text::lower(h) == h,
                routes.wf(),
                manager.wf(),
                routes@ == routes0.remove_keys(order.take(i as int).to_set()),
                manager@ == deactivated(manager0, order.take(i as int).to_set()),
                text::texts(evicted@) == order.take(i as int),
            decreases n - i,
        {
            let name = conn.services.name_at(i);
            proof {
                assert(order.to_set().contains(order[i as int]));
                one_more(order, i as int);
            }
            let _ = routes.remove(name);
            manager.set_active(name, false);
            evicted.push(name.to_owned());
            proof {
                let now = order.take(i + 1);
                assert(routes@ =~= routes0.remove_keys(now.to_set()));
                assert(manager@.active =~= manager0.active.difference(now.to_set()));
                assert(manager@.released =~= manager0.released.union(now.to_set()));
                assert(manager@.unsaved =~= manager0.unsaved.union(now.to_set()));
                assert(text::texts(evicted@) =~= now);
            }
            i += 1;
        }
        assert(order.take(order.len() as int) == order);
        evicted
    }

    /// Registers a newly authenticated tunnel connection; returns its number, the number of the
    /// connection of the same key that it supersedes and that is to be closed, and the hostnames
    /// that were evicted with that.
    pub fn register_connection<K>(&mut self, key_id: &str, manager: &mut CertManager<K>) -> (r: (
        u64,
        Option<u64>,
        Vec<String>,
    ))
        requires
            old(self).wf(),
            old(manager).wf(),
        ensures
            final(self).wf(),
            final(self)@ == old(self)@.with_connection(key_id@),
            final(manager).wf(),
            final(manager)@ == deactivated(old(manager)@, old(self)@.served_by(key_id@)),
            r.0 == old(self)@.next_id,
            r.1 == (if old(self)@.connections.contains_key(key_id@) {
                Some(old(self)@.connections[key_id@].id)
            } else {
                None
            }),
            text::texts(r.2@).to_set() == old(self)@.served_by(key_id@),
    {
        let ghost before = self@;
        let id: u64 = self.next_conn_id;
        self.next_conn_id = if id == u64::MAX {
            0
        } else {
            id + 1
        };
        let earlier = self.connections.remove(key_id);
        let fresh = ActiveConnection { connection_id: id, services: NameMap::new() };
        assert(fresh.facts().services =~= Set::<Seq<char>>::empty());
        self.connections.insert(key_id, fresh);
        let mut superseded: Option<u64> = None;
        let mut evicted: Vec<String> = Vec::new();
        assert(text::texts(evicted@).to_set() =~= Set::<Seq<char>>::empty());
        match earlier {
            Some(conn) => {
                superseded = Some(conn.connection_id);
                assert(before.connections[key_id@] == conn.facts());
                evicted = Self::evict(&mut self.routes, &conn, manager);
            },
            None => {
                assert(before.routes.remove_keys(Set::empty()) =~= before.routes);
                assert(manager@.active.difference(Set::empty()) =~= manager@.active);
                assert(manager@.released.union(Set::empty()) =~= manager@.released);
                assert(manager@.unsaved.union(Set::empty()) =~= manager@.unsaved);
            },
        }
        proof {
            assert(self@.connections =~= before.with_connection(key_id@).connections);
            assert(self@.consistent());
        }
        (id, superseded, evicted)
    }

    /// Unregisters a connection if it matches the current `connection_id`, evicting its services;
    /// returns their hostnames.
    pub fn unregister_connection<K>(
        &mut self,
        key_id: &str,
        connection_id: u64,
        manager: &mut CertManager<K>,
    ) -> (evicted: Vec<String>)
        requires
            old(self).wf(),
            old(manager).wf(),
        ensures
            final(self).wf(),
            final(self)@ == old(self)@.without_connection(key_id@, connection_id),
            final(manager).wf(),
            final(manager)@ == (if old(self)@.is_current(key_id@, connection_id) {
                deactivated(old(manager)@, old(self)@.connections[key_id@].services)
            } else {
                old(manager)@
            }),
            text::texts(evicted@).to_set() == (if old(self)@.is_current(key_id@, connection_id) {
                old(self)@.connections[key_id@].services
            } else {
                Set::empty()
            }),
    {
        let ghost before = self@;
        let current = match self.connections.get(key_id) {
            Some(conn) => conn.connection_id == connection_id,
            None => false,
        };
        if !current {
            let none: Vec<String> = Vec::new();
            assert(text::texts(none@).to_set() =~= Set::<Seq<char>>::empty());
            return none;
        }
        match self.connections.remove(key_id) {
            Some(conn) => {
                assert(before.connections[key_id@] == conn.facts());
                let evicted = Self::evict(&mut self.routes, &conn, manager);
                proof {
                    assert(self@.connections =~= before.connections.remove(key_id@));
                    assert(self@.consistent());
                }
                evicted
            },
            None => Vec::new(),
        }
    }

    /// Registers a service on an active connection; its certificate is to be ensured.
    ///
    /// Validates the service name, verifies the caller identity, checks for duplicates, and
    /// updates the routing tables.
    pub fn register_service(
        &mut self,
        key_id: &str,
        connection_id: u64,
        service: &str,
        valid_label: bool,
        identity: Option<&Identity>,
        channel: C,
    ) -> (r: Result<String, RefusalCode>)
        requires
            old(self).wf(),
        ensures
            final(self).wf(),
            if !valid_label {
                r == Err::<String, _>(RefusalCode::InvalidName) && final(self)@ == old(self)@
            } else {
                match identity {
                    None => r == Err::<String, _>(RefusalCode::Unauthorized) && final(self)@ == old(
                        self,
                    )@,
                    Some(id) => {
                        let host = text::lower(hostname_of(service@, *id, old(self)@.root));
                        if old(self)@.routes.contains_key(host) {
                            r == Err::<String, _>(RefusalCode::AlreadyRegistered) && final(self)@
                                == old(self)@
                        } else {
                            &&& r is Ok
                            &&& r->Ok_0@ == host
                            &&& final(self)@.routes.contains_key(host)
                            &&& final(self)@.routes[host].hostname@ == host
                            &&& final(self)@.routes[host].service@ == service@
                            &&& final(self)@.routes[host].key_id@ == key_id@
                            &&& final(self)@.routes[host].channel == channel
                            &&& final(self)@ == old(self)@.with_service(
                                host,
                                final(self)@.routes[host],
                                connection_id,
                            )
                        }
                    },
                }
            },
    {
        if !valid_label {
            return Err(RefusalCode::InvalidName);
        }
        let identity = match identity {
            Some(id) => id,
            None => return Err(RefusalCode::Unauthorized),
        };
        let derived = derive_hostname(service, identity, self.root_domain.as_str());
        let host = text::lowered(derived.as_str());
        if self.routes.contains(host.as_str()) {
            return Err(RefusalCode::AlreadyRegistered);
        }
        let ghost before = self@;
        let ghost conns = self.connections@;
        let route = TunnelRoute {
            hostname: host.clone(),
            service: service.to_owned(),
            key_id: key_id.to_owned(),
            channel,
        };
        proof {
            text::lower_idempotent(derived@);
        }
        self.routes.insert(host.as_str(), route);
        let current = match self.connections.get(key_id) {
            Some(conn) => conn.connection_id == connection_id,
            None => false,
        };
        if current {
            if let Some(conn) = self.connections.remove(key_id) {
                let ghost served = conn.services@;
                let mut services = conn.services;
                services.insert(host.as_str(), ());
                assert(services@.dom() =~= served.dom().insert(host@));
                self.connections.insert(key_id, ActiveConnection { connection_id, services });
            }
        }
        proof {
            let after = before.with_service(host@, route, connection_id);
            assert(self@.connections =~= after.connections);
            assert(self@.routes == after.routes);
            assert(self@.consistent());
        }
        Ok(host)
    }

    /// Unregisters an individual service hostname; returns whether it was registered by the key.
    pub fn unregister_service<K>(
        &mut self,
        key_id: &str,
        hostname: &str,
        manager: &mut CertManager<K>,
    ) -> (r: bool)
        requires
            old(self).wf(),
            old(manager).wf(),
        ensures
            final(self).wf(),
            final(self)@ == old(self)@.without_service(key_id@, hostname@),
            final(manager).wf(),
            r == old(self)@.owns(key_id@, hostname@),
            final(manager)@ == given_up(old(self)@, old(manager)@, key_id@, hostname@),
    {
        let lower = text::lowered(hostname);
        let owned = match self.routes.get(lower.as_str()) {
            Some(route) => text::same(route.key_id.as_str(), key_id),
            None => false,
        };
        if !owned {
            return false;
        }
        let ghost before = self@;
        let _ = self.routes.remove(lower.as_str());
        manager.set_active(hostname, false);
        if let Some(conn) = self.connections.remove(key_id) {
            let ghost served = conn.services@;
            let connection_id: u64 = conn.connection_id;
            let mut services = conn.services;
            let _ = services.remove(lower.as_str());
            assert(services@.dom() =~= served.dom().remove(lower@));
            self.connections.insert(key_id, ActiveConnection { connection_id, services });
        }
        proof {
            let after = before.without_service(key_id@, hostname@);
            assert(self@.connections =~= after.connections);
            assert(self@.consistent());
        }
        true
    }

    /// Looks up an active tunnel route by hostname.
    pub fn lookup(&self, hostname: &str) -> (r: Option<&TunnelRoute<C>>)
        requires
            self.wf(),
        ensures
            match r {
                Some(route) => self@.routes.contains_key(text::lower(hostname@)) && *route
                    == self@.routes[text::lower(hostname@)],
                None => !self@.routes.contains_key(text::lower(hostname@)),
            },
    {
        let lower = text::lowered(hostname);
        self.routes.get(lower.as_str())
    }
}

proof fn one_more(list: Seq<Seq<char>>, i: int)
    requires
        0 <= i < list.len(),
    ensures
        list.take(i + 1).to_set() == list.take(i).to_set().insert(list[i]),
        list.take(i + 1) == list.take(i).push(list[i]),
{
    broadcast use vstd::seq_lib::group_seq_properties;

    assert(list.take(i + 1) =~= list.take(i).push(list[i]));
    assert(list.take(i + 1).to_set() =~= list.take(i).to_set().insert(list[i]));
}

/// A newer connection of a key supersedes the older: none of the older one's
/// hostnames is routed any more, and other keys' routes stay.
pub proof fn superseding_evicts<C>(f: RegistryFacts<C>, key: Seq<char>, host: Seq<char>)
    requires
        f.consistent(),
    ensures
        f.served_by(key).contains(host) ==> !f.with_connection(key).routes.contains_key(host),
        f.routes.contains_key(host) && f.routes[host].key_id@ != key ==> f.with_connection(
            key,
        ).routes.contains_key(host) && f.with_connection(key).routes[host] == f.routes[host],
        f.with_connection(key).served_by(key) == Set::<Seq<char>>::empty(),
{
}

/// The end of a superseded connection changes nothing: what the newer
/// connection of its key registered stays routed.
pub proof fn stale_end_changes_nothing<C>(f: RegistryFacts<C>, key: Seq<char>, old_id: u64)
    requires
        f.connections.contains_key(key),
        f.connections[key].id != old_id,
    ensures
        f.without_connection(key, old_id) == f,
{
}

/// A connection that ends leaves no route behind that it registered, and every
/// other route as it was.
pub proof fn ended_connection_is_gone<C>(
    f: RegistryFacts<C>,
    key: Seq<char>,
    id: u64,
    host: Seq<char>,
)
    requires
        f.is_current(key, id),
    ensures
        ({
            let after = f.without_connection(key, id);
            &&& after.routes.contains_key(host) <==> f.routes.contains_key(host)
                && !f.connections[key].services.contains(host)
            &&& after.routes.contains_key(host) ==> after.routes[host] == f.routes[host]
            &&& !after.connections.contains_key(key)
        }),
{
}

/// What happens to a registry.
pub enum RegistryStep<C> {
    /// A connection of the key is registered.
    Connect(Seq<char>),
    /// A connection of the key ends.
    Disconnect(Seq<char>, u64),
    /// A service is routed.
    Register(Seq<char>, TunnelRoute<C>, u64),
    /// A service is given up by the key.
    Unregister(Seq<char>, Seq<char>),
}

impl<C> RegistryFacts<C> {
    /// The registry after some steps.
    pub open spec fn after(self, steps: Seq<RegistryStep<C>>) -> Self
        decreases steps.len(),
    {
        if steps.len() == 0 {
            self
        } else {
            let f = self.after(steps.drop_last());
            match steps.last() {
                RegistryStep::Connect(key) => f.with_connection(key),
                RegistryStep::Disconnect(key, id) => f.without_connection(key, id),
                RegistryStep::Register(host, route, id) => f.with_service(host, route, id),
                RegistryStep::Unregister(key, hostname) => f.without_service(key, hostname),
            }
        }
    }
}

/// How many connections are registered in the course of some steps.
pub open spec fn connects<C>(steps: Seq<RegistryStep<C>>) -> nat
    decreases steps.len(),
{
    if steps.len() == 0 {
        0
    } else {
        connects(steps.drop_last()) + if steps.last() is Connect {
            1nat
        } else {
            0
        }
    }
}

/// Each connection is numbered one further, and the numbers begin again after
/// the largest.
pub proof fn numbers_count_up<C>(f: RegistryFacts<C>, steps: Seq<RegistryStep<C>>)
    ensures
        f.after(steps).next_id == (f.next_id + connects(steps)) % 0x1_0000_0000_0000_0000,
    decreases steps.len(),
{
    if steps.len() > 0 {
        numbers_count_up(f, steps.drop_last());
    }
}

/// A later connection of a key has another number than an earlier one, whatever
/// happens in between, short of so many connections that the numbers begin
/// again. So the end of the earlier one changes nothing once the later one is
/// there.
pub proof fn connections_are_told_apart<C>(
    f: RegistryFacts<C>,
    key: Seq<char>,
    steps: Seq<RegistryStep<C>>,
    later: RegistryFacts<C>,
)
    requires
        connects(steps) < u64::MAX,
    ensures
        ({
            let first = f.next_id;
            let between = f.with_connection(key).after(steps);
            let second = between.next_id;
            &&& f.with_connection(key).is_current(key, first)
            &&& between.with_connection(key).is_current(key, second)
            &&& first != second
            &&& later.is_current(key, second) ==> later.without_connection(key, first) == later
        }),
{
    numbers_count_up(f.with_connection(key), steps);
}

/// The hostnames of an ended or superseded connection are inactive: background
/// renewal skips them, but for the root, and their stored activity is cleared.
pub proof fn unserved_hostnames_are_not_renewed<K>(
    m: ManagerFacts<K>,
    hosts: Set<Seq<char>>,
    row: RenewalRow,
    now: i64,
)
    requires
        hosts.contains(text::lower(row.name@)),
        text::lower(row.name@) != m.root,
    ensures
        !deactivated(m, hosts).row_is_due(row, now),
        deactivated(m, hosts).unsaved.contains(text::lower(row.name@)),
        !deactivated(m, hosts).active.contains(text::lower(row.name@)),
{
}

/// A client can give up only its own hostnames.
pub proof fn services_of_others_stay<C>(f: RegistryFacts<C>, key: Seq<char>, hostname: Seq<char>)
    requires
        !f.owns(key, hostname),
    ensures
        f.without_service(key, hostname) == f,
{
}

/// Giving a service up undoes its registration.
pub proof fn unregistering_undoes_registering<C>(
    f: RegistryFacts<C>,
    host: Seq<char>,
    route: TunnelRoute<C>,
    id: u64,
)
    requires
        f.consistent(),
        text::lower(host) == host,
        !f.routes.contains_key(host),
        f.is_current(route.key_id@, id),
    ensures
        f.with_service(host, route, id).without_service(route.key_id@, host) == f,
{
    let key = route.key_id@;
    let after = f.with_service(host, route, id).without_service(key, host);
    assert(!f.connections[key].services.contains(host));
    assert(after.routes =~= f.routes);
    assert(after.connections[key].services =~= f.connections[key].services);
    assert(after.connections =~= f.connections);
}

} // verus!
