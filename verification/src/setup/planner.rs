//! Pure planning logic of the setup command.
//!
//! Evaluates host probe results against installation requirements, deciding
//! whether to proceed with an execution plan or abort with an explanation.
use crate::net::{self, IpAddress, IpFacts, Standing};
use crate::text;
use vstd::prelude::*;

verus! {

/// An IPv4 address that is globally routable.
pub open spec fn is_public_v4(o: Seq<u8>) -> bool {
    // Loopback.
    &&& o[0] != 127
    // Private.
    &&& o[0] != 10
    &&& !(o[0] == 172 && 16 <= o[1] <= 31)
    &&& !(o[0] == 192 && o[1] == 168)
    // Link-local.
    &&& !(o[0] == 169 && o[1] == 254)
    // Broadcast and unspecified.
    &&& !(o[0] == 255 && o[1] == 255 && o[2] == 255 && o[3] == 255)
    &&& !(o[0] == 0 && o[1] == 0 && o[2] == 0 && o[3] == 0)
    // Documentation.
    &&& !(o[0] == 192 && o[1] == 0 && o[2] == 2)
    &&& !(o[0] == 198 && o[1] == 51 && o[2] == 100)
    &&& !(o[0] == 203 && o[1] == 0 && o[2] == 113)
    // CGNAT shared address space 100.64.0.0/10.
    &&& !(o[0] == 100 && 64 <= o[1] <= 127)
    // Benchmarking 198.18.0.0/15.
    &&& !(o[0] == 198 && (o[1] == 18 || o[1] == 19))
}

/// An IPv6 address that is globally routable.
pub open spec fn is_public_v6(s: Seq<u16>) -> bool {
    // Unspecified and loopback.
    &&& !(s[0] == 0 && s[1] == 0 && s[2] == 0 && s[3] == 0 && s[4] == 0 && s[5] == 0 && s[6] == 0
        && s[7] <= 1)
    // Unique Local Address fc00::/7.
    &&& !(0xfc00 <= s[0] <= 0xfdff)
    // Link-local unicast fe80::/10.
    &&& !(0xfe80 <= s[0] <= 0xfebf)
    // Documentation 2001:db8::/32.
    &&& !(s[0] == 0x2001 && s[1] == 0xdb8)
    // IPv4-mapped IPv6 (::ffff:0:0/96).
    &&& net::is_mapped(s) ==> is_public_v4(net::mapped_octets(s))
}

/// An IP address that is globally routable.
pub open spec fn is_public(ip: IpFacts) -> bool {
    match ip {
        IpFacts::V4(o) => is_public_v4(o),
        IpFacts::V6(s) => is_public_v6(s),
    }
}

fn public_v4(a: u8, b: u8, c: u8, d: u8) -> (r: bool)
    ensures
        r == is_public_v4(seq![a, b, c, d]),
{
    if a == 127 || a == 10 || (a == 172 && 16 <= b && b <= 31) || (a == 192 && b == 168) || (a
        == 169 && b == 254) {
        return false;
    }
    if (a == 255 && b == 255 && c == 255 && d == 255) || (a == 0 && b == 0 && c == 0 && d == 0) {
        return false;
    }
    if (a == 192 && b == 0 && c == 2) || (a == 198 && b == 51 && c == 100) || (a == 203 && b == 0
        && c == 113) {
        return false;
    }
    if a == 100 && 64 <= b && b <= 127 {
        return false;
    }
    !(a == 198 && (b == 18 || b == 19))
}

/// Validates whether an IP address is a publicly routable global address.
pub fn is_public_ip(ip: &IpAddress) -> (r: bool)
    ensures
        r == is_public(ip@),
{
    match ip {
        IpAddress::V4(o) => {
            assert(o@ =~= seq![o@[0], o@[1], o@[2], o@[3]]);
            public_v4(o[0], o[1], o[2], o[3])
        },
        IpAddress::V6(s) => {
            if s[0] == 0 && s[1] == 0 && s[2] == 0 && s[3] == 0 && s[4] == 0 && s[5] == 0 && s[6]
                == 0 && s[7] <= 1 {
                return false;
            }
            if (0xfc00 <= s[0] && s[0] <= 0xfdff) || (0xfe80 <= s[0] && s[0] <= 0xfebf) || (s[0]
                == 0x2001 && s[1] == 0xdb8) {
                return false;
            }
            if s[0] == 0 && s[1] == 0 && s[2] == 0 && s[3] == 0 && s[4] == 0 && s[5] == 0xffff {
                return public_v4(
                    (s[6] / 256) as u8,
                    (s[6] % 256) as u8,
                    (s[7] / 256) as u8,
                    (s[7] % 256) as u8,
                );
            }
            true
        },
    }
}

/// Information about an existing installation found on the system.
#[derive(Debug, Clone, PartialEq, Eq)]
pub struct ExistingInstall {
    /// Currently configured root domain in the existing installation.
    pub root_domain: String,
}

/// Reachability probe result for a specific port.
#[derive(Debug, Clone, PartialEq, Eq)]
pub enum PortReachability {
    /// Outbound connection to resolved public IP successfully routed back to our listener and solved the challenge.
    ReachedSelf,
    /// Connection failed to reach self with explanation.
    Failed(String),
    /// Reachability check was bypassed.
    Skipped,
}

/// Aggregated system probe results provided to the pure planner.
#[derive(Debug, Clone, PartialEq, Eq)]
pub struct SystemProbe {
    /// Whether systemd is active on the host and systemctl is available.
    pub systemd_present: bool,
    /// Whether the host CPU architecture is supported (x86_64 or aarch64 on Linux).
    pub supported_arch: bool,
    /// Target root domain being installed.
    pub target_domain: String,
    /// Optional existing installation details.
    pub existing_install: Option<ExistingInstall>,
    /// Resolved IP addresses for the apex domain `<root>`.
    pub root_ips: Vec<IpAddress>,
    /// Resolved IP addresses for the random probe subdomain `probe-<random>.<root>`.
    pub probe_ips: Vec<IpAddress>,
    /// Reachability probe status on port 80.
    pub port_80: PortReachability,
    /// Reachability probe status on port 443.
    pub port_443: PortReachability,
    /// Whether setup was invoked in non-interactive headless mode.
    pub is_headless: bool,
    /// Whether the user confirmed changing an existing installed domain.
    pub confirmed_domain_change: bool,
    /// Whether reachability verification was explicitly skipped via CLI flag.
    pub skip_reachability_check: bool,
    /// Target database path.
    pub db_path: String,
    /// Dedicated service user name.
    pub user: String,
    /// Binary installation prefix.
    pub prefix: String,
    /// Selected ACME provider identifier.
    pub acme_provider: String,
    /// Whether External Account Binding (EAB) credentials will be registered.
    pub has_eab: bool,
}

/// Fatal condition detected during planning that halts setup.
#[derive(Debug, Clone, PartialEq, Eq)]
pub enum PlanAbort {
    /// Systemd is not active or systemctl is missing.
    SystemdNotSupported,
    /// CPU architecture is not supported.
    UnsupportedArchitecture,
    /// Existing installation uses a different root domain and change was not confirmed.
    DomainMismatch { existing: String, target: String },
    /// Apex domain resolved to zero IP addresses.
    DnsEmpty(String),
    /// Apex and probe subdomain resolved to mismatched sets of IP addresses.
    DnsSetMismatch { root: String, probe: String },
    /// Resolved IP address is not a publicly routable IP.
    NonPublicIp(IpAddress),
    /// Inbound traffic on port 80 failed to reach our own listener.
    Port80NotReachable(String),
    /// Inbound traffic on port 443 failed to reach our own listener.
    Port443NotReachable(String),
}

/// A condition that halts setup, with its texts.
pub enum AbortFacts {
    SystemdNotSupported,
    UnsupportedArchitecture,
    DomainMismatch { existing: Seq<char>, target: Seq<char> },
    DnsEmpty(Seq<char>),
    DnsSetMismatch { root: Seq<char>, probe: Seq<char> },
    NonPublicIp { ip: IpFacts },
    Port80NotReachable { why: Seq<char> },
    Port443NotReachable { reason: Seq<char> },
}

impl View for PlanAbort {
    type V = AbortFacts;

    open spec fn view(&self) -> AbortFacts {
        match *self {
            PlanAbort::SystemdNotSupported => AbortFacts::SystemdNotSupported,
            PlanAbort::UnsupportedArchitecture => AbortFacts::UnsupportedArchitecture,
            PlanAbort::DomainMismatch { existing, target } => AbortFacts::DomainMismatch {
                existing: existing@,
                target: target@,
            },
            PlanAbort::DnsEmpty(domain) => AbortFacts::DnsEmpty(domain@),
            PlanAbort::DnsSetMismatch { root, probe } => AbortFacts::DnsSetMismatch {
                root: root@,
                probe: probe@,
            },
            PlanAbort::NonPublicIp(ip) => AbortFacts::NonPublicIp { ip: ip@ },
            PlanAbort::Port80NotReachable(why) => AbortFacts::Port80NotReachable { why: why@ },
            PlanAbort::Port443NotReachable(reason) => AbortFacts::Port443NotReachable {
                reason: reason@,
            },
        }
    }
}

impl AbortFacts {
    /// The explanation.
    pub open spec fn text(self) -> Seq<char> {
        match self {
            AbortFacts::SystemdNotSupported => "the server component supports systemd Linux only"@,
            AbortFacts::UnsupportedArchitecture =>
                "unsupported target platform: Linux x86_64 or aarch64 required"@,
            AbortFacts::DomainMismatch { existing, target } => "already installed for domain '"@
                + existing + "', but target is '"@ + target + "'; confirmation required"@,
            AbortFacts::DnsEmpty(domain) => "DNS resolution failed for '"@ + domain
                + "': no A or AAAA records found"@,
            AbortFacts::DnsSetMismatch { root, probe } => "DNS mismatch: '"@ + root + "' and '"@
                + probe + "' resolve to different IP address sets"@,
            AbortFacts::NonPublicIp { ip } => "DNS resolved to non-public IP address "@ + ip.text()
                + "; public DNS records are required"@,
            AbortFacts::Port80NotReachable { why } => "port 80 reachability check failed: "@ + why,
            AbortFacts::Port443NotReachable { reason } => "port 443 reachability check failed: "@
                + reason,
        }
    }
}

impl PlanAbort {
    /// The explanation.
    pub fn message(&self) -> (r: String)
        ensures
            r@ == self@.text(),
    {
        match self {
            PlanAbort::SystemdNotSupported =>
                "the server component supports systemd Linux only".to_owned(),
            PlanAbort::UnsupportedArchitecture =>
                "unsupported target platform: Linux x86_64 or aarch64 required".to_owned(),
            PlanAbort::DomainMismatch { existing, target } => text::cat5(
                "already installed for domain '",
                existing.as_str(),
                "', but target is '",
                target.as_str(),
                "'; confirmation required",
            ),
            PlanAbort::DnsEmpty(domain) => text::cat3(
                "DNS resolution failed for '",
                domain.as_str(),
                "': no A or AAAA records found",
            ),
            PlanAbort::DnsSetMismatch { root, probe } => text::cat5(
                "DNS mismatch: '",
                root.as_str(),
                "' and '",
                probe.as_str(),
                "' resolve to different IP address sets",
            ),
            PlanAbort::NonPublicIp(ip) => {
                let shown = ip.to_text();
                text::cat3(
                    "DNS resolved to non-public IP address ",
                    shown.as_str(),
                    "; public DNS records are required",
                )
            },
            PlanAbort::Port80NotReachable(why) => text::cat2(
                "port 80 reachability check failed: ",
                why.as_str(),
            ),
            PlanAbort::Port443NotReachable(reason) => text::cat2(
                "port 443 reachability check failed: ",
                reason.as_str(),
            ),
        }
    }
}

/// Concrete execution plan approved by the planner.
#[derive(Debug, Clone, PartialEq, Eq)]
pub struct Plan {
    /// Approved root domain.
    pub root_domain: String,
    /// Database path to open and configure.
    pub db_path: String,
    /// System service user.
    pub user: String,
    /// Binary install directory prefix.
    pub prefix: String,
    /// ACME provider identifier.
    pub acme_provider: String,
    /// Whether EAB registration is included.
    pub has_eab: bool,
    /// Whether this setup run updates an existing installation.
    pub is_upgrade: bool,
    /// Whether connect-back reachability checks were bypassed.
    pub reachability_skipped: bool,
}

/// A plan with its texts.
pub struct PlanFacts {
    pub root_domain: Seq<char>,
    pub db_path: Seq<char>,
    pub user: Seq<char>,
    pub prefix: Seq<char>,
    pub acme_provider: Seq<char>,
    pub has_eab: bool,
    pub is_upgrade: bool,
    pub reachability_skipped: bool,
}

impl View for Plan {
    type V = PlanFacts;

    open spec fn view(&self) -> PlanFacts {
        PlanFacts {
            root_domain: self.root_domain@,
            db_path: self.db_path@,
            user: self.user@,
            prefix: self.prefix@,
            acme_provider: self.acme_provider@,
            has_eab: self.has_eab,
            is_upgrade: self.is_upgrade,
            reachability_skipped: self.reachability_skipped,
        }
    }
}

/// Why a port counts as not reached.
pub open spec fn not_reached(port: PortReachability) -> Option<Seq<char>> {
    match port {
        PortReachability::ReachedSelf => None,
        PortReachability::Failed(why) => Some(why@),
        PortReachability::Skipped => Some("reachability was not performed"@),
    }
}

/// The address is the first in order that is not public.
pub open spec fn is_first_private(ips: Set<IpFacts>, ip: IpFacts) -> bool {
    &&& ips.contains(ip)
    &&& !is_public(ip)
    &&& forall|other: IpFacts| #[trigger]
        ips.contains(other) && !is_public(other) && other != ip ==> ip.before(other)
}

impl SystemProbe {
    /// The addresses of the root domain.
    pub open spec fn root_set(self) -> Set<IpFacts> {
        net::addresses(self.root_ips@).to_set()
    }

    /// The addresses of the probe domain.
    pub open spec fn probe_set(self) -> Set<IpFacts> {
        net::addresses(self.probe_ips@).to_set()
    }

    /// An existing installation is for another domain, and the change has not
    /// been confirmed.
    pub open spec fn domain_differs(self) -> bool {
        self.existing_install matches Some(e) && e.root_domain@ != self.target_domain@
            && !self.is_headless && !self.confirmed_domain_change
    }

    /// Why setup halts, if it does: the first condition in order.
    pub open spec fn aborts_with(self, a: AbortFacts) -> bool {
        if !self.systemd_present {
            a is SystemdNotSupported
        } else if !self.supported_arch {
            a is UnsupportedArchitecture
        } else if self.domain_differs() {
            a == (AbortFacts::DomainMismatch {
                existing: self.existing_install->0.root_domain@,
                target: self.target_domain@,
            })
        } else if self.root_ips@.len() == 0 {
            a == AbortFacts::DnsEmpty(self.target_domain@)
        } else if self.root_set() != self.probe_set() {
            a == (AbortFacts::DnsSetMismatch {
                root: self.target_domain@,
                probe: "probe-<random>."@ + self.target_domain@,
            })
        } else if exists|ip: IpFacts| #[trigger] self.root_set().contains(ip) && !is_public(ip) {
            a matches AbortFacts::NonPublicIp { ip } && is_first_private(self.root_set(), ip)
        } else if !self.skip_reachability_check && not_reached(self.port_80) is Some {
            a == (AbortFacts::Port80NotReachable { why: not_reached(self.port_80)->0 })
        } else if !self.skip_reachability_check && not_reached(self.port_443) is Some {
            a == (AbortFacts::Port443NotReachable { reason: not_reached(self.port_443)->0 })
        } else {
            false
        }
    }

    /// The host meets every requirement.
    pub open spec fn acceptable(self) -> bool {
        &&& self.systemd_present
        &&& self.supported_arch
        &&& !self.domain_differs()
        &&& self.root_ips@.len() > 0
        &&& self.root_set() == self.probe_set()
        &&& forall|ip: IpFacts| #[trigger] self.root_set().contains(ip) ==> is_public(ip)
        &&& self.skip_reachability_check || (not_reached(self.port_80) is None && not_reached(
            self.port_443,
        ) is None)
    }

    /// The plan for the host.
    pub open spec fn plan(self) -> PlanFacts {
        PlanFacts {
            root_domain: self.target_domain@,
            db_path: self.db_path@,
            user: self.user@,
            prefix: self.prefix@,
            acme_provider: self.acme_provider@,
            has_eab: self.has_eab,
            is_upgrade: self.existing_install is Some,
            reachability_skipped: self.skip_reachability_check,
        }
    }
}

/// Whether an address is in a list.
pub fn holds_ip(list: &Vec<IpAddress>, ip: &IpAddress) -> (r: bool)
    ensures
        r == net::addresses(list@).contains(ip@),
{
    let ghost all = net::addresses(list@);
    let mut i: usize = 0;
    while i < list.len()
        invariant
            all == net::addresses(list@),
            i <= list@.len(),
            forall|j: int| 0 <= j < i ==> all[j] != ip@,
        decreases list@.len() - i,
    {
        assert(all[i as int] == list@[i as int]@);
        if list[i].same(ip) {
            return true;
        }
        i += 1;
    }
    assert(!all.contains(ip@));
    false
}

fn all_held(list: &Vec<IpAddress>, by: &Vec<IpAddress>) -> (r: bool)
    ensures
        r == (forall|ip: IpFacts| #[trigger]
            net::addresses(list@).contains(ip) ==> net::addresses(by@).contains(ip)),
{
    let ghost all = net::addresses(list@);
    let ghost others = net::addresses(by@);
    let mut i: usize = 0;
    while i < list.len()
        invariant
            all == net::addresses(list@),
            others == net::addresses(by@),
            i <= list@.len(),
            forall|j: int| 0 <= j < i ==> others.contains(#[trigger] all[j]),
        decreases list@.len() - i,
    {
        assert(all[i as int] == list@[i as int]@);
        if !holds_ip(by, &list[i]) {
            assert(all.contains(all[i as int]));
            return false;
        }
        i += 1;
    }
    assert forall|ip: IpFacts| #[trigger] all.contains(ip) implies others.contains(ip) by {
        let j = choose|j: int| 0 <= j < all.len() && all[j] == ip;
        assert(others.contains(all[j]));
    }
    true
}

/// Whether two lists hold the same addresses.
pub fn same_addresses(a: &Vec<IpAddress>, b: &Vec<IpAddress>) -> (r: bool)
    ensures
        r == (net::addresses(a@).to_set() == net::addresses(b@).to_set()),
{
    let ghost x = net::addresses(a@);
    let ghost y = net::addresses(b@);
    let r = all_held(a, b) && all_held(b, a);
    proof {
        broadcast use vstd::seq_lib::group_seq_properties;

        if r {
            assert(x.to_set() =~= y.to_set());
        } else if x.to_set() == y.to_set() {
            assert forall|ip: IpFacts| x.contains(ip) == y.contains(ip) by {
                assert(x.to_set().contains(ip) == x.contains(ip));
                assert(y.to_set().contains(ip) == y.contains(ip));
            }
        }
    }
    r
}

/// The first address in order that is not public.
fn first_private(list: &Vec<IpAddress>) -> (r: Option<IpAddress>)
    ensures
        match r {
            Some(ip) => is_first_private(net::addresses(list@).to_set(), ip@),
            None => forall|ip: IpFacts| #[trigger]
                net::addresses(list@).to_set().contains(ip) ==> is_public(ip),
        },
{
    let ghost all = net::addresses(list@);
    let mut found: Option<IpAddress> = None;
    let mut i: usize = 0;
    while i < list.len()
        invariant
            all == net::addresses(list@),
            i <= list@.len(),
            match found {
                Some(ip) => {
                    &&& all.contains(ip@)
                    &&& !is_public(ip@)
                    &&& forall|j: int|
                        0 <= j < i && !is_public(#[trigger] all[j]) && all[j] != ip@
                            ==> ip@.before(all[j])
                },
                None => forall|j: int| 0 <= j < i ==> is_public(#[trigger] all[j]),
            },
        decreases list@.len() - i,
    {
        let ip = list[i];
        assert(all[i as int] == ip@);
        if !is_public_ip(&ip) {
            match found {
                Some(best) => {
                    if let Standing::Before = ip.standing(&best) {
                        proof {
                            assert forall|j: int|
                                0 <= j < i + 1 && !is_public(#[trigger] all[j]) && all[j]
                                    != ip@ implies ip@.before(all[j]) by {
                                if j < i && all[j] != best@ {
                                    net::addresses_are_ordered(ip@, best@, all[j]);
                                }
                            }
                        }
                        found = Some(ip);
                    } else {
                        proof {
                            net::addresses_are_ordered(best@, ip@, best@);
                        }
                    }
                },
                None => {
                    found = Some(ip);
                },
            }
        }
        i += 1;
    }
    proof {
        assert forall|ip: IpFacts| #[trigger] all.to_set().contains(ip) implies exists|j: int|
            0 <= j < all.len() && all[j] == ip by {
            assert(all.contains(ip));
        }
        if found is Some {
            assert(all.to_set().contains(found->0@));
        }
    }
    found
}

fn reach_failure(port: &PortReachability) -> (r: Option<String>)
    ensures
        text::opt(r) == not_reached(*port),
{
    match port {
        PortReachability::ReachedSelf => None,
        PortReachability::Failed(why) => Some(why.clone()),
        PortReachability::Skipped => Some("reachability was not performed".to_owned()),
    }
}

/// Evaluates a system probe and produces an execution plan or an abort error.
pub fn plan_setup(probe: &SystemProbe) -> (r: Result<Plan, PlanAbort>)
    ensures
        match r {
            Ok(plan) => probe.acceptable() && plan@ == probe.plan(),
            Err(a) => !probe.acceptable() && probe.aborts_with(a@),
        },
{
    if !probe.systemd_present {
        return Err(PlanAbort::SystemdNotSupported);
    }
    if !probe.supported_arch {
        return Err(PlanAbort::UnsupportedArchitecture);
    }
    let mut is_upgrade = false;
    if let Some(existing) = &probe.existing_install {
        is_upgrade = true;
        let same = text::same(existing.root_domain.as_str(), probe.target_domain.as_str());
        if !same && !probe.is_headless && !probe.confirmed_domain_change {
            return Err(
                PlanAbort::DomainMismatch {
                    existing: existing.root_domain.clone(),
                    target: probe.target_domain.clone(),
                },
            );
        }
    }
    if probe.root_ips.len() == 0 {
        return Err(PlanAbort::DnsEmpty(probe.target_domain.clone()));
    }
    if !same_addresses(&probe.root_ips, &probe.probe_ips) {
        return Err(
            PlanAbort::DnsSetMismatch {
                root: probe.target_domain.clone(),
                probe: text::cat2("probe-<random>.", probe.target_domain.as_str()),
            },
        );
    }
    if let Some(ip) = first_private(&probe.root_ips) {
        return Err(PlanAbort::NonPublicIp(ip));
    }
    if !probe.skip_reachability_check {
        if let Some(why) = reach_failure(&probe.port_80) {
            return Err(PlanAbort::Port80NotReachable(why));
        }
        if let Some(reason) = reach_failure(&probe.port_443) {
            return Err(PlanAbort::Port443NotReachable(reason));
        }
    }
    Ok(
        Plan {
            root_domain: probe.target_domain.clone(),
            db_path: probe.db_path.clone(),
            user: probe.user.clone(),
            prefix: probe.prefix.clone(),
            acme_provider: probe.acme_provider.clone(),
            has_eab: probe.has_eab,
            is_upgrade,
            reachability_skipped: probe.skip_reachability_check,
        },
    )
}

/// A host that does not meet every requirement has a reason, and one that does
/// has none.
pub proof fn a_reason_or_a_plan(probe: SystemProbe)
    ensures
        probe.acceptable() ==> forall|a: AbortFacts| !probe.aborts_with(a),
{
}

/// Neither the order in which addresses were resolved nor a repetition matters:
/// the host is as acceptable, the plan is the same, and so is why setup halts.
pub proof fn address_order_is_irrelevant(probe: SystemProbe, other: SystemProbe)
    requires
        other.root_set() == probe.root_set(),
        other.probe_set() == probe.probe_set(),
        other == (SystemProbe {
            root_ips: other.root_ips,
            probe_ips: other.probe_ips,
            ..probe
        }),
    ensures
        other.acceptable() == probe.acceptable(),
        other.plan() == probe.plan(),
        forall|a: AbortFacts| other.aborts_with(a) == #[trigger] probe.aborts_with(a),
{
    let a = net::addresses(probe.root_ips@);
    let b = net::addresses(other.root_ips@);
    if a.len() > 0 {
        assert(probe.root_set().contains(a[0]));
        assert(b.contains(a[0]));
    }
    if b.len() > 0 {
        assert(other.root_set().contains(b[0]));
        assert(a.contains(b[0]));
    }
}

} // verus!
