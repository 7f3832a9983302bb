//! DNS probe and resolution utilities for host verification.
//!
//! The root domain and an ephemeral random subdomain are resolved, and both
//! must give the same set of public IP addresses.
use crate::digest::{sha256, sha256_digest};
use crate::net::{self, IpAddress, IpFacts, Standing};
use crate::number;
use crate::text;
use vstd::prelude::*;

verus! {

/// How many random bytes name a probe subdomain.
pub const PROBE_TOKEN_BYTES: usize = 6;

/// Output of a DNS probe verification.
#[derive(Debug, Clone, PartialEq, Eq)]
pub struct DnsProbeResult {
    /// Resolved IP addresses for `<root>`.
    pub root_ips: Vec<IpAddress>,
    /// Ephemeral probe subdomain queried (e.g. `probe-<random>.<root>`).
    pub probe_domain: String,
    /// Resolved IP addresses for `probe-<random>.<root>`.
    pub probe_ips: Vec<IpAddress>,
}

/// The bytes repeated up to a length.
pub open spec fn repeated(bytes: Seq<u8>, len: int) -> Seq<u8> {
    Seq::new(len as nat, |i: int| bytes[i % bytes.len() as int])
}

/// What a token is made of where there is no source of random bytes.
pub open spec fn fallback_seed(now_nanos: u128, pid: u32) -> Seq<char> {
    number::decimal(now_nanos as nat) + ":"@ + number::decimal(pid as nat)
}

/// Generates a lowercase hex string of specified byte length (produces `len * 2`
/// hex chars), from random bytes or else from the SHA-256 digest of the time and
/// the process id.
pub fn generate_random_hex(len: usize, random: Option<Vec<u8>>, now_nanos: u128, pid: u32) -> (r:
    String)
    ensures
        r@ == number::hex_of(
            match random {
                Some(bytes) => bytes@,
                None => repeated(
                    sha256(vstd::utf8::encode_utf8(fallback_seed(now_nanos, pid))),
                    len as int,
                ),
            },
        ),
{
    if let Some(bytes) = random {
        return number::hex_string(bytes.as_slice());
    }
    let now = number::wide_decimal_of(now_nanos);
    let id = number::decimal_of(pid as u64);
    let seed = text::cat3(now.as_str(), ":", id.as_str());
    let hash = sha256_digest(seed.as_str().as_bytes());
    let mut bytes: Vec<u8> = Vec::new();
    let mut i: usize = 0;
    while i < len
        invariant
            i <= len,
            hash@.len() == 32,
            bytes@ == repeated(hash@, i as int),
        decreases len - i,
    {
        bytes.push(hash[i % 32]);
        i += 1;
        assert(bytes@ =~= repeated(hash@, i as int));
    }
    number::hex_string(bytes.as_slice())
}

/// The name of an ephemeral probe subdomain.
pub fn probe_domain(token: &str, root_domain: &str) -> (r: String)
    ensures
        r@ == "probe-"@ + token@ + "."@ + root_domain@,
{
    text::cat4("probe-", token, ".", root_domain)
}

/// Why a domain could not be resolved.
pub fn resolve_failure(domain: &str, cause: &str) -> (r: String)
    ensures
        r@ == "failed to resolve '"@ + domain@ + "': "@ + cause@,
{
    text::cat4("failed to resolve '", domain, "': ", cause)
}

/// Each address comes before the next.
pub open spec fn is_ascending(list: Seq<IpFacts>) -> bool {
    forall|i: int, j: int| 0 <= i < j < list.len() ==> #[trigger] list[i].before(#[trigger] list[j])
}

/// Where an address belongs in an ascending list.
fn place_of(list: &Vec<IpAddress>, ip: &IpAddress) -> (r: (usize, bool))
    requires
        is_ascending(net::addresses(list@)),
    ensures
        r.0 <= list@.len(),
        r.1 == net::addresses(list@).contains(ip@),
        !r.1 ==> {
            &&& forall|j: int| 0 <= j < r.0 ==> (#[trigger] net::addresses(list@)[j]).before(ip@)
            &&& forall|j: int|
                r.0 <= j < list@.len() ==> ip@.before(#[trigger] net::addresses(list@)[j])
        },
{
    let ghost all = net::addresses(list@);
    let mut i: usize = 0;
    while i < list.len()
        invariant
            all == net::addresses(list@),
            is_ascending(all),
            i <= list@.len(),
            forall|j: int| 0 <= j < i ==> (#[trigger] all[j]).before(ip@) && all[j] != ip@,
        decreases list@.len() - i,
    {
        assert(all[i as int] == list@[i as int]@);
        match list[i].standing(ip) {
            Standing::Before => {},
            Standing::Same => {
                assert(all.contains(all[i as int]));
                return (i, true);
            },
            Standing::After => {
                proof {
                    net::addresses_are_ordered(ip@, all[i as int], ip@);
                    assert forall|j: int| i <= j < all.len() implies ip@.before(
                        #[trigger] all[j],
                    ) by {
                        if j > i {
                            net::addresses_are_ordered(ip@, all[i as int], all[j]);
                        }
                    }
                    assert(!all.contains(ip@)) by {
                        net::addresses_are_ordered(ip@, ip@, ip@);
                    }
                }
                return (i, false);
            },
        }
        i += 1;
    }
    assert(!all.contains(ip@));
    (i, false)
}

proof fn inserted_set(list: Seq<IpFacts>, at: int, ip: IpFacts)
    requires
        0 <= at <= list.len(),
    ensures
        list.insert(at, ip).to_set() == list.to_set().insert(ip),
{
    let now = list.insert(at, ip);
    assert forall|x: IpFacts| now.to_set().contains(x) == list.to_set().insert(ip).contains(x) by {
        if now.contains(x) {
            let k = choose|k: int| 0 <= k < now.len() && now[k] == x;
            if k < at {
                assert(list[k] == x);
            } else if k > at {
                assert(list[k - 1] == x);
            }
        }
        if list.contains(x) {
            let k = choose|k: int| 0 <= k < list.len() && list[k] == x;
            if k < at {
                assert(now[k] == x);
            } else {
                assert(now[k + 1] == x);
            }
        }
        assert(now[at] == ip);
    }
    assert(now.to_set() =~= list.to_set().insert(ip));
}

/// The distinct addresses, in order.
pub fn unique_ips(ips: &Vec<IpAddress>) -> (r: Vec<IpAddress>)
    ensures
        is_ascending(net::addresses(r@)),
        net::addresses(r@).to_set() == net::addresses(ips@).to_set(),
{
    broadcast use vstd::seq_lib::group_seq_properties;

    let ghost all = net::addresses(ips@);
    let mut r: Vec<IpAddress> = Vec::new();
    let mut i: usize = 0;
    assert(net::addresses(r@).to_set() =~= all.take(0).to_set());
    while i < ips.len()
        invariant
            all == net::addresses(ips@),
            i <= ips@.len(),
            is_ascending(net::addresses(r@)),
            net::addresses(r@).to_set() == all.take(i as int).to_set(),
        decreases ips@.len() - i,
    {
        let ip = ips[i];
        let ghost before = net::addresses(r@);
        assert(all[i as int] == ip@);
        let (at, held) = place_of(&r, &ip);
        if !held {
            r.insert(at, ip);
            assert(net::addresses(r@) =~= before.insert(at as int, ip@));
        }
        proof {
            let now = net::addresses(r@);
            assert(all.take(i + 1) =~= all.take(i as int).insert(i as int, ip@));
            inserted_set(all.take(i as int), i as int, ip@);
            if held {
                assert(before.to_set().contains(ip@));
                assert(now.to_set() =~= before.to_set().insert(ip@));
            } else {
                inserted_set(before, at as int, ip@);
            }
            assert(now.to_set() =~= all.take(i + 1).to_set());
        }
        i += 1;
    }
    assert(all.take(all.len() as int) =~= all);
    r
}

/// A list in ascending order names each address once.
pub proof fn ascending_addresses_are_distinct(list: Seq<IpFacts>)
    requires
        is_ascending(list),
    ensures
        list.no_duplicates(),
{
    assert forall|i: int, j: int| 0 <= i < list.len() && 0 <= j < list.len() && i != j implies
        list[i] != list[j] by {
        net::addresses_are_ordered(list[i], list[j], list[i]);
        if i < j {
            assert(list[i].before(list[j]));
        } else {
            assert(list[j].before(list[i]));
        }
    }
}

} // verus!
