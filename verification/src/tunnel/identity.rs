//! Who is behind a key, and which hostnames follow from it.
use crate::text;
use vstd::prelude::*;

verus! {

/// A resolved client identity: the `(person, machine)` pair that owns the
/// key, from which service hostnames are derived.
#[derive(Debug, Clone, PartialEq, Eq)]
pub struct Identity {
    /// Namespace owner (a person or account).
    pub person: String,
    /// Machine within that namespace.
    pub machine: String,
}

/// The hostname of a service: `<service>.<machine>.<person>.<root>` in lower
/// case.
pub open spec fn hostname_of(service: Seq<char>, identity: Identity, root: Seq<char>) -> Seq<char> {
    text::lower(service) + "."@ + text::lower(identity.machine@) + "."@ + text::lower(
        identity.person@,
    ) + "."@ + text::lower(root)
}

/// Derives the fully-qualified tunnel hostname:
/// `<service>.<machine>.<person>.<root>`, lowercased.
pub fn derive_hostname(service: &str, identity: &Identity, root: &str) -> (r: String)
    ensures
        r@ == hostname_of(service@, *identity, root@),
{
    let s = text::lowered(service);
    let m = text::lowered(identity.machine.as_str());
    let p = text::lowered(identity.person.as_str());
    let r = text::lowered(root);
    text::cat7(s.as_str(), ".", m.as_str(), ".", p.as_str(), ".", r.as_str())
}

/// Services of one identity get one hostname only where they have one name, in
/// any case.
pub proof fn hostnames_tell_services_apart(
    a: Seq<char>,
    b: Seq<char>,
    identity: Identity,
    root: Seq<char>,
)
    requires
        hostname_of(a, identity, root) == hostname_of(b, identity, root),
    ensures
        text::lower(a) == text::lower(b),
{
    let rest = "."@ + text::lower(identity.machine@) + "."@ + text::lower(identity.person@) + "."@
        + text::lower(root);
    let la = text::lower(a);
    let lb = text::lower(b);
    assert(hostname_of(a, identity, root) =~= la + rest);
    assert(hostname_of(b, identity, root) =~= lb + rest);
    assert((la + rest).len() == (lb + rest).len());
    assert(la =~= (la + rest).subrange(0, la.len() as int));
    assert(lb =~= (lb + rest).subrange(0, lb.len() as int));
}

/// Every hostname of a tunnel is a subdomain of the root domain, and in lower case.
pub proof fn hostname_is_under_the_root(service: Seq<char>, identity: Identity, root: Seq<char>)
    ensures
        ("."@ + text::lower(root)).is_suffix_of(hostname_of(service, identity, root)),
{
    let front = text::lower(service) + "."@ + text::lower(identity.machine@) + "."@ + text::lower(
        identity.person@,
    );
    let whole = hostname_of(service, identity, root);
    assert(whole =~= front + ("."@ + text::lower(root)));
    let tail = "."@ + text::lower(root);
    assert(whole.subrange(whole.len() - tail.len(), whole.len() as int) =~= tail);
}

} // verus!
