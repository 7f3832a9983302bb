//! Certificates, domains and certificate events as the store keeps them.
use crate::control::protocol::CertEventSummary;
use crate::number;
use crate::text;
use vstd::prelude::*;

verus! {

/// A row of the `certificates` table.
#[derive(Debug)]
pub struct CertificateRow {
    pub id: i32,
    pub domain_id: i32,
    pub cert_pem: String,
    pub key_pem: String,
    pub not_before: i64,
    pub not_after: i64,
    pub issuer: Option<String>,
    pub directory: String,
    pub obtained_at: i64,
}

/// A row of the `domains` table.
#[derive(Debug)]
pub struct DomainRow {
    pub id: i32,
    pub name: String,
    pub last_active_at: Option<i64>,
}

/// Input data for saving a newly issued certificate.
#[derive(Debug, Clone, PartialEq, Eq)]
pub struct NewCertificate {
    pub cert_pem: String,
    pub key_pem: String,
    pub not_before: i64,
    pub not_after: i64,
    pub issuer: Option<String>,
    pub directory: String,
    pub obtained_at: i64,
    pub active_at: Option<i64>,
}

/// Certificate database record metadata joined with domain metadata (no key material).
#[derive(Debug, Clone, PartialEq, Eq)]
pub struct CertRecord {
    pub id: i32,
    pub domain_id: i32,
    pub name: String,
    pub not_before: i64,
    pub not_after: i64,
    pub issuer: Option<String>,
    pub directory: String,
    pub obtained_at: i64,
    pub last_active_at: Option<i64>,
}

/// Full certificate record with PEM material, used for startup cache hydration.
#[derive(Debug, Clone, PartialEq, Eq)]
pub struct FullCertRecord {
    pub id: i32,
    pub domain_id: i32,
    pub name: String,
    pub cert_pem: String,
    pub key_pem: String,
    pub not_before: i64,
    pub not_after: i64,
    pub issuer: Option<String>,
    pub directory: String,
    pub obtained_at: i64,
    pub last_active_at: Option<i64>,
}

/// Certificate event database record.
#[derive(Debug, Clone, PartialEq, Eq)]
pub struct CertEventRecord {
    pub id: i64,
    pub name: String,
    pub at: i64,
    pub kind: String,
    pub detail: Option<String>,
}

/// The name of the joined domain; nothing where there is none.
pub open spec fn joined_name(domain: Option<DomainRow>) -> Seq<char> {
    match domain {
        Some(d) => d.name@,
        None => Seq::empty(),
    }
}

/// The activity of the joined domain.
pub open spec fn joined_activity(domain: Option<DomainRow>) -> Option<i64> {
    match domain {
        Some(d) => d.last_active_at,
        None => None,
    }
}

/// Maps a certificate row and its joined domain row into a `CertRecord`.
pub fn to_cert_record(cert: CertificateRow, domain: Option<DomainRow>) -> (r: CertRecord)
    ensures
        r.id == cert.id,
        r.domain_id == cert.domain_id,
        r.name@ == joined_name(domain),
        r.not_before == cert.not_before,
        r.not_after == cert.not_after,
        r.issuer == cert.issuer,
        r.directory == cert.directory,
        r.obtained_at == cert.obtained_at,
        r.last_active_at == joined_activity(domain),
{
    let (name, last_active_at) = match domain {
        Some(d) => (d.name, d.last_active_at),
        None => (String::new(), None),
    };
    CertRecord {
        id: cert.id,
        domain_id: cert.domain_id,
        name,
        not_before: cert.not_before,
        not_after: cert.not_after,
        issuer: cert.issuer,
        directory: cert.directory,
        obtained_at: cert.obtained_at,
        last_active_at,
    }
}

/// Maps a certificate row and its joined domain row into a `FullCertRecord`.
pub fn to_full_cert_record(cert: CertificateRow, domain: Option<DomainRow>) -> (r: FullCertRecord)
    ensures
        r.id == cert.id,
        r.domain_id == cert.domain_id,
        r.name@ == joined_name(domain),
        r.cert_pem == cert.cert_pem,
        r.key_pem == cert.key_pem,
        r.not_before == cert.not_before,
        r.not_after == cert.not_after,
        r.issuer == cert.issuer,
        r.directory == cert.directory,
        r.obtained_at == cert.obtained_at,
        r.last_active_at == joined_activity(domain),
{
    let (name, last_active_at) = match domain {
        Some(d) => (d.name, d.last_active_at),
        None => (String::new(), None),
    };
    FullCertRecord {
        id: cert.id,
        domain_id: cert.domain_id,
        name,
        cert_pem: cert.cert_pem,
        key_pem: cert.key_pem,
        not_before: cert.not_before,
        not_after: cert.not_after,
        issuer: cert.issuer,
        directory: cert.directory,
        obtained_at: cert.obtained_at,
        last_active_at,
    }
}

/// What of an event record is shown.
pub fn event_summary(e: CertEventRecord) -> (r: CertEventSummary)
    ensures
        r.id == e.id,
        r.at == e.at,
        r.kind == e.kind,
        r.detail == e.detail,
{
    CertEventSummary { id: e.id, at: e.at, kind: e.kind, detail: e.detail }
}

/// A record of a certificate: whose it is, and until when.
pub trait Dated {
    /// The hostname.
    spec fn host(&self) -> Seq<char>;

    /// The expiry.
    spec fn expiry(&self) -> i64;

    /// The record belongs after another: by name, and of one name the later
    /// expiry first.
    fn belongs_after(&self, other: &Self) -> (r: bool)
        ensures
            r == comes_after(self.host(), self.expiry(), other.host(), other.expiry()),
    ;
}

/// A record with this name and expiry belongs after another.
pub open spec fn comes_after(
    name: Seq<char>,
    not_after: i64,
    other_name: Seq<char>,
    other_not_after: i64,
) -> bool {
    text::before(other_name, name) || (name == other_name && not_after < other_not_after)
}

fn belongs_after(name: &str, not_after: i64, other_name: &str, other_not_after: i64) -> (r: bool)
    ensures
        r == comes_after(name@, not_after, other_name@, other_not_after),
{
    text::precedes(other_name, name) || (text::same(name, other_name) && not_after
        < other_not_after)
}

impl Dated for CertRecord {
    open spec fn host(&self) -> Seq<char> {
        self.name@
    }

    open spec fn expiry(&self) -> i64 {
        self.not_after
    }

    fn belongs_after(&self, other: &Self) -> (r: bool) {
        belongs_after(self.name.as_str(), self.not_after, other.name.as_str(), other.not_after)
    }
}

impl Dated for FullCertRecord {
    open spec fn host(&self) -> Seq<char> {
        self.name@
    }

    open spec fn expiry(&self) -> i64 {
        self.not_after
    }

    fn belongs_after(&self, other: &Self) -> (r: bool) {
        belongs_after(self.name.as_str(), self.not_after, other.name.as_str(), other.not_after)
    }
}

/// Where a record goes in an ordered list: behind all that do not belong
/// after it.
pub open spec fn place_in<R: Dated>(list: Seq<R>, r: R) -> int
    decreases list.len(),
{
    if list.len() == 0 || !comes_after(
        list.last().host(),
        list.last().expiry(),
        r.host(),
        r.expiry(),
    ) {
        list.len() as int
    } else {
        place_in(list.drop_last(), r)
    }
}

/// The records in order; of records with one name and expiry the first stays
/// first.
pub open spec fn in_order<R: Dated>(rows: Seq<R>) -> Seq<R>
    decreases rows.len(),
{
    if rows.len() == 0 {
        rows
    } else {
        let rest = in_order(rows.drop_last());
        rest.insert(place_in(rest, rows.last()), rows.last())
    }
}

/// The places of an ordered list are places of it.
proof fn place_is_valid<R: Dated>(list: Seq<R>, r: R)
    ensures
        0 <= place_in(list, r) <= list.len(),
    decreases list.len(),
{
    if list.len() > 0 {
        place_is_valid(list.drop_last(), r);
    }
}

/// Orders records by name, and those of one name by expiry, the later first.
pub fn sort_records<R: Dated>(rows: Vec<R>) -> (r: Vec<R>)
    ensures
        r@ == in_order(rows@),
{
    let ghost all = rows@;
    let mut rows = rows;
    let mut out: Vec<R> = Vec::new();
    let ghost mut done: int = 0;
    assert(all.subrange(0, all.len() as int) == all);
    assert(all.take(0) =~= Seq::<R>::empty());
    assert(in_order(Seq::<R>::empty()) =~= Seq::<R>::empty());
    while rows.len() > 0
        invariant
            0 <= done <= all.len(),
            rows@ == all.subrange(done, all.len() as int),
            out@ == in_order(all.take(done)),
        decreases rows@.len(),
    {
        let row = rows.remove(0);
        assert(row == all[done]);
        let mut at: usize = out.len();
        assert(out@.take(out@.len() as int) == out@);
        while at > 0 && out[at - 1].belongs_after(&row)
            invariant
                at <= out@.len(),
                place_in(out@, row) == place_in(out@.take(at as int), row),
            decreases at,
        {
            assert(out@.take(at as int).drop_last() == out@.take(at - 1));
            at -= 1;
        }
        assert(place_in(out@, row) == at);
        out.insert(at, row);
        proof {
            assert(all.take(done + 1).drop_last() == all.take(done));
            assert(all.take(done + 1).last() == all[done]);
            done = done + 1;
            assert(rows@ =~= all.subrange(done, all.len() as int));
        }
    }
    assert(all.take(all.len() as int) == all);
    out
}

/// A list in which no record belongs after a later one.
pub open spec fn is_ordered<R: Dated>(list: Seq<R>) -> bool {
    forall|i: int, j: int|
        0 <= i < j < list.len() ==> !comes_after(
            (#[trigger] list[i]).host(),
            list[i].expiry(),
            (#[trigger] list[j]).host(),
            list[j].expiry(),
        )
}

/// The order of records is transitive where it does not hold, too.
proof fn not_after_transitive(a: Seq<char>, x: i64, b: Seq<char>, y: i64, c: Seq<char>, z: i64)
    requires
        !comes_after(a, x, b, y),
        !comes_after(b, y, c, z),
    ensures
        !comes_after(a, x, c, z),
{
    crate::names::before_total(a, b);
    crate::names::before_total(b, c);
    crate::names::before_irreflexive(a);
    if text::before(a, b) && text::before(b, c) {
        crate::names::before_transitive(a, b, c);
    }
    if text::before(c, a) {
        if text::before(a, b) {
            crate::names::before_transitive(c, a, b);
            if b == c {
                crate::names::before_irreflexive(b);
            }
        }
        if text::before(b, c) {
            crate::names::before_transitive(b, c, a);
        }
    }
}

/// A record that belongs after another is not one that the other belongs after.
proof fn after_is_asymmetric(a: Seq<char>, x: i64, b: Seq<char>, y: i64)
    requires
        comes_after(a, x, b, y),
    ensures
        !comes_after(b, y, a, x),
{
    crate::names::before_irreflexive(a);
    if text::before(b, a) && text::before(a, b) {
        crate::names::before_transitive(a, b, a);
    }
}

proof fn place_splits<R: Dated>(list: Seq<R>, r: R)
    requires
        is_ordered(list),
    ensures
        0 <= place_in(list, r) <= list.len(),
        forall|i: int|
            place_in(list, r) <= i < list.len() ==> comes_after(
                (#[trigger] list[i]).host(),
                list[i].expiry(),
                r.host(),
                r.expiry(),
            ),
        forall|i: int|
            0 <= i < place_in(list, r) ==> !comes_after(
                (#[trigger] list[i]).host(),
                list[i].expiry(),
                r.host(),
                r.expiry(),
            ),
    decreases list.len(),
{
    if list.len() > 0 {
        let last = list.last();
        let rest = list.drop_last();
        assert(is_ordered(rest)) by {
            assert forall|i: int, j: int| 0 <= i < j < rest.len() implies !comes_after(
                (#[trigger] rest[i]).host(),
                rest[i].expiry(),
                (#[trigger] rest[j]).host(),
                rest[j].expiry(),
            ) by {
                assert(rest[i] == list[i] && rest[j] == list[j]);
            }
        }
        if comes_after(last.host(), last.expiry(), r.host(), r.expiry()) {
            place_splits(rest, r);
            assert forall|i: int| place_in(list, r) <= i < list.len() implies comes_after(
                (#[trigger] list[i]).host(),
                list[i].expiry(),
                r.host(),
                r.expiry(),
            ) by {
                if i < rest.len() {
                    assert(rest[i] == list[i]);
                }
            }
            assert forall|i: int| 0 <= i < place_in(list, r) implies !comes_after(
                (#[trigger] list[i]).host(),
                list[i].expiry(),
                r.host(),
                r.expiry(),
            ) by {
                place_is_valid(rest, r);
                assert(rest[i] == list[i]);
            }
        } else {
            assert forall|i: int| 0 <= i < list.len() implies !comes_after(
                (#[trigger] list[i]).host(),
                list[i].expiry(),
                r.host(),
                r.expiry(),
            ) by {
                let l = list[list.len() - 1];
                if i < list.len() - 1 {
                    not_after_transitive(
                        list[i].host(),
                        list[i].expiry(),
                        l.host(),
                        l.expiry(),
                        r.host(),
                        r.expiry(),
                    );
                }
            }
        }
    }
}

/// Ordering records keeps each of them and leaves them in order: by name, and
/// of one name the certificate that lasts longest first.
pub proof fn ordered_records<R: Dated>(rows: Seq<R>)
    ensures
        is_ordered(in_order(rows)),
        in_order(rows).to_multiset() == rows.to_multiset(),
    decreases rows.len(),
{
    broadcast use vstd::seq_lib::group_to_multiset_ensures;

    if rows.len() > 0 {
        let rest = rows.drop_last();
        ordered_records(rest);
        let list = in_order(rest);
        let r = rows.last();
        let at = place_in(list, r);
        place_splits(list, r);
        let out = list.insert(at, r);
        assert forall|i: int, j: int| 0 <= i < j < out.len() implies !comes_after(
            (#[trigger] out[i]).host(),
            out[i].expiry(),
            (#[trigger] out[j]).host(),
            out[j].expiry(),
        ) by {
            let i0 = if i < at { i } else { i - 1 };
            let j0 = if j < at { j } else { j - 1 };
            if i == at {
                assert(out[j] == list[j0]);
                after_is_asymmetric(list[j0].host(), list[j0].expiry(), r.host(), r.expiry());
            } else if j == at {
                assert(out[i] == list[i0]);
            } else {
                assert(out[i] == list[i0] && out[j] == list[j0]);
            }
        }
        assert(out.to_multiset() =~= list.to_multiset().insert(r));
        assert(rows =~= rest.push(r));
        assert(rows.to_multiset() =~= rest.to_multiset().insert(r));
    }
}

/// A domain that is found gets a new activity stamp only where one is given
/// that differs.
pub fn needs_activity_update(existing: Option<i64>, active_at: Option<i64>) -> (r: bool)
    ensures
        r == (active_at is Some && existing != active_at),
{
    match (existing, active_at) {
        (_, None) => false,
        (None, Some(_)) => true,
        (Some(a), Some(b)) => a != b,
    }
}

/// How a certificate or a domain is named: by its number or by its hostname.
pub enum Identifier {
    Id(i32),
    Name(String),
}

/// The number that an identifier names, as `str::parse` reads an `i32`.
pub open spec fn parsed_id(s: Seq<char>) -> Option<int> {
    if s.len() > 0 && s[0] == '-' {
        let digits = s.subrange(1, s.len() as int);
        if digits.len() > 0 && number::all_digits(digits) && number::value_of(digits)
            <= 0x8000_0000 {
            Some(-(number::value_of(digits) as int))
        } else {
            None
        }
    } else {
        match number::parsed_unsigned(s, 0x7fff_ffff) {
            Some(n) => Some(n as int),
            None => None,
        }
    }
}

/// Reads an identifier: a number where it is one, else a hostname, in lower
/// case.
pub fn parse_identifier(s: &str) -> (r: Identifier)
    ensures
        match r {
            Identifier::Id(n) => parsed_id(s@) == Some(n as int),
            Identifier::Name(name) => parsed_id(s@) is None && name@ == text::lower(s@),
        },
{
    let v = text::chars_of(s);
    if v.len() > 0 && v[0] == '-' {
        let rest = s.substring_char(1, v.len());
        if v.len() > 1 && v[1] != '+' {
            if let Some(n) = number::parse_unsigned(rest, 0x8000_0000) {
                return Identifier::Id((-(n as i64)) as i32);
            }
            assert(rest@[0] != '+');
        } else if v.len() > 1 {
            assert(!number::is_digit(rest@[0]));
        }
    } else if let Some(n) = number::parse_unsigned(s, 0x7fff_ffff) {
        return Identifier::Id(n as i32);
    }
    Identifier::Name(text::lowered(s))
}

} // verus!
