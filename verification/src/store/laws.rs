//! What the records of the store promise.
use super::records::{
    self, event_summary, needs_activity_update, parse_identifier, sort_records, to_cert_record,
    to_full_cert_record, CertEventRecord, CertRecord, CertificateRow, DomainRow, FullCertRecord,
    Identifier,
};
use super::migration::{
    self, compute_checksum, plan_migrations, AppliedMigration, Migration, MigrationError,
};
use super::schema::{self, down, up, Column, ColumnKind, OnDelete, SchemaStep, Seed, TableId};
use super::settings::{self, config_with_field};
use crate::control::protocol::CertEventSummary;
use crate::number;
use crate::text;
use serde_json::Value;
use vstd::prelude::*;

verus! {

/// A record has everything that the two rows say; without a domain it has no name and no
/// activity.
pub proof fn rows_become_records(
    cert: CertificateRow,
    domain: Option<DomainRow>,
    r: CertRecord,
    full: FullCertRecord,
    e: CertEventRecord,
    s: CertEventSummary,
)
    requires
        call_ensures(to_cert_record, (cert, domain), r),
        call_ensures(to_full_cert_record, (cert, domain), full),
        call_ensures(event_summary, (e,), s),
    ensures
        r.id == cert.id && full.id == cert.id,
        r.domain_id == cert.domain_id && full.domain_id == cert.domain_id,
        r.not_before == cert.not_before && full.not_before == cert.not_before,
        r.not_after == cert.not_after && full.not_after == cert.not_after,
        text::opt(r.issuer) == text::opt(cert.issuer) && text::opt(full.issuer) == text::opt(
            cert.issuer,
        ),
        r.directory@ == cert.directory@ && full.directory@ == cert.directory@,
        r.obtained_at == cert.obtained_at && full.obtained_at == cert.obtained_at,
        full.cert_pem@ == cert.cert_pem@ && full.key_pem@ == cert.key_pem@,
        domain matches Some(d) ==> {
            &&& r.name@ == d.name@ && full.name@ == d.name@
            &&& r.last_active_at == d.last_active_at && full.last_active_at == d.last_active_at
        },
        domain is None ==> {
            &&& r.name@.len() == 0 && full.name@.len() == 0
            &&& r.last_active_at is None && full.last_active_at is None
        },
        s.id == e.id && s.at == e.at && s.kind@ == e.kind@,
        text::opt(s.detail) == text::opt(e.detail),
{
}

/// The records are sorted by name, and those of one name by expiry, the latest first; none is
/// lost and none is added.
pub proof fn records_are_sorted(rows: Vec<CertRecord>, r: Vec<CertRecord>, i: int, j: int)
    requires
        call_ensures(sort_records::<CertRecord>, (rows,), r),
    ensures
        r@.to_multiset() == rows@.to_multiset(),
        0 <= i < j < r@.len() ==> !text::before(r@[j].name@, r@[i].name@),
        0 <= i < j < r@.len() && r@[i].name@ == r@[j].name@ ==> r@[i].not_after >= r@[j].not_after,
{
    records::ordered_records(rows@);
    if 0 <= i < j < r@.len() {
        assert(!records::comes_after(
            r@[i].name@,
            r@[i].not_after,
            r@[j].name@,
            r@[j].not_after,
        )) by {
            use_order(r@, i, j);
        }
    }
}

proof fn use_order(list: Seq<CertRecord>, i: int, j: int)
    requires
        records::is_ordered(list),
        0 <= i < j < list.len(),
    ensures
        !records::comes_after(
            list[i].name@,
            list[i].not_after,
            list[j].name@,
            list[j].not_after,
        ),
{
    assert(!records::comes_after(
        records::Dated::host(&list[i]),
        records::Dated::expiry(&list[i]),
        records::Dated::host(&list[j]),
        records::Dated::expiry(&list[j]),
    ));
}

/// The full records are sorted in the same way.
pub proof fn full_records_are_sorted(
    rows: Vec<FullCertRecord>,
    r: Vec<FullCertRecord>,
    i: int,
    j: int,
)
    requires
        call_ensures(sort_records::<FullCertRecord>, (rows,), r),
    ensures
        r@.to_multiset() == rows@.to_multiset(),
        0 <= i < j < r@.len() ==> !text::before(r@[j].name@, r@[i].name@),
        0 <= i < j < r@.len() && r@[i].name@ == r@[j].name@ ==> r@[i].not_after >= r@[j].not_after,
{
    records::ordered_records(rows@);
    if 0 <= i < j < r@.len() {
        assert(!records::comes_after(
            records::Dated::host(&r@[i]),
            records::Dated::expiry(&r@[i]),
            records::Dated::host(&r@[j]),
            records::Dated::expiry(&r@[j]),
        ));
    }
}

/// An activity stamp is written where one is given that differs from the one there is.
pub proof fn activity_is_updated(existing: Option<i64>, at: Option<i64>, r: bool)
    requires
        call_ensures(needs_activity_update, (existing, at), r),
    ensures
        at is None ==> !r,
        at matches Some(t) ==> (r <==> existing is None || existing->0 != t),
{
}

/// A text is a number of a certificate exactly where it is a whole number that fits, with a
/// sign in front or not; otherwise it is a hostname, in lower case.
pub proof fn identifiers_are_read(s: &str, r: Identifier, digits: Seq<char>, minus: bool)
    requires
        call_ensures(parse_identifier, (s,), r),
        minus ==> s@ == seq!['-'] + digits,
        !minus ==> s@ == digits || s@ == seq!['+'] + digits,
        digits.len() > 0 ==> digits[0] != '-' && digits[0] != '+',
    ensures
        ({
            let is_number = digits.len() > 0 && number::all_digits(digits) && number::value_of(
                digits,
            ) <= (if minus {
                0x8000_0000int
            } else {
                0x7fff_ffff
            });
            &&& r is Id <==> is_number
            &&& r matches Identifier::Id(n) ==> n == (if minus {
                -(number::value_of(digits) as int)
            } else {
                number::value_of(digits) as int
            })
            &&& r matches Identifier::Name(h) ==> h@ == text::lower(s@)
        }),
{
    if s@.len() > 0 {
        assert(s@.subrange(1, s@.len() as int) =~= s@.skip(1));
    }
    if minus || s@ == seq!['+'] + digits {
        assert(s@.subrange(1, s@.len() as int) =~= digits);
    }
}

/// Setting a field keeps every other field of the configuration that is stored, and the field
/// has the value that was given: as JSON where it is that, otherwise as a string.
pub proof fn one_field_is_set(
    stored: Option<&str>,
    key: &str,
    value: &str,
    r: String,
    other: Seq<char>,
) -> (m: Map<Seq<char>, Value>)
    requires
        call_ensures(config_with_field, (stored, key, value), r),
    ensures
        r@ == settings::json_text(m),
        m.contains_key(key@),
        settings::json_value(value@) matches Some(v) ==> m[key@] == v,
        settings::json_value(value@) is None ==> m[key@] == settings::json_string(value@),
        other != key@ ==> match stored {
            Some(s) => match settings::json_object(s@) {
                Some(old) => m.contains_key(other) == old.contains_key(other) && (old.contains_key(
                    other,
                ) ==> m[other] == old[other]),
                None => !m.contains_key(other),
            },
            None => !m.contains_key(other),
        },
{
    let before = match stored {
        Some(s) => Some(s@),
        None => None,
    };
    settings::config_with(before, key@, value@)
}

/// The step creates the table with so many columns.
pub open spec fn creates(s: SchemaStep, id: TableId, n: int) -> bool {
    s matches SchemaStep::CreateTable(t) && t.id == id && t.columns@.len() == n
}

/// The column of the table that a step creates: whether it may be empty, is the key, or holds
/// no value twice.
pub open spec fn has_column(
    s: SchemaStep,
    i: int,
    name: Seq<char>,
    kind: ColumnKind,
    nullable: bool,
    is_key: bool,
    unique: bool,
) -> bool {
    s matches SchemaStep::CreateTable(t) && t.columns@[i].name@ == name && t.columns@[i].kind == kind
        && t.columns@[i].nullable == nullable && t.columns@[i].primary_key == is_key
        && t.columns@[i].unique == unique
}

/// The table that a step creates refers to the `id` of another.
pub open spec fn refers_to(
    s: SchemaStep,
    name: Seq<char>,
    column: Seq<char>,
    table: TableId,
    on_delete: OnDelete,
) -> bool {
    s matches SchemaStep::CreateTable(t) && (t.foreign_key matches Some(f) && f.name@ == name
        && f.column@ == column && f.table == table && f.key@ == "id"@ && f.on_delete == on_delete)
}

/// The step creates the index.
pub open spec fn indexes(
    s: SchemaStep,
    name: Seq<char>,
    table: TableId,
    on: Seq<Seq<char>>,
    unique: bool,
) -> bool {
    s matches SchemaStep::CreateIndex(i) && i.name@ == name && i.table == table && i.columns@.map_values(
        |c: &'static str| c@,
    ) == on && i.unique == unique
}

proof fn step_is_table(steps: Seq<SchemaStep>, k: int, id: TableId)
    requires
        schema::step_facts(steps) == schema::initial_steps(),
        0 <= k < schema::initial_steps().len(),
        schema::initial_steps()[k] == schema::create(id),
    ensures
        steps[k] is CreateTable,
        steps[k]->CreateTable_0.id == id,
        steps[k]->CreateTable_0.columns@.len() == schema::columns_of(id).len(),
        forall|i: int|
            0 <= i < schema::columns_of(id).len() ==> (
            #[trigger] steps[k]->CreateTable_0.columns@[i])@ == schema::columns_of(id)[i],
        (match steps[k]->CreateTable_0.foreign_key {
            Some(f) => Some(f@),
            None => None,
        }) == schema::reference_of(id),
{
    let facts = schema::step_facts(steps);
    assert(facts[k] == steps[k]@);
    let t = steps[k]->CreateTable_0;
    let columns = t.columns@.map_values(|c: Column| c@);
    assert(columns == schema::columns_of(id));
    assert(columns.len() == t.columns@.len());
    assert forall|i: int| 0 <= i < schema::columns_of(id).len() implies (
    #[trigger] steps[k]->CreateTable_0.columns@[i])@ == schema::columns_of(id)[i] by {
        assert(columns[i] == t.columns@[i]@);
    }
}

/// The table of one row with the configuration.
pub proof fn the_configuration_has_a_table(steps: Vec<SchemaStep>)
    requires
        call_ensures(up, (), steps),
    ensures
        steps@.len() == 17,
        creates(steps@[0], TableId::Config, 3),
        has_column(steps@[0], 0, "id"@, ColumnKind::Integer, false, true, false),
        has_column(steps@[0], 1, "config_json"@, ColumnKind::Text, false, false, false),
        has_column(steps@[0], 2, "updated_at"@, ColumnKind::BigInteger, false, false, false),
        steps@[0]->CreateTable_0.columns@[0].only == Some(1i32),
        steps@[0]->CreateTable_0.foreign_key is None,
{
    let facts = schema::step_facts(steps@);
    assert(facts.len() == steps@.len());
    step_is_table(steps@, 0, TableId::Config);
    let columns = steps@[0]->CreateTable_0.columns@;
    assert(columns[0]@ == schema::columns_of(TableId::Config)[0]);
    assert(columns[1]@ == schema::columns_of(TableId::Config)[1]);
    assert(columns[2]@ == schema::columns_of(TableId::Config)[2]);
}

/// The table of an account for each directory.
pub proof fn accounts_have_a_table(steps: Vec<SchemaStep>)
    requires
        call_ensures(up, (), steps),
    ensures
        steps@.len() == 17,
        creates(steps@[1], TableId::AcmeAccount, 5),
        has_column(steps@[1], 0, "directory"@, ColumnKind::Text, false, true, false),
        has_column(steps@[1], 1, "email"@, ColumnKind::Text, false, false, false),
        has_column(steps@[1], 2, "credentials_json"@, ColumnKind::Text, false, false, false),
        has_column(steps@[1], 3, "kid"@, ColumnKind::Text, true, false, false),
        has_column(steps@[1], 4, "created_at"@, ColumnKind::BigInteger, false, false, false),
        steps@[1]->CreateTable_0.foreign_key is None,
{
    let facts = schema::step_facts(steps@);
    assert(facts.len() == steps@.len());
    step_is_table(steps@, 1, TableId::AcmeAccount);
    let columns = steps@[1]->CreateTable_0.columns@;
    assert(columns[0]@ == schema::columns_of(TableId::AcmeAccount)[0]);
    assert(columns[1]@ == schema::columns_of(TableId::AcmeAccount)[1]);
    assert(columns[2]@ == schema::columns_of(TableId::AcmeAccount)[2]);
    assert(columns[3]@ == schema::columns_of(TableId::AcmeAccount)[3]);
    assert(columns[4]@ == schema::columns_of(TableId::AcmeAccount)[4]);
}

/// The table of persons, each with a name of its own.
pub proof fn persons_have_a_table(steps: Vec<SchemaStep>)
    requires
        call_ensures(up, (), steps),
    ensures
        steps@.len() == 17,
        creates(steps@[2], TableId::Person, 3),
        has_column(steps@[2], 0, "id"@, ColumnKind::IntegerKey, false, true, false),
        has_column(steps@[2], 1, "name"@, ColumnKind::Text, false, false, true),
        has_column(steps@[2], 2, "created_at"@, ColumnKind::BigInteger, false, false, false),
        steps@[2]->CreateTable_0.foreign_key is None,
{
    let facts = schema::step_facts(steps@);
    assert(facts.len() == steps@.len());
    step_is_table(steps@, 2, TableId::Person);
    let columns = steps@[2]->CreateTable_0.columns@;
    assert(columns[0]@ == schema::columns_of(TableId::Person)[0]);
    assert(columns[1]@ == schema::columns_of(TableId::Person)[1]);
    assert(columns[2]@ == schema::columns_of(TableId::Person)[2]);
}

/// The table of the machines of persons, which go with them.
pub proof fn machines_have_a_table(steps: Vec<SchemaStep>)
    requires
        call_ensures(up, (), steps),
    ensures
        steps@.len() == 17,
        creates(steps@[3], TableId::Machine, 4),
        has_column(steps@[3], 0, "id"@, ColumnKind::IntegerKey, false, true, false),
        has_column(steps@[3], 1, "person_id"@, ColumnKind::Integer, false, false, false),
        has_column(steps@[3], 2, "name"@, ColumnKind::Text, false, false, false),
        has_column(steps@[3], 3, "created_at"@, ColumnKind::BigInteger, false, false, false),
        refers_to(steps@[3], "fk_machine_person_id"@, "person_id"@, TableId::Person, OnDelete::Cascade),
        indexes(steps@[4], "idx_machine_person_id_name"@, TableId::Machine, seq!["person_id"@, "name"@], true),
{
    let facts = schema::step_facts(steps@);
    assert(facts.len() == steps@.len());
    step_is_table(steps@, 3, TableId::Machine);
    let columns = steps@[3]->CreateTable_0.columns@;
    assert(columns[0]@ == schema::columns_of(TableId::Machine)[0]);
    assert(columns[1]@ == schema::columns_of(TableId::Machine)[1]);
    assert(columns[2]@ == schema::columns_of(TableId::Machine)[2]);
    assert(columns[3]@ == schema::columns_of(TableId::Machine)[3]);
    assert(facts[4] == steps@[4]@);
}

/// The table of the keys of machines, which go with them; no key is of two.
pub proof fn machine_keys_have_a_table(steps: Vec<SchemaStep>)
    requires
        call_ensures(up, (), steps),
    ensures
        steps@.len() == 17,
        creates(steps@[5], TableId::MachineKey, 4),
        has_column(steps@[5], 0, "id"@, ColumnKind::IntegerKey, false, true, false),
        has_column(steps@[5], 1, "machine_id"@, ColumnKind::Integer, false, false, false),
        has_column(steps@[5], 2, "key_id"@, ColumnKind::Text, false, false, true),
        has_column(steps@[5], 3, "created_at"@, ColumnKind::BigInteger, false, false, false),
        refers_to(steps@[5], "fk_machine_key_machine_id"@, "machine_id"@, TableId::Machine, OnDelete::Cascade),
{
    let facts = schema::step_facts(steps@);
    assert(facts.len() == steps@.len());
    step_is_table(steps@, 5, TableId::MachineKey);
    let columns = steps@[5]->CreateTable_0.columns@;
    assert(columns[0]@ == schema::columns_of(TableId::MachineKey)[0]);
    assert(columns[1]@ == schema::columns_of(TableId::MachineKey)[1]);
    assert(columns[2]@ == schema::columns_of(TableId::MachineKey)[2]);
    assert(columns[3]@ == schema::columns_of(TableId::MachineKey)[3]);
}

/// The table of the services of machines, which go with them.
pub proof fn services_have_a_table(steps: Vec<SchemaStep>)
    requires
        call_ensures(up, (), steps),
    ensures
        steps@.len() == 17,
        creates(steps@[6], TableId::Service, 4),
        has_column(steps@[6], 0, "id"@, ColumnKind::IntegerKey, false, true, false),
        has_column(steps@[6], 1, "machine_id"@, ColumnKind::Integer, false, false, false),
        has_column(steps@[6], 2, "name"@, ColumnKind::Text, false, false, false),
        has_column(steps@[6], 3, "created_at"@, ColumnKind::BigInteger, false, false, false),
        refers_to(steps@[6], "fk_service_machine_id"@, "machine_id"@, TableId::Machine, OnDelete::Cascade),
        indexes(steps@[7], "idx_service_machine_id_name"@, TableId::Service, seq!["machine_id"@, "name"@], true),
{
    let facts = schema::step_facts(steps@);
    assert(facts.len() == steps@.len());
    step_is_table(steps@, 6, TableId::Service);
    let columns = steps@[6]->CreateTable_0.columns@;
    assert(columns[0]@ == schema::columns_of(TableId::Service)[0]);
    assert(columns[1]@ == schema::columns_of(TableId::Service)[1]);
    assert(columns[2]@ == schema::columns_of(TableId::Service)[2]);
    assert(columns[3]@ == schema::columns_of(TableId::Service)[3]);
    assert(facts[7] == steps@[7]@);
}

/// The table of domains, each once, which outlive their service.
pub proof fn domains_have_a_table(steps: Vec<SchemaStep>)
    requires
        call_ensures(up, (), steps),
    ensures
        steps@.len() == 17,
        creates(steps@[8], TableId::Domains, 4),
        has_column(steps@[8], 0, "id"@, ColumnKind::IntegerKey, false, true, false),
        has_column(steps@[8], 1, "name"@, ColumnKind::Text, false, false, true),
        has_column(steps@[8], 2, "last_active_at"@, ColumnKind::BigInteger, true, false, false),
        has_column(steps@[8], 3, "service_id"@, ColumnKind::Integer, true, false, false),
        refers_to(steps@[8], "fk_domains_service_id"@, "service_id"@, TableId::Service, OnDelete::SetNull),
        indexes(steps@[9], "idx_domains_service_id"@, TableId::Domains, seq!["service_id"@], false),
{
    let facts = schema::step_facts(steps@);
    assert(facts.len() == steps@.len());
    step_is_table(steps@, 8, TableId::Domains);
    let columns = steps@[8]->CreateTable_0.columns@;
    assert(columns[0]@ == schema::columns_of(TableId::Domains)[0]);
    assert(columns[1]@ == schema::columns_of(TableId::Domains)[1]);
    assert(columns[2]@ == schema::columns_of(TableId::Domains)[2]);
    assert(columns[3]@ == schema::columns_of(TableId::Domains)[3]);
    assert(facts[9] == steps@[9]@);
}

/// The table of the certificates of domains, which go with them.
pub proof fn certificates_have_a_table(steps: Vec<SchemaStep>)
    requires
        call_ensures(up, (), steps),
    ensures
        steps@.len() == 17,
        creates(steps@[10], TableId::Certificates, 9),
        has_column(steps@[10], 0, "id"@, ColumnKind::IntegerKey, false, true, false),
        has_column(steps@[10], 1, "domain_id"@, ColumnKind::Integer, false, false, false),
        has_column(steps@[10], 2, "cert_pem"@, ColumnKind::Text, false, false, false),
        has_column(steps@[10], 3, "key_pem"@, ColumnKind::Text, false, false, false),
        has_column(steps@[10], 4, "not_before"@, ColumnKind::BigInteger, false, false, false),
        has_column(steps@[10], 5, "not_after"@, ColumnKind::BigInteger, false, false, false),
        has_column(steps@[10], 6, "issuer"@, ColumnKind::Text, true, false, false),
        has_column(steps@[10], 7, "directory"@, ColumnKind::Text, false, false, false),
        has_column(steps@[10], 8, "obtained_at"@, ColumnKind::BigInteger, false, false, false),
        refers_to(steps@[10], "fk_certificates_domain_id"@, "domain_id"@, TableId::Domains, OnDelete::Cascade),
        indexes(steps@[11], "idx_certificates_domain_id"@, TableId::Certificates, seq!["domain_id"@], false),
{
    let facts = schema::step_facts(steps@);
    assert(facts.len() == steps@.len());
    step_is_table(steps@, 10, TableId::Certificates);
    let columns = steps@[10]->CreateTable_0.columns@;
    assert(columns[0]@ == schema::columns_of(TableId::Certificates)[0]);
    assert(columns[1]@ == schema::columns_of(TableId::Certificates)[1]);
    assert(columns[2]@ == schema::columns_of(TableId::Certificates)[2]);
    assert(columns[3]@ == schema::columns_of(TableId::Certificates)[3]);
    assert(columns[4]@ == schema::columns_of(TableId::Certificates)[4]);
    assert(columns[5]@ == schema::columns_of(TableId::Certificates)[5]);
    assert(columns[6]@ == schema::columns_of(TableId::Certificates)[6]);
    assert(columns[7]@ == schema::columns_of(TableId::Certificates)[7]);
    assert(columns[8]@ == schema::columns_of(TableId::Certificates)[8]);
    assert(facts[11] == steps@[11]@);
}

/// The table of what happened to the certificates of a name.
pub proof fn certificate_events_have_a_table(steps: Vec<SchemaStep>)
    requires
        call_ensures(up, (), steps),
    ensures
        steps@.len() == 17,
        creates(steps@[12], TableId::CertEvents, 5),
        has_column(steps@[12], 0, "id"@, ColumnKind::BigIntegerKey, false, true, false),
        has_column(steps@[12], 1, "name"@, ColumnKind::Text, false, false, false),
        has_column(steps@[12], 2, "at"@, ColumnKind::BigInteger, false, false, false),
        has_column(steps@[12], 3, "kind"@, ColumnKind::Text, false, false, false),
        has_column(steps@[12], 4, "detail"@, ColumnKind::Text, true, false, false),
        steps@[12]->CreateTable_0.foreign_key is None,
        indexes(steps@[13], "idx_cert_events_name_at"@, TableId::CertEvents, seq!["name"@, "at"@], false),
{
    let facts = schema::step_facts(steps@);
    assert(facts.len() == steps@.len());
    step_is_table(steps@, 12, TableId::CertEvents);
    let columns = steps@[12]->CreateTable_0.columns@;
    assert(columns[0]@ == schema::columns_of(TableId::CertEvents)[0]);
    assert(columns[1]@ == schema::columns_of(TableId::CertEvents)[1]);
    assert(columns[2]@ == schema::columns_of(TableId::CertEvents)[2]);
    assert(columns[3]@ == schema::columns_of(TableId::CertEvents)[3]);
    assert(columns[4]@ == schema::columns_of(TableId::CertEvents)[4]);
    assert(facts[13] == steps@[13]@);
}

/// Every database starts with one person, a machine and its key.
pub proof fn rows_are_there_from_the_start(steps: Vec<SchemaStep>)
    requires
        call_ensures(up, (), steps),
    ensures
        steps@.len() == 17,
        steps@[14] matches SchemaStep::Insert(Seed::Person { name, created_at }) && name@ == "poc"@
            && created_at == 0,
        steps@[15] matches SchemaStep::Insert(Seed::Machine { person, name, created_at }) && person@
            == "poc"@ && name@ == "laptop"@ && created_at == 0,
        steps@[16] matches SchemaStep::Insert(
            Seed::MachineKey { person, machine, key_id, created_at },
        ) && person@ == "poc"@ && machine@ == "laptop"@ && key_id@
            == "ed25519:9b017abe250e5b63f6817a84ec9c7b7598b11fc80056ece29e06b8aa4b517906"@
            && created_at == 0,
{
    let facts = schema::step_facts(steps@);
    assert(facts.len() == steps@.len());
    assert(facts[14] == steps@[14]@ && facts[15] == steps@[15]@ && facts[16] == steps@[16]@);
}

/// The tables are dropped in the reverse order of their creation, so that none is dropped
/// before those that refer to it.
pub proof fn tables_are_dropped_in_reverse(v: Vec<TableId>)
    requires
        call_ensures(down, (), v),
    ensures
        v@ == seq![
            TableId::CertEvents,
            TableId::Certificates,
            TableId::Domains,
            TableId::Service,
            TableId::MachineKey,
            TableId::Machine,
            TableId::Person,
            TableId::AcmeAccount,
            TableId::Config,
        ],
{
    assert(v@[0].rank() == 8 && v@[1].rank() == 7 && v@[2].rank() == 6 && v@[3].rank() == 5);
    assert(v@[4].rank() == 4 && v@[5].rank() == 3 && v@[6].rank() == 2 && v@[7].rank() == 1);
    assert(v@[8].rank() == 0);
    let list = seq![
        TableId::CertEvents,
        TableId::Certificates,
        TableId::Domains,
        TableId::Service,
        TableId::MachineKey,
        TableId::Machine,
        TableId::Person,
        TableId::AcmeAccount,
        TableId::Config,
    ];
    assert(v@ =~= list);
}

/// Each table has its name.
pub proof fn tables_are_named(t: TableId, r: &'static str)
    requires
        call_ensures(TableId::name, (t,), r),
    ensures
        t is Config ==> r@ == "config"@,
        t is AcmeAccount ==> r@ == "acme_account"@,
        t is Person ==> r@ == "person"@,
        t is Machine ==> r@ == "machine"@,
        t is MachineKey ==> r@ == "machine_key"@,
        t is Service ==> r@ == "service"@,
        t is Domains ==> r@ == "domains"@,
        t is Certificates ==> r@ == "certificates"@,
        t is CertEvents ==> r@ == "cert_events"@,
{
}

/// The checksum of a migration is its SHA-256 digest in hexadecimal.
pub proof fn checksums_are_digests(sql: &str, r: String, digest: &[u8], hex: String)
    requires
        call_ensures(compute_checksum, (sql,), r),
        digest@ == crate::digest::sha256(vstd::utf8::encode_utf8(sql@)),
        call_ensures(number::hex_string, (digest,), hex),
    ensures
        r@ == hex@,
        r@.len() == 64,
{
}

proof fn numbering_is_found(ms: Seq<Migration>, i: int)
    requires
        0 <= i <= ms.len(),
    ensures
        migration::misnumbered_from(ms, i) is None <==> forall|k: int|
            i <= k < ms.len() ==> (#[trigger] ms[k]).version == k + 1,
        migration::misnumbered_from(ms, i) is Some
            ==> migration::misnumbered_from(ms, i)->0 is InvalidMigrationSequence,
    decreases ms.len() - i,
{
    if i < ms.len() {
        numbering_is_found(ms, i + 1);
    }
}

/// The program has the applied migration, with the same text.
pub open spec fn fits(ms: Seq<Migration>, a: AppliedMigration) -> bool {
    &&& 1 <= a.version <= ms.len()
    &&& a.checksum@ == number::hex_of(
        crate::digest::sha256(vstd::utf8::encode_utf8(ms[a.version - 1].sql@)),
    )
}

proof fn misfits_are_found(ms: Seq<Migration>, applied: Seq<AppliedMigration>, i: int)
    requires
        0 <= i <= applied.len(),
    ensures
        migration::first_misfit(ms, applied, i) is None <==> forall|k: int|
            i <= k < applied.len() ==> fits(ms, #[trigger] applied[k]),
        migration::first_misfit(ms, applied, i) is Some
            ==> !(migration::first_misfit(ms, applied, i)->0 is InvalidMigrationSequence),
    decreases applied.len() - i,
{
    if i < applied.len() {
        misfits_are_found(ms, applied, i + 1);
        assert(fits(ms, applied[i]) == (migration::misfit(ms, applied[i]) is None));
    }
}

/// A database is migrated exactly where the migrations are numbered from one without gaps,
/// the last applied one is not beyond the last there is, and every applied one is known with
/// the same text. Then those after the last applied one are pending, in order.
pub proof fn databases_are_migrated(
    ms: &Vec<Migration>,
    applied: &Vec<AppliedMigration>,
    r: Result<Vec<Migration>, MigrationError>,
    i: int,
)
    requires
        call_ensures(plan_migrations, (ms, applied), r),
    ensures
        ({
            let numbered = forall|k: int| 0 <= k < ms@.len() ==> (#[trigger] ms@[k]).version == k + 1;
            let known = forall|k: int| 0 <= k < applied@.len() ==> fits(ms@, #[trigger] applied@[k]);
            let at: int = if applied@.len() == 0 {
                0
            } else {
                applied@.last().version as int
            };
            &&& r is Ok <==> numbered && known
            &&& !numbered <==> (r matches Err(MigrationError::InvalidMigrationSequence(_)))
            &&& r matches Ok(pending) ==> {
                &&& pending@.len() + at == ms@.len()
                &&& 0 <= i < pending@.len() ==> pending@[i] == ms@[at + i]
            }
            &&& numbered && at > ms@.len() ==> (r matches Err(
                MigrationError::NewerSchema { db_version, binary_version },
            ) && db_version == at && binary_version == ms@.len())
        }),
{
    numbering_is_found(ms@, 0);
    misfits_are_found(ms@, applied@, 0);
    let n = ms@.len();
    if n > 0 && migration::misnumbered_from(ms@, 0) is None {
        assert(ms@[n - 1].version == n);
    }
    if applied@.len() > 0 {
        let last = applied@[applied@.len() - 1];
        assert(last == applied@.last());
    }
}

} // verus!
