//! The initial schema: singleton config, ACME accounts, persons, machines,
//! machine keys, services, domains, certificates and certificate events.
use vstd::prelude::*;

verus! {

/// The tables, in the order in which they are created.
#[derive(Debug, Clone, Copy, PartialEq, Eq, Structural)]
pub enum TableId {
    Config,
    AcmeAccount,
    Person,
    Machine,
    MachineKey,
    Service,
    Domains,
    Certificates,
    CertEvents,
}

impl TableId {
    /// The place of the table in the order of creation.
    pub open spec fn rank(self) -> int {
        match self {
            TableId::Config => 0,
            TableId::AcmeAccount => 1,
            TableId::Person => 2,
            TableId::Machine => 3,
            TableId::MachineKey => 4,
            TableId::Service => 5,
            TableId::Domains => 6,
            TableId::Certificates => 7,
            TableId::CertEvents => 8,
        }
    }

    /// The name of the table.
    pub open spec fn title(self) -> Seq<char> {
        match self {
            TableId::Config => "config"@,
            TableId::AcmeAccount => "acme_account"@,
            TableId::Person => "person"@,
            TableId::Machine => "machine"@,
            TableId::MachineKey => "machine_key"@,
            TableId::Service => "service"@,
            TableId::Domains => "domains"@,
            TableId::Certificates => "certificates"@,
            TableId::CertEvents => "cert_events"@,
        }
    }

    /// The name of the table.
    pub fn name(self) -> (r: &'static str)
        ensures
            r@ == self.title(),
    {
        match self {
            TableId::Config => "config",
            TableId::AcmeAccount => "acme_account",
            TableId::Person => "person",
            TableId::Machine => "machine",
            TableId::MachineKey => "machine_key",
            TableId::Service => "service",
            TableId::Domains => "domains",
            TableId::Certificates => "certificates",
            TableId::CertEvents => "cert_events",
        }
    }
}

/// The type of a column.
#[derive(Debug, Clone, Copy, PartialEq, Eq, Structural)]
pub enum ColumnKind {
    Integer,
    BigInteger,
    Text,
    /// A 32-bit key that the database counts up.
    IntegerKey,
    /// A 64-bit key that the database counts up.
    BigIntegerKey,
}

/// A column.
#[derive(Debug, Clone, Copy)]
pub struct Column {
    pub name: &'static str,
    pub kind: ColumnKind,
    pub nullable: bool,
    pub primary_key: bool,
    pub unique: bool,
    /// The only value that the column may hold.
    pub only: Option<i32>,
}

/// What happens to a row when the row it refers to is deleted. Updates
/// cascade.
#[derive(Debug, Clone, Copy, PartialEq, Eq, Structural)]
pub enum OnDelete {
    Cascade,
    SetNull,
}

/// A reference to the key of another table.
#[derive(Debug, Clone, Copy)]
pub struct ForeignKey {
    pub name: &'static str,
    pub column: &'static str,
    pub table: TableId,
    pub key: &'static str,
    pub on_delete: OnDelete,
}

/// A table.
#[derive(Debug)]
pub struct Table {
    pub id: TableId,
    pub columns: Vec<Column>,
    pub foreign_key: Option<ForeignKey>,
}

/// An index of a table.
#[derive(Debug)]
pub struct Index {
    pub name: &'static str,
    pub table: TableId,
    pub columns: Vec<&'static str>,
    pub unique: bool,
}

/// A row that is there from the start. References are by name, so that a seed
/// never depends on the numbers that the database counts up.
#[derive(Debug, Clone, Copy)]
pub enum Seed {
    Person { name: &'static str, created_at: i64 },
    Machine { person: &'static str, name: &'static str, created_at: i64 },
    MachineKey {
        person: &'static str,
        machine: &'static str,
        key_id: &'static str,
        created_at: i64,
    },
}

/// A step of the migration.
#[derive(Debug)]
pub enum SchemaStep {
    CreateTable(Table),
    CreateIndex(Index),
    Insert(Seed),
}

/// A column, as text.
pub struct ColumnFacts {
    pub name: Seq<char>,
    pub kind: ColumnKind,
    pub nullable: bool,
    pub primary_key: bool,
    pub unique: bool,
    pub only: Option<i32>,
}

/// A reference, as text.
pub struct ForeignKeyFacts {
    pub name: Seq<char>,
    pub column: Seq<char>,
    pub table: TableId,
    pub key: Seq<char>,
    pub on_delete: OnDelete,
}

/// A step, as text.
pub enum StepFacts {
    CreateTable {
        id: TableId,
        columns: Seq<ColumnFacts>,
        foreign_key: Option<ForeignKeyFacts>,
    },
    CreateIndex { name: Seq<char>, table: TableId, on: Seq<Seq<char>>, unique: bool },
    InsertPerson { name: Seq<char>, created_at: i64 },
    InsertMachine { person: Seq<char>, name: Seq<char>, created_at: i64 },
    InsertMachineKey {
        person: Seq<char>,
        machine: Seq<char>,
        key_id: Seq<char>,
        created_at: i64,
    },
}

impl View for Column {
    type V = ColumnFacts;

    open spec fn view(&self) -> ColumnFacts {
        ColumnFacts {
            name: self.name@,
            kind: self.kind,
            nullable: self.nullable,
            primary_key: self.primary_key,
            unique: self.unique,
            only: self.only,
        }
    }
}

impl View for ForeignKey {
    type V = ForeignKeyFacts;

    open spec fn view(&self) -> ForeignKeyFacts {
        ForeignKeyFacts {
            name: self.name@,
            column: self.column@,
            table: self.table,
            key: self.key@,
            on_delete: self.on_delete,
        }
    }
}

impl View for SchemaStep {
    type V = StepFacts;

    open spec fn view(&self) -> StepFacts {
        match *self {
            SchemaStep::CreateTable(t) => StepFacts::CreateTable {
                id: t.id,
                columns: t.columns@.map_values(|c: Column| c@),
                foreign_key: match t.foreign_key {
                    Some(f) => Some(f@),
                    None => None,
                },
            },
            SchemaStep::CreateIndex(i) => StepFacts::CreateIndex {
                name: i.name@,
                table: i.table,
                on: i.columns@.map_values(|c: &'static str| c@),
                unique: i.unique,
            },
            SchemaStep::Insert(Seed::Person { name, created_at }) => StepFacts::InsertPerson {
                name: name@,
                created_at,
            },
            SchemaStep::Insert(Seed::Machine { person, name, created_at }) => {
                StepFacts::InsertMachine { person: person@, name: name@, created_at }
            },
            SchemaStep::Insert(Seed::MachineKey { person, machine, key_id, created_at }) => {
                StepFacts::InsertMachineKey {
                    person: person@,
                    machine: machine@,
                    key_id: key_id@,
                    created_at,
                }
            },
        }
    }
}

/// A column that holds a value in each row.
pub open spec fn required(name: Seq<char>, kind: ColumnKind) -> ColumnFacts {
    ColumnFacts { name, kind, nullable: false, primary_key: false, unique: false, only: None }
}

/// A column that may be empty.
pub open spec fn optional(name: Seq<char>, kind: ColumnKind) -> ColumnFacts {
    ColumnFacts { nullable: true, ..required(name, kind) }
}

/// The primary key of a table.
pub open spec fn key(name: Seq<char>, kind: ColumnKind) -> ColumnFacts {
    ColumnFacts { primary_key: true, ..required(name, kind) }
}

/// A column whose values are all different.
pub open spec fn distinct(name: Seq<char>, kind: ColumnKind) -> ColumnFacts {
    ColumnFacts { unique: true, ..required(name, kind) }
}

fn required_column(name: &'static str, kind: ColumnKind) -> (c: Column)
    ensures
        c@ == required(name@, kind),
{
    Column { name, kind, nullable: false, primary_key: false, unique: false, only: None }
}

fn optional_column(name: &'static str, kind: ColumnKind) -> (c: Column)
    ensures
        c@ == optional(name@, kind),
{
    Column { name, kind, nullable: true, primary_key: false, unique: false, only: None }
}

fn key_column(name: &'static str, kind: ColumnKind) -> (c: Column)
    ensures
        c@ == key(name@, kind),
{
    Column { name, kind, nullable: false, primary_key: true, unique: false, only: None }
}

fn distinct_column(name: &'static str, kind: ColumnKind) -> (c: Column)
    ensures
        c@ == distinct(name@, kind),
{
    Column { name, kind, nullable: false, primary_key: false, unique: true, only: None }
}

/// The columns of a table, in order.
pub open spec fn columns_of(id: TableId) -> Seq<ColumnFacts> {
    match id {
        TableId::Config => seq![
            ColumnFacts { only: Some(1), ..key("id"@, ColumnKind::Integer) },
            required("config_json"@, ColumnKind::Text),
            required("updated_at"@, ColumnKind::BigInteger),
        ],
        TableId::AcmeAccount => seq![
            key("directory"@, ColumnKind::Text),
            required("email"@, ColumnKind::Text),
            required("credentials_json"@, ColumnKind::Text),
            optional("kid"@, ColumnKind::Text),
            required("created_at"@, ColumnKind::BigInteger),
        ],
        TableId::Person => seq![
            key("id"@, ColumnKind::IntegerKey),
            distinct("name"@, ColumnKind::Text),
            required("created_at"@, ColumnKind::BigInteger),
        ],
        TableId::Machine => seq![
            key("id"@, ColumnKind::IntegerKey),
            required("person_id"@, ColumnKind::Integer),
            required("name"@, ColumnKind::Text),
            required("created_at"@, ColumnKind::BigInteger),
        ],
        TableId::MachineKey => seq![
            key("id"@, ColumnKind::IntegerKey),
            required("machine_id"@, ColumnKind::Integer),
            distinct("key_id"@, ColumnKind::Text),
            required("created_at"@, ColumnKind::BigInteger),
        ],
        TableId::Service => seq![
            key("id"@, ColumnKind::IntegerKey),
            required("machine_id"@, ColumnKind::Integer),
            required("name"@, ColumnKind::Text),
            required("created_at"@, ColumnKind::BigInteger),
        ],
        TableId::Domains => seq![
            key("id"@, ColumnKind::IntegerKey),
            distinct("name"@, ColumnKind::Text),
            optional("last_active_at"@, ColumnKind::BigInteger),
            optional("service_id"@, ColumnKind::Integer),
        ],
        TableId::Certificates => seq![
            key("id"@, ColumnKind::IntegerKey),
            required("domain_id"@, ColumnKind::Integer),
            required("cert_pem"@, ColumnKind::Text),
            required("key_pem"@, ColumnKind::Text),
            required("not_before"@, ColumnKind::BigInteger),
            required("not_after"@, ColumnKind::BigInteger),
            optional("issuer"@, ColumnKind::Text),
            required("directory"@, ColumnKind::Text),
            required("obtained_at"@, ColumnKind::BigInteger),
        ],
        TableId::CertEvents => seq![
            key("id"@, ColumnKind::BigIntegerKey),
            required("name"@, ColumnKind::Text),
            required("at"@, ColumnKind::BigInteger),
            required("kind"@, ColumnKind::Text),
            optional("detail"@, ColumnKind::Text),
        ],
    }
}

/// The reference of a table to another, if it has one.
pub open spec fn reference_of(id: TableId) -> Option<ForeignKeyFacts> {
    match id {
        TableId::Machine => Some(
            ForeignKeyFacts {
                name: "fk_machine_person_id"@,
                column: "person_id"@,
                table: TableId::Person,
                key: "id"@,
                on_delete: OnDelete::Cascade,
            },
        ),
        TableId::MachineKey => Some(
            ForeignKeyFacts {
                name: "fk_machine_key_machine_id"@,
                column: "machine_id"@,
                table: TableId::Machine,
                key: "id"@,
                on_delete: OnDelete::Cascade,
            },
        ),
        TableId::Service => Some(
            ForeignKeyFacts {
                name: "fk_service_machine_id"@,
                column: "machine_id"@,
                table: TableId::Machine,
                key: "id"@,
                on_delete: OnDelete::Cascade,
            },
        ),
        TableId::Domains => Some(
            ForeignKeyFacts {
                name: "fk_domains_service_id"@,
                column: "service_id"@,
                table: TableId::Service,
                key: "id"@,
                on_delete: OnDelete::SetNull,
            },
        ),
        TableId::Certificates => Some(
            ForeignKeyFacts {
                name: "fk_certificates_domain_id"@,
                column: "domain_id"@,
                table: TableId::Domains,
                key: "id"@,
                on_delete: OnDelete::Cascade,
            },
        ),
        _ => None,
    }
}

/// A table with its columns and its reference.
pub open spec fn create(id: TableId) -> StepFacts {
    StepFacts::CreateTable { id, columns: columns_of(id), foreign_key: reference_of(id) }
}

/// The steps of the initial migration: each table, its index behind it, and
/// the rows that are there from the start.
pub open spec fn initial_steps() -> Seq<StepFacts> {
    seq![
        create(TableId::Config),
        create(TableId::AcmeAccount),
        create(TableId::Person),
        create(TableId::Machine),
        StepFacts::CreateIndex {
            name: "idx_machine_person_id_name"@,
            table: TableId::Machine,
            on: seq!["person_id"@, "name"@],
            unique: true,
        },
        create(TableId::MachineKey),
        create(TableId::Service),
        StepFacts::CreateIndex {
            name: "idx_service_machine_id_name"@,
            table: TableId::Service,
            on: seq!["machine_id"@, "name"@],
            unique: true,
        },
        create(TableId::Domains),
        StepFacts::CreateIndex {
            name: "idx_domains_service_id"@,
            table: TableId::Domains,
            on: seq!["service_id"@],
            unique: false,
        },
        create(TableId::Certificates),
        StepFacts::CreateIndex {
            name: "idx_certificates_domain_id"@,
            table: TableId::Certificates,
            on: seq!["domain_id"@],
            unique: false,
        },
        create(TableId::CertEvents),
        StepFacts::CreateIndex {
            name: "idx_cert_events_name_at"@,
            table: TableId::CertEvents,
            on: seq!["name"@, "at"@],
            unique: false,
        },
        StepFacts::InsertPerson { name: "poc"@, created_at: 0 },
        StepFacts::InsertMachine { person: "poc"@, name: "laptop"@, created_at: 0 },
        StepFacts::InsertMachineKey {
            person: "poc"@,
            machine: "laptop"@,
            key_id: "ed25519:9b017abe250e5b63f6817a84ec9c7b7598b11fc80056ece29e06b8aa4b517906"@,
            created_at: 0,
        },
    ]
}

/// What a list of steps says.
pub open spec fn step_facts(v: Seq<SchemaStep>) -> Seq<StepFacts> {
    v.map_values(|s: SchemaStep| s@)
}

fn table_columns(id: TableId) -> (v: Vec<Column>)
    ensures
        v@.map_values(|c: Column| c@) == columns_of(id),
{
    let v: Vec<Column> = match id {
        TableId::Config => vec![
            Column { only: Some(1), ..key_column("id", ColumnKind::Integer) },
            required_column("config_json", ColumnKind::Text),
            required_column("updated_at", ColumnKind::BigInteger),
        ],
        TableId::AcmeAccount => vec![
            key_column("directory", ColumnKind::Text),
            required_column("email", ColumnKind::Text),
            required_column("credentials_json", ColumnKind::Text),
            optional_column("kid", ColumnKind::Text),
            required_column("created_at", ColumnKind::BigInteger),
        ],
        TableId::Person => vec![
            key_column("id", ColumnKind::IntegerKey),
            distinct_column("name", ColumnKind::Text),
            required_column("created_at", ColumnKind::BigInteger),
        ],
        TableId::Machine => vec![
            key_column("id", ColumnKind::IntegerKey),
            required_column("person_id", ColumnKind::Integer),
            required_column("name", ColumnKind::Text),
            required_column("created_at", ColumnKind::BigInteger),
        ],
        TableId::MachineKey => vec![
            key_column("id", ColumnKind::IntegerKey),
            required_column("machine_id", ColumnKind::Integer),
            distinct_column("key_id", ColumnKind::Text),
            required_column("created_at", ColumnKind::BigInteger),
        ],
        TableId::Service => vec![
            key_column("id", ColumnKind::IntegerKey),
            required_column("machine_id", ColumnKind::Integer),
            required_column("name", ColumnKind::Text),
            required_column("created_at", ColumnKind::BigInteger),
        ],
        TableId::Domains => vec![
            key_column("id", ColumnKind::IntegerKey),
            distinct_column("name", ColumnKind::Text),
            optional_column("last_active_at", ColumnKind::BigInteger),
            optional_column("service_id", ColumnKind::Integer),
        ],
        TableId::Certificates => vec![
            key_column("id", ColumnKind::IntegerKey),
            required_column("domain_id", ColumnKind::Integer),
            required_column("cert_pem", ColumnKind::Text),
            required_column("key_pem", ColumnKind::Text),
            required_column("not_before", ColumnKind::BigInteger),
            required_column("not_after", ColumnKind::BigInteger),
            optional_column("issuer", ColumnKind::Text),
            required_column("directory", ColumnKind::Text),
            required_column("obtained_at", ColumnKind::BigInteger),
        ],
        TableId::CertEvents => vec![
            key_column("id", ColumnKind::BigIntegerKey),
            required_column("name", ColumnKind::Text),
            required_column("at", ColumnKind::BigInteger),
            required_column("kind", ColumnKind::Text),
            optional_column("detail", ColumnKind::Text),
        ],
    };
    assert(v@.map_values(|c: Column| c@) =~= columns_of(id));
    v
}

fn table_reference(id: TableId) -> (r: Option<ForeignKey>)
    ensures
        (match r {
            Some(f) => Some(f@),
            None => None,
        }) == reference_of(id),
{
    match id {
        TableId::Machine => Some(
            ForeignKey {
                name: "fk_machine_person_id",
                column: "person_id",
                table: TableId::Person,
                key: "id",
                on_delete: OnDelete::Cascade,
            },
        ),
        TableId::MachineKey => Some(
            ForeignKey {
                name: "fk_machine_key_machine_id",
                column: "machine_id",
                table: TableId::Machine,
                key: "id",
                on_delete: OnDelete::Cascade,
            },
        ),
        TableId::Service => Some(
            ForeignKey {
                name: "fk_service_machine_id",
                column: "machine_id",
                table: TableId::Machine,
                key: "id",
                on_delete: OnDelete::Cascade,
            },
        ),
        TableId::Domains => Some(
            ForeignKey {
                name: "fk_domains_service_id",
                column: "service_id",
                table: TableId::Service,
                key: "id",
                on_delete: OnDelete::SetNull,
            },
        ),
        TableId::Certificates => Some(
            ForeignKey {
                name: "fk_certificates_domain_id",
                column: "domain_id",
                table: TableId::Domains,
                key: "id",
                on_delete: OnDelete::Cascade,
            },
        ),
        _ => None,
    }
}

fn create_table(id: TableId) -> (s: SchemaStep)
    ensures
        s@ == create(id),
{
    SchemaStep::CreateTable(
        Table { id, columns: table_columns(id), foreign_key: table_reference(id) },
    )
}

fn create_index(name: &'static str, table: TableId, columns: Vec<&'static str>, unique: bool) -> (s:
    SchemaStep)
    ensures
        s@ == (StepFacts::CreateIndex {
            name: name@,
            table,
            on: columns@.map_values(|c: &'static str| c@),
            unique,
        }),
{
    SchemaStep::CreateIndex(Index { name, table, columns, unique })
}

/// The steps that create the schema.
pub fn up() -> (steps: Vec<SchemaStep>)
    ensures
        step_facts(steps@) == initial_steps(),
{
    let mut steps: Vec<SchemaStep> = Vec::new();
    steps.push(create_table(TableId::Config));
    steps.push(create_table(TableId::AcmeAccount));
    steps.push(create_table(TableId::Person));
    steps.push(create_table(TableId::Machine));
    let columns: Vec<&'static str> = vec!["person_id", "name"];
    assert(columns@.map_values(|c: &'static str| c@) =~= seq!["person_id"@, "name"@]);
    steps.push(
        create_index("idx_machine_person_id_name", TableId::Machine, columns, true),
    );
    steps.push(create_table(TableId::MachineKey));
    steps.push(create_table(TableId::Service));
    let columns: Vec<&'static str> = vec!["machine_id", "name"];
    assert(columns@.map_values(|c: &'static str| c@) =~= seq!["machine_id"@, "name"@]);
    steps.push(
        create_index("idx_service_machine_id_name", TableId::Service, columns, true),
    );
    steps.push(create_table(TableId::Domains));
    let columns: Vec<&'static str> = vec!["service_id"];
    assert(columns@.map_values(|c: &'static str| c@) =~= seq!["service_id"@]);
    steps.push(
        create_index("idx_domains_service_id", TableId::Domains, columns, false),
    );
    steps.push(create_table(TableId::Certificates));
    let columns: Vec<&'static str> = vec!["domain_id"];
    assert(columns@.map_values(|c: &'static str| c@) =~= seq!["domain_id"@]);
    steps.push(
        create_index("idx_certificates_domain_id", TableId::Certificates, columns, false),
    );
    steps.push(create_table(TableId::CertEvents));
    let columns: Vec<&'static str> = vec!["name", "at"];
    assert(columns@.map_values(|c: &'static str| c@) =~= seq!["name"@, "at"@]);
    steps.push(
        create_index("idx_cert_events_name_at", TableId::CertEvents, columns, false),
    );
    steps.push(SchemaStep::Insert(Seed::Person { name: "poc", created_at: 0 }));
    steps.push(
        SchemaStep::Insert(Seed::Machine { person: "poc", name: "laptop", created_at: 0 }),
    );
    steps.push(
        SchemaStep::Insert(
            Seed::MachineKey {
                person: "poc",
                machine: "laptop",
                key_id: "ed25519:9b017abe250e5b63f6817a84ec9c7b7598b11fc80056ece29e06b8aa4b517906",
                created_at: 0,
            },
        ),
    );
    assert(step_facts(steps@) =~= initial_steps());
    steps
}

/// The tables in the order in which they are dropped.
pub fn down() -> (v: Vec<TableId>)
    ensures
        v@.len() == 9,
        forall|i: int| 0 <= i < v@.len() ==> (#[trigger] v@[i]).rank() == v@.len() - 1 - i,
{
    vec![
        TableId::CertEvents,
        TableId::Certificates,
        TableId::Domains,
        TableId::Service,
        TableId::MachineKey,
        TableId::Machine,
        TableId::Person,
        TableId::AcmeAccount,
        TableId::Config,
    ]
}

/// A column stands in a table.
pub open spec fn has_column(id: TableId, name: Seq<char>) -> bool {
    exists|i: int| 0 <= i < columns_of(id).len() && (#[trigger] columns_of(id)[i]).name == name
}

/// A step needs nothing but what earlier steps made: a reference goes from a
/// column of the table to the primary key of an earlier table, and an index is
/// on columns of its table.
pub open spec fn well_founded(s: StepFacts) -> bool {
    match s {
        StepFacts::CreateTable { id, columns, foreign_key } => columns == columns_of(id) && (
        foreign_key matches Some(f) ==> {
            &&& f.table.rank() < id.rank()
            &&& has_column(id, f.column)
            &&& columns_of(f.table)[0].name == f.key
            &&& columns_of(f.table)[0].primary_key
        }),
        StepFacts::CreateIndex { table, on, .. } => forall|i: int|
            0 <= i < on.len() ==> has_column(table, #[trigger] on[i]),
        _ => true,
    }
}

/// Every reference goes to a table that was created before, so that tables
/// dropped in the opposite order are never referred to.
pub proof fn references_go_back(id: TableId)
    ensures
        well_founded(create(id)),
        reference_of(id) matches Some(f) ==> f.table.rank() < id.rank(),
{
    match id {
        TableId::Machine => {
            assert(columns_of(TableId::Machine)[1].name == "person_id"@);
        },
        TableId::MachineKey => {
            assert(columns_of(TableId::MachineKey)[1].name == "machine_id"@);
        },
        TableId::Service => {
            assert(columns_of(TableId::Service)[1].name == "machine_id"@);
        },
        TableId::Domains => {
            assert(columns_of(TableId::Domains)[3].name == "service_id"@);
        },
        TableId::Certificates => {
            assert(columns_of(TableId::Certificates)[1].name == "domain_id"@);
        },
        _ => {},
    }
}

/// Every index is on columns of its table.
pub proof fn indexes_name_columns(i: int)
    requires
        0 <= i < initial_steps().len(),
    ensures
        well_founded(initial_steps()[i]),
{
    match initial_steps()[i] {
        StepFacts::CreateTable { id, .. } => {
            references_go_back(id);
        },
        _ => {
            assert(columns_of(TableId::Machine)[1].name == "person_id"@);
            assert(columns_of(TableId::Machine)[2].name == "name"@);
            assert(columns_of(TableId::Service)[1].name == "machine_id"@);
            assert(columns_of(TableId::Service)[2].name == "name"@);
            assert(columns_of(TableId::Domains)[3].name == "service_id"@);
            assert(columns_of(TableId::Certificates)[1].name == "domain_id"@);
            assert(columns_of(TableId::CertEvents)[1].name == "name"@);
            assert(columns_of(TableId::CertEvents)[2].name == "at"@);
        },
    }
}

/// The configuration table holds at most one row: its key may only be 1.
pub proof fn config_is_single()
    ensures
        columns_of(TableId::Config)[0].primary_key,
        columns_of(TableId::Config)[0].only == Some(1i32),
        forall|t: TableId, i: int|
            0 <= i < columns_of(t).len() && (#[trigger] columns_of(t)[i]).only is Some ==> t
                == TableId::Config,
{
}

} // verus!
