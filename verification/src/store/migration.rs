//! Which schema migrations are pending, and when a database is refused.
use crate::digest;
use crate::number;
use crate::text;
use vstd::prelude::*;

verus! {

/// A forward-only SQL database migration.
#[derive(Debug, Clone, Copy, PartialEq, Eq)]
pub struct Migration {
    /// 1-based sequential version number.
    pub version: u32,
    /// Human-readable migration name (e.g. "0001_init").
    pub name: &'static str,
    /// Raw SQL statements to execute in a transaction.
    pub sql: &'static str,
}

/// A migration that a database records as applied.
#[derive(Debug)]
pub struct AppliedMigration {
    pub version: u32,
    pub name: String,
    pub checksum: String,
}

/// Why a database cannot be migrated.
#[derive(Debug)]
pub enum MigrationError {
    /// The migrations are not numbered from 1 without gaps.
    InvalidMigrationSequence(String),
    /// The database was written by a newer program.
    NewerSchema { db_version: u32, binary_version: u32 },
    /// An applied migration differs from the one of its version.
    ChecksumMismatch { version: u32, expected: String, actual: String },
}

/// Why a database cannot be migrated, with its texts.
pub enum MigrationProblem {
    InvalidMigrationSequence(Seq<char>),
    NewerSchema { db_version: u32, binary_version: u32 },
    ChecksumMismatch { version: u32, expected: Seq<char>, actual: Seq<char> },
}

impl View for MigrationError {
    type V = MigrationProblem;

    open spec fn view(&self) -> MigrationProblem {
        match *self {
            MigrationError::InvalidMigrationSequence(s) => {
                MigrationProblem::InvalidMigrationSequence(s@)
            },
            MigrationError::NewerSchema { db_version, binary_version } => {
                MigrationProblem::NewerSchema { db_version, binary_version }
            },
            MigrationError::ChecksumMismatch { version, expected, actual } => {
                MigrationProblem::ChecksumMismatch {
                    version,
                    expected: expected@,
                    actual: actual@,
                }
            },
        }
    }
}

/// The checksum of a migration: its SHA-256 digest in hexadecimal.
pub open spec fn checksum_of(sql: Seq<char>) -> Seq<char> {
    number::hex_of(digest::sha256(vstd::utf8::encode_utf8(sql)))
}

/// Writes a digest as a checksum.
pub fn checksum_text(digest: &Vec<u8>) -> (r: String)
    ensures
        r@ == number::hex_of(digest@),
{
    number::hex_string(digest.as_slice())
}

/// Bytes in hexadecimal are twice as many characters.
proof fn hex_doubles(b: Seq<u8>)
    ensures
        number::hex_of(b).len() == 2 * b.len(),
    decreases b.len(),
{
    if b.len() > 0 {
        hex_doubles(b.drop_last());
    }
}

/// Computes the SHA-256 checksum of SQL migration content as a 64-character lowercase hex string.
pub fn compute_checksum(sql: &str) -> (r: String)
    ensures
        r@ == checksum_of(sql@),
        r@.len() == 64,
{
    let digest = digest::sha256_digest(sql.as_bytes());
    proof {
        hex_doubles(digest@);
    }
    checksum_text(&digest)
}

/// The migrations are numbered from 1 without gaps.
pub open spec fn is_contiguous(ms: Seq<Migration>) -> bool {
    forall|i: int| 0 <= i < ms.len() ==> (#[trigger] ms[i]).version == i + 1
}

/// The first migration out of sequence.
pub open spec fn misnumbered_from(ms: Seq<Migration>, i: int) -> Option<MigrationProblem>
    decreases ms.len() - i,
{
    if i < 0 || i >= ms.len() {
        None
    } else if ms[i].version != i + 1 {
        Some(
            MigrationProblem::InvalidMigrationSequence(
                "Migration '"@ + ms[i].name@ + "' at index "@ + number::decimal(i as nat)
                    + " has version "@ + number::decimal(ms[i].version as nat) + ", expected "@
                    + number::decimal((i + 1) as nat),
            ),
        )
    } else {
        misnumbered_from(ms, i + 1)
    }
}

/// The version of the program.
pub open spec fn binary_version(ms: Seq<Migration>) -> u32 {
    if ms.len() == 0 {
        0
    } else {
        ms.last().version
    }
}

/// The version of the database.
pub open spec fn database_version(applied: Seq<AppliedMigration>) -> u32 {
    if applied.len() == 0 {
        0
    } else {
        applied.last().version
    }
}

/// Why an applied migration does not fit: the program does not have its
/// version, or has it with another text.
pub open spec fn misfit(ms: Seq<Migration>, a: AppliedMigration) -> Option<MigrationProblem> {
    if !(1 <= a.version <= ms.len()) {
        Some(
            MigrationProblem::NewerSchema {
                db_version: a.version,
                binary_version: binary_version(ms),
            },
        )
    } else if a.checksum@ != checksum_of(ms[a.version - 1].sql@) {
        Some(
            MigrationProblem::ChecksumMismatch {
                version: a.version,
                expected: checksum_of(ms[a.version - 1].sql@),
                actual: a.checksum@,
            },
        )
    } else {
        None
    }
}

/// The first applied migration that does not fit.
pub open spec fn first_misfit(ms: Seq<Migration>, applied: Seq<AppliedMigration>, i: int) -> Option<
    MigrationProblem,
>
    decreases applied.len() - i,
{
    if i < 0 || i >= applied.len() {
        None
    } else {
        match misfit(ms, applied[i]) {
            Some(p) => Some(p),
            None => first_misfit(ms, applied, i + 1),
        }
    }
}

/// Which migrations are pending, or why the database is refused: migrations
/// out of sequence, a newer database, or an applied migration that does not
/// fit.
pub open spec fn migration_plan(ms: Seq<Migration>, applied: Seq<AppliedMigration>) -> Result<
    Seq<Migration>,
    MigrationProblem,
> {
    match misnumbered_from(ms, 0) {
        Some(p) => Err(p),
        None => if database_version(applied) > binary_version(ms) {
            Err(
                MigrationProblem::NewerSchema {
                    db_version: database_version(applied),
                    binary_version: binary_version(ms),
                },
            )
        } else {
            match first_misfit(ms, applied, 0) {
                Some(p) => Err(p),
                None => Ok(ms.subrange(database_version(applied) as int, ms.len() as int)),
            }
        },
    }
}

proof fn sequence_of(ms: Seq<Migration>, i: int)
    requires
        0 <= i <= ms.len(),
        misnumbered_from(ms, i) is None,
        forall|j: int| 0 <= j < i ==> (#[trigger] ms[j]).version == j + 1,
    ensures
        is_contiguous(ms),
    decreases ms.len() - i,
{
    if i < ms.len() {
        sequence_of(ms, i + 1);
    }
}

/// Verifies migration sequence and finds the pending migrations.
pub fn plan_migrations(migrations: &Vec<Migration>, applied: &Vec<AppliedMigration>) -> (r: Result<
    Vec<Migration>,
    MigrationError,
>)
    requires
        migrations@.len() < u32::MAX,
    ensures
        (match r {
            Ok(pending) => Ok(pending@),
            Err(e) => Err(e@),
        }) == migration_plan(migrations@, applied@),
{
    let ghost ms = migrations@;
    let mut i: usize = 0;
    while i < migrations.len()
        invariant
            i <= ms.len(),
            ms == migrations@,
            ms.len() < u32::MAX,
            misnumbered_from(ms, 0) == misnumbered_from(ms, i as int),
            forall|j: int| 0 <= j < i ==> (#[trigger] ms[j]).version == j + 1,
        decreases ms.len() - i,
    {
        let m = migrations[i];
        let expected: u32 = i as u32 + 1;
        if m.version != expected {
            let at = number::decimal_of(i as u64);
            let version = number::decimal_of(m.version as u64);
            let wanted = number::decimal_of(expected as u64);
            let mut message = text::cat4("Migration '", m.name, "' at index ", at.as_str());
            message.append(" has version ");
            message.append(version.as_str());
            message.append(", expected ");
            message.append(wanted.as_str());
            return Err(MigrationError::InvalidMigrationSequence(message));
        }
        i += 1;
    }
    proof {
        sequence_of(ms, 0);
    }
    let ours: u32 = if migrations.len() == 0 {
        0
    } else {
        migrations[migrations.len() - 1].version
    };
    assert(ours == ms.len());
    let theirs: u32 = if applied.len() == 0 {
        0
    } else {
        applied[applied.len() - 1].version
    };
    if theirs > ours {
        return Err(MigrationError::NewerSchema { db_version: theirs, binary_version: ours });
    }
    let mut j: usize = 0;
    while j < applied.len()
        invariant
            j <= applied@.len(),
            ms == migrations@,
            ms.len() < u32::MAX,
            is_contiguous(ms),
            misnumbered_from(ms, 0) is None,
            ours == ms.len(),
            ours == binary_version(ms),
            database_version(applied@) <= ours,
            first_misfit(ms, applied@, 0) == first_misfit(ms, applied@, j as int),
        decreases applied@.len() - j,
    {
        let a = &applied[j];
        if a.version == 0 || a.version as usize > migrations.len() {
            return Err(
                MigrationError::NewerSchema { db_version: a.version, binary_version: ours },
            );
        }
        let expected = compute_checksum(migrations[a.version as usize - 1].sql);
        if !text::same(a.checksum.as_str(), expected.as_str()) {
            return Err(
                MigrationError::ChecksumMismatch {
                    version: a.version,
                    expected,
                    actual: a.checksum.clone(),
                },
            );
        }
        j += 1;
    }
    let mut pending: Vec<Migration> = Vec::new();
    let mut k: usize = theirs as usize;
    while k < migrations.len()
        invariant
            theirs <= k <= ms.len(),
            ms == migrations@,
            pending@ == ms.subrange(theirs as int, k as int),
        decreases ms.len() - k,
    {
        pending.push(migrations[k]);
        k += 1;
        assert(pending@ =~= ms.subrange(theirs as int, k as int));
    }
    Ok(pending)
}

/// What is pending lies after everything that is applied, in sequence; applied
/// and pending migrations together are all there are.
pub proof fn pending_continues(ms: Seq<Migration>, applied: Seq<AppliedMigration>, i: int)
    requires
        migration_plan(ms, applied) is Ok,
        0 <= i < migration_plan(ms, applied)->Ok_0.len(),
    ensures
        migration_plan(ms, applied)->Ok_0[i].version == database_version(applied) + 1 + i,
        migration_plan(ms, applied)->Ok_0.len() + database_version(applied) == ms.len(),
{
    sequence_of(ms, 0);
    if applied.len() > 0 {
        assert(binary_version(ms) == ms.len());
    }
    assert(ms[database_version(applied) + i].version == database_version(applied) + i + 1);
}

/// A database with every migration applied has nothing pending: migrating is
/// done once.
pub proof fn migrated_database_is_settled(ms: Seq<Migration>, applied: Seq<AppliedMigration>)
    requires
        migration_plan(ms, applied) is Ok,
        database_version(applied) == ms.len(),
    ensures
        migration_plan(ms, applied)->Ok_0.len() == 0,
{
}

} // verus!
