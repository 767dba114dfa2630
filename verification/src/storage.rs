//! What the durable store needs decided for it: how its errors read, and
//! whether a vault's legacy index is to be migrated when it is opened.

use vstd::prelude::*;
use vstd::string::*;

verus! {

/// The file that holds the durable store, inside the vault.
pub const STORE_FILENAME: &'static str = ".marginalia.sqlite";

/// The legacy index: one JSON document, inside the vault.
pub const LEGACY_INDEX_FILENAME: &'static str = ".marginalia_index.json";

/// The name the legacy index is given once it has been migrated.
pub const LEGACY_BACKUP_FILENAME: &'static str = ".marginalia_index.json.bak";

/// A failure of the durable store, with the underlying message.
#[derive(Debug)]
pub enum DatabaseError {
    ConnectionFailed(String),
    MigrationFailed(String),
    QueryFailed(String),
    JsonParseError(String),
}

impl DatabaseError {
    /// How the error reads: what failed, a colon, and the underlying message.
    pub open spec fn text(self) -> Seq<char> {
        match self {
            DatabaseError::ConnectionFailed(message) => "Connection failed: "@ + message@,
            DatabaseError::MigrationFailed(message) => "Migration failed: "@ + message@,
            DatabaseError::QueryFailed(message) => "Query failed: "@ + message@,
            DatabaseError::JsonParseError(message) => "JSON parse error: "@ + message@,
        }
    }

    /// How the error reads.
    pub fn message(&self) -> (text: String)
        ensures
            text@ == self.text(),
    {
        match self {
            DatabaseError::ConnectionFailed(message) => {
                let mut text = String::from_str("Connection failed: ");
                text.append(message.as_str());
                text
            },
            DatabaseError::MigrationFailed(message) => {
                let mut text = String::from_str("Migration failed: ");
                text.append(message.as_str());
                text
            },
            DatabaseError::QueryFailed(message) => {
                let mut text = String::from_str("Query failed: ");
                text.append(message.as_str());
                text
            },
            DatabaseError::JsonParseError(message) => {
                let mut text = String::from_str("JSON parse error: ");
                text.append(message.as_str());
                text
            },
        }
    }
}

/// Which of a vault's files exist.
#[derive(Clone, Copy, Debug, PartialEq, Eq, Structural)]
pub struct VaultFiles {
    /// The durable store.
    pub store: bool,
    /// The legacy index.
    pub legacy_index: bool,
    /// The backup of a migrated legacy index.
    pub legacy_backup: bool,
}

/// The legacy index is migrated when a vault is opened that has one but
/// has no durable store yet.
pub open spec fn migration_due(files: VaultFiles) -> bool {
    !files.store && files.legacy_index
}

/// The files of a vault after it was opened without error: the store
/// exists, and a legacy index that was due has become the backup.
pub open spec fn files_after_open(files: VaultFiles) -> VaultFiles {
    if migration_due(files) {
        VaultFiles { store: true, legacy_index: false, legacy_backup: true }
    } else {
        VaultFiles { store: true, ..files }
    }
}

/// Whether opening the vault has to migrate the legacy index.
pub fn needs_migration(files: VaultFiles) -> (due: bool)
    ensures
        due == migration_due(files),
{
    !files.store && files.legacy_index
}

/// The files of a vault after it was opened without error.
pub fn after_open(files: VaultFiles) -> (after: VaultFiles)
    ensures
        after == files_after_open(files),
{
    if needs_migration(files) {
        VaultFiles { store: true, legacy_index: false, legacy_backup: true }
    } else {
        VaultFiles { store: true, legacy_index: files.legacy_index, legacy_backup: files.legacy_backup }
    }
}

/// Migration happens at most once: whatever files a vault had, once it
/// has been opened no migration is due, and opening it again leaves its
/// files as they are.
pub proof fn lemma_migration_is_idempotent(files: VaultFiles)
    ensures
        !migration_due(files_after_open(files)),
        files_after_open(files_after_open(files)) == files_after_open(files),
{
}

} // verus!
