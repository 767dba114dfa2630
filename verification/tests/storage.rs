use marginalia::storage::{
    after_open, needs_migration, DatabaseError, VaultFiles, LEGACY_BACKUP_FILENAME,
    LEGACY_INDEX_FILENAME, STORE_FILENAME,
};

fn files(store: bool, legacy_index: bool, legacy_backup: bool) -> VaultFiles {
    VaultFiles { store, legacy_index, legacy_backup }
}

#[test]
fn migration_is_due_for_a_legacy_vault_without_store() {
    assert!(needs_migration(files(false, true, false)));
    assert!(needs_migration(files(false, true, true)));
    assert!(!needs_migration(files(true, true, false)));
    assert!(!needs_migration(files(false, false, false)));
    assert!(!needs_migration(files(false, false, true)));
    assert!(!needs_migration(files(true, false, true)));
}

#[test]
fn migration_runs_once() {
    let legacy = files(false, true, false);
    let migrated = after_open(legacy);
    assert_eq!(migrated, files(true, false, true));
    assert!(!needs_migration(migrated));
    assert_eq!(after_open(migrated), migrated);
}

#[test]
fn opening_twice_is_the_same_as_opening_once() {
    for bits in 0..8 {
        let before = files(bits & 1 != 0, bits & 2 != 0, bits & 4 != 0);
        let once = after_open(before);
        assert!(once.store);
        assert!(!needs_migration(once));
        assert_eq!(after_open(once), once);
    }
    assert_eq!(after_open(files(false, false, false)), files(true, false, false));
    assert_eq!(after_open(files(true, true, false)), files(true, true, false));
}

#[test]
fn store_errors_read_as_kind_and_message() {
    assert_eq!(
        DatabaseError::ConnectionFailed("no such file".to_string()).message(),
        "Connection failed: no such file"
    );
    assert_eq!(
        DatabaseError::MigrationFailed("bad schema".to_string()).message(),
        "Migration failed: bad schema"
    );
    assert_eq!(
        DatabaseError::QueryFailed("locked".to_string()).message(),
        "Query failed: locked"
    );
    assert_eq!(
        DatabaseError::JsonParseError("eof".to_string()).message(),
        "JSON parse error: eof"
    );
}

#[test]
fn vault_file_names() {
    assert_eq!(STORE_FILENAME, ".marginalia.sqlite");
    assert_eq!(LEGACY_INDEX_FILENAME, ".marginalia_index.json");
    assert_eq!(LEGACY_BACKUP_FILENAME, ".marginalia_index.json.bak");
}
