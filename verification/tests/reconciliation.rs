//! End-to-end exercises of the reconciliation core against an in-memory
//! registry, with the external collaborators (key derivation, decryption)
//! played by the test harness.

use auth_core::classify::{classify, AppState};
use auth_core::config::{find_app, next_version, ConfigRegistry, ConfigStore};
use auth_core::queries::{
    list_permissions, list_registered_apps, list_revoked_apps, PermissionRecord, Principal,
};
use auth_core::resolver::{
    collect_ciphertexts, resolve_ciphertext, AccessEntry, CipherJob, DerivedKey, EntryFault,
    ResolveOutcome,
};
use auth_core::revocation::remove_revoked_app;
use auth_core::types::{
    AccessContainerEntry, AppExchangeInfo, AppKeys, AppRecord, AuthError, ContainerGrant,
    ContainerPermissions, ContainerRef, PermissionSet,
};

fn perms(read: bool, insert: bool) -> PermissionSet {
    PermissionSet { read, insert, update: false, delete: false, manage_permissions: false }
}

fn record(id: &str, enc: u8, owner: u8) -> AppRecord {
    AppRecord {
        info: AppExchangeInfo {
            id: id.to_string(),
            name: format!("{} display", id),
            vendor: "acme".to_string(),
        },
        keys: AppKeys { enc_key: vec![enc; 32], owner_key: vec![owner; 32] },
        containers: vec![ContainerPermissions {
            container_name: "_documents".to_string(),
            access: perms(true, true),
        }],
    }
}

fn derived_key(id: &str, tag: u8) -> DerivedKey {
    DerivedKey { app_id: id.to_string(), key: vec![tag; 8] }
}

fn grant_entry(names: &[&str]) -> AccessContainerEntry {
    AccessContainerEntry {
        grants: names
            .iter()
            .map(|n| ContainerGrant {
                container_name: n.to_string(),
                container_ref: ContainerRef { name: vec![7; 32], type_tag: 15000 },
                access: perms(true, false),
            })
            .collect(),
    }
}

fn nonce() -> Option<Vec<u8>> {
    Some(vec![42; 24])
}

/// Plays the external decryptor: a ciphertext of [9, ...] decrypts to an
/// entry granting "_documents", [8] to an entry with no grants, [0xFF]
/// fails decryption, [0xFE] fails deserialization.
fn decrypt_jobs(jobs: &[CipherJob]) -> Vec<ResolveOutcome> {
    jobs.iter()
        .map(|job| match &job.ciphertext {
            None => ResolveOutcome::NoEntry,
            Some(ct) if ct[0] == 0xFF => ResolveOutcome::Corrupt(EntryFault::Decryption),
            Some(ct) if ct[0] == 0xFE => ResolveOutcome::Corrupt(EntryFault::Deserialization),
            Some(ct) if ct[0] == 8 => ResolveOutcome::Entry(grant_entry(&[])),
            Some(_) => ResolveOutcome::Entry(grant_entry(&["_documents"])),
        })
        .collect()
}

fn resolve(
    registry: &ConfigRegistry,
    table: &Vec<DerivedKey>,
    entries: &Vec<AccessEntry>,
) -> Vec<ResolveOutcome> {
    let jobs = collect_ciphertexts(registry, &nonce(), table, entries).unwrap();
    decrypt_jobs(&jobs)
}

#[test]
fn classify_unregistered_is_not_authenticated() {
    let mut store = ConfigStore::new();
    assert!(store.register_app(record("app1", 1, 101)));
    let registry = store.list_apps();
    let full = grant_entry(&["_documents"]);
    assert_eq!(classify(&"appX".to_string(), &registry, None), AppState::NotAuthenticated);
    assert_eq!(classify(&"appX".to_string(), &registry, Some(&full)), AppState::NotAuthenticated);
    let empty = ConfigRegistry { version: 0, apps: vec![] };
    assert_eq!(classify(&"app1".to_string(), &empty, Some(&full)), AppState::NotAuthenticated);
}

#[test]
fn classify_registered_revoked_iff_absent_or_empty() {
    let mut store = ConfigStore::new();
    assert!(store.register_app(record("app1", 1, 101)));
    let registry = store.list_apps();
    let id = "app1".to_string();
    assert_eq!(classify(&id, &registry, None), AppState::Revoked);
    let emptied = grant_entry(&[]);
    assert_eq!(classify(&id, &registry, Some(&emptied)), AppState::Revoked);
    let full = grant_entry(&["_documents"]);
    assert_eq!(classify(&id, &registry, Some(&full)), AppState::Authenticated);
}

#[test]
fn registered_app_listed_with_permissions() {
    let mut store = ConfigStore::new();
    assert!(store.register_app(record("app1", 1, 101)));
    let registry = store.list_apps();
    let table = vec![derived_key("app1", 0xA1)];
    let entries = vec![AccessEntry { key: vec![0xA1; 8], content: vec![9, 9, 9] }];
    let outcomes = resolve(&registry, &table, &entries);

    let registered = list_registered_apps(&registry, &outcomes).unwrap();
    assert_eq!(registered.len(), 1);
    assert_eq!(registered[0].app_info.id, "app1");
    assert_eq!(registered[0].containers.len(), 1);
    assert_eq!(registered[0].containers[0].container_name, "_documents");
    assert!(registered[0].containers[0].access.read);
    assert!(!registered[0].containers[0].access.insert);

    let revoked = list_revoked_apps(&registry, &outcomes).unwrap();
    assert_eq!(revoked.len(), 0);
}

#[test]
fn revoked_app_listed_and_removable() {
    let mut store = ConfigStore::new();
    assert!(store.register_app(record("app1", 1, 101)));
    let registry = store.list_apps();
    let table = vec![derived_key("app1", 0xA1)];
    let entries: Vec<AccessEntry> = vec![];
    let outcomes = resolve(&registry, &table, &entries);

    let revoked = list_revoked_apps(&registry, &outcomes).unwrap();
    assert_eq!(revoked.len(), 1);
    assert_eq!(revoked[0].id, "app1");
    assert_eq!(list_registered_apps(&registry, &outcomes).unwrap().len(), 0);

    let r = remove_revoked_app(&mut store, &registry, &"app1".to_string(), None);
    assert!(r.is_ok());
    assert_eq!(store.version, registry.version + 1);
    assert!(find_app(&store.apps, &"app1".to_string()).is_none());
}

#[test]
fn empty_entry_counts_as_revoked() {
    let mut store = ConfigStore::new();
    assert!(store.register_app(record("app1", 1, 101)));
    let registry = store.list_apps();
    let table = vec![derived_key("app1", 0xA1)];
    // The entry is present but its stored content was emptied in place.
    let entries = vec![AccessEntry { key: vec![0xA1; 8], content: vec![] }];
    let jobs = collect_ciphertexts(&registry, &nonce(), &table, &entries).unwrap();
    assert_eq!(jobs.len(), 1);
    assert!(jobs[0].ciphertext.is_none());
    let outcomes = decrypt_jobs(&jobs);

    let revoked = list_revoked_apps(&registry, &outcomes).unwrap();
    assert_eq!(revoked.len(), 1);
    assert_eq!(revoked[0].id, "app1");
    assert_eq!(list_registered_apps(&registry, &outcomes).unwrap().len(), 0);
}

#[test]
fn remove_unknown_app_fails() {
    let mut store = ConfigStore::new();
    assert!(store.register_app(record("app1", 1, 101)));
    let registry = store.list_apps();
    let version_before = store.version;

    let r = remove_revoked_app(&mut store, &registry, &"appX".to_string(), None);
    assert_eq!(r.unwrap_err(), AuthError::UnknownApp);
    assert_eq!(store.version, version_before);
    assert!(find_app(&store.apps, &"app1".to_string()).is_some());
}

#[test]
fn remove_authenticated_app_fails() {
    let mut store = ConfigStore::new();
    assert!(store.register_app(record("app1", 1, 101)));
    let registry = store.list_apps();
    let version_before = store.version;
    let full = grant_entry(&["_documents"]);

    let r = remove_revoked_app(&mut store, &registry, &"app1".to_string(), Some(&full));
    assert_eq!(r.unwrap_err(), AuthError::AppNotRevoked);
    assert_eq!(store.version, version_before);
    assert!(find_app(&store.apps, &"app1".to_string()).is_some());
}

#[test]
fn listings_partition_the_registry() {
    let mut store = ConfigStore::new();
    assert!(store.register_app(record("app1", 1, 101)));
    assert!(store.register_app(record("app2", 2, 102)));
    assert!(store.register_app(record("app3", 3, 103)));
    let registry = store.list_apps();
    let table = vec![
        derived_key("app1", 0xA1),
        derived_key("app2", 0xA2),
        derived_key("app3", 0xA3),
    ];
    // app1 keeps a non-empty entry, app2 has none, app3's entry decrypts
    // to an entry with no grants left.
    let entries = vec![
        AccessEntry { key: vec![0xA1; 8], content: vec![9, 1] },
        AccessEntry { key: vec![0xA3; 8], content: vec![8] },
    ];
    let outcomes = resolve(&registry, &table, &entries);

    let revoked = list_revoked_apps(&registry, &outcomes).unwrap();
    let registered = list_registered_apps(&registry, &outcomes).unwrap();

    let mut revoked_ids: Vec<String> = revoked.iter().map(|a| a.id.clone()).collect();
    let mut registered_ids: Vec<String> =
        registered.iter().map(|a| a.app_info.id.clone()).collect();
    assert_eq!(registered_ids, vec!["app1".to_string()]);
    assert_eq!(revoked_ids, vec!["app2".to_string(), "app3".to_string()]);

    // No overlap, no omission: together the two listings hold each
    // registry id exactly once.
    let mut all: Vec<String> = Vec::new();
    all.append(&mut registered_ids);
    all.append(&mut revoked_ids);
    all.sort();
    let mut expected: Vec<String> = registry.apps.iter().map(|r| r.info.id.clone()).collect();
    expected.sort();
    assert_eq!(all, expected);
}

#[test]
fn racing_removals_have_one_winner() {
    let mut store = ConfigStore::new();
    assert!(store.register_app(record("app1", 1, 101)));
    // Both callers list the registry before either writes.
    let snapshot_a = store.list_apps();
    let snapshot_b = store.list_apps();
    let id = "app1".to_string();

    let first = remove_revoked_app(&mut store, &snapshot_a, &id, None);
    assert!(first.is_ok());
    let version_after_first = store.version;

    let second = remove_revoked_app(&mut store, &snapshot_b, &id, None);
    assert_eq!(second.unwrap_err(), AuthError::VersionConflict);
    assert_eq!(store.version, version_after_first);
    assert!(find_app(&store.apps, &id).is_none());
}

#[test]
fn permissions_skip_anyone_and_join_owner_keys() {
    let mut store = ConfigStore::new();
    assert!(store.register_app(record("app1", 1, 101)));
    assert!(store.register_app(record("app2", 2, 102)));
    let registry = store.list_apps();

    let records = vec![
        PermissionRecord { principal: Principal::Anyone, access: perms(true, true) },
        PermissionRecord { principal: Principal::Key(vec![101; 32]), access: perms(true, false) },
        PermissionRecord { principal: Principal::Key(vec![77; 32]), access: perms(false, true) },
    ];
    let out = list_permissions(&records, &registry);

    // The "anyone" sentinel is not emitted; each keyed principal is,
    // exactly once, in record order.
    assert_eq!(out.len(), 2);
    assert_eq!(out[0].sign_key, vec![101; 32]);
    assert_eq!(out[0].app_id.as_deref(), Some("app1"));
    assert_eq!(out[0].name.as_deref(), Some("app1 display"));
    assert!(out[0].permissions.read);
    assert_eq!(out[1].sign_key, vec![77; 32]);
    assert!(out[1].app_id.is_none());
    assert!(out[1].name.is_none());
    assert!(out[1].permissions.insert);
}

#[test]
fn missing_nonce_is_fatal() {
    let mut store = ConfigStore::new();
    assert!(store.register_app(record("app1", 1, 101)));
    let registry = store.list_apps();
    let table = vec![derived_key("app1", 0xA1)];
    let entries: Vec<AccessEntry> = vec![];
    let r = collect_ciphertexts(&registry, &None, &table, &entries);
    assert_eq!(r.unwrap_err(), AuthError::MissingNonce);
}

#[test]
fn missing_derived_key_is_an_encoding_error() {
    let mut store = ConfigStore::new();
    assert!(store.register_app(record("app1", 1, 101)));
    assert!(store.register_app(record("app2", 2, 102)));
    let registry = store.list_apps();
    let table = vec![derived_key("app1", 0xA1)];
    let entries: Vec<AccessEntry> = vec![];
    let r = collect_ciphertexts(&registry, &nonce(), &table, &entries);
    assert_eq!(r.unwrap_err(), AuthError::EncodingError);
}

#[test]
fn corrupt_entry_aborts_both_listings() {
    let mut store = ConfigStore::new();
    assert!(store.register_app(record("app1", 1, 101)));
    assert!(store.register_app(record("app2", 2, 102)));
    let registry = store.list_apps();
    let table = vec![derived_key("app1", 0xA1), derived_key("app2", 0xA2)];
    // app1's entry is fine; app2's does not decrypt. The whole listing
    // fails rather than omit app2.
    let entries = vec![
        AccessEntry { key: vec![0xA1; 8], content: vec![9] },
        AccessEntry { key: vec![0xA2; 8], content: vec![0xFF] },
    ];
    let outcomes = resolve(&registry, &table, &entries);
    assert_eq!(list_revoked_apps(&registry, &outcomes).unwrap_err(), AuthError::DecryptionError);
    assert_eq!(
        list_registered_apps(&registry, &outcomes).unwrap_err(),
        AuthError::DecryptionError
    );

    let bad_payload = vec![
        AccessEntry { key: vec![0xA1; 8], content: vec![9] },
        AccessEntry { key: vec![0xA2; 8], content: vec![0xFE] },
    ];
    let outcomes = resolve(&registry, &table, &bad_payload);
    assert_eq!(
        list_revoked_apps(&registry, &outcomes).unwrap_err(),
        AuthError::DeserializationError
    );
    assert_eq!(
        list_registered_apps(&registry, &outcomes).unwrap_err(),
        AuthError::DeserializationError
    );
}

#[test]
fn collected_jobs_line_up_with_the_registry() {
    let mut store = ConfigStore::new();
    assert!(store.register_app(record("app1", 1, 101)));
    assert!(store.register_app(record("app2", 2, 102)));
    let registry = store.list_apps();
    let table = vec![derived_key("app1", 0xA1), derived_key("app2", 0xA2)];
    let entries = vec![AccessEntry { key: vec![0xA1; 8], content: vec![9, 7, 5] }];
    let jobs = collect_ciphertexts(&registry, &nonce(), &table, &entries).unwrap();
    assert_eq!(jobs.len(), 2);
    assert_eq!(jobs[0].app_id, "app1");
    assert_eq!(jobs[0].ciphertext.as_deref(), Some(&[9, 7, 5][..]));
    assert_eq!(jobs[1].app_id, "app2");
    assert!(jobs[1].ciphertext.is_none());
}

#[test]
fn single_app_resolution_matches_the_bulk_pass() {
    let mut store = ConfigStore::new();
    assert!(store.register_app(record("app1", 1, 101)));
    assert!(store.register_app(record("app2", 2, 102)));
    let registry = store.list_apps();
    let table = vec![derived_key("app1", 0xA1), derived_key("app2", 0xA2)];
    let entries = vec![AccessEntry { key: vec![0xA1; 8], content: vec![9, 7] }];
    let jobs = collect_ciphertexts(&registry, &nonce(), &table, &entries).unwrap();

    let one = resolve_ciphertext(&registry.apps[0], &nonce(), &table, &entries).unwrap();
    assert_eq!(one, jobs[0].ciphertext);
    assert_eq!(one.as_deref(), Some(&[9, 7][..]));
    let two = resolve_ciphertext(&registry.apps[1], &nonce(), &table, &entries).unwrap();
    assert!(two.is_none());

    let r = resolve_ciphertext(&registry.apps[0], &None, &table, &entries);
    assert_eq!(r.unwrap_err(), AuthError::MissingNonce);
    let r = resolve_ciphertext(&record("app3", 3, 103), &nonce(), &table, &entries);
    assert_eq!(r.unwrap_err(), AuthError::EncodingError);
}

#[test]
fn duplicate_registration_is_rejected() {
    let mut store = ConfigStore::new();
    assert!(store.register_app(record("app1", 1, 101)));
    let version_before = store.version;
    assert!(!store.register_app(record("app1", 9, 109)));
    assert_eq!(store.version, version_before);
    assert_eq!(store.apps.len(), 1);
}

#[test]
fn listing_is_a_versioned_snapshot() {
    let mut store = ConfigStore::new();
    assert!(store.register_app(record("app1", 1, 101)));
    assert!(store.register_app(record("app2", 2, 102)));
    let registry = store.list_apps();
    assert_eq!(registry.version, store.version);
    assert_eq!(registry.apps.len(), 2);
    assert_eq!(registry.apps[0].info.id, "app1");
    assert_eq!(registry.apps[1].info.id, "app2");
    assert_eq!(registry.apps[0].keys.owner_key, vec![101; 32]);
}

#[test]
fn listings_on_an_empty_registry_are_empty() {
    let store = ConfigStore::new();
    let registry = store.list_apps();
    let outcomes: Vec<ResolveOutcome> = vec![];
    assert_eq!(list_revoked_apps(&registry, &outcomes).unwrap().len(), 0);
    assert_eq!(list_registered_apps(&registry, &outcomes).unwrap().len(), 0);
    let jobs = collect_ciphertexts(&registry, &nonce(), &vec![], &vec![]).unwrap();
    assert_eq!(jobs.len(), 0);
}

#[test]
fn permissions_without_records_are_empty() {
    let mut store = ConfigStore::new();
    assert!(store.register_app(record("app1", 1, 101)));
    let registry = store.list_apps();
    let out = list_permissions(&vec![], &registry);
    assert_eq!(out.len(), 0);
}

#[test]
fn next_version_is_the_successor() {
    assert_eq!(next_version(0), 1);
    assert_eq!(next_version(41), 42);
}
