//! Access container resolver: locates each app's entry in the shared
//! access container by its derived lookup key and decides whether the entry
//! still grants access. Key derivation and decryption are external
//! cryptographic collaborators; their results enter as plain values (a
//! derived-key table, and later the decrypted entries), and every lookup
//! and emptiness decision on them is made here.

use vstd::prelude::*;

use crate::config::ConfigRegistry;
use crate::types::{bytes_eq, copy_bytes, AccessContainerEntry, AppRecord, AuthError};

verus! {

/// One fetched entry of the shared access container: an opaque derived
/// lookup key and the stored ciphertext. Empty content means the entry was
/// deleted in place.
#[derive(Debug)]
pub struct AccessEntry {
    pub key: Vec<u8>,
    pub content: Vec<u8>,
}

/// One row of the derived-key table: the lookup key the external
/// derivation produced for an app id. An app with no row is one whose key
/// could not be derived.
#[derive(Debug)]
pub struct DerivedKey {
    pub app_id: String,
    pub key: Vec<u8>,
}

/// The located ciphertext for one app, ready for external decryption.
/// `ciphertext` is `None` exactly when the app's entry is absent from the
/// container or stored empty — access withdrawn, nothing to decrypt.
#[derive(Debug)]
pub struct CipherJob {
    pub app_id: String,
    pub ciphertext: Option<Vec<u8>>,
}

/// Why a located entry could not be read: its ciphertext did not decrypt,
/// or its plaintext did not deserialize. Both mean corrupted stored data
/// and are fatal to the operation that met them, never folded into
/// "access withdrawn".
#[derive(Clone, Copy, PartialEq, Eq, Structural, Debug)]
pub enum EntryFault {
    Decryption,
    Deserialization,
}

/// The full resolution of one app's access-container entry, produced by
/// running external decryption over a `CipherJob`.
#[derive(Debug)]
pub enum ResolveOutcome {
    /// Entry absent or stored empty: access withdrawn.
    NoEntry,
    /// The decrypted entry.
    Entry(AccessContainerEntry),
    /// The entry was located but its content is corrupt.
    Corrupt(EntryFault),
}

/// The stored content of the first container entry under `key`, if any.
pub open spec fn spec_entry_content(entries: Seq<AccessEntry>, key: Seq<u8>) -> Option<Seq<u8>>
    decreases entries.len(),
{
    if entries.len() == 0 {
        Option::None
    } else if entries[0].key@ == key {
        Option::Some(entries[0].content@)
    } else {
        spec_entry_content(entries.drop_first(), key)
    }
}

/// The ciphertext that resolution hands to the decryptor: the stored
/// content under `key`, unless the entry is absent or stored empty.
pub open spec fn spec_ciphertext_for(entries: Seq<AccessEntry>, key: Seq<u8>) -> Option<Seq<u8>> {
    match spec_entry_content(entries, key) {
        Option::None => Option::None,
        Option::Some(c) => if c.len() == 0 {
            Option::None
        } else {
            Option::Some(c)
        },
    }
}

/// The derived lookup key the table holds for `id`, if any.
pub open spec fn spec_key_for(table: Seq<DerivedKey>, id: Seq<char>) -> Option<Seq<u8>>
    decreases table.len(),
{
    if table.len() == 0 {
        Option::None
    } else if table[0].app_id@ == id {
        Option::Some(table[0].key@)
    } else {
        spec_key_for(table.drop_first(), id)
    }
}

/// Whether one located job matches what the registry record, key table and
/// container say it must hold.
pub open spec fn job_matches(
    job: CipherJob,
    rec: AppRecord,
    table: Seq<DerivedKey>,
    entries: Seq<AccessEntry>,
) -> bool {
    &&& job.app_id@ == rec.info.id@
    &&& match spec_key_for(table, rec.info.id@) {
        Option::None => true,
        Option::Some(key) => match (job.ciphertext, spec_ciphertext_for(entries, key)) {
            (Option::Some(c), Option::Some(sc)) => c@ == sc,
            (Option::None, Option::None) => true,
            _ => false,
        },
    }
}

/// Looks `id` up in the derived-key table.
pub fn find_key(table: &Vec<DerivedKey>, id: &String) -> (r: Option<usize>)
    ensures
        match r {
            Some(i) => i < table@.len() && spec_key_for(table@, id@) == Option::Some(
                table@[i as int].key@,
            ),
            None => spec_key_for(table@, id@) is None,
        },
{
    proof {
        assert(table@.skip(0) =~= table@);
    }
    let mut i: usize = 0;
    while i < table.len()
        invariant
            i <= table.len(),
            spec_key_for(table@, id@) == spec_key_for(table@.skip(i as int), id@),
        decreases table.len() - i,
    {
        proof {
            assert(table@.skip(i as int)[0] == table@[i as int]);
            assert(table@.skip(i as int).drop_first() =~= table@.skip(i as int + 1));
        }
        if table[i].app_id.eq(id) {
            return Some(i);
        }
        i = i + 1;
    }
    proof {
        assert(table@.skip(table@.len() as int).len() == 0);
    }
    None
}

/// Locates the ciphertext stored for a derived key: `None` when the entry
/// is absent or stored empty, otherwise a copy of the stored bytes.
pub fn find_ciphertext(entries: &Vec<AccessEntry>, key: &Vec<u8>) -> (r: Option<Vec<u8>>)
    ensures
        match r {
            Some(c) => spec_ciphertext_for(entries@, key@) == Option::Some(c@),
            None => spec_ciphertext_for(entries@, key@) is None,
        },
{
    proof {
        assert(entries@.skip(0) =~= entries@);
    }
    let mut i: usize = 0;
    while i < entries.len()
        invariant
            i <= entries.len(),
            spec_entry_content(entries@, key@) == spec_entry_content(
                entries@.skip(i as int),
                key@,
            ),
        decreases entries.len() - i,
    {
        proof {
            assert(entries@.skip(i as int)[0] == entries@[i as int]);
            assert(entries@.skip(i as int).drop_first() =~= entries@.skip(i as int + 1));
        }
        if bytes_eq(&entries[i].key, key) {
            if entries[i].content.len() == 0 {
                return None;
            }
            return Some(copy_bytes(&entries[i].content));
        }
        i = i + 1;
    }
    proof {
        assert(entries@.skip(entries@.len() as int).len() == 0);
    }
    None
}

/// Locates one app's entry ciphertext, as the revocation gate needs it:
/// checks the account nonce, looks the app's derived key up in the table,
/// and locates its container entry. Fails with `MissingNonce` when the
/// account's access container carries no nonce, and with `EncodingError`
/// when the app has no derived key. On success, `None` means the entry is
/// absent or stored empty — access withdrawn — and `Some` carries the
/// ciphertext for external decryption.
pub fn resolve_ciphertext(
    record: &AppRecord,
    nonce: &Option<Vec<u8>>,
    table: &Vec<DerivedKey>,
    entries: &Vec<AccessEntry>,
) -> (r: Result<Option<Vec<u8>>, AuthError>)
    ensures
        (r == Err::<Option<Vec<u8>>, AuthError>(AuthError::MissingNonce)) <==> nonce is None,
        (r == Err::<Option<Vec<u8>>, AuthError>(AuthError::EncodingError)) <==> (nonce is Some
            && spec_key_for(table@, record.info.id@) is None),
        r is Ok <==> (nonce is Some && spec_key_for(table@, record.info.id@) is Some),
        r is Ok ==> {
            let key = spec_key_for(table@, record.info.id@);
            match (r.unwrap(), spec_ciphertext_for(entries@, key.unwrap())) {
                (Option::Some(c), Option::Some(sc)) => c@ == sc,
                (Option::None, Option::None) => true,
                _ => false,
            }
        },
{
    if nonce.is_none() {
        return Err(AuthError::MissingNonce);
    }
    match find_key(table, &record.info.id) {
        None => Err(AuthError::EncodingError),
        Some(k) => Ok(find_ciphertext(entries, &table[k].key)),
    }
}

/// Resolves the located ciphertext of every registry app in one pass:
/// checks the account nonce, looks each app's derived key up in the table,
/// and locates its container entry. Fails with `MissingNonce` when the
/// account's access container carries no nonce (no key can then be
/// derived), and with `EncodingError` when some app has no derived key.
/// On success the jobs line up with the registry, one per app in registry
/// order.
pub fn collect_ciphertexts(
    registry: &ConfigRegistry,
    nonce: &Option<Vec<u8>>,
    table: &Vec<DerivedKey>,
    entries: &Vec<AccessEntry>,
) -> (r: Result<Vec<CipherJob>, AuthError>)
    ensures
        (r == Err::<Vec<CipherJob>, AuthError>(AuthError::MissingNonce)) <==> nonce is None,
        (r == Err::<Vec<CipherJob>, AuthError>(AuthError::EncodingError)) <==> (nonce is Some
            && exists|i: int|
            0 <= i < registry.apps@.len() && spec_key_for(
                table@,
                #[trigger] registry.apps@[i].info.id@,
            ) is None),
        r is Ok ==> {
            let jobs = r.unwrap();
            &&& jobs@.len() == registry.apps@.len()
            &&& forall|i: int|
                0 <= i < jobs@.len() ==> spec_key_for(
                    table@,
                    #[trigger] registry.apps@[i].info.id@,
                ) is Some
            &&& forall|i: int|
                0 <= i < jobs@.len() ==> job_matches(
                    #[trigger] jobs@[i],
                    registry.apps@[i],
                    table@,
                    entries@,
                )
        },
        r is Err ==> (r == Err::<Vec<CipherJob>, AuthError>(AuthError::MissingNonce) || r
            == Err::<Vec<CipherJob>, AuthError>(AuthError::EncodingError)),
{
    if nonce.is_none() {
        return Err(AuthError::MissingNonce);
    }
    let mut jobs: Vec<CipherJob> = Vec::new();
    let mut i: usize = 0;
    while i < registry.apps.len()
        invariant
            nonce is Some,
            i <= registry.apps.len(),
            jobs@.len() == i,
            forall|j: int|
                0 <= j < i ==> spec_key_for(
                    table@,
                    #[trigger] registry.apps@[j].info.id@,
                ) is Some,
            forall|j: int|
                0 <= j < i ==> job_matches(
                    #[trigger] jobs@[j],
                    registry.apps@[j],
                    table@,
                    entries@,
                ),
        decreases registry.apps.len() - i,
    {
        let rec = &registry.apps[i];
        match find_key(table, &rec.info.id) {
            None => {
                proof {
                    assert(spec_key_for(table@, registry.apps@[i as int].info.id@) is None);
                }
                return Err(AuthError::EncodingError);
            },
            Some(k) => {
                let ciphertext = find_ciphertext(entries, &table[k].key);
                jobs.push(CipherJob { app_id: rec.info.id.clone(), ciphertext });
            },
        }
        i = i + 1;
    }
    Ok(jobs)
}

} // verus!
