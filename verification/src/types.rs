//! Data model shared by every component: application records, permission
//! bitsets, the error taxonomy, and deep-copy helpers with exact contracts.

use vstd::prelude::*;

verus! {

/// Errors surfaced by the reconciliation core. Every component propagates
/// errors to its caller; the only condition deliberately folded into a
/// non-error outcome is an access-container entry that is absent or empty,
/// which means revocation, not a fault.
#[derive(Clone, Copy, PartialEq, Eq, Structural, Debug)]
pub enum AuthError {
    /// Transport failure on a store call; mapped in by the caller that
    /// performs the network read or write, never produced by this core.
    NetworkError,
    /// An optimistic write raced with another writer: the store advanced
    /// past the version the snapshot was read at.
    VersionConflict,
    /// The operation targets an app id absent from the registry snapshot.
    UnknownApp,
    /// Revocation was attempted on an app that is still authenticated.
    AppNotRevoked,
    /// Stored ciphertext did not decrypt; fatal to the whole operation.
    DecryptionError,
    /// Stored plaintext did not deserialize; fatal to the whole operation.
    DeserializationError,
    /// The account's access container carries no nonce, so no per-app
    /// lookup key can be derived for it.
    MissingNonce,
    /// A per-app lookup key could not be derived from the app's identity.
    EncodingError,
}

/// A permission bitset on one logical container or data object.
#[derive(Clone, Copy, PartialEq, Eq, Structural, Debug)]
pub struct PermissionSet {
    pub read: bool,
    pub insert: bool,
    pub update: bool,
    pub delete: bool,
    pub manage_permissions: bool,
}

/// Identity and display metadata of one application.
#[derive(Debug)]
pub struct AppExchangeInfo {
    /// Stable string identifier, distinct from the display name.
    pub id: String,
    /// Human-readable application name.
    pub name: String,
    /// Human-readable vendor name.
    pub vendor: String,
}

/// The cryptographic material the registry holds for one application. The
/// keys themselves are only ever handed to external primitives; this core
/// reads them as opaque byte strings and compares them for equality.
#[derive(Debug)]
pub struct AppKeys {
    /// Symmetric key the app's access-container entry is encrypted with.
    pub enc_key: Vec<u8>,
    /// The app's asymmetric owner/signing public key.
    pub owner_key: Vec<u8>,
}

/// A (container name, permission bitset) pair.
#[derive(Debug)]
pub struct ContainerPermissions {
    pub container_name: String,
    pub access: PermissionSet,
}

/// Address of one network-resident data object.
#[derive(Debug)]
pub struct ContainerRef {
    pub name: Vec<u8>,
    pub type_tag: u64,
}

/// One decrypted grant inside an app's access-container entry: a container
/// name with the reference it resolves to and the permissions held on it.
#[derive(Debug)]
pub struct ContainerGrant {
    pub container_name: String,
    pub container_ref: ContainerRef,
    pub access: PermissionSet,
}

/// The decrypted content of one app's access-container entry: the grants
/// the app was actually given. An empty grant list means access has been
/// withdrawn.
#[derive(Debug)]
pub struct AccessContainerEntry {
    pub grants: Vec<ContainerGrant>,
}

/// One entry of the config registry: an application the account owner has
/// configured, with its keys and the container permissions granted to it.
#[derive(Debug)]
pub struct AppRecord {
    pub info: AppExchangeInfo,
    pub keys: AppKeys,
    pub containers: Vec<ContainerPermissions>,
}

/// Key material equivalence: the same bytes in both keys.
pub open spec fn keys_equiv(a: AppKeys, b: AppKeys) -> bool {
    a.enc_key@ == b.enc_key@ && a.owner_key@ == b.owner_key@
}

/// Record equivalence: identical identity, metadata and granted containers,
/// and byte-for-byte identical key material.
pub open spec fn record_equiv(a: AppRecord, b: AppRecord) -> bool {
    a.info == b.info && keys_equiv(a.keys, b.keys) && a.containers@ == b.containers@
}

/// Element-wise record equivalence of two registries' contents.
pub open spec fn records_equiv(a: Seq<AppRecord>, b: Seq<AppRecord>) -> bool {
    a.len() == b.len() && forall|i: int| 0 <= i < a.len() ==> record_equiv(a[i], b[i])
}

/// Compares two byte strings.
pub fn bytes_eq(a: &Vec<u8>, b: &Vec<u8>) -> (r: bool)
    ensures
        r == (a@ == b@),
{
    if a.len() != b.len() {
        assert(a@ != b@);
        return false;
    }
    let mut i: usize = 0;
    while i < a.len()
        invariant
            i <= a.len(),
            a.len() == b.len(),
            forall|j: int| 0 <= j < i ==> a@[j] == b@[j],
        decreases a.len() - i,
    {
        if a[i] != b[i] {
            assert(a@[i as int] != b@[i as int]);
            return false;
        }
        i = i + 1;
    }
    proof {
        assert(a@ =~= b@);
    }
    true
}

/// Copies a byte string.
pub fn copy_bytes(v: &Vec<u8>) -> (r: Vec<u8>)
    ensures
        r@ == v@,
{
    let mut out: Vec<u8> = Vec::new();
    let mut i: usize = 0;
    while i < v.len()
        invariant
            i <= v.len(),
            out@ == v@.take(i as int),
        decreases v.len() - i,
    {
        out.push(v[i]);
        proof {
            assert(v@.take(i as int).push(v@[i as int]) =~= v@.take(i as int + 1));
        }
        i = i + 1;
    }
    proof {
        assert(v@.take(v.len() as int) =~= v@);
    }
    out
}

/// Copies an app's identity and display metadata.
pub fn copy_info(x: &AppExchangeInfo) -> (r: AppExchangeInfo)
    ensures
        r == *x,
{
    AppExchangeInfo { id: x.id.clone(), name: x.name.clone(), vendor: x.vendor.clone() }
}

/// Copies an app's key material.
pub fn copy_keys(x: &AppKeys) -> (r: AppKeys)
    ensures
        keys_equiv(r, *x),
{
    AppKeys { enc_key: copy_bytes(&x.enc_key), owner_key: copy_bytes(&x.owner_key) }
}

/// Copies one granted (container name, permissions) pair.
pub fn copy_container_permissions(x: &ContainerPermissions) -> (r: ContainerPermissions)
    ensures
        r == *x,
{
    ContainerPermissions { container_name: x.container_name.clone(), access: x.access }
}

/// Copies a granted-container list.
pub fn copy_container_list(v: &Vec<ContainerPermissions>) -> (r: Vec<ContainerPermissions>)
    ensures
        r@ == v@,
{
    let mut out: Vec<ContainerPermissions> = Vec::new();
    let mut i: usize = 0;
    while i < v.len()
        invariant
            i <= v.len(),
            out@ == v@.take(i as int),
        decreases v.len() - i,
    {
        out.push(copy_container_permissions(&v[i]));
        proof {
            assert(v@.take(i as int).push(v@[i as int]) =~= v@.take(i as int + 1));
        }
        i = i + 1;
    }
    proof {
        assert(v@.take(v.len() as int) =~= v@);
    }
    out
}

/// Copies a full registry record.
pub fn copy_record(x: &AppRecord) -> (r: AppRecord)
    ensures
        record_equiv(r, *x),
{
    AppRecord {
        info: copy_info(&x.info),
        keys: copy_keys(&x.keys),
        containers: copy_container_list(&x.containers),
    }
}

} // verus!
