//! Query engine: the three read-only views over one joint snapshot of the
//! registry and the access container — revoked apps, registered apps with
//! their container permissions, and the permission holders on an arbitrary
//! data object. Listings abort on the first corrupt entry rather than
//! silently omitting an app.

use vstd::prelude::*;

use crate::classify::{classify, lift_entry, spec_classify, AppState};
use crate::config::{unique_ids, ConfigRegistry};
use crate::resolver::{EntryFault, ResolveOutcome};
use crate::types::{
    bytes_eq, copy_bytes, copy_info, AccessContainerEntry, AppExchangeInfo, AppRecord, AuthError,
    ContainerGrant, ContainerPermissions, PermissionSet,
};

verus! {

/// An application registered in the authenticator, with the containers its
/// access-container entry grants.
#[derive(Debug)]
pub struct RegisteredApp {
    pub app_info: AppExchangeInfo,
    pub containers: Vec<ContainerPermissions>,
}

/// The abstract value of a `RegisteredApp`.
pub struct RegisteredAppView {
    pub app_info: AppExchangeInfo,
    pub containers: Seq<ContainerPermissions>,
}

impl View for RegisteredApp {
    type V = RegisteredAppView;

    open spec fn view(&self) -> RegisteredAppView {
        RegisteredAppView { app_info: self.app_info, containers: self.containers@ }
    }
}

/// A principal holding permissions on a data object: a concrete public
/// key, or the "anyone" sentinel that stands for unrestricted access.
#[derive(Debug)]
pub enum Principal {
    Anyone,
    Key(Vec<u8>),
}

/// One raw permission record fetched for a data object: who holds which
/// permissions on it.
#[derive(Debug)]
pub struct PermissionRecord {
    pub principal: Principal,
    pub access: PermissionSet,
}

/// One emitted permission holder: the public key and its permissions,
/// annotated with the app's identity when the key belongs to a registered
/// app, anonymous otherwise.
#[derive(Debug)]
pub struct AppAccess {
    pub sign_key: Vec<u8>,
    pub permissions: PermissionSet,
    pub name: Option<String>,
    pub app_id: Option<String>,
}

/// The abstract value of an `AppAccess`.
pub struct AppAccessView {
    pub sign_key: Seq<u8>,
    pub permissions: PermissionSet,
    pub name: Option<Seq<char>>,
    pub app_id: Option<Seq<char>>,
}

impl View for AppAccess {
    type V = AppAccessView;

    open spec fn view(&self) -> AppAccessView {
        AppAccessView {
            sign_key: self.sign_key@,
            permissions: self.permissions,
            name: match self.name {
                Option::Some(s) => Option::Some(s@),
                Option::None => Option::None,
            },
            app_id: match self.app_id {
                Option::Some(s) => Option::Some(s@),
                Option::None => Option::None,
            },
        }
    }
}

/// What an outcome contributes to classification: the decrypted entry, or
/// nothing for an absent or emptied entry. A corrupt outcome aborts every
/// listing before classification, so its mapping here is never consulted.
pub open spec fn outcome_entry(o: ResolveOutcome) -> Option<AccessContainerEntry> {
    match o {
        ResolveOutcome::NoEntry => Option::None,
        ResolveOutcome::Entry(e) => Option::Some(e),
        ResolveOutcome::Corrupt(_) => Option::None,
    }
}

/// The error a corrupt entry surfaces as.
pub open spec fn fault_error(f: EntryFault) -> AuthError {
    match f {
        EntryFault::Decryption => AuthError::DecryptionError,
        EntryFault::Deserialization => AuthError::DeserializationError,
    }
}

/// The fault of the first corrupt outcome among the first `n`, if any.
pub open spec fn first_fault_upto(outcomes: Seq<ResolveOutcome>, n: int) -> Option<EntryFault>
    decreases n,
{
    if n <= 0 {
        Option::None
    } else {
        match first_fault_upto(outcomes, n - 1) {
            Option::Some(f) => Option::Some(f),
            Option::None => match outcomes[n - 1] {
                ResolveOutcome::Corrupt(f) => Option::Some(f),
                _ => Option::None,
            },
        }
    }
}

/// The fault of the first corrupt outcome, if any.
pub open spec fn spec_first_fault(outcomes: Seq<ResolveOutcome>) -> Option<EntryFault> {
    first_fault_upto(outcomes, outcomes.len() as int)
}

/// Once a fault is found among a prefix, every longer prefix reports it.
proof fn lemma_first_fault_extends(outcomes: Seq<ResolveOutcome>, n: int, m: int)
    requires
        0 <= n <= m <= outcomes.len(),
        first_fault_upto(outcomes, n) is Some,
    ensures
        first_fault_upto(outcomes, m) == first_fault_upto(outcomes, n),
    decreases m - n,
{
    if m > n {
        lemma_first_fault_extends(outcomes, n, m - 1);
    }
}

/// The state of the `i`-th registry app under the given outcomes.
pub open spec fn state_at(
    apps: Seq<AppRecord>,
    outcomes: Seq<ResolveOutcome>,
    i: int,
) -> AppState {
    spec_classify(apps, apps[i].info.id@, outcome_entry(outcomes[i]))
}

/// The registry indices among the first `n` whose app is in `target`
/// state, in registry order.
pub open spec fn state_indices_upto(
    apps: Seq<AppRecord>,
    outcomes: Seq<ResolveOutcome>,
    target: AppState,
    n: int,
) -> Seq<int>
    decreases n,
{
    if n <= 0 {
        Seq::empty()
    } else {
        let rest = state_indices_upto(apps, outcomes, target, n - 1);
        if state_at(apps, outcomes, n - 1) == target {
            rest.push(n - 1)
        } else {
            rest
        }
    }
}

/// Which indices a listing emits: exactly those in range whose app is in
/// the target state.
pub proof fn lemma_state_indices_contains(
    apps: Seq<AppRecord>,
    outcomes: Seq<ResolveOutcome>,
    target: AppState,
    n: int,
)
    ensures
        forall|i: int|
            #[trigger] state_indices_upto(apps, outcomes, target, n).contains(i) <==> (0 <= i < n
                && state_at(apps, outcomes, i) == target),
    decreases n,
{
    if n > 0 {
        lemma_state_indices_contains(apps, outcomes, target, n - 1);
        let rest = state_indices_upto(apps, outcomes, target, n - 1);
        let cur = state_indices_upto(apps, outcomes, target, n);
        assert forall|i: int| #[trigger] cur.contains(i) implies (0 <= i < n && state_at(
            apps,
            outcomes,
            i,
        ) == target) by {
            let k = choose|k: int| 0 <= k < cur.len() && cur[k] == i;
            if k < rest.len() {
                assert(rest[k] == i);
                assert(rest.contains(i));
            }
        }
        assert forall|i: int| (0 <= i < n && state_at(apps, outcomes, i) == target) implies
            #[trigger] cur.contains(i) by {
            if i < n - 1 {
                assert(rest.contains(i));
                let k = choose|k: int| 0 <= k < rest.len() && rest[k] == i;
                assert(cur[k] == i);
            } else {
                assert(cur[cur.len() - 1] == i);
            }
        }
    } else {
        assert forall|i: int|
            #[trigger] state_indices_upto(apps, outcomes, target, n).contains(i) implies false by {
            let k = choose|k: int|
                0 <= k < state_indices_upto(apps, outcomes, target, n).len()
                    && state_indices_upto(apps, outcomes, target, n)[k] == i;
        }
    }
}

/// The container permissions a decrypted entry grants, stripped of the
/// container references.
pub open spec fn grant_perms(e: AccessContainerEntry) -> Seq<ContainerPermissions> {
    e.grants@.map_values(
        |g: ContainerGrant| (ContainerPermissions { container_name: g.container_name, access: g.access }),
    )
}

/// Converts a decrypted entry's grants to (container name, permissions)
/// pairs.
pub fn grants_to_permissions(e: &AccessContainerEntry) -> (r: Vec<ContainerPermissions>)
    ensures
        r@ == grant_perms(*e),
{
    let mut out: Vec<ContainerPermissions> = Vec::new();
    let mut i: usize = 0;
    while i < e.grants.len()
        invariant
            i <= e.grants.len(),
            out@.len() == i,
            forall|j: int| 0 <= j < i ==> out@[j] == grant_perms(*e)[j],
        decreases e.grants.len() - i,
    {
        let g = &e.grants[i];
        let p = ContainerPermissions { container_name: g.container_name.clone(), access: g.access };
        proof {
            assert(p == grant_perms(*e)[i as int]);
        }
        out.push(p);
        i = i + 1;
    }
    proof {
        assert(out@ =~= grant_perms(*e));
    }
    out
}

/// Lists the revoked apps: every registry app whose entry resolution
/// classifies it `Revoked`, in registry order. Aborts with the first
/// corrupt entry's error: a listing that met corruption reports it rather
/// than misreport an app. `outcomes` lines up with the registry, one
/// resolution per app.
pub fn list_revoked_apps(
    registry: &ConfigRegistry,
    outcomes: &Vec<ResolveOutcome>,
) -> (r: Result<Vec<AppExchangeInfo>, AuthError>)
    requires
        outcomes@.len() == registry.apps@.len(),
    ensures
        match spec_first_fault(outcomes@) {
            Option::Some(f) => r == Err::<Vec<AppExchangeInfo>, AuthError>(fault_error(f)),
            Option::None => {
                let idxs = state_indices_upto(
                    registry.apps@,
                    outcomes@,
                    AppState::Revoked,
                    registry.apps@.len() as int,
                );
                &&& r is Ok
                &&& r.unwrap()@.len() == idxs.len()
                &&& forall|j: int|
                    0 <= j < idxs.len() ==> #[trigger] r.unwrap()@[j] == registry.apps@[idxs[j]].info
            },
        },
{
    let apps = &registry.apps;
    let mut out: Vec<AppExchangeInfo> = Vec::new();
    let mut i: usize = 0;
    while i < apps.len()
        invariant
            outcomes@.len() == apps@.len(),
            apps == registry.apps,
            i <= apps.len(),
            first_fault_upto(outcomes@, i as int) is None,
            out@.len() == state_indices_upto(
                apps@,
                outcomes@,
                AppState::Revoked,
                i as int,
            ).len(),
            forall|j: int|
                0 <= j < out@.len() ==> #[trigger] out@[j] == apps@[state_indices_upto(
                    apps@,
                    outcomes@,
                    AppState::Revoked,
                    i as int,
                )[j]].info,
        decreases apps.len() - i,
    {
        let ghost prev = state_indices_upto(apps@, outcomes@, AppState::Revoked, i as int);
        let resolved: Option<&AccessContainerEntry> = match &outcomes[i] {
            ResolveOutcome::Corrupt(f) => {
                proof {
                    lemma_first_fault_extends(outcomes@, i as int + 1, outcomes@.len() as int);
                }
                return Err(match f {
                    EntryFault::Decryption => AuthError::DecryptionError,
                    EntryFault::Deserialization => AuthError::DeserializationError,
                });
            },
            ResolveOutcome::NoEntry => None,
            ResolveOutcome::Entry(e) => Some(e),
        };
        proof {
            assert(lift_entry(resolved) == outcome_entry(outcomes@[i as int]));
        }
        let s = classify(&apps[i].info.id, registry, resolved);
        if matches!(s, AppState::Revoked) {
            out.push(copy_info(&apps[i].info));
            proof {
                let cur = state_indices_upto(apps@, outcomes@, AppState::Revoked, i as int + 1);
                assert(cur == prev.push(i as int));
                assert(out@[out@.len() - 1] == apps@[cur[cur.len() - 1]].info);
            }
        }
        i = i + 1;
    }
    Ok(out)
}

/// Lists the registered apps: every registry app whose entry resolution
/// classifies it `Authenticated`, in registry order, each with the
/// container permissions its decrypted entry grants. Aborts with the first
/// corrupt entry's error. `outcomes` lines up with the registry, one
/// resolution per app.
pub fn list_registered_apps(
    registry: &ConfigRegistry,
    outcomes: &Vec<ResolveOutcome>,
) -> (r: Result<Vec<RegisteredApp>, AuthError>)
    requires
        outcomes@.len() == registry.apps@.len(),
    ensures
        match spec_first_fault(outcomes@) {
            Option::Some(f) => r == Err::<Vec<RegisteredApp>, AuthError>(fault_error(f)),
            Option::None => {
                let idxs = state_indices_upto(
                    registry.apps@,
                    outcomes@,
                    AppState::Authenticated,
                    registry.apps@.len() as int,
                );
                &&& r is Ok
                &&& r.unwrap()@.len() == idxs.len()
                &&& forall|j: int|
                    0 <= j < idxs.len() ==> (#[trigger] r.unwrap()@[j]).app_info
                        == registry.apps@[idxs[j]].info && r.unwrap()@[j].containers@ == grant_perms(
                        outcome_entry(outcomes@[idxs[j]]).unwrap(),
                    )
            },
        },
{
    let apps = &registry.apps;
    let mut out: Vec<RegisteredApp> = Vec::new();
    let mut i: usize = 0;
    while i < apps.len()
        invariant
            outcomes@.len() == apps@.len(),
            apps == registry.apps,
            i <= apps.len(),
            first_fault_upto(outcomes@, i as int) is None,
            out@.len() == state_indices_upto(
                apps@,
                outcomes@,
                AppState::Authenticated,
                i as int,
            ).len(),
            forall|j: int|
                0 <= j < out@.len() ==> {
                    let idxs = state_indices_upto(
                        apps@,
                        outcomes@,
                        AppState::Authenticated,
                        i as int,
                    );
                    (#[trigger] out@[j]).app_info == apps@[idxs[j]].info && out@[j].containers@
                        == grant_perms(outcome_entry(outcomes@[idxs[j]]).unwrap())
                },
        decreases apps.len() - i,
    {
        let ghost prev = state_indices_upto(apps@, outcomes@, AppState::Authenticated, i as int);
        let resolved: Option<&AccessContainerEntry> = match &outcomes[i] {
            ResolveOutcome::Corrupt(f) => {
                proof {
                    lemma_first_fault_extends(outcomes@, i as int + 1, outcomes@.len() as int);
                }
                return Err(match f {
                    EntryFault::Decryption => AuthError::DecryptionError,
                    EntryFault::Deserialization => AuthError::DeserializationError,
                });
            },
            ResolveOutcome::NoEntry => None,
            ResolveOutcome::Entry(e) => Some(e),
        };
        proof {
            assert(lift_entry(resolved) == outcome_entry(outcomes@[i as int]));
        }
        let s = classify(&apps[i].info.id, registry, resolved);
        if matches!(s, AppState::Authenticated) {
            let entry = match resolved {
                Some(e) => e,
                None => {
                    proof {
                        assert(false);
                    }
                    return Err(AuthError::DeserializationError);
                },
            };
            let reg = RegisteredApp {
                app_info: copy_info(&apps[i].info),
                containers: grants_to_permissions(entry),
            };
            out.push(reg);
            proof {
                let cur = state_indices_upto(
                    apps@,
                    outcomes@,
                    AppState::Authenticated,
                    i as int + 1,
                );
                assert(cur == prev.push(i as int));
                assert(out@[out@.len() - 1].app_info == apps@[cur[cur.len() - 1]].info);
            }
        }
        i = i + 1;
    }
    Ok(out)
}

/// The first registry record whose owner key is `pk`, if any.
pub open spec fn spec_owner_app(apps: Seq<AppRecord>, pk: Seq<u8>) -> Option<AppRecord>
    decreases apps.len(),
{
    if apps.len() == 0 {
        Option::None
    } else if apps[0].keys.owner_key@ == pk {
        Option::Some(apps[0])
    } else {
        spec_owner_app(apps.drop_first(), pk)
    }
}

/// The concrete public key of a principal; the "anyone" sentinel has none.
pub open spec fn principal_key(p: Principal) -> Option<Seq<u8>> {
    match p {
        Principal::Anyone => Option::None,
        Principal::Key(k) => Option::Some(k@),
    }
}

/// The entry emitted for one keyed permission record: identified when the
/// key matches a registry owner key, anonymous otherwise.
pub open spec fn access_view_of(rec: PermissionRecord, apps: Seq<AppRecord>) -> AppAccessView {
    let pk = principal_key(rec.principal).unwrap();
    match spec_owner_app(apps, pk) {
        Option::Some(a) => AppAccessView {
            sign_key: pk,
            permissions: rec.access,
            name: Option::Some(a.info.name@),
            app_id: Option::Some(a.info.id@),
        },
        Option::None => AppAccessView {
            sign_key: pk,
            permissions: rec.access,
            name: Option::None,
            app_id: Option::None,
        },
    }
}

/// What the permission listing emits for the first `n` records: one entry
/// per keyed principal in record order, none for the "anyone" sentinel.
pub open spec fn access_list_upto(
    records: Seq<PermissionRecord>,
    apps: Seq<AppRecord>,
    n: int,
) -> Seq<AppAccessView>
    decreases n,
{
    if n <= 0 {
        Seq::empty()
    } else {
        let rest = access_list_upto(records, apps, n - 1);
        match records[n - 1].principal {
            Principal::Anyone => rest,
            Principal::Key(_) => rest.push(access_view_of(records[n - 1], apps)),
        }
    }
}

/// Looks a public key up among the registry's owner keys.
pub fn find_owner(apps: &Vec<AppRecord>, pk: &Vec<u8>) -> (r: Option<usize>)
    ensures
        match r {
            Some(i) => i < apps@.len() && spec_owner_app(apps@, pk@) == Option::Some(
                apps@[i as int],
            ),
            None => spec_owner_app(apps@, pk@) is None,
        },
{
    proof {
        assert(apps@.skip(0) =~= apps@);
    }
    let mut i: usize = 0;
    while i < apps.len()
        invariant
            i <= apps.len(),
            spec_owner_app(apps@, pk@) == spec_owner_app(apps@.skip(i as int), pk@),
        decreases apps.len() - i,
    {
        proof {
            assert(apps@.skip(i as int)[0] == apps@[i as int]);
            assert(apps@.skip(i as int).drop_first() =~= apps@.skip(i as int + 1));
        }
        if bytes_eq(&apps[i].keys.owner_key, pk) {
            return Some(i);
        }
        i = i + 1;
    }
    proof {
        assert(apps@.skip(apps@.len() as int).len() == 0);
    }
    None
}

/// Lists the permission holders on one data object: one entry per keyed
/// principal in its raw permission records, in record order, identified
/// with an app's id and name when the principal's key matches that app's
/// owner key in the registry. The "anyone" sentinel is left out: only
/// individually keyed principals are enumerated.
pub fn list_permissions(
    records: &Vec<PermissionRecord>,
    registry: &ConfigRegistry,
) -> (r: Vec<AppAccess>)
    ensures
        r@.len() == access_list_upto(records@, registry.apps@, records@.len() as int).len(),
        forall|k: int|
            0 <= k < r@.len() ==> (#[trigger] r@[k])@ == access_list_upto(
                records@,
                registry.apps@,
                records@.len() as int,
            )[k],
{
    let apps = &registry.apps;
    let mut out: Vec<AppAccess> = Vec::new();
    let mut i: usize = 0;
    while i < records.len()
        invariant
            apps == registry.apps,
            i <= records.len(),
            out@.len() == access_list_upto(records@, apps@, i as int).len(),
            forall|k: int|
                0 <= k < out@.len() ==> (#[trigger] out@[k])@ == access_list_upto(
                    records@,
                    apps@,
                    i as int,
                )[k],
        decreases records.len() - i,
    {
        let ghost prev = access_list_upto(records@, apps@, i as int);
        match &records[i].principal {
            Principal::Anyone => {},
            Principal::Key(k) => {
                let aa = match find_owner(apps, k) {
                    Some(ix) => AppAccess {
                        sign_key: copy_bytes(k),
                        permissions: records[i].access,
                        name: Some(apps[ix].info.name.clone()),
                        app_id: Some(apps[ix].info.id.clone()),
                    },
                    None => AppAccess {
                        sign_key: copy_bytes(k),
                        permissions: records[i].access,
                        name: None,
                        app_id: None,
                    },
                };
                proof {
                    assert(aa@ == access_view_of(records@[i as int], apps@));
                    assert(access_list_upto(records@, apps@, i as int + 1) == prev.push(aa@));
                }
                out.push(aa);
            },
        }
        i = i + 1;
    }
    out
}

/// The app ids one listing emits, in emission order.
pub open spec fn listed_ids(
    apps: Seq<AppRecord>,
    outcomes: Seq<ResolveOutcome>,
    target: AppState,
) -> Seq<Seq<char>> {
    state_indices_upto(apps, outcomes, target, apps.len() as int).map_values(
        |ix: int| apps[ix].info.id@,
    )
}

/// A registry app's id is listed for a state exactly when the app is in
/// that state.
pub proof fn lemma_listed_ids_contains(
    apps: Seq<AppRecord>,
    outcomes: Seq<ResolveOutcome>,
    target: AppState,
)
    requires
        unique_ids(apps),
        outcomes.len() == apps.len(),
    ensures
        forall|i: int|
            0 <= i < apps.len() ==> (#[trigger] listed_ids(apps, outcomes, target).contains(
                apps[i].info.id@,
            ) <==> state_at(apps, outcomes, i) == target),
{
    lemma_state_indices_contains(apps, outcomes, target, apps.len() as int);
    let idxs = state_indices_upto(apps, outcomes, target, apps.len() as int);
    let ids = listed_ids(apps, outcomes, target);
    assert forall|i: int| 0 <= i < apps.len() implies (#[trigger] ids.contains(apps[i].info.id@)
        <==> state_at(apps, outcomes, i) == target) by {
        if state_at(apps, outcomes, i) == target {
            assert(idxs.contains(i));
            let k = choose|k: int| 0 <= k < idxs.len() && idxs[k] == i;
            assert(ids[k] == apps[i].info.id@);
            assert(ids.contains(apps[i].info.id@));
        }
        if ids.contains(apps[i].info.id@) {
            let k = choose|k: int| 0 <= k < ids.len() && ids[k] == apps[i].info.id@;
            let ix = idxs[k];
            assert(idxs.contains(ix));
            assert(0 <= ix < apps.len() && state_at(apps, outcomes, ix) == target);
            assert(apps[ix].info.id@ == apps[i].info.id@);
            if ix < i {
                assert(apps[ix].info.id@ != apps[i].info.id@);
            } else if i < ix {
                assert(apps[i].info.id@ != apps[ix].info.id@);
            }
        }
    }
}

/// Law: listed together for one joint snapshot free of corrupt entries,
/// the revoked listing and the registered listing partition the registry:
/// every registry position, and with it every registered app id, is
/// emitted by exactly one of the two, and neither listing emits anything
/// else.
pub proof fn lemma_listing_partition(apps: Seq<AppRecord>, outcomes: Seq<ResolveOutcome>)
    requires
        unique_ids(apps),
        outcomes.len() == apps.len(),
        forall|i: int| 0 <= i < outcomes.len() ==> !(#[trigger] outcomes[i] is Corrupt),
    ensures
        forall|i: int|
            0 <= i < apps.len() ==> (state_indices_upto(
                apps,
                outcomes,
                AppState::Revoked,
                apps.len() as int,
            ).contains(i) != state_indices_upto(
                apps,
                outcomes,
                AppState::Authenticated,
                apps.len() as int,
            ).contains(i)),
        forall|i: int|
            #[trigger] state_indices_upto(
                apps,
                outcomes,
                AppState::Revoked,
                apps.len() as int,
            ).contains(i) ==> 0 <= i < apps.len(),
        forall|i: int|
            #[trigger] state_indices_upto(
                apps,
                outcomes,
                AppState::Authenticated,
                apps.len() as int,
            ).contains(i) ==> 0 <= i < apps.len(),
        forall|i: int|
            0 <= i < apps.len() ==> (#[trigger] listed_ids(
                apps,
                outcomes,
                AppState::Revoked,
            ).contains(apps[i].info.id@) != listed_ids(
                apps,
                outcomes,
                AppState::Authenticated,
            ).contains(apps[i].info.id@)),
{
    let n = apps.len() as int;
    lemma_state_indices_contains(apps, outcomes, AppState::Revoked, n);
    lemma_state_indices_contains(apps, outcomes, AppState::Authenticated, n);
    lemma_listed_ids_contains(apps, outcomes, AppState::Revoked);
    lemma_listed_ids_contains(apps, outcomes, AppState::Authenticated);
    assert forall|i: int| 0 <= i < apps.len() implies state_at(apps, outcomes, i)
        != AppState::NotAuthenticated by {
        assert(0 <= i < apps.len() && apps[i].info.id@ == apps[i].info.id@);
        assert(crate::config::has_app(apps, apps[i].info.id@));
    }
}

/// Law: the permission listing never emits an entry for the "anyone"
/// sentinel — every emitted key stems from a keyed principal — and, when
/// the keyed principals of the records are pairwise distinct, each of them
/// appears exactly once, identified precisely when its key matches a
/// registry owner key.
pub proof fn lemma_permissions_exactly_once(records: Seq<PermissionRecord>, apps: Seq<AppRecord>)
    requires
        forall|i: int, j: int|
            0 <= i < j < records.len() && principal_key(#[trigger] records[i].principal) is Some
                && principal_key(#[trigger] records[j].principal) is Some ==> principal_key(
                records[i].principal,
            ) != principal_key(records[j].principal),
    ensures
        forall|k: int|
            0 <= k < access_list_upto(records, apps, records.len() as int).len() ==> exists|i: int|
                0 <= i < records.len() && principal_key(#[trigger] records[i].principal)
                    == Option::Some(
                    #[trigger] access_list_upto(records, apps, records.len() as int)[k].sign_key,
                ) && access_list_upto(records, apps, records.len() as int)[k] == access_view_of(
                    records[i],
                    apps,
                ),
        forall|i: int|
            0 <= i < records.len() && principal_key(#[trigger] records[i].principal) is Some
                ==> exists|k: int|
                0 <= k < access_list_upto(records, apps, records.len() as int).len()
                    && #[trigger] access_list_upto(records, apps, records.len() as int)[k].sign_key
                    == principal_key(records[i].principal).unwrap(),
        forall|k1: int, k2: int|
            0 <= k1 < k2 < access_list_upto(records, apps, records.len() as int).len()
                ==> #[trigger] access_list_upto(records, apps, records.len() as int)[k1].sign_key
                != #[trigger] access_list_upto(records, apps, records.len() as int)[k2].sign_key,
        forall|k: int|
            0 <= k < access_list_upto(records, apps, records.len() as int).len() ==> ((
            #[trigger] access_list_upto(records, apps, records.len() as int)[k].app_id) is Some
                <==> spec_owner_app(
                apps,
                access_list_upto(records, apps, records.len() as int)[k].sign_key,
            ) is Some),
{
    lemma_access_list_upto(records, apps, records.len() as int);
    let out = access_list_upto(records, apps, records.len() as int);
    assert forall|k: int| 0 <= k < out.len() implies ((#[trigger] out[k].app_id) is Some
        <==> spec_owner_app(apps, out[k].sign_key) is Some) by {
        let i = choose|i: int|
            0 <= i < records.len() && principal_key(records[i].principal) == Option::Some(
                out[k].sign_key,
            ) && out[k] == access_view_of(records[i], apps);
    }
}

/// Induction for the permission-listing law, over the first `n` records.
proof fn lemma_access_list_upto(records: Seq<PermissionRecord>, apps: Seq<AppRecord>, n: int)
    requires
        0 <= n <= records.len(),
        forall|i: int, j: int|
            0 <= i < j < records.len() && principal_key(#[trigger] records[i].principal) is Some
                && principal_key(#[trigger] records[j].principal) is Some ==> principal_key(
                records[i].principal,
            ) != principal_key(records[j].principal),
    ensures
        forall|k: int|
            0 <= k < access_list_upto(records, apps, n).len() ==> exists|i: int|
                0 <= i < n && principal_key(#[trigger] records[i].principal) == Option::Some(
                    #[trigger] access_list_upto(records, apps, n)[k].sign_key,
                ) && access_list_upto(records, apps, n)[k] == access_view_of(records[i], apps),
        forall|i: int|
            0 <= i < n && principal_key(#[trigger] records[i].principal) is Some ==> exists|k: int|
                0 <= k < access_list_upto(records, apps, n).len() && #[trigger] access_list_upto(
                    records,
                    apps,
                    n,
                )[k].sign_key == principal_key(records[i].principal).unwrap(),
        forall|k1: int, k2: int|
            0 <= k1 < k2 < access_list_upto(records, apps, n).len() ==> #[trigger] access_list_upto(
                records,
                apps,
                n,
            )[k1].sign_key != #[trigger] access_list_upto(records, apps, n)[k2].sign_key,
    decreases n,
{
    if n > 0 {
        lemma_access_list_upto(records, apps, n - 1);
        let prev = access_list_upto(records, apps, n - 1);
        let cur = access_list_upto(records, apps, n);
        match records[n - 1].principal {
            Principal::Anyone => {
                assert(cur == prev);
                assert forall|i: int|
                    0 <= i < n && principal_key(#[trigger] records[i].principal) is Some implies
                    exists|k: int|
                    0 <= k < cur.len() && #[trigger] cur[k].sign_key == principal_key(
                        records[i].principal,
                    ).unwrap() by {
                    let k = choose|k: int|
                        0 <= k < prev.len() && #[trigger] prev[k].sign_key == principal_key(
                            records[i].principal,
                        ).unwrap();
                    assert(cur[k].sign_key == principal_key(records[i].principal).unwrap());
                }
            },
            Principal::Key(_) => {
                let x = access_view_of(records[n - 1], apps);
                assert(cur == prev.push(x));
                assert(x.sign_key == principal_key(records[n - 1].principal).unwrap());
                assert forall|i: int|
                    0 <= i < n && principal_key(#[trigger] records[i].principal) is Some implies
                    exists|k: int|
                    0 <= k < cur.len() && #[trigger] cur[k].sign_key == principal_key(
                        records[i].principal,
                    ).unwrap() by {
                    if i < n - 1 {
                        let k = choose|k: int|
                            0 <= k < prev.len() && #[trigger] prev[k].sign_key == principal_key(
                                records[i].principal,
                            ).unwrap();
                        assert(cur[k] == prev[k]);
                        assert(cur[k].sign_key == principal_key(records[i].principal).unwrap());
                    } else {
                        assert(cur[cur.len() - 1] == x);
                        assert(cur[cur.len() - 1].sign_key == principal_key(
                            records[i].principal,
                        ).unwrap());
                    }
                }
                assert forall|k1: int, k2: int|
                    0 <= k1 < k2 < cur.len() implies #[trigger] cur[k1].sign_key
                    != #[trigger] cur[k2].sign_key by {
                    if k2 == cur.len() - 1 {
                        assert(cur[k1] == prev[k1]);
                        let i = choose|i: int|
                            0 <= i < n - 1 && principal_key(#[trigger] records[i].principal)
                                == Option::Some(prev[k1].sign_key) && prev[k1] == access_view_of(
                                records[i],
                                apps,
                            );
                        assert(principal_key(records[i].principal) != principal_key(
                            records[n - 1].principal,
                        ));
                    } else {
                        assert(cur[k1] == prev[k1]);
                        assert(cur[k2] == prev[k2]);
                    }
                }
            },
        }
    }
}

} // verus!
