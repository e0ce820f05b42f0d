//! Revocation executor: one guarded transition per call. The target app is
//! classified against a registry snapshot; only an app classified
//! `Revoked` is removed, at the version following the snapshot's, so that
//! of two racing removals exactly one lands. Tearing the app's private
//! container down afterwards is the container layer's task: once the
//! registry write has landed the registry is authoritative, and a leftover
//! container is garbage to collect, not a consistency hazard.

use vstd::prelude::*;

use crate::classify::{classify, lift_entry, spec_classify, AppState};
use crate::config::{
    has_app, next_version, remove_app_transition, removed_upto, ConfigRegistry, ConfigStore,
};
use crate::types::{records_equiv, AccessContainerEntry, AuthError};

verus! {

/// Removes a revoked app from the registry. `snapshot` is the registry as
/// the caller listed it, `resolved` the resolution of the app's
/// access-container entry against that same snapshot. An app the snapshot
/// does not hold fails with `UnknownApp`; one still classified
/// `Authenticated` fails with `AppNotRevoked`; a revoked app is removed by
/// a write at the snapshot's next version, which fails with
/// `VersionConflict` — and changes nothing — when the store has advanced
/// past the snapshot. When the snapshot is current, the removal is owed:
/// the call returns `Ok` and the store holds the snapshot minus the app.
pub fn remove_revoked_app(
    store: &mut ConfigStore,
    snapshot: &ConfigRegistry,
    app_id: &String,
    resolved: Option<&AccessContainerEntry>,
) -> (r: Result<(), AuthError>)
    requires
        old(store).wf(),
        snapshot.wf(),
        snapshot.version < u64::MAX,
    ensures
        final(store).wf(),
        spec_classify(snapshot.apps@, app_id@, lift_entry(resolved)) == AppState::NotAuthenticated
            ==> r == Err::<(), AuthError>(AuthError::UnknownApp) && *final(store) == *old(store),
        spec_classify(snapshot.apps@, app_id@, lift_entry(resolved)) == AppState::Authenticated
            ==> r == Err::<(), AuthError>(AuthError::AppNotRevoked) && *final(store) == *old(
            store,
        ),
        spec_classify(snapshot.apps@, app_id@, lift_entry(resolved)) == AppState::Revoked
            ==> remove_app_transition(
            *old(store),
            *final(store),
            *snapshot,
            (snapshot.version + 1) as u64,
            app_id@,
            r,
        ),
        spec_classify(snapshot.apps@, app_id@, lift_entry(resolved)) == AppState::Revoked
            && snapshot.version == old(store).version ==> r == Ok::<(), AuthError>(())
            && final(store).version == snapshot.version + 1 && records_equiv(
            final(store).apps@,
            removed_upto(snapshot.apps@, app_id@, snapshot.apps@.len() as int),
        ),
{
    let state = classify(app_id, snapshot, resolved);
    match state {
        AppState::NotAuthenticated => Err(AuthError::UnknownApp),
        AppState::Authenticated => Err(AuthError::AppNotRevoked),
        AppState::Revoked => store.remove_app(snapshot, next_version(snapshot.version), app_id),
    }
}

/// Law: two removals of the same app racing from the same snapshot
/// converge safely — the first write lands and the second observes
/// `VersionConflict` and changes nothing, so there is exactly one success
/// and no silent data loss. Stated over the store transition both calls
/// are bound to: `s0` is the store both snapshots were read from, `s1` the
/// store after the first call, `s2` after the second.
pub proof fn lemma_revocation_race(
    s0: ConfigStore,
    s1: ConfigStore,
    s2: ConfigStore,
    snapshot: ConfigRegistry,
    id: Seq<char>,
    expected: u64,
    r1: Result<(), AuthError>,
    r2: Result<(), AuthError>,
)
    requires
        has_app(snapshot.apps@, id),
        expected as int == s0.version as int + 1,
        remove_app_transition(s0, s1, snapshot, expected, id, r1),
        remove_app_transition(s1, s2, snapshot, expected, id, r2),
    ensures
        r1 == Ok::<(), AuthError>(()),
        r2 == Err::<(), AuthError>(AuthError::VersionConflict),
        s2 == s1,
{
}

} // verus!
