//! App state classifier: the one three-way rule that decides what an app's
//! joint registry / access-container state means. The revocation executor
//! and the query engine both go through this function, so the listings and
//! the mutating path can never disagree on what "revoked" means.

use vstd::prelude::*;

use crate::config::{find_app, has_app, ConfigRegistry};
use crate::types::{AccessContainerEntry, AppRecord};

verus! {

/// The derived state of one app. It is computed, never stored.
#[derive(Clone, Copy, PartialEq, Eq, Structural, Debug)]
pub enum AppState {
    /// The app id is absent from the config registry.
    NotAuthenticated,
    /// The app is in the registry and its access-container entry resolved
    /// to a non-empty set of grants.
    Authenticated,
    /// The app is in the registry, but its access-container entry is
    /// absent, was emptied, or resolved to an empty set of grants.
    Revoked,
}

/// The classification rule. `resolved` is what the access-container
/// resolution produced for this app: `None` when the entry was absent or
/// its stored content empty, otherwise the decrypted entry.
pub open spec fn spec_classify(
    apps: Seq<AppRecord>,
    id: Seq<char>,
    resolved: Option<AccessContainerEntry>,
) -> AppState {
    if !has_app(apps, id) {
        AppState::NotAuthenticated
    } else {
        match resolved {
            Option::None => AppState::Revoked,
            Option::Some(e) => if e.grants@.len() == 0 {
                AppState::Revoked
            } else {
                AppState::Authenticated
            },
        }
    }
}

/// Lifts a borrowed resolution result to the form the rule is stated over.
pub open spec fn lift_entry(resolved: Option<&AccessContainerEntry>) -> Option<
    AccessContainerEntry,
> {
    match resolved {
        Option::None => Option::None,
        Option::Some(e) => Option::Some(*e),
    }
}

/// Classifies one app against a registry snapshot and the resolution of
/// its access-container entry.
pub fn classify(
    app_id: &String,
    registry: &ConfigRegistry,
    resolved: Option<&AccessContainerEntry>,
) -> (s: AppState)
    ensures
        s == spec_classify(registry.apps@, app_id@, lift_entry(resolved)),
{
    if find_app(&registry.apps, app_id).is_none() {
        AppState::NotAuthenticated
    } else {
        match resolved {
            None => AppState::Revoked,
            Some(e) => if e.grants.len() == 0 {
                AppState::Revoked
            } else {
                AppState::Authenticated
            },
        }
    }
}

/// Law: an app id that is not in the registry is classified
/// `NotAuthenticated`, whatever the access container held for it.
pub proof fn lemma_classify_unregistered(
    apps: Seq<AppRecord>,
    id: Seq<char>,
    resolved: Option<AccessContainerEntry>,
)
    requires
        !has_app(apps, id),
    ensures
        spec_classify(apps, id, resolved) == AppState::NotAuthenticated,
{
}

/// Law: an app id that is in the registry is classified `Revoked` exactly
/// when its entry is absent, was emptied, or decrypted to an empty grant
/// set; on every other resolution it is classified `Authenticated`.
pub proof fn lemma_classify_registered(
    apps: Seq<AppRecord>,
    id: Seq<char>,
    resolved: Option<AccessContainerEntry>,
)
    requires
        has_app(apps, id),
    ensures
        (spec_classify(apps, id, resolved) == AppState::Revoked) <==> (resolved is None
            || resolved.unwrap().grants@.len() == 0),
        (spec_classify(apps, id, resolved) == AppState::Authenticated) <==> (resolved is Some
            && resolved.unwrap().grants@.len() > 0),
        spec_classify(apps, id, resolved) != AppState::NotAuthenticated,
{
}

} // verus!
