//! Config store accessor: the versioned registry of configured apps, read
//! as an atomic snapshot and written back under an optimistic version check.

use vstd::prelude::*;

use crate::types::{
    copy_record, record_equiv, records_equiv, AppRecord, AuthError,
};

verus! {

/// A snapshot of the app registry: the full record list together with the
/// version it was read at. Callers never mutate a snapshot in place; writes
/// go back through the store, conditioned on the version.
#[derive(Debug)]
pub struct ConfigRegistry {
    pub version: u64,
    pub apps: Vec<AppRecord>,
}

/// The authoritative versioned registry object. Externally this lives in a
/// network store; its consistency rule — a write must name the version that
/// follows the one it read, and is rejected once the store has advanced —
/// is modeled and enforced here.
#[derive(Debug)]
pub struct ConfigStore {
    pub version: u64,
    pub apps: Vec<AppRecord>,
}

/// Every app id occurs at most once.
pub open spec fn unique_ids(apps: Seq<AppRecord>) -> bool {
    forall|i: int, j: int|
        0 <= i < j < apps.len() ==> apps[i].info.id@ != apps[j].info.id@
}

/// Whether some record carries the given app id.
pub open spec fn has_app(apps: Seq<AppRecord>, id: Seq<char>) -> bool {
    exists|i: int| 0 <= i < apps.len() && apps[i].info.id@ == id
}

impl ConfigRegistry {
    /// Well-formedness: app ids are unique.
    pub open spec fn wf(&self) -> bool {
        unique_ids(self.apps@)
    }
}

impl ConfigStore {
    /// Well-formedness: app ids are unique.
    pub open spec fn wf(&self) -> bool {
        unique_ids(self.apps@)
    }

    /// An empty registry at version zero.
    pub fn new() -> (r: ConfigStore)
        ensures
            r.wf(),
            r.version == 0,
            r.apps@.len() == 0,
    {
        ConfigStore { version: 0, apps: Vec::new() }
    }

    /// Registers an app: appends its record and advances the version.
    /// Returns false and leaves the store unchanged when the id is already
    /// registered. Registration itself is driven from outside the
    /// reconciliation core; the store model offers it so that a registry
    /// can be populated at all.
    pub fn register_app(&mut self, record: AppRecord) -> (r: bool)
        requires
            old(self).wf(),
            old(self).version < u64::MAX,
        ensures
            final(self).wf(),
            r == !has_app(old(self).apps@, record.info.id@),
            r ==> final(self).apps@ == old(self).apps@.push(record)
                && final(self).version == old(self).version + 1,
            !r ==> *final(self) == *old(self),
    {
        if find_app(&self.apps, &record.info.id).is_some() {
            return false;
        }
        proof {
            assert forall|i: int, j: int|
                0 <= i < j < self.apps@.push(record).len() implies self.apps@.push(record)[i].info.id@
                != self.apps@.push(record)[j].info.id@ by {
                if j == self.apps@.len() as int {
                    assert(self.apps@[i].info.id@ != record.info.id@);
                }
            }
        }
        self.apps.push(record);
        self.version = self.version + 1;
        true
    }

    /// One atomic versioned read: the full registry and its version.
    pub fn list_apps(&self) -> (r: ConfigRegistry)
        ensures
            r.version == self.version,
            records_equiv(r.apps@, self.apps@),
            self.wf() ==> r.wf(),
    {
        let mut apps: Vec<AppRecord> = Vec::new();
        let mut i: usize = 0;
        while i < self.apps.len()
            invariant
                i <= self.apps.len(),
                apps@.len() == i,
                forall|j: int| 0 <= j < i ==> record_equiv(apps@[j], self.apps@[j]),
            decreases self.apps.len() - i,
        {
            apps.push(copy_record(&self.apps[i]));
            i = i + 1;
        }
        ConfigRegistry { version: self.version, apps }
    }

    /// Writes back the supplied snapshot with `app_id` removed, conditioned
    /// on `expected_next_version`. The app must be present in the snapshot
    /// (else `UnknownApp`, checked first), and the store must not have
    /// advanced past the snapshot (else `VersionConflict`); on success the
    /// store holds the snapshot minus the app, at the expected version.
    pub fn remove_app(
        &mut self,
        snapshot: &ConfigRegistry,
        expected_next_version: u64,
        app_id: &String,
    ) -> (r: Result<(), AuthError>)
        ensures
            remove_app_transition(
                *old(self),
                *final(self),
                *snapshot,
                expected_next_version,
                app_id@,
                r,
            ),
            old(self).wf() && snapshot.wf() ==> final(self).wf(),
    {
        if find_app(&snapshot.apps, app_id).is_none() {
            return Err(AuthError::UnknownApp);
        }
        if !(self.version < u64::MAX && expected_next_version == self.version + 1) {
            return Err(AuthError::VersionConflict);
        }
        let remaining = remove_record(&snapshot.apps, app_id);
        proof {
            if snapshot.wf() {
                lemma_removed_ids_unique(snapshot.apps@, app_id@, snapshot.apps@.len() as int);
                assert(unique_ids(remaining@)) by {
                    assert forall|i: int, j: int|
                        0 <= i < j < remaining@.len() implies remaining@[i].info.id@
                        != remaining@[j].info.id@ by {
                        let s = removed_upto(snapshot.apps@, app_id@, snapshot.apps@.len() as int);
                        assert(record_equiv(remaining@[i], s[i]));
                        assert(record_equiv(remaining@[j], s[j]));
                    }
                }
            }
        }
        self.apps = remaining;
        self.version = expected_next_version;
        Ok(())
    }
}

/// How one conditional removal write relates the store before the call to
/// the store after it. The cases are disjoint and cover every input.
pub open spec fn remove_app_transition(
    pre: ConfigStore,
    post: ConfigStore,
    snapshot: ConfigRegistry,
    expected_next_version: u64,
    id: Seq<char>,
    r: Result<(), AuthError>,
) -> bool {
    if !has_app(snapshot.apps@, id) {
        r == Err::<(), AuthError>(AuthError::UnknownApp) && post == pre
    } else if expected_next_version as int != pre.version as int + 1 {
        r == Err::<(), AuthError>(AuthError::VersionConflict) && post == pre
    } else {
        r == Ok::<(), AuthError>(())
            && post.version == expected_next_version
            && records_equiv(
                post.apps@,
                removed_upto(snapshot.apps@, id, snapshot.apps@.len() as int),
            )
    }
}

/// The first `n` records with every record carrying `id` left out.
pub open spec fn removed_upto(apps: Seq<AppRecord>, id: Seq<char>, n: int) -> Seq<AppRecord>
    decreases n,
{
    if n <= 0 {
        Seq::empty()
    } else {
        let rest = removed_upto(apps, id, n - 1);
        if apps[n - 1].info.id@ == id {
            rest
        } else {
            rest.push(apps[n - 1])
        }
    }
}

/// What removal keeps: the removed id is gone, every other id survives,
/// every kept record is one of the originals, and order is preserved as a
/// subsequence. Stated over the first `n` records.
pub proof fn lemma_removed_membership(apps: Seq<AppRecord>, id: Seq<char>, n: int)
    requires
        0 <= n <= apps.len(),
    ensures
        !has_app(removed_upto(apps, id, n), id),
        forall|x: Seq<char>|
            x != id ==> (has_app(removed_upto(apps, id, n), x) <==> has_app(apps.take(n), x)),
        forall|k: int|
            0 <= k < removed_upto(apps, id, n).len() ==> exists|i: int|
                0 <= i < n && #[trigger] removed_upto(apps, id, n)[k] == apps[i]
                    && apps[i].info.id@ != id,
    decreases n,
{
    if n > 0 {
        lemma_removed_membership(apps, id, n - 1);
        let prev = removed_upto(apps, id, n - 1);
        let cur = removed_upto(apps, id, n);
        assert forall|x: Seq<char>| x != id implies (has_app(cur, x) <==> has_app(
            apps.take(n),
            x,
        )) by {
            if has_app(apps.take(n), x) {
                let i = choose|i: int| 0 <= i < n && (#[trigger] apps.take(n)[i]).info.id@ == x;
                assert(apps.take(n)[i] == apps[i]);
                if i < n - 1 {
                    assert(apps.take(n - 1)[i] == apps[i]);
                    assert(has_app(apps.take(n - 1), x));
                    assert(has_app(prev, x));
                    let k = choose|k: int| 0 <= k < prev.len() && (#[trigger] prev[k]).info.id@ == x;
                    assert(cur[k] == prev[k]);
                    assert(has_app(cur, x));
                } else {
                    assert(apps[n - 1].info.id@ == x);
                    assert(cur[cur.len() - 1] == apps[n - 1]);
                    assert(has_app(cur, x));
                }
            }
            if has_app(cur, x) {
                let k = choose|k: int| 0 <= k < cur.len() && (#[trigger] cur[k]).info.id@ == x;
                if k < prev.len() {
                    assert(cur[k] == prev[k]);
                    assert(has_app(prev, x));
                    assert(has_app(apps.take(n - 1), x));
                    let i = choose|i: int|
                        0 <= i < n - 1 && (#[trigger] apps.take(n - 1)[i]).info.id@ == x;
                    assert(apps.take(n - 1)[i] == apps[i]);
                    assert(apps.take(n)[i] == apps[i]);
                    assert(has_app(apps.take(n), x));
                } else {
                    assert(cur[k] == apps[n - 1]);
                    assert(apps.take(n)[n - 1] == apps[n - 1]);
                    assert(has_app(apps.take(n), x));
                }
            }
        }
    }
}

/// Removal from a registry with unique ids keeps the ids unique.
pub proof fn lemma_removed_ids_unique(apps: Seq<AppRecord>, id: Seq<char>, n: int)
    requires
        0 <= n <= apps.len(),
        unique_ids(apps),
    ensures
        unique_ids(removed_upto(apps, id, n)),
        forall|k: int|
            0 <= k < removed_upto(apps, id, n).len() ==> exists|i: int|
                0 <= i < n && #[trigger] removed_upto(apps, id, n)[k] == apps[i],
    decreases n,
{
    lemma_removed_membership(apps, id, n);
    if n > 0 {
        lemma_removed_ids_unique(apps, id, n - 1);
        let prev = removed_upto(apps, id, n - 1);
        let cur = removed_upto(apps, id, n);
        if apps[n - 1].info.id@ != id {
            assert forall|i: int, j: int|
                0 <= i < j < cur.len() implies cur[i].info.id@ != cur[j].info.id@ by {
                if j == cur.len() - 1 {
                    let wi = choose|w: int| 0 <= w < n - 1 && prev[i] == apps[w];
                    assert(apps[wi].info.id@ != apps[n - 1].info.id@);
                }
            }
        }
    }
}

/// Finds the record carrying `app_id`. Returns the first matching index;
/// `None` exactly when no record matches.
pub fn find_app(apps: &Vec<AppRecord>, app_id: &String) -> (r: Option<usize>)
    ensures
        match r {
            Some(i) => i < apps@.len() && apps@[i as int].info.id@ == app_id@ && forall|j: int|
                0 <= j < i ==> apps@[j].info.id@ != app_id@,
            None => !has_app(apps@, app_id@),
        },
{
    let mut i: usize = 0;
    while i < apps.len()
        invariant
            i <= apps.len(),
            forall|j: int| 0 <= j < i ==> apps@[j].info.id@ != app_id@,
        decreases apps.len() - i,
    {
        if apps[i].info.id.eq(app_id) {
            return Some(i);
        }
        i = i + 1;
    }
    None
}

/// Builds the snapshot's record list with every record carrying `app_id`
/// left out, copying the kept records.
fn remove_record(apps: &Vec<AppRecord>, app_id: &String) -> (r: Vec<AppRecord>)
    ensures
        records_equiv(r@, removed_upto(apps@, app_id@, apps@.len() as int)),
{
    let mut out: Vec<AppRecord> = Vec::new();
    let mut i: usize = 0;
    while i < apps.len()
        invariant
            i <= apps.len(),
            records_equiv(out@, removed_upto(apps@, app_id@, i as int)),
        decreases apps.len() - i,
    {
        if !apps[i].info.id.eq(app_id) {
            out.push(copy_record(&apps[i]));
        }
        i = i + 1;
    }
    out
}

/// The version a registry write must name: the successor of the version
/// the snapshot was read at.
pub fn next_version(v: u64) -> (r: u64)
    requires
        v < u64::MAX,
    ensures
        r == v + 1,
{
    v + 1
}

} // verus!
