//! The commit coordinator: one logical commit attempt on top of whichever
//! strategy is configured.
//!
//! The coordinator determines the candidate version from the latest
//! pointer, claims the candidate exclusively — by the store's
//! create-if-absent record or by a per-version lease — writes the manifest
//! to the canonical path, and reports the committed version.  Against the
//! in-process backends of this crate the claim is proved uncontended, so
//! no retry is ever needed; the retry and conflict-resolution loop for
//! remote backends, whose answers arrive as events, lives in the planner.

use vstd::prelude::*;

use crate::errors::CommitError;
use crate::lock::LockService;
use crate::objects::{object_at, ObjectStore};
use crate::paths::{manifest_path, spec_manifest_path};
use crate::store::{
    latest, lemma_latest_push, lemma_lookup_above_latest, lemma_lookup_push, lookup, EntryModel,
    ManifestStore,
};

verus! {

/// What a successful commit reports to its caller: the version that was
/// durably claimed and the object the manifest went to.
#[derive(Debug)]
pub struct CommittedManifest {
    pub version: u64,
    pub path: String,
    pub size: u64,
    pub e_tag: Option<String>,
}

/// The candidate a commit attempt targets: one past the latest committed
/// version, or the first version of a dataset never committed.
pub open spec fn spec_next_version(s: Seq<EntryModel>, base: Seq<char>) -> int {
    match latest(s, base) {
        None => 1,
        Some(m) => m + 1,
    }
}

/// The record one successful commit appends for its dataset.
pub open spec fn spec_commit_record(
    s: Seq<EntryModel>,
    base: Seq<char>,
    size: u64,
    e_tag: Option<Seq<char>>,
) -> EntryModel {
    EntryModel {
        base_uri: base,
        version: spec_next_version(s, base) as u64,
        path: spec_manifest_path(base, spec_next_version(s, base) as u64),
        size,
        e_tag,
    }
}

/// One successful commit at spec level.
pub open spec fn apply_commit(
    s: Seq<EntryModel>,
    base: Seq<char>,
    size: u64,
    e_tag: Option<Seq<char>>,
) -> Seq<EntryModel> {
    s.push(spec_commit_record(s, base, size, e_tag))
}

/// Commits `manifest` as the next version of `base_uri` through the
/// store strategy: the manifest bytes go to the canonical path first —
/// that write need not be atomic — and the version is then durably
/// claimed by the store's create-if-absent record.  The claim on the
/// next version of a store this attempt holds exclusively is proved
/// uncontended, so the result is always a commit of exactly
/// `latest + 1`.
pub fn commit(
    store: &mut ManifestStore,
    objects: &mut ObjectStore,
    base_uri: &str,
    manifest: &Vec<u8>,
) -> (r: Result<CommittedManifest, CommitError>)
    requires
        old(store).wf(),
        spec_next_version(old(store)@, base_uri@) <= u64::MAX,
        manifest@.len() <= u64::MAX,
    ensures
        final(store).wf(),
        ({
            let v = spec_next_version(old(store)@, base_uri@) as u64;
            let pathv = spec_manifest_path(base_uri@, v);
            r matches Ok(c) && c.version == v && c.path@ == pathv && c.size == manifest@.len()
                && c.e_tag is None && final(store)@ == apply_commit(
                old(store)@,
                base_uri@,
                manifest@.len() as u64,
                None,
            ) && latest(final(store)@, base_uri@) == Some(v) && object_at(final(objects)@, pathv)
                == Some(manifest@) && forall|p: Seq<char>|
                p != pathv ==> #[trigger] object_at(final(objects)@, p) == object_at(
                    old(objects)@,
                    p,
                )
        }),
{
    let candidate: u64 = match store.get_latest_version(base_uri) {
        Ok(None) => 1,
        Ok(Some(vp)) => vp.0 + 1,
        Err(e) => {
            proof {
                assert(false);
            }
            return Err(e);
        },
    };
    let path = manifest_path(base_uri, candidate);
    let wrote = objects.write(path.as_str(), manifest);
    proof {
        lemma_lookup_above_latest(store@, base_uri@, candidate);
    }
    let put = store.put_if_not_exists(base_uri, candidate, path.as_str(), wrote.0, wrote.1);
    match put {
        Ok(_) => {
            proof {
                lemma_latest_push(
                    old(store)@,
                    base_uri@,
                    spec_commit_record(old(store)@, base_uri@, manifest@.len() as u64, None),
                );
            }
            Ok(CommittedManifest { version: candidate, path, size: wrote.0, e_tag: None })
        },
        Err(e) => {
            proof {
                assert(false);
            }
            Err(e)
        },
    }
}

/// Updates a mutable alias record through the store's
/// compare-and-swap-update, supplying the expected current path.  A
/// mismatch — the record is gone, or no longer holds the expected path —
/// is `Conflict` and is not retried here: the caller must re-derive the
/// expected state.  Never used for immutable version entries.
pub fn update_alias(
    store: &mut ManifestStore,
    base_uri: &str,
    version: u64,
    expected_path: &str,
    path: &str,
    size: u64,
    e_tag: Option<String>,
) -> (r: Result<(), CommitError>)
    requires
        old(store).wf(),
    ensures
        final(store).wf(),
        match r {
            Ok(_) => (lookup(old(store)@, base_uri@, version) matches Some(e) && e.path
                == expected_path@) && exists|i: int|
                0 <= i < old(store)@.len() && old(store)@[i].base_uri == base_uri@ && old(
                    store,
                )@[i].version == version && final(store)@ == old(store)@.update(
                    i,
                    (EntryModel {
                        base_uri: base_uri@,
                        version,
                        path: path@,
                        size,
                        e_tag: crate::store::etag_view(e_tag),
                    }),
                ),
            Err(e) => e == CommitError::Conflict && final(store)@ == old(store)@ && !(lookup(
                old(store)@,
                base_uri@,
                version,
            ) matches Some(en) && en.path == expected_path@),
        },
{
    let expected = String::from_str(expected_path);
    match store.get(base_uri, version) {
        Err(_) => Err(CommitError::Conflict),
        Ok(current) => {
            if current == expected {
                match store.put_if_exists(base_uri, version, path, size, e_tag) {
                    Ok(_) => Ok(()),
                    Err(e) => {
                        proof {
                            assert(false);
                        }
                        Err(e)
                    },
                }
            } else {
                Err(CommitError::Conflict)
            }
        },
    }
}

/// A run of successful commits at spec level; each op holds the size and
/// ETag one manifest write reported.
pub open spec fn apply_commits(
    s: Seq<EntryModel>,
    base: Seq<char>,
    ops: Seq<(u64, Option<Seq<char>>)>,
) -> Seq<EntryModel>
    decreases ops.len(),
{
    if ops.len() == 0 {
        s
    } else {
        apply_commits(apply_commit(s, base, ops[0].0, ops[0].1), base, ops.drop_first())
    }
}

/// What any run of successful commits leaves behind: the latest pointer
/// names exactly the last commit; the committed versions are contiguous,
/// with no gaps and none above the latest; records committed before the
/// run are never altered; and every new version's record reads back with
/// the canonical path its own commit wrote, and the size and ETag that
/// commit reported.
pub proof fn lemma_commit_sequence(
    s: Seq<EntryModel>,
    base: Seq<char>,
    ops: Seq<(u64, Option<Seq<char>>)>,
    k: u64,
)
    requires
        latest(s, base) == if k == 0 {
            None::<u64>
        } else {
            Some(k)
        },
        k + ops.len() <= u64::MAX,
    ensures
        ({
            let sn = apply_commits(s, base, ops);
            &&& latest(sn, base) == if k + ops.len() == 0 {
                None::<u64>
            } else {
                Some((k + ops.len()) as u64)
            }
            &&& forall|v: u64| v <= k ==> #[trigger] lookup(sn, base, v) == lookup(s, base, v)
            &&& forall|v: u64|
                k < v <= k + ops.len() ==> (#[trigger] lookup(sn, base, v) matches Some(e)
                    && e.base_uri == base && e.version == v && e.path == spec_manifest_path(
                    base,
                    v,
                ) && e.size == ops[v - k - 1].0 && e.e_tag == ops[v - k - 1].1)
            &&& forall|v: u64| v > k + ops.len() ==> #[trigger] lookup(sn, base, v) is None
        }),
    decreases ops.len(),
{
    let sn = apply_commits(s, base, ops);
    if ops.len() == 0 {
        assert forall|v: u64| v > k + ops.len() implies #[trigger] lookup(sn, base, v)
            is None by {
            lemma_lookup_above_latest(s, base, v);
        }
    } else {
        let rec = spec_commit_record(s, base, ops[0].0, ops[0].1);
        let s1 = apply_commit(s, base, ops[0].0, ops[0].1);
        assert(spec_next_version(s, base) == k + 1);
        lemma_latest_push(s, base, rec);
        assert(latest(s1, base) == Some((k + 1) as u64));
        lemma_commit_sequence(s1, base, ops.drop_first(), (k + 1) as u64);
        let snr = apply_commits(s1, base, ops.drop_first());
        assert(sn == snr);
        assert forall|v: u64| v <= k implies #[trigger] lookup(sn, base, v) == lookup(
            s,
            base,
            v,
        ) by {
            lemma_lookup_push(s, base, v, rec);
            assert(lookup(sn, base, v) == lookup(s1, base, v));
        }
        assert forall|v: u64|
            k < v <= k + ops.len() implies (#[trigger] lookup(sn, base, v) matches Some(e)
            && e.base_uri == base && e.version == v && e.path == spec_manifest_path(base, v)
            && e.size == ops[v - k - 1].0 && e.e_tag == ops[v - k - 1].1) by {
            if v == k + 1 {
                lemma_lookup_above_latest(s, base, v);
                lemma_lookup_push(s, base, v, rec);
                assert(lookup(s1, base, v) == Some(rec));
                assert(lookup(sn, base, v) == lookup(s1, base, v));
            } else {
                assert(ops.drop_first()[v - (k + 1) - 1] == ops[v - k - 1]);
            }
        }
        assert forall|v: u64| v > k + ops.len() implies #[trigger] lookup(sn, base, v)
            is None by {
            assert(v > (k + 1) + ops.drop_first().len());
        }
    }
}

/// Commits `manifest` as `version` of `base_uri` through the lock
/// strategy: a lease on the version is acquired from the
/// mutual-exclusion service, the manifest is durably written to the
/// canonical path — overwrite is safe because the lease guarantees
/// exclusivity — and the lease is released exactly once with
/// `success = true`.  A denied lease surfaces `Conflict` with nothing
/// written; the caller then re-reads the durable state and advances its
/// candidate.
pub fn commit_with_lock(
    lock: &mut LockService,
    objects: &mut ObjectStore,
    base_uri: &str,
    version: u64,
    manifest: &Vec<u8>,
) -> (r: Result<CommittedManifest, CommitError>)
    requires
        old(lock).wf(),
        manifest@.len() <= u64::MAX,
    ensures
        final(lock).wf(),
        ({
            let pathv = spec_manifest_path(base_uri@, version);
            match r {
                Ok(c) => !old(lock)@.held.contains(version) && !old(lock)@.committed.contains(
                    version,
                ) && c.version == version && c.path@ == pathv && c.size == manifest@.len()
                    && c.e_tag is None && object_at(final(objects)@, pathv) == Some(manifest@) && (
                forall|p: Seq<char>|
                    p != pathv ==> #[trigger] object_at(final(objects)@, p) == object_at(
                        old(objects)@,
                        p,
                    )) && final(lock)@.committed == old(lock)@.committed.push(version) && (forall|
                    w: u64,
                | #[trigger]
                    final(lock)@.held.contains(w) <==> old(lock)@.held.contains(w) && w != version),
                Err(e) => e == CommitError::Conflict && (old(lock)@.held.contains(version) || old(
                    lock,
                )@.committed.contains(version)) && final(lock)@ == old(lock)@ && final(objects)@
                    == old(objects)@,
            }
        }),
{
    let lease = match lock.acquire(version) {
        Ok(lease) => lease,
        Err(_) => {
            return Err(CommitError::Conflict);
        },
    };
    let path = manifest_path(base_uri, version);
    let wrote = objects.write(path.as_str(), manifest);
    proof {
        assert(lock@.held[old(lock)@.held.len() as int] == version);
        assert(lock@.held.contains(version));
    }
    match lock.release(lease, true) {
        Ok(_) => {
            proof {
                assert forall|w: u64| #[trigger]
                    final(lock)@.held.contains(w) <==> (old(lock)@.held.contains(w) && w
                        != version) by {
                    if w != version {
                        if old(lock)@.held.contains(w) {
                            let i = choose|i: int|
                                0 <= i < old(lock)@.held.len() && old(lock)@.held[i] == w;
                            assert(old(lock)@.held.push(version)[i] == w);
                            assert(old(lock)@.held.push(version).contains(w));
                        }
                        if old(lock)@.held.push(version).contains(w) {
                            let i = choose|i: int|
                                0 <= i < old(lock)@.held.push(version).len() && old(
                                    lock,
                                )@.held.push(version)[i] == w;
                            assert(old(lock)@.held[i] == w);
                        }
                    }
                }
            }
            Ok(CommittedManifest { version, path, size: wrote.0, e_tag: None })
        },
        Err(e) => {
            proof {
                assert(false);
            }
            Err(e)
        },
    }
}

} // verus!
