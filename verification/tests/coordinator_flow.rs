use manifest_commit::coordinator::{commit, commit_with_lock, update_alias};
use manifest_commit::errors::CommitError;
use manifest_commit::lock::LockService;
use manifest_commit::objects::ObjectStore;
use manifest_commit::store::ManifestStore;

#[test]
fn commit_assigns_contiguous_versions_and_latest_tracks_them() {
    let mut store = ManifestStore::new();
    let mut objects = ObjectStore::new();
    for i in 1..=3u64 {
        let manifest = vec![i as u8; i as usize];
        let c = commit(&mut store, &mut objects, "b", &manifest).unwrap();
        assert_eq!(c.version, i);
        assert_eq!(c.path, format!("b/_versions/{}.manifest", i));
        assert_eq!(c.size, i);
        let latest = store.get_latest_version("b").unwrap();
        assert_eq!(latest, Some((i, c.path.clone())));
        assert_eq!(objects.read(&c.path).unwrap(), manifest);
    }
    for v in 1..=3u64 {
        assert_eq!(
            store.get("b", v).unwrap(),
            format!("b/_versions/{}.manifest", v)
        );
    }
}

#[test]
fn commits_to_different_datasets_never_contend() {
    let mut store = ManifestStore::new();
    let mut objects = ObjectStore::new();
    let cb = commit(&mut store, &mut objects, "b", &vec![1]).unwrap();
    let cc = commit(&mut store, &mut objects, "c", &vec![2]).unwrap();
    assert_eq!(cb.version, 1);
    assert_eq!(cc.version, 1);
    assert_eq!(store.get("b", 1).unwrap(), "b/_versions/1.manifest");
    assert_eq!(store.get("c", 1).unwrap(), "c/_versions/1.manifest");
}

#[test]
fn stale_lease_for_committed_version_is_denied() {
    let mut lock = LockService::new();
    let mut objects = ObjectStore::new();
    // A acquires a lease for version 7, writes the manifest, releases
    // with success.
    let a = commit_with_lock(&mut lock, &mut objects, "b", 7, &vec![7, 7]).unwrap();
    assert_eq!(a.version, 7);
    assert_eq!(a.path, "b/_versions/7.manifest");
    // B's later acquire attempt for version 7 must fail: the version is
    // already durably committed, so B advances to version 8 instead of
    // being granted the stale lease.
    assert!(lock.acquire(7).is_err());
    let b = commit_with_lock(&mut lock, &mut objects, "b", 7, &vec![8]);
    assert_eq!(b.unwrap_err(), CommitError::Conflict);
    assert_eq!(objects.read("b/_versions/7.manifest").unwrap(), vec![7, 7]);
    let b2 = commit_with_lock(&mut lock, &mut objects, "b", 8, &vec![8]).unwrap();
    assert_eq!(b2.version, 8);
}

#[test]
fn failed_release_frees_the_version_for_retry() {
    let mut lock = LockService::new();
    let lease = lock.acquire(5).unwrap();
    assert_eq!(lease.held_version(), 5);
    // While held, a second attempt is denied.
    assert!(lock.acquire(5).is_err());
    // Released without success: the version may be claimed again.
    lock.release(lease, false).unwrap();
    let again = lock.acquire(5).unwrap();
    lock.release(again, true).unwrap();
    // Released with success: claimed forever.
    assert!(lock.acquire(5).is_err());
}

#[test]
fn alias_update_is_compare_and_swap() {
    let mut store = ManifestStore::new();
    store.put_if_not_exists("b", 1, "old", 1, None).unwrap();
    // The expected state no longer matches: conflict, nothing changes.
    let stale = update_alias(&mut store, "b", 1, "elsewhere", "new", 2, None);
    assert_eq!(stale, Err(CommitError::Conflict));
    assert_eq!(store.get("b", 1).unwrap(), "old");
    // A missing record is a conflict too, not a fault.
    let missing = update_alias(&mut store, "b", 9, "old", "new", 2, None);
    assert_eq!(missing, Err(CommitError::Conflict));
    // The expected state matches: the alias moves.
    update_alias(&mut store, "b", 1, "old", "new", 2, None).unwrap();
    assert_eq!(store.get("b", 1).unwrap(), "new");
}

#[test]
fn object_store_overwrites_and_deletes_idempotently() {
    let mut objects = ObjectStore::new();
    let (size, e_tag) = objects.write("p", &vec![1, 2, 3]);
    assert_eq!(size, 3);
    assert!(e_tag.is_none());
    assert_eq!(objects.read("p").unwrap(), vec![1, 2, 3]);
    let (size2, _) = objects.write("p", &vec![9]);
    assert_eq!(size2, 1);
    assert_eq!(objects.read("p").unwrap(), vec![9]);
    objects.delete("p").unwrap();
    assert!(objects.read("p").unwrap_err().is_not_found());
    // Deleting an absent object is not an error.
    objects.delete("p").unwrap();
}
