use manifest_commit::errors::{classify_fault, CommitError, RawFault};
use manifest_commit::paths::{manifest_path, version_uri};
use manifest_commit::store::ManifestStore;

#[test]
fn put_then_get_round_trip() {
    let mut store = ManifestStore::new();
    store
        .put_if_not_exists("b", 3, "p3", 100, Some("e3".to_string()))
        .unwrap();
    assert_eq!(store.get("b", 3).unwrap(), "p3");
}

#[test]
fn replay_put_conflicts_and_preserves_record() {
    let mut store = ManifestStore::new();
    store
        .put_if_not_exists("b", 3, "p3", 100, Some("e3".to_string()))
        .unwrap();
    let replay = store.put_if_not_exists("b", 3, "other", 7, None);
    assert_eq!(replay, Err(CommitError::Conflict));
    assert_eq!(store.get("b", 3).unwrap(), "p3");
    let latest = store.get_latest_version("b").unwrap();
    assert_eq!(latest, Some((3, "p3".to_string())));
}

#[test]
fn exactly_one_put_wins_for_a_version() {
    let mut store = ManifestStore::new();
    let attempts = ["pa", "pb", "pc"];
    let mut wins = 0;
    let mut conflicts = 0;
    for p in attempts {
        match store.put_if_not_exists("b", 1, p, 10, None) {
            Ok(()) => wins += 1,
            Err(e) => {
                assert!(e.is_conflict());
                conflicts += 1;
            }
        }
    }
    assert_eq!(wins, 1);
    assert_eq!(conflicts, 2);
    assert_eq!(store.get("b", 1).unwrap(), "pa");
}

#[test]
fn loser_advances_to_next_version() {
    let mut store = ManifestStore::new();
    for v in 1..=4u64 {
        store
            .put_if_not_exists("b", v, &format!("p{}", v), v, None)
            .unwrap();
    }
    // A and B race for version 5; A's record lands first.
    store.put_if_not_exists("b", 5, "pathA", 50, None).unwrap();
    let b_first = store.put_if_not_exists("b", 5, "pathB", 51, None);
    assert_eq!(b_first, Err(CommitError::Conflict));
    // B re-reads the latest pointer, observes A's commit, and advances.
    let observed = store.get_latest_version("b").unwrap();
    assert_eq!(observed, Some((5, "pathA".to_string())));
    let retry_version = observed.unwrap().0 + 1;
    assert_eq!(retry_version, 6);
    store
        .put_if_not_exists("b", retry_version, "pathB", 51, None)
        .unwrap();
    // Final state: versions 1..=6 committed, no gaps.
    for v in 1..=6u64 {
        assert!(store.get("b", v).is_ok());
    }
    assert_eq!(
        store.get_latest_version("b").unwrap(),
        Some((6, "pathB".to_string()))
    );
}

#[test]
fn get_absent_version_is_not_found_never_internal() {
    let mut store = ManifestStore::new();
    for v in 1..=6u64 {
        store
            .put_if_not_exists("b", v, &format!("p{}", v), v, None)
            .unwrap();
    }
    let missing = store.get("b", 99);
    match missing {
        Err(e) => {
            assert!(e.is_not_found());
            assert!(!e.is_internal());
            assert_eq!(e, CommitError::NotFound { uri: "b@99".to_string() });
        }
        Ok(_) => panic!("a record that was never committed was returned"),
    }
}

#[test]
fn get_latest_of_empty_dataset_is_none() {
    let store = ManifestStore::new();
    assert_eq!(store.get_latest_version("b").unwrap(), None);
}

#[test]
fn datasets_are_independent() {
    let mut store = ManifestStore::new();
    store.put_if_not_exists("b", 1, "pb1", 1, None).unwrap();
    store.put_if_not_exists("c", 1, "pc1", 2, None).unwrap();
    store.put_if_not_exists("c", 2, "pc2", 3, None).unwrap();
    assert_eq!(store.get_latest_version("b").unwrap(), Some((1, "pb1".to_string())));
    assert_eq!(store.get_latest_version("c").unwrap(), Some((2, "pc2".to_string())));
}

#[test]
fn delete_removes_one_dataset_only() {
    let mut store = ManifestStore::new();
    store.put_if_not_exists("b", 1, "pb1", 1, None).unwrap();
    store.put_if_not_exists("b", 2, "pb2", 2, None).unwrap();
    store.put_if_not_exists("c", 1, "pc1", 3, None).unwrap();
    store.delete("b").unwrap();
    assert!(store.get("b", 1).unwrap_err().is_not_found());
    assert!(store.get("b", 2).unwrap_err().is_not_found());
    assert_eq!(store.get_latest_version("b").unwrap(), None);
    assert_eq!(store.get("c", 1).unwrap(), "pc1");
}

#[test]
fn put_if_exists_updates_only_present_keys() {
    let mut store = ManifestStore::new();
    let absent = store.put_if_exists("b", 1, "p", 1, None);
    assert_eq!(absent, Err(CommitError::Conflict));
    store.put_if_not_exists("b", 1, "old", 1, None).unwrap();
    store.put_if_exists("b", 1, "new", 2, Some("e2".to_string())).unwrap();
    assert_eq!(store.get("b", 1).unwrap(), "new");
}

#[test]
fn classifier_maps_raw_faults_into_the_closed_taxonomy() {
    assert_eq!(classify_fault(RawFault::ConflictSignal), CommitError::Conflict);
    assert_eq!(
        classify_fault(RawFault::MissingKey { uri: "b@9".to_string() }),
        CommitError::NotFound { uri: "b@9".to_string() }
    );
    assert_eq!(
        classify_fault(RawFault::Other { message: "socket closed".to_string() }),
        CommitError::Internal { message: "socket closed".to_string() }
    );
}

#[test]
fn canonical_names_render_in_decimal() {
    assert_eq!(version_uri("b", 0), "b@0");
    assert_eq!(version_uri("b", 99), "b@99");
    assert_eq!(version_uri("data/x", 18446744073709551615), "data/x@18446744073709551615");
    assert_eq!(manifest_path("b", 10), "b/_versions/10.manifest");
    assert_eq!(manifest_path("b", 1), "b/_versions/1.manifest");
}

#[test]
fn latest_is_the_maximum_over_out_of_order_puts() {
    let mut store = ManifestStore::new();
    store.put_if_not_exists("b", 2, "p2", 2, None).unwrap();
    store.put_if_not_exists("b", 5, "p5", 5, None).unwrap();
    store.put_if_not_exists("b", 3, "p3", 3, None).unwrap();
    assert_eq!(store.get_latest_version("b").unwrap(), Some((5, "p5".to_string())));
}
