use manifest_commit::errors::CommitError;
use manifest_commit::planner::{
    LockAction, LockCommitPlanner, LockEvent, StoreAction, StoreCommitPlanner, StoreEvent,
};

#[test]
fn store_planner_retries_a_lost_race_and_wins_the_next_version() {
    let (mut planner, first) = StoreCommitPlanner::start("b", 2, 1);
    assert!(matches!(first, StoreAction::ReadLatest));

    // The pointer reads 4: the candidate is 5.
    let a = planner.step(StoreEvent::Latest { version: Some(4) });
    match a {
        StoreAction::WriteObject { version, ref path } => {
            assert_eq!(version, 5);
            assert_eq!(path, "b/_versions/5.manifest");
        }
        _ => panic!("the planner did not ask for the object write"),
    }
    let a = planner.step(StoreEvent::ObjectWritten { size: 10, e_tag: None });
    match a {
        StoreAction::PutRecord { version, ref path, size, ref e_tag } => {
            assert_eq!(version, 5);
            assert_eq!(path, "b/_versions/5.manifest");
            assert_eq!(size, 10);
            assert!(e_tag.is_none());
        }
        _ => panic!("the planner did not ask for the record"),
    }
    // Another writer won version 5: clean the orphan up, re-read, advance.
    let a = planner.step(StoreEvent::Fault { error: CommitError::Conflict });
    match a {
        StoreAction::CleanupObject { ref path } => assert_eq!(path, "b/_versions/5.manifest"),
        _ => panic!("the planner did not ask for cleanup"),
    }
    let a = planner.step(StoreEvent::CleanupDone);
    assert!(matches!(a, StoreAction::ReadLatest));
    let a = planner.step(StoreEvent::Latest { version: Some(5) });
    match a {
        StoreAction::WriteObject { version, .. } => assert_eq!(version, 6),
        _ => panic!("the planner did not advance the candidate"),
    }
    let _ = planner.step(StoreEvent::ObjectWritten { size: 10, e_tag: Some("e".to_string()) });
    let a = planner.step(StoreEvent::PutDone);
    match a {
        StoreAction::Finish { result } => {
            let c = result.unwrap();
            assert_eq!(c.version, 6);
            assert_eq!(c.path, "b/_versions/6.manifest");
            assert_eq!(c.size, 10);
            assert_eq!(c.e_tag, Some("e".to_string()));
        }
        _ => panic!("the planner did not finish"),
    }
}

#[test]
fn store_planner_surfaces_conflict_when_the_budget_is_gone() {
    let (mut planner, _) = StoreCommitPlanner::start("b", 0, 0);
    let _ = planner.step(StoreEvent::Latest { version: None });
    let _ = planner.step(StoreEvent::ObjectWritten { size: 1, e_tag: None });
    let a = planner.step(StoreEvent::Fault { error: CommitError::Conflict });
    match a {
        StoreAction::Finish { result } => assert_eq!(result.unwrap_err(), CommitError::Conflict),
        _ => panic!("an exhausted attempt must finish"),
    }
}

#[test]
fn store_planner_retries_transient_faults_then_surfaces_them_unchanged() {
    let (mut planner, _) = StoreCommitPlanner::start("b", 0, 1);
    let fault = CommitError::Internal { message: "timeout".to_string() };
    // One transient retry of the same read.
    let a = planner.step(StoreEvent::Fault { error: fault.clone() });
    assert!(matches!(a, StoreAction::ReadLatest));
    // The budget is gone: the fault surfaces unchanged.
    let a = planner.step(StoreEvent::Fault { error: fault.clone() });
    match a {
        StoreAction::Finish { result } => assert_eq!(result.unwrap_err(), fault),
        _ => panic!("an exhausted attempt must finish"),
    }
}

#[test]
fn lock_planner_releases_exactly_once_on_the_happy_path() {
    let (mut planner, first) = LockCommitPlanner::start("b", 1, 0);
    assert!(matches!(first, LockAction::ReadLatest));
    let a = planner.step(LockEvent::Latest { version: Some(6) });
    assert!(matches!(a, LockAction::AcquireLease { version: 7 }));
    let a = planner.step(LockEvent::LeaseGranted);
    match a {
        LockAction::WriteObject { version, ref path } => {
            assert_eq!(version, 7);
            assert_eq!(path, "b/_versions/7.manifest");
        }
        _ => panic!("the planner did not write under the lease"),
    }
    let a = planner.step(LockEvent::ObjectWritten { size: 3, e_tag: None });
    assert!(matches!(a, LockAction::ReleaseLease { success: true }));
    let a = planner.step(LockEvent::Released);
    match a {
        LockAction::Finish { result } => {
            let c = result.unwrap();
            assert_eq!(c.version, 7);
            assert_eq!(c.path, "b/_versions/7.manifest");
            assert_eq!(c.size, 3);
        }
        _ => panic!("the planner did not finish"),
    }
}

#[test]
fn lock_planner_releases_without_success_on_a_write_fault() {
    let (mut planner, _) = LockCommitPlanner::start("b", 0, 0);
    let _ = planner.step(LockEvent::Latest { version: None });
    let _ = planner.step(LockEvent::LeaseGranted);
    let fault = CommitError::Internal { message: "disk full".to_string() };
    // The write failed: the lease is still released, with success = false,
    // and the fault surfaces without retry.
    let a = planner.step(LockEvent::Fault { error: fault.clone() });
    assert!(matches!(a, LockAction::ReleaseLease { success: false }));
    let a = planner.step(LockEvent::Released);
    match a {
        LockAction::Finish { result } => assert_eq!(result.unwrap_err(), fault),
        _ => panic!("the planner did not surface the write fault"),
    }
}

#[test]
fn lock_planner_advances_past_a_denied_lease() {
    let (mut planner, _) = LockCommitPlanner::start("b", 1, 0);
    let _ = planner.step(LockEvent::Latest { version: Some(6) });
    // Version 7 is already claimed: re-read and advance.
    let a = planner.step(LockEvent::Fault { error: CommitError::Conflict });
    assert!(matches!(a, LockAction::ReadLatest));
    let a = planner.step(LockEvent::Latest { version: Some(7) });
    assert!(matches!(a, LockAction::AcquireLease { version: 8 }));
}

#[test]
fn store_planner_retries_the_same_put_after_a_transient_fault() {
    let (mut planner, _) = StoreCommitPlanner::start("b", 0, 1);
    let _ = planner.step(StoreEvent::Latest { version: None });
    let _ = planner.step(StoreEvent::ObjectWritten { size: 4, e_tag: None });
    let fault = CommitError::Internal { message: "timeout".to_string() };
    let a = planner.step(StoreEvent::Fault { error: fault });
    match a {
        StoreAction::PutRecord { version, ref path, size, ref e_tag } => {
            assert_eq!(version, 1);
            assert_eq!(path, "b/_versions/1.manifest");
            assert_eq!(size, 4);
            assert!(e_tag.is_none());
        }
        _ => panic!("the planner did not repeat the record claim"),
    }
    let a = planner.step(StoreEvent::PutDone);
    match a {
        StoreAction::Finish { result } => assert_eq!(result.unwrap().version, 1),
        _ => panic!("the planner did not finish"),
    }
}
