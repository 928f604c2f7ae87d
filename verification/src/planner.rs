//! The coordinator's retry and conflict-resolution algorithm for remote
//! backends, as a state machine.
//!
//! A remote store answers after a round trip, so the coordinator's
//! decisions are separated from the calls: the planner names the next
//! action — read the latest pointer, write the manifest object, claim the
//! record, clean an orphan up — and the surrounding loop performs it and
//! hands the answer back as an event.  A lost race triggers best-effort
//! cleanup of the orphaned object, a re-read of the latest pointer and a
//! retry with the recomputed candidate, up to a bounded number of
//! conflicts; any other fault is retried up to a separate bound, with the
//! backoff between attempts left to the loop, and then surfaced
//! unchanged.  Every step shrinks a measure, so an attempt always reaches
//! its verdict.

use vstd::prelude::*;
use vstd::string::StringExecFns;

use crate::coordinator::CommittedManifest;
use crate::errors::CommitError;
use crate::paths::{manifest_path, spec_manifest_path};

verus! {

/// Where one store-strategy commit attempt stands: which answer it is
/// waiting for.
pub enum StorePhase {
    /// Waiting for the latest committed version.
    AwaitLatest,
    /// Waiting for the manifest object write for `version`.
    AwaitWrite { version: u64 },
    /// Waiting for the create-if-absent record claiming `version`.
    AwaitPut { version: u64, size: u64, e_tag: Option<String> },
    /// Waiting for the best-effort cleanup of the orphan for `version`.
    AwaitCleanup { version: u64 },
    /// The attempt has reached its verdict.
    Done,
}

/// The next call the loop must make for the attempt.
pub enum StoreAction {
    /// Ask the store for the latest committed version of the dataset.
    ReadLatest,
    /// Write the manifest bytes to `path`.
    WriteObject { version: u64, path: String },
    /// Ask the store to create the record for `version` iff absent.
    PutRecord { version: u64, path: String, size: u64, e_tag: Option<String> },
    /// Best-effort delete of the orphaned object at `path`; report
    /// `CleanupDone` whether or not the delete worked.
    CleanupObject { path: String },
    /// The attempt is over; hand this verdict to the caller.
    Finish { result: Result<CommittedManifest, CommitError> },
}

/// What the loop reports back from the call the planner asked for.
pub enum StoreEvent {
    /// The latest committed version, or `None` for a dataset never
    /// committed.  Answers `ReadLatest`.
    Latest { version: Option<u64> },
    /// The object write landed, with the size and ETag it reported.
    /// Answers `WriteObject`.
    ObjectWritten { size: u64, e_tag: Option<String> },
    /// The record was created: the attempt won its version.  Answers
    /// `PutRecord`.
    PutDone,
    /// The cleanup was attempted, successfully or not.  Answers
    /// `CleanupObject`.
    CleanupDone,
    /// The call failed, classified into the closed taxonomy.  `Conflict`
    /// answering `PutRecord` means the race for the version was lost.
    Fault { error: CommitError },
}

/// Which events answer which phase.
pub open spec fn accepts(phase: StorePhase, event: StoreEvent) -> bool {
    match event {
        StoreEvent::Latest { .. } => phase is AwaitLatest,
        StoreEvent::ObjectWritten { .. } => phase is AwaitWrite,
        StoreEvent::PutDone => phase is AwaitPut,
        StoreEvent::CleanupDone => phase is AwaitCleanup,
        StoreEvent::Fault { .. } => !(phase is Done),
    }
}

/// How far the attempt still has to go inside one candidate's round.
pub open spec fn spec_rank(phase: StorePhase) -> int {
    match phase {
        StorePhase::AwaitCleanup { .. } => 4,
        StorePhase::AwaitLatest => 3,
        StorePhase::AwaitWrite { .. } => 2,
        StorePhase::AwaitPut { .. } => 1,
        StorePhase::Done => 0,
    }
}

/// One store-strategy commit attempt against a remote backend.  The
/// fields are the attempt's whole state: the dataset, the two retry
/// budgets still standing, and the answer being waited for.
pub struct StoreCommitPlanner {
    pub base_uri: String,
    pub conflict_left: u64,
    pub transient_left: u64,
    pub phase: StorePhase,
}

impl StoreCommitPlanner {
    /// Every step shrinks this measure, so an attempt reaches `Done`
    /// after boundedly many events: the retries are bounded.
    pub open spec fn measure(&self) -> int {
        5 * (self.conflict_left + self.transient_left) + spec_rank(self.phase)
    }

    /// A fresh attempt for `base_uri`: at most `conflict_retries` lost
    /// races and `transient_retries` other faults will be retried.  The
    /// first action is to read the latest pointer.
    pub fn start(base_uri: &str, conflict_retries: u64, transient_retries: u64) -> (r: (
        StoreCommitPlanner,
        StoreAction,
    ))
        ensures
            r.0.base_uri@ == base_uri@,
            r.0.conflict_left == conflict_retries,
            r.0.transient_left == transient_retries,
            r.0.phase is AwaitLatest,
            r.1 is ReadLatest,
    {
        (
            StoreCommitPlanner {
                base_uri: String::from_str(base_uri),
                conflict_left: conflict_retries,
                transient_left: transient_retries,
                phase: StorePhase::AwaitLatest,
            },
            StoreAction::ReadLatest,
        )
    }

    /// Feeds the answer of the last action in and names the next one.
    ///
    /// The decisions, exactly: a read latest pointer fixes the candidate
    /// one above it, or surfaces `Internal` when the version space is
    /// exhausted; a written object is claimed by a create-if-absent
    /// record under the canonical path; a created record is the commit,
    /// reported with the path, size and ETag it was made of; a lost race
    /// spends one conflict retry on cleaning the orphan up, re-reading
    /// the pointer and advancing — or surfaces `Conflict` when the
    /// budget is gone; cleanup's own outcome is never fatal; any other
    /// fault repeats the same action for one transient retry, or
    /// surfaces unchanged when that budget is gone.
    pub fn step(&mut self, event: StoreEvent) -> (action: StoreAction)
        requires
            accepts(old(self).phase, event),
        ensures
            final(self).base_uri == old(self).base_uri,
            final(self).measure() < old(self).measure(),
            match event {
                StoreEvent::Latest { version } => match version {
                    Some(m) => if m == u64::MAX {
                        final(self).phase is Done && (action matches StoreAction::Finish {
                            result,
                        } && (result matches Err(e) && e is Internal))
                    } else {
                        final(self).phase == (StorePhase::AwaitWrite { version: (m + 1) as u64 })
                            && final(self).conflict_left == old(self).conflict_left && final(self).transient_left == old(self).transient_left && (action matches
                        StoreAction::WriteObject { version: v, path } && v == m + 1 && path@
                            == spec_manifest_path(old(self).base_uri@, (m + 1) as u64))
                    },
                    None => final(self).phase == (StorePhase::AwaitWrite { version: 1u64 })
                        && final(self).conflict_left == old(self).conflict_left && final(self).transient_left == old(self).transient_left && (action matches
                    StoreAction::WriteObject { version: v, path } && v == 1 && path@
                        == spec_manifest_path(old(self).base_uri@, 1u64)),
                },
                StoreEvent::ObjectWritten { size, e_tag } => (old(self).phase matches
                StorePhase::AwaitWrite { version } && final(self).phase == (StorePhase::AwaitPut {
                    version,
                    size,
                    e_tag: e_tag,
                }) && final(self).conflict_left == old(self).conflict_left && final(self).transient_left == old(self).transient_left && (action matches
                StoreAction::PutRecord { version: v, path, size: sz, e_tag: et } && v == version
                    && path@ == spec_manifest_path(old(self).base_uri@, version) && sz == size && et
                    == e_tag)),
                StoreEvent::PutDone => (old(self).phase matches StorePhase::AwaitPut {
                    version,
                    size,
                    e_tag,
                } && final(self).phase is Done && (action matches StoreAction::Finish { result }
                    && (result matches Ok(c) && c.version == version && c.path@
                    == spec_manifest_path(old(self).base_uri@, version) && c.size == size && c.e_tag
                    == e_tag))),
                StoreEvent::CleanupDone => final(self).phase is AwaitLatest && final(self).conflict_left == old(self).conflict_left && final(self).transient_left == old(self).transient_left && action is ReadLatest,
                StoreEvent::Fault { error } => if old(self).phase matches StorePhase::AwaitCleanup {
                    version,
                } {
                    final(self).phase is AwaitLatest && final(self).conflict_left == old(self).conflict_left && final(self).transient_left == old(self).transient_left
                        && action is ReadLatest
                } else if error is Conflict && old(self).phase is AwaitPut {
                    if old(self).conflict_left > 0 {
                        (old(self).phase matches StorePhase::AwaitPut { version, .. } && final(self).phase == (StorePhase::AwaitCleanup { version }) && final(self).conflict_left == old(self).conflict_left - 1 && final(self).transient_left == old(self).transient_left && (action matches
                        StoreAction::CleanupObject { path } && path@ == spec_manifest_path(
                            old(self).base_uri@,
                            version,
                        )))
                    } else {
                        final(self).phase is Done && (action matches StoreAction::Finish { result }
                            && result == Err::<CommittedManifest, CommitError>(
                            CommitError::Conflict,
                        ))
                    }
                } else {
                    if old(self).transient_left > 0 {
                        final(self).phase == old(self).phase && final(self).conflict_left == old(self).conflict_left && final(self).transient_left == old(self).transient_left
                            - 1 && match old(self).phase {
                            StorePhase::AwaitLatest => action is ReadLatest,
                            StorePhase::AwaitWrite { version } => (action matches
                            StoreAction::WriteObject { version: v, path } && v == version && path@
                                == spec_manifest_path(old(self).base_uri@, version)),
                            StorePhase::AwaitPut { version, size, e_tag } => (action matches
                            StoreAction::PutRecord { version: v, path, size: sz, e_tag: et } && v
                                == version && path@ == spec_manifest_path(
                                old(self).base_uri@,
                                version,
                            ) && sz == size && et == e_tag),
                            _ => false,
                        }
                    } else {
                        final(self).phase is Done && (action matches StoreAction::Finish { result }
                            && result == Err::<CommittedManifest, CommitError>(error))
                    }
                },
            },
    {
        match event {
            StoreEvent::Latest { version } => {
                let next: u64 = match version {
                    Some(m) => {
                        if m == u64::MAX {
                            self.phase = StorePhase::Done;
                            return StoreAction::Finish {
                                result: Err(
                                    CommitError::Internal {
                                        message: String::from_str(
                                            "the version space of the dataset is exhausted",
                                        ),
                                    },
                                ),
                            };
                        }
                        m + 1
                    },
                    None => 1,
                };
                self.phase = StorePhase::AwaitWrite { version: next };
                StoreAction::WriteObject {
                    version: next,
                    path: manifest_path(self.base_uri.as_str(), next),
                }
            },
            StoreEvent::ObjectWritten { size, e_tag } => {
                let version = match &self.phase {
                    StorePhase::AwaitWrite { version } => *version,
                    _ => {
                        proof {
                            assert(false);
                        }
                        0
                    },
                };
                let path = manifest_path(self.base_uri.as_str(), version);
                let action_e_tag = match &e_tag {
                    Some(t) => Some(t.clone()),
                    None => None,
                };
                self.phase = StorePhase::AwaitPut { version, size, e_tag };
                StoreAction::PutRecord { version, path, size, e_tag: action_e_tag }
            },
            StoreEvent::PutDone => {
                let committed = match &self.phase {
                    StorePhase::AwaitPut { version, size, e_tag } => CommittedManifest {
                        version: *version,
                        path: manifest_path(self.base_uri.as_str(), *version),
                        size: *size,
                        e_tag: match e_tag {
                            Some(t) => Some(t.clone()),
                            None => None,
                        },
                    },
                    _ => {
                        proof {
                            assert(false);
                        }
                        CommittedManifest {
                            version: 0,
                            path: String::new(),
                            size: 0,
                            e_tag: None,
                        }
                    },
                };
                self.phase = StorePhase::Done;
                StoreAction::Finish { result: Ok(committed) }
            },
            StoreEvent::CleanupDone => {
                self.phase = StorePhase::AwaitLatest;
                StoreAction::ReadLatest
            },
            StoreEvent::Fault { error } => self.step_fault(error),
        }
    }

    /// The decisions for a failed call: cleanup failures are never
    /// fatal; a lost race spends a conflict retry or surfaces
    /// `Conflict`; everything else spends a transient retry on the same
    /// action or surfaces unchanged.
    fn step_fault(&mut self, error: CommitError) -> (action: StoreAction)
        requires
            !(old(self).phase is Done),
        ensures
            final(self).base_uri == old(self).base_uri,
            final(self).measure() < old(self).measure(),
            if old(self).phase is AwaitCleanup {
                final(self).phase is AwaitLatest && final(self).conflict_left == old(self).conflict_left && final(self).transient_left == old(self).transient_left
                    && action is ReadLatest
            } else if error is Conflict && old(self).phase is AwaitPut {
                if old(self).conflict_left > 0 {
                    (old(self).phase matches StorePhase::AwaitPut { version, .. } && final(self).phase == (StorePhase::AwaitCleanup { version }) && final(self).conflict_left
                        == old(self).conflict_left - 1 && final(self).transient_left == old(self).transient_left && (action matches StoreAction::CleanupObject { path } && path@
                        == spec_manifest_path(old(self).base_uri@, version)))
                } else {
                    final(self).phase is Done && (action matches StoreAction::Finish { result }
                        && result == Err::<CommittedManifest, CommitError>(CommitError::Conflict))
                }
            } else {
                if old(self).transient_left > 0 {
                    final(self).phase == old(self).phase && final(self).conflict_left == old(self).conflict_left && final(self).transient_left == old(self).transient_left - 1
                        && match old(self).phase {
                        StorePhase::AwaitLatest => action is ReadLatest,
                        StorePhase::AwaitWrite { version } => (action matches
                        StoreAction::WriteObject { version: v, path } && v == version && path@
                            == spec_manifest_path(old(self).base_uri@, version)),
                        StorePhase::AwaitPut { version, size, e_tag } => (action matches
                        StoreAction::PutRecord { version: v, path, size: sz, e_tag: et } && v
                            == version && path@ == spec_manifest_path(old(self).base_uri@, version)
                            && sz == size && et == e_tag),
                        _ => false,
                    }
                } else {
                    final(self).phase is Done && (action matches StoreAction::Finish { result }
                        && result == Err::<CommittedManifest, CommitError>(error))
                }
            },
    {
        match &self.phase {
            StorePhase::AwaitCleanup { version: _ } => {
                self.phase = StorePhase::AwaitLatest;
                StoreAction::ReadLatest
            },
            StorePhase::AwaitPut { version, size, e_tag } => {
                let version = *version;
                let size = *size;
                if error.is_conflict() {
                    if self.conflict_left > 0 {
                        self.conflict_left = self.conflict_left - 1;
                        let path = manifest_path(self.base_uri.as_str(), version);
                        self.phase = StorePhase::AwaitCleanup { version };
                        StoreAction::CleanupObject { path }
                    } else {
                        self.phase = StorePhase::Done;
                        StoreAction::Finish { result: Err(CommitError::Conflict) }
                    }
                } else {
                    if self.transient_left > 0 {
                        self.transient_left = self.transient_left - 1;
                        let e_tag = match e_tag {
                            Some(t) => Some(t.clone()),
                            None => None,
                        };
                        let path = manifest_path(self.base_uri.as_str(), version);
                        StoreAction::PutRecord { version, path, size, e_tag }
                    } else {
                        self.phase = StorePhase::Done;
                        StoreAction::Finish { result: Err(error) }
                    }
                }
            },
            StorePhase::AwaitLatest => {
                if self.transient_left > 0 {
                    self.transient_left = self.transient_left - 1;
                    StoreAction::ReadLatest
                } else {
                    self.phase = StorePhase::Done;
                    StoreAction::Finish { result: Err(error) }
                }
            },
            StorePhase::AwaitWrite { version } => {
                let version = *version;
                if self.transient_left > 0 {
                    self.transient_left = self.transient_left - 1;
                    let path = manifest_path(self.base_uri.as_str(), version);
                    StoreAction::WriteObject { version, path }
                } else {
                    self.phase = StorePhase::Done;
                    StoreAction::Finish { result: Err(error) }
                }
            },
            StorePhase::Done => {
                proof {
                    assert(false);
                }
                StoreAction::ReadLatest
            },
        }
    }
}


/// Where one lock-strategy commit attempt stands.
pub enum LockPhase {
    /// Waiting for the latest committed version.
    AwaitLatest,
    /// Waiting for the mutual-exclusion service to grant `version`.
    AwaitLease { version: u64 },
    /// Holding the lease on `version`; waiting for the manifest write.
    AwaitWrite { version: u64 },
    /// Holding the lease; waiting for its release to complete.  The
    /// verdict to report afterwards is already fixed: the commit, or the
    /// write fault that ended the attempt.
    AwaitRelease { version: u64, size: u64, e_tag: Option<String>, failure: Option<CommitError> },
    /// The attempt has reached its verdict.
    Done,
}

/// The next call the loop must make for the attempt.
pub enum LockAction {
    /// Ask for the latest committed version of the dataset.
    ReadLatest,
    /// Ask the mutual-exclusion service for a lease on `version`.
    AcquireLease { version: u64 },
    /// Write the manifest bytes to `path`, under the lease.
    WriteObject { version: u64, path: String },
    /// Release the held lease, reporting whether the write succeeded.
    ReleaseLease { success: bool },
    /// The attempt is over; hand this verdict to the caller.
    Finish { result: Result<CommittedManifest, CommitError> },
}

/// What the loop reports back from the call the planner asked for.
pub enum LockEvent {
    /// The latest committed version, or `None` for a dataset never
    /// committed.  Answers `ReadLatest`.
    Latest { version: Option<u64> },
    /// The lease was granted.  Answers `AcquireLease`.
    LeaseGranted,
    /// The object write landed.  Answers `WriteObject`.
    ObjectWritten { size: u64, e_tag: Option<String> },
    /// The release completed.  Answers `ReleaseLease`.
    Released,
    /// The call failed, classified into the closed taxonomy.  `Conflict`
    /// answering `AcquireLease` means the version is already held or
    /// already durably committed.
    Fault { error: CommitError },
}

/// Which events answer which phase.
pub open spec fn lock_accepts(phase: LockPhase, event: LockEvent) -> bool {
    match event {
        LockEvent::Latest { .. } => phase is AwaitLatest,
        LockEvent::LeaseGranted => phase is AwaitLease,
        LockEvent::ObjectWritten { .. } => phase is AwaitWrite,
        LockEvent::Released => phase is AwaitRelease,
        LockEvent::Fault { .. } => !(phase is Done),
    }
}

/// True while the attempt holds a lease that is not yet released.
pub open spec fn holds_lease(phase: LockPhase) -> bool {
    match phase {
        LockPhase::AwaitWrite { .. } => true,
        LockPhase::AwaitRelease { .. } => true,
        _ => false,
    }
}

/// How far the attempt still has to go inside one candidate's round.
pub open spec fn lock_rank(phase: LockPhase) -> int {
    match phase {
        LockPhase::AwaitLatest => 4,
        LockPhase::AwaitLease { .. } => 3,
        LockPhase::AwaitWrite { .. } => 2,
        LockPhase::AwaitRelease { .. } => 1,
        LockPhase::Done => 0,
    }
}

/// One lock-strategy commit attempt against a remote mutual-exclusion
/// service.  The fields are the attempt's whole state.
pub struct LockCommitPlanner {
    pub base_uri: String,
    pub conflict_left: u64,
    pub transient_left: u64,
    pub phase: LockPhase,
}

impl LockCommitPlanner {
    /// Every step shrinks this measure, so an attempt reaches `Done`
    /// after boundedly many events: the retries are bounded.
    pub open spec fn measure(&self) -> int {
        5 * (self.conflict_left + self.transient_left) + lock_rank(self.phase)
    }

    /// A fresh attempt for `base_uri`.  The first action reads the
    /// latest pointer.
    pub fn start(base_uri: &str, conflict_retries: u64, transient_retries: u64) -> (r: (
        LockCommitPlanner,
        LockAction,
    ))
        ensures
            r.0.base_uri@ == base_uri@,
            r.0.conflict_left == conflict_retries,
            r.0.transient_left == transient_retries,
            r.0.phase is AwaitLatest,
            r.1 is ReadLatest,
    {
        (
            LockCommitPlanner {
                base_uri: String::from_str(base_uri),
                conflict_left: conflict_retries,
                transient_left: transient_retries,
                phase: LockPhase::AwaitLatest,
            },
            LockAction::ReadLatest,
        )
    }

    /// Feeds the answer of the last action in and names the next one.
    ///
    /// The decisions, exactly: a read pointer fixes the candidate one
    /// above it; the candidate is claimed by a lease, and a denied lease
    /// spends one conflict retry on re-reading the pointer and advancing
    /// past whatever committed meanwhile — or surfaces `Conflict` when
    /// the budget is gone; under the lease the manifest goes to the
    /// canonical path, overwrite being safe, and the lease is then
    /// released with the write\'s outcome; a write fault is never
    /// retried — the lease is released with `success = false` and the
    /// fault surfaces unchanged.  A lease, once granted, is released
    /// exactly once on every path: the attempt leaves the lease-holding
    /// phases only by completing the release, and only the write phase
    /// ever issues the release action.
    pub fn step(&mut self, event: LockEvent) -> (action: LockAction)
        requires
            lock_accepts(old(self).phase, event),
        ensures
            final(self).base_uri == old(self).base_uri,
            final(self).measure() < old(self).measure(),
            holds_lease(old(self).phase) && !holds_lease(final(self).phase) ==> old(self).phase
                is AwaitRelease,
            action is ReleaseLease ==> old(self).phase is AwaitWrite && final(self).phase
                is AwaitRelease,
            match event {
                LockEvent::Latest { version } => match version {
                    Some(m) => if m == u64::MAX {
                        final(self).phase is Done && (action matches LockAction::Finish { result }
                            && (result matches Err(e) && e is Internal))
                    } else {
                        final(self).phase == (LockPhase::AwaitLease { version: (m + 1) as u64 })
                            && final(self).conflict_left == old(self).conflict_left
                            && final(self).transient_left == old(self).transient_left
                            && action == (LockAction::AcquireLease { version: (m + 1) as u64 })
                    },
                    None => final(self).phase == (LockPhase::AwaitLease { version: 1u64 })
                        && final(self).conflict_left == old(self).conflict_left
                        && final(self).transient_left == old(self).transient_left
                        && action == (LockAction::AcquireLease { version: 1u64 }),
                },
                LockEvent::LeaseGranted => (old(self).phase matches LockPhase::AwaitLease {
                    version,
                } && final(self).phase == (LockPhase::AwaitWrite { version })
                    && final(self).conflict_left == old(self).conflict_left
                    && final(self).transient_left == old(self).transient_left
                    && (action matches LockAction::WriteObject { version: v, path } && v == version
                    && path@ == spec_manifest_path(old(self).base_uri@, version))),
                LockEvent::ObjectWritten { size, e_tag } => (old(self).phase matches
                LockPhase::AwaitWrite { version } && final(self).phase == (LockPhase::AwaitRelease {
                    version,
                    size,
                    e_tag,
                    failure: None,
                }) && final(self).conflict_left == old(self).conflict_left
                    && final(self).transient_left == old(self).transient_left
                    && action == (LockAction::ReleaseLease { success: true })),
                LockEvent::Released => (old(self).phase matches LockPhase::AwaitRelease {
                    version,
                    size,
                    e_tag,
                    failure,
                } && final(self).phase is Done && (action matches LockAction::Finish { result }
                    && match failure {
                    None => result matches Ok(c) && c.version == version && c.path@
                        == spec_manifest_path(old(self).base_uri@, version) && c.size == size
                        && c.e_tag == e_tag,
                    Some(e) => result == Err::<CommittedManifest, CommitError>(e),
                })),
                LockEvent::Fault { error } => if old(self).phase is AwaitRelease {
                    final(self).phase is Done && (old(self).phase matches LockPhase::AwaitRelease {
                        version,
                        size,
                        e_tag,
                        failure,
                    } && (action matches LockAction::Finish { result } && match failure {
                        Some(e) => result == Err::<CommittedManifest, CommitError>(e),
                        None => result == Err::<CommittedManifest, CommitError>(error),
                    }))
                } else if old(self).phase is AwaitWrite {
                    (old(self).phase matches LockPhase::AwaitWrite { version } && final(self).phase
                        == (LockPhase::AwaitRelease {
                        version,
                        size: 0u64,
                        e_tag: None,
                        failure: Some(error),
                    })) && final(self).conflict_left == old(self).conflict_left
                        && final(self).transient_left == old(self).transient_left
                        && action == (LockAction::ReleaseLease { success: false })
                } else if error is Conflict && old(self).phase is AwaitLease {
                    if old(self).conflict_left > 0 {
                        final(self).phase is AwaitLatest && final(self).conflict_left == old(self).conflict_left
                            - 1 && final(self).transient_left == old(self).transient_left
                            && action is ReadLatest
                    } else {
                        final(self).phase is Done && (action matches LockAction::Finish { result }
                            && result == Err::<CommittedManifest, CommitError>(CommitError::Conflict))
                    }
                } else {
                    if old(self).transient_left > 0 {
                        final(self).phase == old(self).phase && final(self).conflict_left == old(self).conflict_left
                            && final(self).transient_left == old(self).transient_left - 1
                            && match old(self).phase {
                            LockPhase::AwaitLatest => action is ReadLatest,
                            LockPhase::AwaitLease { version } => action == (LockAction::AcquireLease {
                                version,
                            }),
                            _ => false,
                        }
                    } else {
                        final(self).phase is Done && (action matches LockAction::Finish { result }
                            && result == Err::<CommittedManifest, CommitError>(error))
                    }
                },
            },
    {
        match event {
            LockEvent::Latest { version } => {
                let next: u64 = match version {
                    Some(m) => {
                        if m == u64::MAX {
                            self.phase = LockPhase::Done;
                            return LockAction::Finish {
                                result: Err(
                                    CommitError::Internal {
                                        message: String::from_str(
                                            "the version space of the dataset is exhausted",
                                        ),
                                    },
                                ),
                            };
                        }
                        m + 1
                    },
                    None => 1,
                };
                self.phase = LockPhase::AwaitLease { version: next };
                LockAction::AcquireLease { version: next }
            },
            LockEvent::LeaseGranted => {
                let version = match &self.phase {
                    LockPhase::AwaitLease { version } => *version,
                    _ => {
                        proof {
                            assert(false);
                        }
                        0
                    },
                };
                let path = manifest_path(self.base_uri.as_str(), version);
                self.phase = LockPhase::AwaitWrite { version };
                LockAction::WriteObject { version, path }
            },
            LockEvent::ObjectWritten { size, e_tag } => {
                let version = match &self.phase {
                    LockPhase::AwaitWrite { version } => *version,
                    _ => {
                        proof {
                            assert(false);
                        }
                        0
                    },
                };
                self.phase = LockPhase::AwaitRelease { version, size, e_tag, failure: None };
                LockAction::ReleaseLease { success: true }
            },
            LockEvent::Released => {
                let result = match &self.phase {
                    LockPhase::AwaitRelease { version, size, e_tag, failure } => match failure {
                        Some(e) => Err(e.clone()),
                        None => Ok(
                            CommittedManifest {
                                version: *version,
                                path: manifest_path(self.base_uri.as_str(), *version),
                                size: *size,
                                e_tag: match e_tag {
                                    Some(t) => Some(t.clone()),
                                    None => None,
                                },
                            },
                        ),
                    },
                    _ => {
                        proof {
                            assert(false);
                        }
                        Err(CommitError::Conflict)
                    },
                };
                self.phase = LockPhase::Done;
                LockAction::Finish { result }
            },
            LockEvent::Fault { error } => self.step_fault(error),
        }
    }

    /// The decisions for a failed call, lock strategy.
    fn step_fault(&mut self, error: CommitError) -> (action: LockAction)
        requires
            !(old(self).phase is Done),
        ensures
            final(self).base_uri == old(self).base_uri,
            final(self).measure() < old(self).measure(),
            holds_lease(old(self).phase) && !holds_lease(final(self).phase) ==> old(self).phase
                is AwaitRelease,
            action is ReleaseLease ==> old(self).phase is AwaitWrite && final(self).phase
                is AwaitRelease,
            if old(self).phase is AwaitRelease {
                final(self).phase is Done && (old(self).phase matches LockPhase::AwaitRelease {
                    version,
                    size,
                    e_tag,
                    failure,
                } && (action matches LockAction::Finish { result } && match failure {
                    Some(e) => result == Err::<CommittedManifest, CommitError>(e),
                    None => result == Err::<CommittedManifest, CommitError>(error),
                }))
            } else if old(self).phase is AwaitWrite {
                (old(self).phase matches LockPhase::AwaitWrite { version } && final(self).phase
                    == (LockPhase::AwaitRelease {
                    version,
                    size: 0u64,
                    e_tag: None,
                    failure: Some(error),
                })) && final(self).conflict_left == old(self).conflict_left
                    && final(self).transient_left == old(self).transient_left
                    && action == (LockAction::ReleaseLease { success: false })
            } else if error is Conflict && old(self).phase is AwaitLease {
                if old(self).conflict_left > 0 {
                    final(self).phase is AwaitLatest && final(self).conflict_left == old(self).conflict_left
                        - 1 && final(self).transient_left == old(self).transient_left
                        && action is ReadLatest
                } else {
                    final(self).phase is Done && (action matches LockAction::Finish { result }
                        && result == Err::<CommittedManifest, CommitError>(CommitError::Conflict))
                }
            } else {
                if old(self).transient_left > 0 {
                    final(self).phase == old(self).phase && final(self).conflict_left == old(self).conflict_left
                        && final(self).transient_left == old(self).transient_left - 1
                        && match old(self).phase {
                        LockPhase::AwaitLatest => action is ReadLatest,
                        LockPhase::AwaitLease { version } => action == (LockAction::AcquireLease {
                            version,
                        }),
                        _ => false,
                    }
                } else {
                    final(self).phase is Done && (action matches LockAction::Finish { result }
                        && result == Err::<CommittedManifest, CommitError>(error))
                }
            },
    {
        match &self.phase {
            LockPhase::AwaitRelease { version: _, size: _, e_tag: _, failure } => {
                let result = match failure {
                    Some(e) => Err(e.clone()),
                    None => Err(error),
                };
                self.phase = LockPhase::Done;
                LockAction::Finish { result }
            },
            LockPhase::AwaitWrite { version } => {
                let version = *version;
                self.phase = LockPhase::AwaitRelease {
                    version,
                    size: 0,
                    e_tag: None,
                    failure: Some(error),
                };
                LockAction::ReleaseLease { success: false }
            },
            LockPhase::AwaitLease { version } => {
                let version = *version;
                if error.is_conflict() {
                    if self.conflict_left > 0 {
                        self.conflict_left = self.conflict_left - 1;
                        self.phase = LockPhase::AwaitLatest;
                        LockAction::ReadLatest
                    } else {
                        self.phase = LockPhase::Done;
                        LockAction::Finish { result: Err(CommitError::Conflict) }
                    }
                } else {
                    if self.transient_left > 0 {
                        self.transient_left = self.transient_left - 1;
                        LockAction::AcquireLease { version }
                    } else {
                        self.phase = LockPhase::Done;
                        LockAction::Finish { result: Err(error) }
                    }
                }
            },
            LockPhase::AwaitLatest => {
                if self.transient_left > 0 {
                    self.transient_left = self.transient_left - 1;
                    LockAction::ReadLatest
                } else {
                    self.phase = LockPhase::Done;
                    LockAction::Finish { result: Err(error) }
                }
            },
            LockPhase::Done => {
                proof {
                    assert(false);
                }
                LockAction::ReadLatest
            },
        }
    }
}

} // verus!

