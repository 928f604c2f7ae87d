//! Externally-coordinated atomic commits of immutable, monotonically
//! versioned manifests.
//!
//! Independent writers race to publish the next version of a dataset's
//! state; exactly one writer durably succeeds per version and all others
//! detect the conflict deterministically.  Mutual exclusion comes from an
//! external service: either a compare-and-swap-capable side store that
//! emulates conditional writes, or a per-version lock service.  The commit
//! coordinator orchestrates one attempt on top of whichever strategy is
//! configured, with conflict detection, re-read, bounded retry, and
//! best-effort cleanup.

pub mod errors;
pub mod paths;
pub mod store;
pub mod objects;
pub mod lock;
pub mod coordinator;
pub mod planner;
