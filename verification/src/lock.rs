//! The lock strategy: exclusive per-version leases granted by an external
//! mutual-exclusion service.
//!
//! `LockService` models the service's state for one dataset: the versions
//! currently under lease, and the versions whose lease was released by a
//! successful commit and are therefore claimed forever.  A `Lease` is a
//! linear value: it cannot be forged or copied, and `release` consumes it,
//! so every acquired lease is released at most once, and a caller that must
//! dispose of it on every exit path can only do so through `release`.

use vstd::prelude::*;

use crate::errors::CommitError;

verus! {

/// The mathematical image of the mutual-exclusion service's state.
pub ghost struct LockModel {
    pub held: Seq<u64>,
    pub committed: Seq<u64>,
}

/// One `acquire` attempt at spec level: the service after the attempt and
/// whether the lease was granted.  A version under lease or committed for
/// good is never granted again.
pub open spec fn spec_acquire(m: LockModel, v: u64) -> (LockModel, bool) {
    if m.held.contains(v) || m.committed.contains(v) {
        (m, false)
    } else {
        (LockModel { held: m.held.push(v), committed: m.committed }, true)
    }
}

/// All occurrences of `v` removed, the rest kept in order.
pub open spec fn remove_version(s: Seq<u64>, v: u64) -> Seq<u64>
    decreases s.len(),
{
    if s.len() == 0 {
        Seq::empty()
    } else if s.last() == v {
        remove_version(s.drop_last(), v)
    } else {
        remove_version(s.drop_last(), v).push(s.last())
    }
}

/// One `release` at spec level: the lease on `v` ends; a release that
/// reports success claims `v` forever.
pub open spec fn spec_release(m: LockModel, v: u64, success: bool) -> LockModel {
    LockModel {
        held: remove_version(m.held, v),
        committed: if success {
            m.committed.push(v)
        } else {
            m.committed
        },
    }
}

/// What `remove_version` leaves: exactly the other versions, in order,
/// with no duplicates introduced.
pub proof fn lemma_remove_version_props(s: Seq<u64>, v: u64)
    ensures
        forall|w: u64| #[trigger]
            remove_version(s, v).contains(w) <==> (s.contains(w) && w != v),
        (forall|i: int, j: int| 0 <= i < j < s.len() ==> s[i] != s[j]) ==> (forall|i: int, j: int|
            0 <= i < j < remove_version(s, v).len() ==> remove_version(s, v)[i] != remove_version(
                s,
                v,
            )[j]),
    decreases s.len(),
{
    if s.len() > 0 {
        let dl = s.drop_last();
        lemma_remove_version_props(dl, v);
        let r = remove_version(s, v);
        let rd = remove_version(dl, v);
        assert(forall|j: int| 0 <= j < dl.len() ==> dl[j] == s[j]);
        assert forall|w: u64| #[trigger] r.contains(w) implies (s.contains(w) && w != v) by {
            let i = choose|i: int| 0 <= i < r.len() && r[i] == w;
            if s.last() != v && i == r.len() - 1 {
                assert(s[s.len() - 1] == w);
            } else {
                assert(rd.contains(w));
                let k = choose|k: int| 0 <= k < dl.len() && dl[k] == w;
                assert(s[k] == w);
            }
        }
        assert forall|w: u64| s.contains(w) && w != v implies #[trigger] r.contains(w) by {
            let i = choose|i: int| 0 <= i < s.len() && s[i] == w;
            if i == s.len() - 1 {
                assert(r[r.len() - 1] == w);
            } else {
                assert(dl.contains(w));
                assert(rd.contains(w));
                let k = choose|k: int| 0 <= k < rd.len() && rd[k] == w;
                if s.last() == v {
                    assert(r[k] == w);
                } else {
                    assert(r[k] == w);
                }
            }
        }
        if forall|i: int, j: int| 0 <= i < j < s.len() ==> s[i] != s[j] {
            assert(forall|i: int, j: int| 0 <= i < j < dl.len() ==> dl[i] != dl[j]);
            if s.last() != v {
                assert forall|i: int, j: int|
                    0 <= i < j < r.len() implies r[i] != r[j] by {
                    if j == r.len() - 1 {
                        assert(rd.contains(r[i]));
                        assert(dl.contains(r[i]));
                        assert(r[j] == s[s.len() - 1]);
                        let k = choose|k: int| 0 <= k < dl.len() && dl[k] == r[i];
                        assert(s[k] == r[i]);
                    }
                }
            }
        }
    }
}

/// A run of identical acquire attempts for `v`, applied in order, with
/// the number of attempts that were granted the lease.
pub open spec fn apply_acquire_attempts(m: LockModel, n: nat, v: u64) -> (LockModel, int)
    decreases n,
{
    if n == 0 {
        (m, 0)
    } else {
        let first = spec_acquire(m, v);
        let rest = apply_acquire_attempts(first.0, (n - 1) as nat, v);
        (rest.0, rest.1 + if first.1 {
            1int
        } else {
            0int
        })
    }
}

/// While a version is under lease or committed for good, no run of
/// acquire attempts for it is ever granted, and the service never moves.
pub proof fn lemma_no_grant_when_claimed(m: LockModel, n: nat, v: u64)
    requires
        m.held.contains(v) || m.committed.contains(v),
    ensures
        apply_acquire_attempts(m, n, v) == (m, 0int),
    decreases n,
{
    if n > 0 {
        lemma_no_grant_when_claimed(m, (n - 1) as nat, v);
    }
}

/// Exactly one writer wins, lock half: of any run of concurrent acquire
/// attempts for the same free version, interleaved in any order by the
/// mutual-exclusion service, precisely one is granted the lease; every
/// other attempt observes `Conflict`.
pub proof fn lemma_exactly_one_grant(m: LockModel, n: nat, v: u64)
    requires
        !m.held.contains(v),
        !m.committed.contains(v),
        n > 0,
    ensures
        apply_acquire_attempts(m, n, v).1 == 1,
{
    let first = spec_acquire(m, v);
    assert(first.1);
    assert(first.0.held[m.held.len() as int] == v);
    assert(first.0.held.contains(v));
    lemma_no_grant_when_claimed(first.0, (n - 1) as nat, v);
}

/// A successfully released version is claimed forever: releasing with
/// success records the claim, an acquire for a claimed version is never
/// granted, and neither acquires nor releases of any version ever drop
/// the claim.  A later attempt is thus forced to advance past the
/// committed version rather than be granted its stale lease.
pub proof fn lemma_committed_version_stays_claimed(m: LockModel, v: u64)
    ensures
        spec_release(m, v, true).committed.contains(v),
        m.committed.contains(v) ==> !spec_acquire(m, v).1,
        forall|w: u64|
            m.committed.contains(v) ==> #[trigger] spec_acquire(m, w).0.committed.contains(v),
        forall|w: u64, s: bool|
            m.committed.contains(v) ==> #[trigger] spec_release(m, w, s).committed.contains(v),
{
    let c2 = spec_release(m, v, true).committed;
    assert(c2[m.committed.len() as int] == v);
    if m.committed.contains(v) {
        let i = choose|i: int| 0 <= i < m.committed.len() && m.committed[i] == v;
        assert forall|w: u64| #[trigger]
            spec_acquire(m, w).0.committed.contains(v) by {
            assert(spec_acquire(m, w).0.committed[i] == v);
        }
        assert forall|w: u64, s: bool| #[trigger]
            spec_release(m, w, s).committed.contains(v) by {
            assert(spec_release(m, w, s).committed[i] == v);
        }
    }
}

/// A transient, exclusively held claim on one version number, owned by
/// exactly one in-flight commit attempt.  Leases cannot be forged or
/// copied; `LockService::release` consumes the lease, so each one is
/// released at most once.
pub struct Lease {
    version: u64,
}

impl Lease {
    /// The version this lease holds, at spec level.
    pub closed spec fn version(&self) -> u64 {
        self.version
    }

    /// The version this lease holds.
    pub fn held_version(&self) -> (v: u64)
        ensures
            v == self.version(),
    {
        self.version
    }
}

/// The model of the external mutual-exclusion service for one dataset.
pub struct LockService {
    held: Vec<u64>,
    committed: Vec<u64>,
}

impl View for LockService {
    type V = LockModel;

    closed spec fn view(&self) -> LockModel {
        LockModel { held: self.held@, committed: self.committed@ }
    }
}

fn contains_u64(s: &Vec<u64>, x: u64) -> (b: bool)
    ensures
        b == s@.contains(x),
{
    let n = s.len();
    for i in 0..n
        invariant
            n == s@.len(),
            forall|j: int| 0 <= j < i ==> s@[j] != x,
    {
        if s[i] == x {
            return true;
        }
    }
    false
}

impl LockService {
    /// The service's invariant: no version is under two leases, none is
    /// both leased and committed, and none is committed twice.
    pub open spec fn wf(&self) -> bool {
        (forall|i: int, j: int| 0 <= i < j < self@.held.len() ==> self@.held[i] != self@.held[j])
            && (forall|i: int, j: int|
            0 <= i < j < self@.committed.len() ==> self@.committed[i] != self@.committed[j]) && (
        forall|i: int|
            0 <= i < self@.held.len() ==> !self@.committed.contains(self@.held[i]))
    }

    /// A fresh service: nothing leased, nothing committed.
    pub fn new() -> (s: LockService)
        ensures
            s@.held =~= Seq::<u64>::empty(),
            s@.committed =~= Seq::<u64>::empty(),
            s.wf(),
    {
        LockService { held: Vec::new(), committed: Vec::new() }
    }

    /// Requests exclusive ownership of `version`.  Fails `Conflict` iff
    /// the version is already held or already claimed by a successful
    /// commit; a granted lease is exclusive until released.
    pub fn acquire(&mut self, version: u64) -> (r: Result<Lease, CommitError>)
        requires
            old(self).wf(),
        ensures
            final(self).wf(),
            ({
                let t = spec_acquire(old(self)@, version);
                final(self)@ == t.0 && (r is Ok <==> t.1) && (r matches Ok(l) ==> l.version()
                    == version) && (r matches Err(e) ==> e == CommitError::Conflict)
            }),
    {
        if contains_u64(&self.held, version) || contains_u64(&self.committed, version) {
            proof {
                assert(self@ == old(self)@);
            }
            Err(CommitError::Conflict)
        } else {
            proof {
                assert(!old(self)@.held.contains(version));
                assert(!old(self)@.committed.contains(version));
            }
            self.held.push(version);
            proof {
                let h0 = old(self)@.held;
                let h2 = self@.held;
                assert(h2 == h0.push(version));
                assert forall|i: int, j: int| 0 <= i < j < h2.len() implies h2[i] != h2[j] by {
                    if j == h2.len() - 1 {
                        if h0[i] == version {
                            assert(h0.contains(version));
                        }
                    }
                }
                assert forall|i: int|
                    0 <= i < h2.len() implies !self@.committed.contains(h2[i]) by {
                    if i < h2.len() - 1 {
                        assert(h2[i] == h0[i]);
                    }
                }
            }
            Ok(Lease { version })
        }
    }

    /// Ends the lease, exactly once, on every exit path of a commit
    /// attempt.  `success` reports whether the attempt durably committed;
    /// a successful release claims the version forever, while a failed
    /// one frees it for another attempt, subject to the service's policy.
    pub fn release(&mut self, lease: Lease, success: bool) -> (r: Result<(), CommitError>)
        requires
            old(self).wf(),
            old(self)@.held.contains(lease.version()),
        ensures
            final(self).wf(),
            r is Ok,
            final(self)@ == spec_release(old(self)@, lease.version(), success),
            forall|w: u64| #[trigger]
                final(self)@.held.contains(w) <==> (old(self)@.held.contains(w) && w
                    != lease.version()),
    {
        let v = lease.version;
        let n = self.held.len();
        let mut kept: Vec<u64> = Vec::new();
        proof {
            assert(self@.held.take(0) =~= Seq::<u64>::empty());
            assert(kept@ =~= remove_version(self@.held.take(0), v));
        }
        for i in 0..n
            invariant
                n == self@.held.len(),
                kept@ == remove_version(self@.held.take(i as int), v),
        {
            proof {
                assert(self@.held.take(i as int + 1).drop_last() =~= self@.held.take(i as int));
                assert(self@.held.take(i as int + 1).last() == self@.held[i as int]);
            }
            if self.held[i] != v {
                kept.push(self.held[i]);
            }
        }
        proof {
            assert(self@.held.take(n as int) =~= self@.held);
            lemma_remove_version_props(self@.held, v);
        }
        self.held = kept;
        if success {
            self.committed.push(v);
        }
        proof {
            let oldm = old(self)@;
            let h2 = self@.held;
            let c2 = self@.committed;
            assert(h2 == remove_version(oldm.held, v));
            let k = choose|k: int| 0 <= k < oldm.held.len() && oldm.held[k] == v;
            assert(!oldm.committed.contains(v));
            if success {
                assert(c2 == oldm.committed.push(v));
                assert forall|i: int, j: int| 0 <= i < j < c2.len() implies c2[i] != c2[j] by {
                    if j == c2.len() - 1 {
                        if oldm.committed[i] == v {
                            assert(oldm.committed.contains(v));
                        }
                    }
                }
            }
            assert forall|i: int| 0 <= i < h2.len() implies !c2.contains(h2[i]) by {
                assert(h2.contains(h2[i]));
                assert(oldm.held.contains(h2[i]) && h2[i] != v);
                let m = choose|m: int| 0 <= m < oldm.held.len() && oldm.held[m] == h2[i];
                assert(!oldm.committed.contains(h2[i]));
                if c2.contains(h2[i]) {
                    let w = choose|w: int| 0 <= w < c2.len() && c2[w] == h2[i];
                    if success && w == c2.len() - 1 {
                        assert(h2[i] == v);
                    } else {
                        assert(oldm.committed[w] == h2[i]);
                        assert(oldm.committed.contains(h2[i]));
                    }
                }
            }
        }
        Ok(())
    }
}

} // verus!
