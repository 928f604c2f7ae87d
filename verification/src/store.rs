//! The external-manifest-store strategy: a strongly consistent side index
//! that emulates atomic conditional writes for version-to-path mappings.
//!
//! `ManifestStore` is the protocol's model of that index: a set of durable
//! records keyed by `(base_uri, version)`, at most one record per key, with
//! the operations the coordinator consumes: `get`, `get_latest_version`,
//! `put_if_not_exists`, `put_if_exists` and `delete`.  Every operation is
//! linearizable here because the store is a single value behind `&mut`.

use vstd::prelude::*;
use vstd::string::StringExecFns;

use crate::errors::CommitError;
use crate::paths::{spec_version_uri, version_uri};

verus! {

/// The mathematical image of one durable manifest record.
pub ghost struct EntryModel {
    pub base_uri: Seq<char>,
    pub version: u64,
    pub path: Seq<char>,
    pub size: u64,
    pub e_tag: Option<Seq<char>>,
}

/// One durable record: `(base_uri, version)` mapped to `(path, size, e_tag)`.
/// Once committed the mapping never changes; it is only superseded by a new
/// version's own record.
pub struct ManifestEntry {
    pub base_uri: String,
    pub version: u64,
    pub path: String,
    pub size: u64,
    pub e_tag: Option<String>,
}

/// The view of an optional ETag.
pub open spec fn etag_view(t: Option<String>) -> Option<Seq<char>> {
    match t {
        Some(s) => Some(s@),
        None => None,
    }
}

impl View for ManifestEntry {
    type V = EntryModel;

    open spec fn view(&self) -> EntryModel {
        EntryModel {
            base_uri: self.base_uri@,
            version: self.version,
            path: self.path@,
            size: self.size,
            e_tag: etag_view(self.e_tag),
        }
    }
}

impl Clone for ManifestEntry {
    fn clone(&self) -> (r: Self)
        ensures
            r@ == self@,
    {
        ManifestEntry {
            base_uri: self.base_uri.clone(),
            version: self.version,
            path: self.path.clone(),
            size: self.size,
            e_tag: match &self.e_tag {
                Some(t) => Some(t.clone()),
                None => None,
            },
        }
    }
}

/// The record stored for key `(base, version)`, scanning from the front;
/// `None` when the key is absent.
pub open spec fn lookup(s: Seq<EntryModel>, base: Seq<char>, version: u64) -> Option<EntryModel>
    decreases s.len(),
{
    if s.len() == 0 {
        None
    } else if s[0].base_uri == base && s[0].version == version {
        Some(s[0])
    } else {
        lookup(s.drop_first(), base, version)
    }
}

/// The highest version recorded for `base`; `None` when the dataset has
/// never been committed.
pub open spec fn latest(s: Seq<EntryModel>, base: Seq<char>) -> Option<u64>
    decreases s.len(),
{
    if s.len() == 0 {
        None
    } else {
        let rest = latest(s.drop_last(), base);
        if s.last().base_uri == base {
            match rest {
                None => Some(s.last().version),
                Some(m) => Some(if s.last().version >= m {
                    s.last().version
                } else {
                    m
                }),
            }
        } else {
            rest
        }
    }
}

/// All records for `base` removed, the rest kept in order.
pub open spec fn erase_base(s: Seq<EntryModel>, base: Seq<char>) -> Seq<EntryModel>
    decreases s.len(),
{
    if s.len() == 0 {
        Seq::empty()
    } else if s.last().base_uri == base {
        erase_base(s.drop_last(), base)
    } else {
        erase_base(s.drop_last(), base).push(s.last())
    }
}

/// At most one record per `(base_uri, version)` key.
pub open spec fn unique_keys(s: Seq<EntryModel>) -> bool {
    forall|i: int, j: int|
        0 <= i < j < s.len() ==> !(s[i].base_uri == s[j].base_uri && s[i].version
            == s[j].version)
}

/// One `put_if_not_exists` attempt at spec level: the store after the
/// attempt, and whether the attempt won the race for its key.
pub open spec fn spec_put_if_not_exists(s: Seq<EntryModel>, e: EntryModel) -> (Seq<EntryModel>,
    bool) {
    if lookup(s, e.base_uri, e.version) is Some {
        (s, false)
    } else {
        (s.push(e), true)
    }
}

/// A key is absent exactly when no record carries it.
pub proof fn lemma_lookup_none(s: Seq<EntryModel>, base: Seq<char>, version: u64)
    ensures
        lookup(s, base, version) is None <==> forall|i: int|
            0 <= i < s.len() ==> !(s[i].base_uri == base && s[i].version == version),
    decreases s.len(),
{
    if s.len() > 0 {
        lemma_lookup_none(s.drop_first(), base, version);
        let dl = s.drop_first();
        assert(forall|i: int| 0 <= i < dl.len() ==> dl[i] == s[i + 1]);
        if s[0].base_uri == base && s[0].version == version {
            assert(s[0].base_uri == base && s[0].version == version);
        } else {
            if lookup(dl, base, version) is None {
                assert forall|i: int|
                    0 <= i < s.len() implies !(s[i].base_uri == base && s[i].version
                    == version) by {
                    if i > 0 {
                        assert(dl[i - 1] == s[i]);
                    }
                }
            } else {
                assert(!(forall|i: int|
                    0 <= i < dl.len() ==> !(dl[i].base_uri == base && dl[i].version
                        == version)));
                let i = choose|i: int|
                    0 <= i < dl.len() && dl[i].base_uri == base && dl[i].version == version;
                assert(s[i + 1].base_uri == base && s[i + 1].version == version);
            }
        }
    }
}

/// With unique keys, a lookup returns the one record at any matching index.
pub proof fn lemma_lookup_unique(s: Seq<EntryModel>, base: Seq<char>, version: u64, j: int)
    requires
        unique_keys(s),
        0 <= j < s.len(),
        s[j].base_uri == base,
        s[j].version == version,
    ensures
        lookup(s, base, version) == Some(s[j]),
    decreases s.len(),
{
    if j == 0 {
    } else {
        assert(!(s[0].base_uri == base && s[0].version == version));
        assert(forall|i: int|
            0 <= i < s.drop_first().len() ==> s.drop_first()[i] == s[i + 1]);
        lemma_lookup_unique(s.drop_first(), base, version, j - 1);
    }
}

/// How a lookup reads through a push: an earlier record for the key wins;
/// otherwise the pushed record answers iff it carries the key.
pub proof fn lemma_lookup_push(s: Seq<EntryModel>, base: Seq<char>, version: u64, e: EntryModel)
    ensures
        lookup(s.push(e), base, version) == (match lookup(s, base, version) {
            Some(x) => Some(x),
            None => if e.base_uri == base && e.version == version {
                Some(e)
            } else {
                None
            },
        }),
    decreases s.len(),
{
    if s.len() == 0 {
        assert(s.push(e).drop_first() =~= Seq::<EntryModel>::empty());
    } else {
        assert(s.push(e)[0] == s[0]);
        assert(s.push(e).drop_first() =~= s.drop_first().push(e));
        lemma_lookup_push(s.drop_first(), base, version, e);
    }
}

/// What `latest` reports: `None` iff the dataset has no record; otherwise
/// the version of some record, at least as high as every record's.
pub proof fn lemma_latest_props(s: Seq<EntryModel>, base: Seq<char>)
    ensures
        match latest(s, base) {
            None => forall|i: int| 0 <= i < s.len() ==> s[i].base_uri != base,
            Some(m) => (exists|i: int|
                0 <= i < s.len() && s[i].base_uri == base && s[i].version == m) && forall|i: int|
                0 <= i < s.len() && s[i].base_uri == base ==> s[i].version <= m,
        },
    decreases s.len(),
{
    if s.len() > 0 {
        lemma_latest_props(s.drop_last(), base);
        assert(forall|i: int| 0 <= i < s.len() - 1 ==> s.drop_last()[i] == s[i]);
        match latest(s.drop_last(), base) {
            Some(m0) => {
                let i0 = choose|i: int|
                    0 <= i < s.drop_last().len() && s.drop_last()[i].base_uri == base
                        && s.drop_last()[i].version == m0;
                assert(s[i0].base_uri == base && s[i0].version == m0);
            },
            None => {},
        }
    }
}

/// No record can sit above the latest version.
pub proof fn lemma_lookup_above_latest(s: Seq<EntryModel>, base: Seq<char>, version: u64)
    requires
        match latest(s, base) {
            None => true,
            Some(m) => version > m,
        },
    ensures
        lookup(s, base, version) is None,
{
    lemma_latest_props(s, base);
    lemma_lookup_none(s, base, version);
}

/// How `latest` reads through a push.
pub proof fn lemma_latest_push(s: Seq<EntryModel>, base: Seq<char>, e: EntryModel)
    ensures
        latest(s.push(e), base) == (if e.base_uri == base {
            match latest(s, base) {
                None => Some(e.version),
                Some(m) => Some(if e.version >= m {
                    e.version
                } else {
                    m
                }),
            }
        } else {
            latest(s, base)
        }),
{
    assert(s.push(e).drop_last() =~= s);
    assert(s.push(e).last() == e);
}

/// The latest pointer never moves backwards: whatever record a
/// `put_if_not_exists` attempt adds, the highest version for every
/// dataset is at least what it was.
pub proof fn lemma_latest_monotonic(s: Seq<EntryModel>, e: EntryModel, base: Seq<char>)
    ensures
        match latest(s, base) {
            None => true,
            Some(m) => latest(spec_put_if_not_exists(s, e).0, base) matches Some(m2) && m2 >= m,
        },
{
    lemma_latest_push(s, base, e);
}

/// Replay rejection: a `put_if_not_exists` for a key that already has a
/// durable record always loses, and leaves every record — the existing
/// one included — exactly as it was.
pub proof fn lemma_replay_rejected(s: Seq<EntryModel>, e: EntryModel)
    requires
        lookup(s, e.base_uri, e.version) is Some,
    ensures
        !spec_put_if_not_exists(s, e).1,
        spec_put_if_not_exists(s, e).0 == s,
        lookup(spec_put_if_not_exists(s, e).0, e.base_uri, e.version) == lookup(
            s,
            e.base_uri,
            e.version,
        ),
{
}

/// A sequence of `put_if_not_exists` attempts applied in order, with the
/// number of attempts that won.
pub open spec fn apply_put_attempts(s: Seq<EntryModel>, attempts: Seq<EntryModel>) -> (
    Seq<EntryModel>,
    int,
)
    decreases attempts.len(),
{
    if attempts.len() == 0 {
        (s, 0)
    } else {
        let first = spec_put_if_not_exists(s, attempts[0]);
        let rest = apply_put_attempts(first.0, attempts.drop_first());
        (rest.0, rest.1 + if first.1 {
            1int
        } else {
            0int
        })
    }
}

/// Once a record holds a key, no later attempt for that key wins, and the
/// store never moves.
pub proof fn lemma_no_win_when_present(
    s: Seq<EntryModel>,
    attempts: Seq<EntryModel>,
    base: Seq<char>,
    version: u64,
)
    requires
        lookup(s, base, version) is Some,
        forall|i: int|
            0 <= i < attempts.len() ==> (#[trigger] attempts[i]).base_uri == base
                && attempts[i].version == version,
    ensures
        apply_put_attempts(s, attempts) == (s, 0int),
    decreases attempts.len(),
{
    if attempts.len() > 0 {
        lemma_no_win_when_present(s, attempts.drop_first(), base, version);
    }
}

/// Exactly one writer wins: for any run of concurrent attempts on the
/// same absent `(base, version)` key, interleaved in any order by the
/// store's linearizable create-if-absent, precisely one attempt
/// succeeds; every other attempt observes `Conflict`.
pub proof fn lemma_exactly_one_wins(
    s: Seq<EntryModel>,
    attempts: Seq<EntryModel>,
    base: Seq<char>,
    version: u64,
)
    requires
        lookup(s, base, version) is None,
        attempts.len() > 0,
        forall|i: int|
            0 <= i < attempts.len() ==> (#[trigger] attempts[i]).base_uri == base
                && attempts[i].version == version,
    ensures
        apply_put_attempts(s, attempts).1 == 1,
{
    let first = spec_put_if_not_exists(s, attempts[0]);
    assert(first.1);
    lemma_lookup_push(s, base, version, attempts[0]);
    lemma_no_win_when_present(first.0, attempts.drop_first(), base, version);
}

/// The models of a sequence of records, in order.
pub open spec fn models(s: Seq<ManifestEntry>) -> Seq<EntryModel> {
    Seq::new(s.len(), |i: int| s[i]@)
}

/// What `erase_base` leaves: no record of the erased dataset, only
/// records drawn from the original, and uniqueness of keys preserved.
pub proof fn lemma_erase_base_props(s: Seq<EntryModel>, base: Seq<char>)
    ensures
        forall|i: int|
            0 <= i < erase_base(s, base).len() ==> erase_base(s, base)[i].base_uri != base,
        forall|i: int|
            0 <= i < erase_base(s, base).len() ==> exists|j: int|
                0 <= j < s.len() && #[trigger] erase_base(s, base)[i] == s[j],
        unique_keys(s) ==> unique_keys(erase_base(s, base)),
    decreases s.len(),
{
    if s.len() > 0 {
        let dl = s.drop_last();
        lemma_erase_base_props(dl, base);
        let er = erase_base(s, base);
        let erd = erase_base(dl, base);
        assert(forall|j: int| 0 <= j < dl.len() ==> dl[j] == s[j]);
        assert forall|i: int|
            0 <= i < er.len() implies exists|j: int| 0 <= j < s.len() && #[trigger] er[i]
            == s[j] by {
            if s.last().base_uri == base || i < er.len() - 1 {
                let k = choose|k: int| 0 <= k < dl.len() && erd[i] == dl[k];
                assert(er[i] == s[k]);
            } else {
                assert(er[i] == s[s.len() - 1]);
            }
        }
        if unique_keys(s) {
            assert(unique_keys(dl));
            if !(s.last().base_uri == base) {
                assert forall|i: int, j: int|
                    0 <= i < j < er.len() implies !(er[i].base_uri == er[j].base_uri
                    && er[i].version == er[j].version) by {
                    if j == er.len() - 1 {
                        let k = choose|k: int| 0 <= k < dl.len() && erd[i] == dl[k];
                        assert(er[i] == s[k]);
                        assert(er[j] == s[s.len() - 1]);
                    }
                }
            }
        }
    }
}

/// The strongly consistent side index.  Reads reflect the calling
/// attempt's own prior writes immediately.
pub struct ManifestStore {
    entries: Vec<ManifestEntry>,
}

impl View for ManifestStore {
    type V = Seq<EntryModel>;

    closed spec fn view(&self) -> Seq<EntryModel> {
        Seq::new(self.entries@.len(), |i: int| self.entries@[i]@)
    }
}

impl ManifestStore {
    /// The store's invariant: at most one record per key.
    pub open spec fn wf(&self) -> bool {
        unique_keys(self@)
    }

    /// An empty store: no dataset has ever been committed.
    pub fn new() -> (s: ManifestStore)
        ensures
            s@ =~= Seq::<EntryModel>::empty(),
            s.wf(),
    {
        ManifestStore { entries: Vec::new() }
    }

    /// The index of the record for `(base_uri, version)`, if any.
    fn find(&self, base_uri: &str, version: u64) -> (r: Option<usize>)
        ensures
            match r {
                Some(i) => i < self@.len() && self@[i as int].base_uri == base_uri@
                    && self@[i as int].version == version && lookup(self@, base_uri@, version)
                    == Some(self@[i as int]),
                None => lookup(self@, base_uri@, version) is None,
            },
    {
        let key = String::from_str(base_uri);
        let n = self.entries.len();
        proof {
            assert(self@.skip(0) =~= self@);
        }
        for i in 0..n
            invariant
                n == self@.len(),
                key@ == base_uri@,
                lookup(self@, base_uri@, version) == lookup(
                    self@.skip(i as int),
                    base_uri@,
                    version,
                ),
                forall|j: int|
                    0 <= j < i ==> !(self@[j].base_uri == base_uri@ && self@[j].version
                        == version),
        {
            let matches_key = self.entries[i].base_uri == key && self.entries[i].version
                == version;
            proof {
                assert(self@.skip(i as int)[0] == self@[i as int]);
                assert(self@.skip(i as int).drop_first() =~= self@.skip(i as int + 1));
            }
            if matches_key {
                return Some(i);
            }
        }
        proof {
            assert(self@.skip(n as int) =~= Seq::<EntryModel>::empty());
        }
        None
    }

    /// Atomically creates the mapping for `(base_uri, version)` iff it is
    /// absent; fails `Conflict` iff a record for the key is already
    /// present — matching or not — and then changes nothing.  No other
    /// failure is possible here.
    pub fn put_if_not_exists(
        &mut self,
        base_uri: &str,
        version: u64,
        path: &str,
        size: u64,
        e_tag: Option<String>,
    ) -> (r: Result<(), CommitError>)
        requires
            old(self).wf(),
        ensures
            final(self).wf(),
            ({
                let outcome = spec_put_if_not_exists(
                    old(self)@,
                    (EntryModel {
                        base_uri: base_uri@,
                        version,
                        path: path@,
                        size,
                        e_tag: etag_view(e_tag),
                    }),
                );
                final(self)@ == outcome.0 && (r is Ok <==> outcome.1) && (r matches Err(e) ==> e
                    == CommitError::Conflict)
            }),
    {
        let ghost model = EntryModel {
            base_uri: base_uri@,
            version,
            path: path@,
            size,
            e_tag: etag_view(e_tag),
        };
        match self.find(base_uri, version) {
            Some(_) => Err(CommitError::Conflict),
            None => {
                let entry = ManifestEntry {
                    base_uri: String::from_str(base_uri),
                    version,
                    path: String::from_str(path),
                    size,
                    e_tag,
                };
                self.entries.push(entry);
                proof {
                    assert(self@ =~= old(self)@.push(model));
                    lemma_lookup_none(old(self)@, base_uri@, version);
                }
                Ok(())
            },
        }
    }

    /// Returns the highest version known for `base_uri` together with its
    /// recorded path, or `None` when the dataset has never been
    /// committed.  Reflects this store's own prior writes immediately.
    pub fn get_latest_version(&self, base_uri: &str) -> (r: Result<
        Option<(u64, String)>,
        CommitError,
    >)
        requires
            self.wf(),
        ensures
            match r {
                Ok(opt) => match opt {
                    None => latest(self@, base_uri@) is None,
                    Some(vp) => latest(self@, base_uri@) == Some(vp.0) && (lookup(
                        self@,
                        base_uri@,
                        vp.0,
                    ) matches Some(e) && vp.1@ == e.path),
                },
                Err(_) => false,
            },
    {
        let key = String::from_str(base_uri);
        let n = self.entries.len();
        let mut best: Option<(u64, usize)> = None;
        proof {
            assert(self@.take(0) =~= Seq::<EntryModel>::empty());
        }
        for i in 0..n
            invariant
                n == self@.len(),
                key@ == base_uri@,
                match best {
                    None => latest(self@.take(i as int), base_uri@) is None,
                    Some(vj) => latest(self@.take(i as int), base_uri@) == Some(vj.0) && vj.1 < i
                        && self@[vj.1 as int].base_uri == base_uri@ && self@[vj.1 as int].version
                        == vj.0,
                },
        {
            proof {
                assert(self@.take(i as int + 1).drop_last() =~= self@.take(i as int));
                assert(self@.take(i as int + 1).last() == self@[i as int]);
            }
            if self.entries[i].base_uri == key {
                let v = self.entries[i].version;
                best = match best {
                    None => Some((v, i)),
                    Some(vj) => if v >= vj.0 {
                        Some((v, i))
                    } else {
                        Some(vj)
                    },
                };
            }
        }
        proof {
            assert(self@.take(n as int) =~= self@);
        }
        match best {
            None => Ok(None),
            Some(vj) => {
                proof {
                    lemma_lookup_unique(self@, base_uri@, vj.0, vj.1 as int);
                }
                Ok(Some((vj.0, self.entries[vj.1].path.clone())))
            },
        }
    }

    /// Atomically replaces the record for `(base_uri, version)` iff one
    /// exists; fails `Conflict` — and changes nothing — when the key is
    /// absent.  This path serves mutable alias records only, never
    /// immutable version entries.
    pub fn put_if_exists(
        &mut self,
        base_uri: &str,
        version: u64,
        path: &str,
        size: u64,
        e_tag: Option<String>,
    ) -> (r: Result<(), CommitError>)
        requires
            old(self).wf(),
        ensures
            final(self).wf(),
            match lookup(old(self)@, base_uri@, version) {
                None => r matches Err(e) && e == CommitError::Conflict && final(self)@ == old(
                    self,
                )@,
                Some(_) => r is Ok && exists|i: int|
                    0 <= i < old(self)@.len() && old(self)@[i].base_uri == base_uri@ && old(
                        self,
                    )@[i].version == version && final(self)@ == old(self)@.update(
                        i,
                        (EntryModel {
                            base_uri: base_uri@,
                            version,
                            path: path@,
                            size,
                            e_tag: etag_view(e_tag),
                        }),
                    ),
            },
    {
        match self.find(base_uri, version) {
            None => Err(CommitError::Conflict),
            Some(i) => {
                let ghost model = EntryModel {
                    base_uri: base_uri@,
                    version,
                    path: path@,
                    size,
                    e_tag: etag_view(e_tag),
                };
                self.entries[i] = ManifestEntry {
                    base_uri: String::from_str(base_uri),
                    version,
                    path: String::from_str(path),
                    size,
                    e_tag,
                };
                proof {
                    assert(self@ =~= old(self)@.update(i as int, model));
                }
                Ok(())
            },
        }
    }

    /// Removes every record for `base_uri`, keeping all other datasets'
    /// records in order.  Used for explicit dataset teardown, never on the
    /// commit hot path except for best-effort orphan cleanup.
    pub fn delete(&mut self, base_uri: &str) -> (r: Result<(), CommitError>)
        requires
            old(self).wf(),
        ensures
            final(self).wf(),
            r is Ok,
            final(self)@ == erase_base(old(self)@, base_uri@),
    {
        let key = String::from_str(base_uri);
        let n = self.entries.len();
        let mut kept: Vec<ManifestEntry> = Vec::new();
        proof {
            assert(self@.take(0) =~= Seq::<EntryModel>::empty());
            assert(models(kept@) =~= erase_base(self@.take(0), base_uri@));
        }
        for i in 0..n
            invariant
                n == self@.len(),
                key@ == base_uri@,
                models(kept@) == erase_base(self@.take(i as int), base_uri@),
        {
            proof {
                assert(self@.take(i as int + 1).drop_last() =~= self@.take(i as int));
                assert(self@.take(i as int + 1).last() == self@[i as int]);
            }
            let ghost kept0 = models(kept@);
            if !(self.entries[i].base_uri == key) {
                kept.push(self.entries[i].clone());
                proof {
                    assert(models(kept@) =~= kept0.push(self@[i as int]));
                }
            }
        }
        proof {
            assert(self@.take(n as int) =~= self@);
            lemma_erase_base_props(self@, base_uri@);
        }
        self.entries = kept;
        Ok(())
    }

    /// Returns the canonical path for a version already known to the
    /// store; fails `NotFound` — never `Internal` — when `(base_uri,
    /// version)` is simply absent.
    pub fn get(&self, base_uri: &str, version: u64) -> (r: Result<String, CommitError>)
        ensures
            match r {
                Ok(p) => lookup(self@, base_uri@, version) matches Some(e) && p@ == e.path,
                Err(e) => lookup(self@, base_uri@, version) is None && (e matches
                CommitError::NotFound { uri } && uri@ == spec_version_uri(base_uri@, version)),
            },
    {
        match self.find(base_uri, version) {
            Some(i) => Ok(self.entries[i].path.clone()),
            None => Err(CommitError::NotFound { uri: version_uri(base_uri, version) }),
        }
    }
}

} // verus!
