//! The object-storage collaborator the coordinator writes manifests
//! through: a byte store addressed by path.
//!
//! Writes need not be atomic and may overwrite; each write reports the
//! final size (this model supports no ETags and reports none).  Deletes
//! are idempotent: deleting an absent object is not an error.

use vstd::prelude::*;
use vstd::string::StringExecFns;

use crate::errors::CommitError;

verus! {

/// The mathematical image of one stored object.
pub ghost struct ObjectModel {
    pub path: Seq<char>,
    pub data: Seq<u8>,
}

/// One stored object: a path and the bytes under it.
pub struct StoredObject {
    pub path: String,
    pub data: Vec<u8>,
}

impl View for StoredObject {
    type V = ObjectModel;

    open spec fn view(&self) -> ObjectModel {
        ObjectModel { path: self.path@, data: self.data@ }
    }
}

/// The bytes stored under `path`, scanning from the front; `None` when
/// nothing is stored there.
pub open spec fn object_at(s: Seq<ObjectModel>, path: Seq<char>) -> Option<Seq<u8>>
    decreases s.len(),
{
    if s.len() == 0 {
        None
    } else if s[0].path == path {
        Some(s[0].data)
    } else {
        object_at(s.drop_first(), path)
    }
}

/// All objects under `path` removed, the rest kept in order.
pub open spec fn erase_object(s: Seq<ObjectModel>, path: Seq<char>) -> Seq<ObjectModel>
    decreases s.len(),
{
    if s.len() == 0 {
        Seq::empty()
    } else if s.last().path == path {
        erase_object(s.drop_last(), path)
    } else {
        erase_object(s.drop_last(), path).push(s.last())
    }
}

/// In-memory object storage.
pub struct ObjectStore {
    objects: Vec<StoredObject>,
}

impl View for ObjectStore {
    type V = Seq<ObjectModel>;

    closed spec fn view(&self) -> Seq<ObjectModel> {
        Seq::new(self.objects@.len(), |i: int| self.objects@[i]@)
    }
}

impl ObjectStore {
    /// An empty object store.
    pub fn new() -> (s: ObjectStore)
        ensures
            s@ =~= Seq::<ObjectModel>::empty(),
    {
        ObjectStore { objects: Vec::new() }
    }

    /// The index of the object at `path`, if any.
    fn find(&self, path: &str) -> (r: Option<usize>)
        ensures
            match r {
                Some(i) => i < self@.len() && self@[i as int].path == path@ && object_at(
                    self@,
                    path@,
                ) == Some(self@[i as int].data) && forall|j: int|
                    0 <= j < i ==> self@[j].path != path@,
                None => object_at(self@, path@) is None,
            },
    {
        let key = String::from_str(path);
        let n = self.objects.len();
        proof {
            assert(self@.skip(0) =~= self@);
        }
        for i in 0..n
            invariant
                n == self@.len(),
                key@ == path@,
                object_at(self@, path@) == object_at(self@.skip(i as int), path@),
                forall|j: int| 0 <= j < i ==> self@[j].path != path@,
        {
            proof {
                assert(self@.skip(i as int)[0] == self@[i as int]);
                assert(self@.skip(i as int).drop_first() =~= self@.skip(i as int + 1));
            }
            if self.objects[i].path == key {
                return Some(i);
            }
        }
        proof {
            assert(self@.skip(n as int) =~= Seq::<ObjectModel>::empty());
        }
        None
    }

    /// Durably writes `data` under `path`, overwriting whatever was
    /// there — the caller's lease or pending create-if-absent record is
    /// what makes the overwrite safe.  Reports the final size; this
    /// store supports no ETags and reports none.
    pub fn write(&mut self, path: &str, data: &Vec<u8>) -> (r: (u64, Option<String>))
        requires
            data@.len() <= u64::MAX,
        ensures
            object_at(final(self)@, path@) == Some(data@),
            forall|p: Seq<char>|
                p != path@ ==> #[trigger] object_at(final(self)@, p) == object_at(old(self)@, p),
            r.0 == data@.len(),
            r.1 is None,
    {
        let stored = StoredObject { path: String::from_str(path), data: data.clone() };
        let size: u64 = data.len() as u64;
        let ghost m = ObjectModel { path: path@, data: data@ };
        match self.find(path) {
            Some(i) => {
                self.objects[i] = stored;
                proof {
                    assert(self@ =~= old(self)@.update(i as int, m));
                    lemma_object_update(old(self)@, self@, i as int, m);
                }
            },
            None => {
                self.objects.push(stored);
                proof {
                    assert(self@ =~= old(self)@.push(m));
                    lemma_object_push(old(self)@, m);
                    assert(object_at(self@, path@) == object_at(old(self)@.push(m), m.path));
                    assert forall|p: Seq<char>|
                        p != path@ implies #[trigger] object_at(self@, p) == object_at(
                        old(self)@,
                        p,
                    ) by {
                        assert(object_at(old(self)@.push(m), p) == object_at(old(self)@, p));
                        assert(object_at(self@, p) == object_at(old(self)@.push(m), p));
                    }
                }
            },
        }
        (size, None)
    }

    /// The bytes stored under `path`; fails `NotFound` when absent.
    pub fn read(&self, path: &str) -> (r: Result<Vec<u8>, CommitError>)
        ensures
            match r {
                Ok(d) => object_at(self@, path@) == Some(d@),
                Err(e) => object_at(self@, path@) is None && e is NotFound,
            },
    {
        match self.find(path) {
            Some(i) => Ok(self.objects[i].data.clone()),
            None => Err(CommitError::NotFound { uri: String::from_str(path) }),
        }
    }

    /// Removes the object under `path`.  Idempotent: deleting an absent
    /// object succeeds and changes nothing.
    pub fn delete(&mut self, path: &str) -> (r: Result<(), CommitError>)
        ensures
            r is Ok,
            object_at(final(self)@, path@) is None,
            forall|p: Seq<char>|
                p != path@ ==> #[trigger] object_at(final(self)@, p) == object_at(old(self)@, p),
    {
        let key = String::from_str(path);
        let n = self.objects.len();
        let mut kept: Vec<StoredObject> = Vec::new();
        proof {
            assert(self@.take(0) =~= Seq::<ObjectModel>::empty());
            assert(object_models(kept@) =~= erase_object(self@.take(0), path@));
        }
        for i in 0..n
            invariant
                n == self@.len(),
                key@ == path@,
                object_models(kept@) == erase_object(self@.take(i as int), path@),
        {
            proof {
                assert(self@.take(i as int + 1).drop_last() =~= self@.take(i as int));
                assert(self@.take(i as int + 1).last() == self@[i as int]);
            }
            let ghost kept0 = object_models(kept@);
            if !(self.objects[i].path == key) {
                let o = &self.objects[i];
                kept.push(StoredObject { path: o.path.clone(), data: o.data.clone() });
                proof {
                    assert(object_models(kept@) =~= kept0.push(self@[i as int]));
                }
            }
        }
        proof {
            assert(self@.take(n as int) =~= self@);
        }
        self.objects = kept;
        proof {
            assert(self@ =~= object_models(kept@));
            lemma_erase_object_props(old(self)@, path@);
            assert(object_at(self@, path@) == object_at(erase_object(old(self)@, path@), path@));
            assert forall|p: Seq<char>|
                p != path@ implies #[trigger] object_at(self@, p) == object_at(old(self)@, p) by {
                assert(object_at(erase_object(old(self)@, path@), p) == object_at(old(self)@, p));
                assert(object_at(self@, p) == object_at(erase_object(old(self)@, path@), p));
            }
        }
        Ok(())
    }
}

/// The models of a sequence of stored objects, in order.
pub open spec fn object_models(s: Seq<StoredObject>) -> Seq<ObjectModel> {
    Seq::new(s.len(), |i: int| s[i]@)
}

/// How `object_at` reads through a push: an earlier object under the same
/// path still answers first; every other path is untouched.
proof fn lemma_object_push(s: Seq<ObjectModel>, e: ObjectModel)
    ensures
        object_at(s.push(e), e.path) == (match object_at(s, e.path) {
            Some(d) => Some(d),
            None => Some(e.data),
        }),
        forall|p: Seq<char>| p != e.path ==> #[trigger] object_at(s.push(e), p) == object_at(s, p),
    decreases s.len(),
{
    assert(s.push(e)[s.len() as int] == e);
    if s.len() == 0 {
        assert(s.push(e)[0] == e);
        assert forall|p: Seq<char>|
            p != e.path implies #[trigger] object_at(s.push(e), p) == object_at(s, p) by {
            reveal_with_fuel(object_at, 2);
            assert(s.push(e).drop_first() =~= Seq::<ObjectModel>::empty());
            assert(object_at(s.push(e), p) is None);
            assert(object_at(s, p) is None);
        }
    } else {
        lemma_object_push(s.drop_first(), e);
        assert(s.push(e)[0] == s[0]);
        assert(s.push(e).drop_first() =~= s.drop_first().push(e));
        if s[0].path == e.path {
        } else {
            assert(object_at(s.push(e), e.path) == object_at(s.drop_first().push(e), e.path));
            assert(object_at(s, e.path) == object_at(s.drop_first(), e.path));
        }
        assert forall|p: Seq<char>|
            p != e.path implies #[trigger] object_at(s.push(e), p) == object_at(s, p) by {
            assert(object_at(s.drop_first().push(e), p) == object_at(s.drop_first(), p));
            if s[0].path == p {
            } else {
                assert(object_at(s.push(e), p) == object_at(s.drop_first().push(e), p));
                assert(object_at(s, p) == object_at(s.drop_first(), p));
            }
        }
    }
}

/// How `object_at` reads through an update at the first index of a path.
proof fn lemma_object_update(s0: Seq<ObjectModel>, s1: Seq<ObjectModel>, i: int, e: ObjectModel)
    requires
        0 <= i < s0.len(),
        s0[i].path == e.path,
        forall|j: int| 0 <= j < i ==> s0[j].path != e.path,
        s1 == s0.update(i, e),
    ensures
        object_at(s1, e.path) == Some(e.data),
        forall|p: Seq<char>| p != e.path ==> #[trigger] object_at(s1, p) == object_at(s0, p),
    decreases s0.len(),
{
    if i == 0 {
        assert(s1[0] == e);
        assert(object_at(s1, e.path) == Some(e.data));
        assert forall|p: Seq<char>|
            p != e.path implies #[trigger] object_at(s1, p) == object_at(s0, p) by {
            assert(s1.drop_first() =~= s0.drop_first());
            assert(object_at(s1, p) == object_at(s1.drop_first(), p));
            assert(object_at(s0, p) == object_at(s0.drop_first(), p));
        }
    } else {
        let s0d = s0.drop_first();
        let s1d = s1.drop_first();
        assert(s1[0] == s0[0]);
        assert(s0[0].path != e.path);
        assert(s1d =~= s0d.update(i - 1, e));
        assert(forall|j: int| 0 <= j < i - 1 ==> s0d[j] == s0[j + 1]);
        assert(s0d[i - 1] == s0[i]);
        lemma_object_update(s0d, s1d, i - 1, e);
        assert(object_at(s1, e.path) == object_at(s1d, e.path));
        assert forall|p: Seq<char>|
            p != e.path implies #[trigger] object_at(s1, p) == object_at(s0, p) by {
            assert(object_at(s1d, p) == object_at(s0d, p));
            if s0[0].path == p {
            } else {
                assert(object_at(s1, p) == object_at(s1d, p));
                assert(object_at(s0, p) == object_at(s0d, p));
            }
        }
    }
}

/// What erasing a path leaves under every path.
proof fn lemma_erase_object_props(s: Seq<ObjectModel>, path: Seq<char>)
    ensures
        object_at(erase_object(s, path), path) is None,
        forall|p: Seq<char>|
            p != path ==> #[trigger] object_at(erase_object(s, path), p) == object_at(s, p),
    decreases s.len(),
{
    if s.len() == 0 {
        assert forall|p: Seq<char>|
            p != path implies #[trigger] object_at(erase_object(s, path), p) == object_at(
            s,
            p,
        ) by {
            assert(object_at(erase_object(s, path), p) is None);
            assert(object_at(s, p) is None);
        }
    } else {
        let dl = s.drop_last();
        let last = s.last();
        lemma_erase_object_props(dl, path);
        lemma_object_push(dl, last);
        assert(s =~= dl.push(last));
        let er = erase_object(s, path);
        let erd = erase_object(dl, path);
        if last.path == path {
            assert(er == erd);
            assert forall|p: Seq<char>|
                p != path implies #[trigger] object_at(er, p) == object_at(s, p) by {
                assert(object_at(erd, p) == object_at(dl, p));
                assert(object_at(dl.push(last), p) == object_at(dl, p));
                assert(object_at(s, p) == object_at(dl.push(last), p));
            }
        } else {
            lemma_object_push(erd, last);
            assert(er == erd.push(last));
            assert(object_at(erd.push(last), path) == object_at(erd, path));
            assert(object_at(er, path) is None);
            assert forall|p: Seq<char>|
                p != path implies #[trigger] object_at(er, p) == object_at(s, p) by {
                assert(object_at(erd, p) == object_at(dl, p));
                assert(object_at(s, p) == object_at(dl.push(last), p));
                if p == last.path {
                } else {
                    assert(object_at(erd.push(last), p) == object_at(erd, p));
                    assert(object_at(dl.push(last), p) == object_at(dl, p));
                }
            }
        }
    }
}

} // verus!
