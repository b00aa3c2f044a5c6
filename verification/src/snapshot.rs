//! The local filesystem snapshot: every regular file under the synced root,
//! keyed by its path relative to that root, valued by its last-modified
//! time in whole seconds.  Rebuilt fresh every run, never persisted.

use vstd::prelude::*;

use crate::keyed::{
    kv_find, kv_remove, kv_uniq, kv_upsert, lemma_kv_find_absent, lemma_kv_find_skip,
    lemma_kv_remove_absent, lemma_kv_remove_found, lemma_kv_uniq_remove, lemma_kv_uniq_upsert,
    lemma_kv_upsert_absent, lemma_kv_upsert_found, str_eq,
};

verus! {

/// One scanned file.
pub struct SnapshotEntry {
    pub path: String,
    pub last_modified: u64,
}

/// The snapshot itself.  The scanner yields each path once, so the keys are
/// pairwise distinct; [`Snapshot::wf`] records that.
pub struct Snapshot {
    pub entries: Vec<SnapshotEntry>,
}

impl View for Snapshot {
    type V = Seq<(Seq<char>, u64)>;

    open spec fn view(&self) -> Seq<(Seq<char>, u64)> {
        self.entries@.map_values(|e: SnapshotEntry| (e.path@, e.last_modified))
    }
}

impl Snapshot {
    /// Distinct paths.
    pub open spec fn wf(&self) -> bool {
        kv_uniq(self@)
    }

    /// An empty snapshot.
    pub fn new() -> (r: Snapshot)
        ensures
            r@ == Seq::<(Seq<char>, u64)>::empty(),
            r.wf(),
    {
        let r = Snapshot { entries: Vec::new() };
        proof {
            assert(r@ =~= Seq::<(Seq<char>, u64)>::empty());
        }
        r
    }

    /// The last-modified time recorded for `path`, if the file is present.
    pub fn get(&self, path: &str) -> (r: Option<u64>)
        ensures
            r == kv_find(self@, path@),
    {
        let n = self.entries.len();
        let mut i: usize = 0;
        while i < n
            invariant
                n == self.entries.len(),
                i <= n,
                forall|j: int| 0 <= j < i ==> (#[trigger] self@[j]).0 != path@,
            decreases n - i,
        {
            if str_eq(self.entries[i].path.as_str(), path) {
                proof {
                    lemma_kv_find_skip(self@, path@, i as int);
                    assert(self@.skip(i as int)[0] == self@[i as int]);
                }
                return Some(self.entries[i].last_modified);
            }
            i = i + 1;
        }
        proof {
            lemma_kv_find_absent(self@, path@);
        }
        None
    }

    /// Records `path` at `last_modified`, replacing any previous record.
    pub fn upsert(&mut self, path: String, last_modified: u64)
        requires
            old(self).wf(),
        ensures
            final(self)@ == kv_upsert(old(self)@, path@, last_modified),
            final(self).wf(),
    {
        let n = self.entries.len();
        let mut i: usize = 0;
        while i < n
            invariant
                n == self.entries.len(),
                i <= n,
                *self == *old(self),
                old(self).wf(),
                forall|j: int| 0 <= j < i ==> (#[trigger] self@[j]).0 != path@,
            decreases n - i,
        {
            if str_eq(self.entries[i].path.as_str(), path.as_str()) {
                proof {
                    lemma_kv_upsert_found(old(self)@, i as int, path@, last_modified);
                    lemma_kv_uniq_upsert(old(self)@, path@, last_modified);
                }
                self.entries.remove(i);
                self.entries.insert(i, SnapshotEntry { path, last_modified });
                proof {
                    assert(self@ =~= old(self)@.update(i as int, (path@, last_modified)));
                }
                return ;
            }
            i = i + 1;
        }
        proof {
            lemma_kv_upsert_absent(old(self)@, path@, last_modified);
            lemma_kv_uniq_upsert(old(self)@, path@, last_modified);
        }
        self.entries.push(SnapshotEntry { path, last_modified });
        proof {
            assert(self@ =~= old(self)@.push((path@, last_modified)));
        }
    }

    /// Forgets `path`, if present.
    pub fn remove(&mut self, path: &str)
        requires
            old(self).wf(),
        ensures
            final(self)@ == kv_remove(old(self)@, path@),
            final(self).wf(),
    {
        let n = self.entries.len();
        let mut i: usize = 0;
        while i < n
            invariant
                n == self.entries.len(),
                i <= n,
                *self == *old(self),
                old(self).wf(),
                forall|j: int| 0 <= j < i ==> (#[trigger] self@[j]).0 != path@,
            decreases n - i,
        {
            if str_eq(self.entries[i].path.as_str(), path) {
                proof {
                    lemma_kv_remove_found(old(self)@, i as int, path@);
                    lemma_kv_uniq_remove(old(self)@, path@);
                }
                self.entries.remove(i);
                proof {
                    assert(self@ =~= old(self)@.remove(i as int));
                }
                return ;
            }
            i = i + 1;
        }
        proof {
            lemma_kv_remove_absent(old(self)@, path@);
            lemma_kv_uniq_remove(old(self)@, path@);
        }
    }

    /// How many files the snapshot holds.
    pub fn len(&self) -> (r: usize)
        ensures
            r == self@.len(),
    {
        self.entries.len()
    }
}

} // verus!
