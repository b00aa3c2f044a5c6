//! The durable sync state: for every file believed to exist both locally
//! and remotely as of the last successful commit, the remote identifier and
//! the last-known-modified time, keyed by the path relative to the synced
//! root.  Absence of a key means "untracked".

use vstd::prelude::*;

use crate::keyed::{
    kv_find, kv_remove, kv_uniq, kv_upsert, lemma_kv_find_absent, lemma_kv_find_skip,
    lemma_kv_remove_absent, lemma_kv_remove_found, lemma_kv_uniq_remove, lemma_kv_uniq_upsert,
    lemma_kv_upsert_absent, lemma_kv_upsert_found, str_eq,
};

verus! {

/// One tracked file: its relative path, the identifier the provider knows
/// it by, and when it was last known modified.
pub struct SyncStateEntry {
    pub path: String,
    pub cloud_id: String,
    pub last_modified: u64,
}

/// The whole record.  Keys are pairwise distinct ([`SyncState::wf`]).
pub struct SyncState {
    pub entries: Vec<SyncStateEntry>,
}

impl View for SyncState {
    type V = Seq<(Seq<char>, (Seq<char>, u64))>;

    open spec fn view(&self) -> Seq<(Seq<char>, (Seq<char>, u64))> {
        self.entries@.map_values(|e: SyncStateEntry| (e.path@, (e.cloud_id@, e.last_modified)))
    }
}

impl SyncState {
    /// Distinct paths.
    pub open spec fn wf(&self) -> bool {
        kv_uniq(self@)
    }

    /// The empty record: nothing is tracked.
    pub fn new() -> (r: SyncState)
        ensures
            r@ == Seq::<(Seq<char>, (Seq<char>, u64))>::empty(),
            r.wf(),
    {
        let r = SyncState { entries: Vec::new() };
        proof {
            assert(r@ =~= Seq::<(Seq<char>, (Seq<char>, u64))>::empty());
        }
        r
    }

    /// The entry tracked for `path`, if any.
    pub fn get(&self, path: &str) -> (r: Option<&SyncStateEntry>)
        ensures
            match r {
                Some(e) => kv_find(self@, path@) == Some((e.cloud_id@, e.last_modified)) && e.path@
                    == path@,
                None => kv_find(self@, path@) is None,
            },
    {
        let n = self.entries.len();
        let mut i: usize = 0;
        while i < n
            invariant
                n == self.entries.len(),
                i <= n,
                forall|j: int| 0 <= j < i ==> (#[trigger] self@[j]).0 != path@,
            decreases n - i,
        {
            if str_eq(self.entries[i].path.as_str(), path) {
                proof {
                    lemma_kv_find_skip(self@, path@, i as int);
                    assert(self@.skip(i as int)[0] == self@[i as int]);
                }
                return Some(&self.entries[i]);
            }
            i = i + 1;
        }
        proof {
            lemma_kv_find_absent(self@, path@);
        }
        None
    }

    /// Tracks `path` as `(cloud_id, last_modified)`, replacing any previous
    /// record for it.
    pub fn upsert(&mut self, path: String, cloud_id: String, last_modified: u64)
        requires
            old(self).wf(),
        ensures
            final(self)@ == kv_upsert(old(self)@, path@, (cloud_id@, last_modified)),
            final(self).wf(),
    {
        let n = self.entries.len();
        let mut i: usize = 0;
        while i < n
            invariant
                n == self.entries.len(),
                i <= n,
                *self == *old(self),
                old(self).wf(),
                forall|j: int| 0 <= j < i ==> (#[trigger] self@[j]).0 != path@,
            decreases n - i,
        {
            if str_eq(self.entries[i].path.as_str(), path.as_str()) {
                proof {
                    lemma_kv_upsert_found(
                        old(self)@,
                        i as int,
                        path@,
                        (cloud_id@, last_modified),
                    );
                    lemma_kv_uniq_upsert(old(self)@, path@, (cloud_id@, last_modified));
                }
                self.entries.remove(i);
                self.entries.insert(i, SyncStateEntry { path, cloud_id, last_modified });
                proof {
                    assert(self@ =~= old(self)@.update(
                        i as int,
                        (path@, (cloud_id@, last_modified)),
                    ));
                }
                return ;
            }
            i = i + 1;
        }
        proof {
            lemma_kv_upsert_absent(old(self)@, path@, (cloud_id@, last_modified));
            lemma_kv_uniq_upsert(old(self)@, path@, (cloud_id@, last_modified));
        }
        self.entries.push(SyncStateEntry { path, cloud_id, last_modified });
        proof {
            assert(self@ =~= old(self)@.push((path@, (cloud_id@, last_modified))));
        }
    }

    /// Evicts `path` from tracking, if present.
    pub fn remove(&mut self, path: &str)
        requires
            old(self).wf(),
        ensures
            final(self)@ == kv_remove(old(self)@, path@),
            final(self).wf(),
    {
        let n = self.entries.len();
        let mut i: usize = 0;
        while i < n
            invariant
                n == self.entries.len(),
                i <= n,
                *self == *old(self),
                old(self).wf(),
                forall|j: int| 0 <= j < i ==> (#[trigger] self@[j]).0 != path@,
            decreases n - i,
        {
            if str_eq(self.entries[i].path.as_str(), path) {
                proof {
                    lemma_kv_remove_found(old(self)@, i as int, path@);
                    lemma_kv_uniq_remove(old(self)@, path@);
                }
                self.entries.remove(i);
                proof {
                    assert(self@ =~= old(self)@.remove(i as int));
                }
                return ;
            }
            i = i + 1;
        }
        proof {
            lemma_kv_remove_absent(old(self)@, path@);
            lemma_kv_uniq_remove(old(self)@, path@);
        }
    }

    /// How many files are tracked.
    pub fn len(&self) -> (r: usize)
        ensures
            r == self@.len(),
    {
        self.entries.len()
    }
}

} // verus!
