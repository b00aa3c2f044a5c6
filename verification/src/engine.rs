//! The reconciliation engine: the three-phase merge of the local snapshot,
//! the persisted sync state and the remote change feed.
//!
//! The engine owns every decision; it performs no I/O itself.  The driver
//! repeatedly calls [`Engine::step`]; when it gets an [`Action`] back it
//! performs that one piece of filesystem or network work and reports how it
//! went through the matching `on_*` method, together with the wall-clock
//! second at which it finished.  The whole transition relation is the spec
//! function [`step_spec`], which the contracts pin call by call.
//!
//! Phases, in order: remote changes are applied (download or delete
//! locally, the newer side winning, ties kept), then locally new or newer
//! files are uploaded, then tracked files that vanished locally are deleted
//! remotely.  Strict `>` decides every race: equal timestamps never move a
//! byte.

use vstd::prelude::*;

use crate::keyed::{kv_find, kv_remove, kv_upsert, lemma_kv_remove_len};
use crate::snapshot::Snapshot;
use crate::state::SyncState;
use crate::{DriveDelta, DriveDeltaType};

verus! {

/// The mathematical shadow of one remote change.
pub struct DeltaV {
    pub cloud_id: Seq<char>,
    pub file_path: Seq<char>,
    pub last_modified: u64,
    pub deleted: bool,
}

impl View for DriveDelta {
    type V = DeltaV;

    open spec fn view(&self) -> DeltaV {
        DeltaV {
            cloud_id: self.cloud_id@,
            file_path: self.file_path@,
            last_modified: self.last_modified,
            deleted: self.delta_type is Deleted,
        }
    }
}

/// Where a run stands.
#[derive(Debug)]
pub enum Phase {
    /// Applying the remote change feed.
    Remote,
    /// Uploading locally new or newer files.
    Upload,
    /// Propagating local deletions to the cloud.
    Prune,
    /// Finished; the caller may commit.
    Done,
}

/// One piece of outside work the driver must perform.
#[derive(Debug, PartialEq, Eq)]
pub enum Action {
    /// Remove the local file at this relative path.
    DeleteLocalFile { path: String },
    /// Download the remote file at this relative path and write it locally,
    /// creating parent directories as needed.
    Download { path: String },
    /// Read the local file at this relative path and upload it.
    Upload { path: String },
    /// Delete the remote object with this identifier.
    DeleteRemote { cloud_id: String },
}

/// What one call to [`Engine::step`] yields.
#[derive(Debug, PartialEq, Eq)]
pub enum Step {
    /// An item was consumed without outside work; call `step` again.
    Working,
    /// Perform this action, then report through the matching `on_*` method.
    Act(Action),
    /// The run is complete.
    Done,
}

/// The action whose outcome the engine is waiting for.
#[derive(Debug)]
pub enum Pending {
    LocalDelete { path: String },
    Download { path: String, cloud_id: String },
    Upload { path: String },
    RemoteDelete { path: String },
}

/// The mathematical shadow of [`Action`].
pub enum ActionV {
    DeleteLocalFile { path: Seq<char> },
    Download { path: Seq<char> },
    Upload { path: Seq<char> },
    DeleteRemote { cloud_id: Seq<char> },
}

/// The mathematical shadow of [`Step`].
pub enum StepV {
    Working,
    Act(ActionV),
    Done,
}

/// The mathematical shadow of [`Pending`].
pub enum PendingV {
    LocalDelete { path: Seq<char> },
    Download { path: Seq<char>, cloud_id: Seq<char> },
    Upload { path: Seq<char> },
    RemoteDelete { path: Seq<char> },
}

impl View for Action {
    type V = ActionV;

    open spec fn view(&self) -> ActionV {
        match self {
            Action::DeleteLocalFile { path } => ActionV::DeleteLocalFile { path: path@ },
            Action::Download { path } => ActionV::Download { path: path@ },
            Action::Upload { path } => ActionV::Upload { path: path@ },
            Action::DeleteRemote { cloud_id } => ActionV::DeleteRemote { cloud_id: cloud_id@ },
        }
    }
}

impl View for Step {
    type V = StepV;

    open spec fn view(&self) -> StepV {
        match self {
            Step::Working => StepV::Working,
            Step::Act(a) => StepV::Act(a@),
            Step::Done => StepV::Done,
        }
    }
}

impl View for Pending {
    type V = PendingV;

    open spec fn view(&self) -> PendingV {
        match self {
            Pending::LocalDelete { path } => PendingV::LocalDelete { path: path@ },
            Pending::Download { path, cloud_id } => PendingV::Download {
                path: path@,
                cloud_id: cloud_id@,
            },
            Pending::Upload { path } => PendingV::Upload { path: path@ },
            Pending::RemoteDelete { path } => PendingV::RemoteDelete { path: path@ },
        }
    }
}

/// The mathematical shadow of the whole engine.
pub struct EngineV {
    pub fresh: bool,
    pub now: u64,
    pub last_synced: u64,
    pub local: Seq<(Seq<char>, u64)>,
    pub state: Seq<(Seq<char>, (Seq<char>, u64))>,
    pub deltas: Seq<DeltaV>,
    pub phase: Phase,
    pub idx: int,
    pub pending: Option<PendingV>,
}

/// One run of the engine.
pub struct Engine {
    pub fresh: bool,
    pub now: u64,
    pub last_synced: u64,
    pub local: Snapshot,
    pub state: SyncState,
    pub deltas: Vec<DriveDelta>,
    pub phase: Phase,
    pub idx: usize,
    pub pending: Option<Pending>,
}

impl View for Engine {
    type V = EngineV;

    open spec fn view(&self) -> EngineV {
        EngineV {
            fresh: self.fresh,
            now: self.now,
            last_synced: self.last_synced,
            local: self.local@,
            state: self.state@,
            deltas: self.deltas@.map_values(|d: DriveDelta| d@),
            phase: self.phase,
            idx: self.idx as int,
            pending: match self.pending {
                Option::None => Option::None,
                Option::Some(p) => Option::Some(p@),
            },
        }
    }
}

/// What one remote change calls for, before any outside work.
pub enum DeltaDecision {
    /// Already reflected by an earlier run: `last_synced` has caught up.
    AlreadySeen,
    /// A remote deletion that wins: remove the local file.
    RemoveLocal,
    /// A remote deletion that loses against a newer local file: nothing.
    KeepLocal,
    /// A remote creation or modification that wins: download.
    Fetch,
    /// A remote creation or modification that loses: evict the tracking
    /// entry so the next phase re-evaluates the local copy for upload.
    Untrack,
}

/// The decision rule of the remote phase, exactly as stated once for the
/// whole system: strictly-greater-than, never `>=`, so equal timestamps
/// never trigger a transfer.  On a fresh run the cloud side competes with
/// the current wall-clock second, so every remote file beats the (already
/// emptied) local side.
pub open spec fn delta_decision(
    fresh: bool,
    now: u64,
    last_synced: u64,
    local: Seq<(Seq<char>, u64)>,
    d: DeltaV,
) -> DeltaDecision {
    if last_synced >= d.last_modified {
        DeltaDecision::AlreadySeen
    } else {
        let cloud_modified = if fresh {
            now
        } else {
            d.last_modified
        };
        let local_modified = match kv_find(local, d.file_path) {
            Some(t) => t,
            None => 0u64,
        };
        if d.deleted {
            if cloud_modified > local_modified {
                DeltaDecision::RemoveLocal
            } else {
                DeltaDecision::KeepLocal
            }
        } else {
            if cloud_modified > local_modified {
                DeltaDecision::Fetch
            } else {
                DeltaDecision::Untrack
            }
        }
    }
}

/// The decision rule of the upload phase: a local file is uploaded when it
/// is untracked, or newer than both the last run and its tracking entry.
pub open spec fn upload_candidate(
    state: Seq<(Seq<char>, (Seq<char>, u64))>,
    last_synced: u64,
    path: Seq<char>,
    local_modified: u64,
) -> bool {
    match kv_find(state, path) {
        None => true,
        Some(e) => local_modified > last_synced && local_modified > e.1,
    }
}

/// The transition relation: what one call to [`Engine::step`] does.
pub open spec fn step_spec(v: EngineV) -> (EngineV, StepV) {
    match v.phase {
        Phase::Remote => {
            if v.idx >= v.deltas.len() {
                (EngineV { phase: Phase::Upload, idx: 0, ..v }, StepV::Working)
            } else {
                let d = v.deltas[v.idx];
                match delta_decision(v.fresh, v.now, v.last_synced, v.local, d) {
                    DeltaDecision::AlreadySeen => (EngineV { idx: v.idx + 1, ..v },
                        StepV::Working),
                    DeltaDecision::KeepLocal => (EngineV { idx: v.idx + 1, ..v },
                        StepV::Working),
                    DeltaDecision::RemoveLocal => (EngineV {
                        pending: Some(PendingV::LocalDelete { path: d.file_path }),
                        ..v
                    }, StepV::Act(ActionV::DeleteLocalFile { path: d.file_path })),
                    DeltaDecision::Fetch => (EngineV {
                        pending: Some(PendingV::Download {
                            path: d.file_path,
                            cloud_id: d.cloud_id,
                        }),
                        ..v
                    }, StepV::Act(ActionV::Download { path: d.file_path })),
                    DeltaDecision::Untrack => (EngineV {
                        state: kv_remove(v.state, d.file_path),
                        idx: v.idx + 1,
                        ..v
                    }, StepV::Working),
                }
            }
        },
        Phase::Upload => {
            if v.idx >= v.local.len() {
                (EngineV { phase: Phase::Prune, idx: 0, ..v }, StepV::Working)
            } else {
                let (path, local_modified) = v.local[v.idx];
                if upload_candidate(v.state, v.last_synced, path, local_modified) {
                    (EngineV { pending: Some(PendingV::Upload { path }), ..v }, StepV::Act(
                        ActionV::Upload { path },
                    ))
                } else {
                    (EngineV { idx: v.idx + 1, ..v }, StepV::Working)
                }
            }
        },
        Phase::Prune => {
            if v.idx >= v.state.len() {
                (EngineV { phase: Phase::Done, ..v }, StepV::Done)
            } else {
                let e = v.state[v.idx];
                if kv_find(v.local, e.0) is Some {
                    (EngineV { idx: v.idx + 1, ..v }, StepV::Working)
                } else {
                    (EngineV { pending: Some(PendingV::RemoteDelete { path: e.0 }), ..v },
                        StepV::Act(ActionV::DeleteRemote { cloud_id: e.1.0 }))
                }
            }
        },
        Phase::Done => (v, StepV::Done),
    }
}

/// The outcome of a local deletion.  The tracking entry goes regardless —
/// the provider no longer has the file — but the snapshot forgets the file
/// only when the deletion really happened.
pub open spec fn local_delete_applied(v: EngineV, path: Seq<char>, ok: bool) -> EngineV {
    EngineV {
        local: if ok {
            kv_remove(v.local, path)
        } else {
            v.local
        },
        state: kv_remove(v.state, path),
        idx: v.idx + 1,
        pending: None,
        ..v
    }
}

/// The outcome of a download.  On success the file now exists locally,
/// written at second `at`, and is tracked under the delta's identifier; on
/// failure nothing is recorded and the file is left for the next run.
pub open spec fn download_applied(
    v: EngineV,
    path: Seq<char>,
    cloud_id: Seq<char>,
    ok: bool,
    at: u64,
) -> EngineV {
    EngineV {
        local: if ok {
            kv_upsert(v.local, path, at)
        } else {
            v.local
        },
        state: if ok {
            kv_upsert(v.state, path, (cloud_id, at))
        } else {
            v.state
        },
        idx: v.idx + 1,
        pending: None,
        ..v
    }
}

/// The outcome of an upload: on success the returned identifier is
/// recorded at second `at`; on failure the prior entry (or absence) is left
/// untouched.
pub open spec fn upload_applied(
    v: EngineV,
    path: Seq<char>,
    cloud_id: Option<Seq<char>>,
    at: u64,
) -> EngineV {
    EngineV {
        state: match cloud_id {
            Some(id) => kv_upsert(v.state, path, (id, at)),
            None => v.state,
        },
        idx: v.idx + 1,
        pending: None,
        ..v
    }
}

/// The outcome of a remote deletion: on success the entry is evicted (the
/// next entry slides into the same position); on failure it stays for the
/// next run to retry.
pub open spec fn remote_delete_applied(v: EngineV, path: Seq<char>, ok: bool) -> EngineV {
    if ok {
        EngineV { state: kv_remove(v.state, path), pending: None, ..v }
    } else {
        EngineV { idx: v.idx + 1, pending: None, ..v }
    }
}

impl Engine {
    /// The engine's invariant: both tables keep distinct keys, the cursor
    /// stays within the list the current phase walks, and a pending action
    /// pins the cursor strictly inside it.
    pub open spec fn wf(&self) -> bool {
        &&& self.local.wf()
        &&& self.state.wf()
        &&& match self.phase {
            Phase::Remote => self.idx <= self.deltas@.len(),
            Phase::Upload => self.idx <= self.local@.len(),
            Phase::Prune => self.idx <= self.state@.len(),
            Phase::Done => true,
        }
        &&& match self@.pending {
            None => true,
            Some(PendingV::LocalDelete { .. }) => self.phase is Remote && self.idx
                < self.deltas@.len(),
            Some(PendingV::Download { .. }) => self.phase is Remote && self.idx
                < self.deltas@.len(),
            Some(PendingV::Upload { .. }) => self.phase is Upload && self.idx
                < self.local@.len(),
            Some(PendingV::RemoteDelete { .. }) => self.phase is Prune && self.idx
                < self.state@.len(),
        }
    }

    /// Sets up one run.  On a fresh run the cutoff is treated as zero and
    /// any previously persisted state is discarded, so the cloud side is
    /// authoritative; the caller has already emptied the local directory
    /// and cleared the provider cursor, and hands in the scan of whatever
    /// remains.
    pub fn new(
        fresh: bool,
        now: u64,
        last_synced: u64,
        local: Snapshot,
        state: SyncState,
        deltas: Vec<DriveDelta>,
    ) -> (r: Engine)
        requires
            local.wf(),
            state.wf(),
        ensures
            r.wf(),
            r@.fresh == fresh,
            r@.now == now,
            r@.last_synced == if fresh {
                0u64
            } else {
                last_synced
            },
            r@.local == local@,
            r@.state == if fresh {
                Seq::<(Seq<char>, (Seq<char>, u64))>::empty()
            } else {
                state@
            },
            r@.deltas == deltas@.map_values(|d: DriveDelta| d@),
            r@.phase is Remote,
            r@.idx == 0,
            r@.pending is None,
    {
        let st = if fresh {
            SyncState::new()
        } else {
            state
        };
        let ls = if fresh {
            0
        } else {
            last_synced
        };
        Engine {
            fresh,
            now,
            last_synced: ls,
            local,
            state: st,
            deltas,
            phase: Phase::Remote,
            idx: 0,
            pending: None,
        }
    }

    /// Whether the run is complete.
    pub fn done(&self) -> (r: bool)
        ensures
            r == (self@.phase is Done),
    {
        match self.phase {
            Phase::Done => true,
            _ => false,
        }
    }

    /// Takes the next decision, per [`step_spec`].
    pub fn step(&mut self) -> (r: Step)
        requires
            old(self).wf(),
            old(self)@.pending is None,
        ensures
            final(self).wf(),
            final(self)@ == step_spec(old(self)@).0,
            r@ == step_spec(old(self)@).1,
    {
        match self.phase {
            Phase::Remote => {
                if self.idx >= self.deltas.len() {
                    self.phase = Phase::Upload;
                    self.idx = 0;
                    return Step::Working;
                }
                let d_lm = self.deltas[self.idx].last_modified;
                if self.last_synced >= d_lm {
                    self.idx = self.idx + 1;
                    return Step::Working;
                }
                let cloud_modified = if self.fresh {
                    self.now
                } else {
                    d_lm
                };
                let path = self.deltas[self.idx].file_path.clone();
                let local_modified = match self.local.get(path.as_str()) {
                    Some(t) => t,
                    None => 0,
                };
                let deleted = match self.deltas[self.idx].delta_type {
                    DriveDeltaType::Deleted => true,
                    DriveDeltaType::CreatedOrModified => false,
                };
                if deleted {
                    if cloud_modified > local_modified {
                        let out = path.clone();
                        self.pending = Some(Pending::LocalDelete { path });
                        Step::Act(Action::DeleteLocalFile { path: out })
                    } else {
                        self.idx = self.idx + 1;
                        Step::Working
                    }
                } else {
                    if cloud_modified > local_modified {
                        let out = path.clone();
                        let cloud_id = self.deltas[self.idx].cloud_id.clone();
                        self.pending = Some(Pending::Download { path, cloud_id });
                        Step::Act(Action::Download { path: out })
                    } else {
                        self.state.remove(path.as_str());
                        self.idx = self.idx + 1;
                        Step::Working
                    }
                }
            },
            Phase::Upload => {
                if self.idx >= self.local.entries.len() {
                    self.phase = Phase::Prune;
                    self.idx = 0;
                    return Step::Working;
                }
                let path = self.local.entries[self.idx].path.clone();
                let local_modified = self.local.entries[self.idx].last_modified;
                let candidate = match self.state.get(path.as_str()) {
                    None => true,
                    Some(e) => local_modified > self.last_synced && local_modified
                        > e.last_modified,
                };
                if candidate {
                    let out = path.clone();
                    self.pending = Some(Pending::Upload { path });
                    Step::Act(Action::Upload { path: out })
                } else {
                    self.idx = self.idx + 1;
                    Step::Working
                }
            },
            Phase::Prune => {
                if self.idx >= self.state.entries.len() {
                    self.phase = Phase::Done;
                    return Step::Done;
                }
                let path = self.state.entries[self.idx].path.clone();
                if self.local.get(path.as_str()).is_some() {
                    self.idx = self.idx + 1;
                    Step::Working
                } else {
                    let cloud_id = self.state.entries[self.idx].cloud_id.clone();
                    self.pending = Some(Pending::RemoteDelete { path });
                    Step::Act(Action::DeleteRemote { cloud_id })
                }
            },
            Phase::Done => Step::Done,
        }
    }

    /// Reports how deleting the local file went.
    pub fn on_local_delete(&mut self, ok: bool)
        requires
            old(self).wf(),
            old(self)@.pending matches Some(PendingV::LocalDelete { .. }),
        ensures
            final(self).wf(),
            match old(self)@.pending {
                Some(PendingV::LocalDelete { path }) => final(self)@ == local_delete_applied(
                    old(self)@,
                    path,
                    ok,
                ),
                _ => true,
            },
    {
        let n = self.deltas.len();
        let path = match &self.pending {
            Some(Pending::LocalDelete { path }) => path.clone(),
            _ => vstd::pervasive::unreached(),
        };
        self.pending = None;
        if ok {
            self.local.remove(path.as_str());
        }
        self.state.remove(path.as_str());
        self.idx = self.idx + 1;
    }

    /// Reports how the download and local write went, and at which second
    /// the file was written.
    pub fn on_download(&mut self, ok: bool, at: u64)
        requires
            old(self).wf(),
            old(self)@.pending matches Some(PendingV::Download { .. }),
        ensures
            final(self).wf(),
            match old(self)@.pending {
                Some(PendingV::Download { path, cloud_id }) => final(self)@ == download_applied(
                    old(self)@,
                    path,
                    cloud_id,
                    ok,
                    at,
                ),
                _ => true,
            },
    {
        let n = self.deltas.len();
        let (path, cloud_id) = match &self.pending {
            Some(Pending::Download { path, cloud_id }) => (path.clone(), cloud_id.clone()),
            _ => vstd::pervasive::unreached(),
        };
        self.pending = None;
        if ok {
            self.state.upsert(path.clone(), cloud_id, at);
            self.local.upsert(path, at);
        }
        self.idx = self.idx + 1;
    }

    /// Reports how the upload went: the identifier the provider returned,
    /// or `None` when reading or sending the file failed, and at which
    /// second it completed.
    pub fn on_upload(&mut self, cloud_id: Option<String>, at: u64)
        requires
            old(self).wf(),
            old(self)@.pending matches Some(PendingV::Upload { .. }),
        ensures
            final(self).wf(),
            match old(self)@.pending {
                Some(PendingV::Upload { path }) => final(self)@ == upload_applied(
                    old(self)@,
                    path,
                    match cloud_id {
                        Some(id) => Some(id@),
                        None => None,
                    },
                    at,
                ),
                _ => true,
            },
    {
        let n = self.local.entries.len();
        let path = match &self.pending {
            Some(Pending::Upload { path }) => path.clone(),
            _ => vstd::pervasive::unreached(),
        };
        self.pending = None;
        match cloud_id {
            Some(id) => {
                self.state.upsert(path, id, at);
            },
            None => {},
        }
        self.idx = self.idx + 1;
    }

    /// Reports how the remote deletion went.
    pub fn on_remote_delete(&mut self, ok: bool)
        requires
            old(self).wf(),
            old(self)@.pending matches Some(PendingV::RemoteDelete { .. }),
        ensures
            final(self).wf(),
            match old(self)@.pending {
                Some(PendingV::RemoteDelete { path }) => final(self)@ == remote_delete_applied(
                    old(self)@,
                    path,
                    ok,
                ),
                _ => true,
            },
    {
        let n = self.state.entries.len();
        let path = match &self.pending {
            Some(Pending::RemoteDelete { path }) => path.clone(),
            _ => vstd::pervasive::unreached(),
        };
        self.pending = None;
        if ok {
            proof {
                lemma_kv_remove_len(self@.state, path@);
            }
            self.state.remove(path.as_str());
        } else {
            self.idx = self.idx + 1;
        }
    }
}

} // verus!
