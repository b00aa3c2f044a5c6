//! Whole runs of the engine, and what they promise.
//!
//! [`run`] folds [`step_spec`] and the outcome rules over an engine state
//! until the run completes, consuming one outside outcome per emitted
//! action and collecting the actions.  The proof functions here state the
//! run-level behaviour of the reconciliation: a quiescent second run moves
//! nothing, a vanished local file costs its remote twin exactly one delete,
//! and a fresh run fetches every remote file whatever its timestamp.

use vstd::prelude::*;

use crate::engine::{
    download_applied, local_delete_applied, remote_delete_applied, step_spec, upload_applied,
    upload_candidate, ActionV, DeltaV, EngineV, PendingV, Phase, StepV,
};
use crate::keyed::{
    kv_find, kv_remove, kv_uniq, lemma_kv_find_at_index, lemma_kv_find_none,
    lemma_kv_find_remove, lemma_kv_find_some_index, lemma_kv_find_upsert,
    lemma_kv_remove_absent, lemma_kv_remove_found, lemma_kv_remove_len, lemma_kv_uniq_pairwise,
    lemma_kv_uniq_remove, lemma_kv_uniq_upsert, lemma_kv_upsert_absent, lemma_kv_upsert_len,
};

verus! {

/// How one piece of outside work went: at which second it completed and,
/// for an upload, the identifier the provider returned — or failure.
pub enum OutcomeV {
    Success { at: u64, cloud_id: Seq<char> },
    Failure,
}

/// Every outcome a success.
pub open spec fn all_success(outs: Seq<OutcomeV>) -> bool {
    forall|i: int| 0 <= i < outs.len() ==> (#[trigger] outs[i]) is Success
}

/// Feeds one outcome to the engine state that awaits it.
pub open spec fn apply_outcome(v: EngineV, out: OutcomeV) -> EngineV {
    match v.pending {
        Some(PendingV::LocalDelete { path }) => local_delete_applied(v, path, out is Success),
        Some(PendingV::Download { path, cloud_id }) => match out {
            OutcomeV::Success { at, .. } => download_applied(v, path, cloud_id, true, at),
            OutcomeV::Failure => download_applied(v, path, cloud_id, false, 0),
        },
        Some(PendingV::Upload { path }) => match out {
            OutcomeV::Success { at, cloud_id } => upload_applied(v, path, Some(cloud_id), at),
            OutcomeV::Failure => upload_applied(v, path, None, 0),
        },
        Some(PendingV::RemoteDelete { path }) => remote_delete_applied(v, path, out is Success),
        None => v,
    }
}

/// How far the run still has to go, coarsely: later phases rank lower.
pub open spec fn phase_rank(v: EngineV) -> int {
    match v.phase {
        Phase::Remote => 3,
        Phase::Upload => 2,
        Phase::Prune => 1,
        Phase::Done => 0,
    }
}

/// How much of the current phase's list is left.
pub open spec fn work_left(v: EngineV) -> int {
    match v.phase {
        Phase::Remote => v.deltas.len() - v.idx,
        Phase::Upload => v.local.len() - v.idx,
        Phase::Prune => v.state.len() - v.idx,
        Phase::Done => 0,
    }
}

/// A completed run: where the engine ended, and the actions it asked for,
/// in order.
pub struct RunV {
    pub end: EngineV,
    pub trace: Seq<ActionV>,
}

/// The whole run from `v`: steps are taken per [`step_spec`]; each emitted
/// action consumes the next of `outs` as its outcome.
pub open spec fn run(v: EngineV, outs: Seq<OutcomeV>) -> RunV
    decreases phase_rank(v), work_left(v),
        when 0 <= v.idx
        via run_decreases
{
    if v.phase is Done {
        RunV { end: v, trace: Seq::empty() }
    } else {
        let (v1, s) = step_spec(v);
        match s {
            StepV::Working => run(v1, outs),
            StepV::Done => RunV { end: v1, trace: Seq::empty() },
            StepV::Act(a) => {
                let v2 = apply_outcome(v1, outs.first());
                let rest = run(v2, outs.drop_first());
                RunV { end: rest.end, trace: seq![a] + rest.trace }
            },
        }
    }
}

/// A remote phase whose whole remaining feed is already reflected —
/// nothing newer than the cutoff — passes through without actions or
/// changes.
proof fn lemma_remote_quiet(v: EngineV, outs: Seq<OutcomeV>)
    requires
        v.phase is Remote,
        0 <= v.idx <= v.deltas.len(),
        v.pending is None,
        forall|j: int|
            v.idx <= j < v.deltas.len() ==> (#[trigger] v.deltas[j]).last_modified
                <= v.last_synced,
    ensures
        run(v, outs) == run(EngineV { phase: Phase::Upload, idx: 0, ..v }, outs),
    decreases v.deltas.len() - v.idx,
{
    if v.idx >= v.deltas.len() {
    } else {
        lemma_remote_quiet(EngineV { idx: v.idx + 1, ..v }, outs);
    }
}

/// An upload phase in which no remaining local file is a candidate passes
/// through without actions or changes.
proof fn lemma_upload_quiet(v: EngineV, outs: Seq<OutcomeV>)
    requires
        v.phase is Upload,
        0 <= v.idx <= v.local.len(),
        v.pending is None,
        forall|j: int|
            v.idx <= j < v.local.len() ==> !upload_candidate(
                v.state,
                v.last_synced,
                (#[trigger] v.local[j]).0,
                v.local[j].1,
            ),
    ensures
        run(v, outs) == run(EngineV { phase: Phase::Prune, idx: 0, ..v }, outs),
    decreases v.local.len() - v.idx,
{
    if v.idx >= v.local.len() {
    } else {
        lemma_upload_quiet(EngineV { idx: v.idx + 1, ..v }, outs);
    }
}

/// A prune phase in which every remaining tracked path still has its local
/// file deletes nothing and keeps the state as it is.
proof fn lemma_prune_quiet(v: EngineV, outs: Seq<OutcomeV>)
    requires
        v.phase is Prune,
        0 <= v.idx <= v.state.len(),
        v.pending is None,
        forall|j: int|
            v.idx <= j < v.state.len() ==> kv_find(v.local, (#[trigger] v.state[j]).0) is Some,
    ensures
        run(v, outs).trace == Seq::<ActionV>::empty(),
        run(v, outs).end.state == v.state,
        run(v, outs).end.local == v.local,
        run(v, outs).end.phase is Done,
    decreases v.state.len() - v.idx,
{
    if v.idx >= v.state.len() {
    } else {
        lemma_prune_quiet(EngineV { idx: v.idx + 1, ..v }, outs);
    }
}

/// The remote deletions a prune owes: one per tracked entry whose path has
/// no local file, in order, each named by that entry's remote identifier.
pub open spec fn missing_of(
    state: Seq<(Seq<char>, (Seq<char>, u64))>,
    local: Seq<(Seq<char>, u64)>,
) -> Seq<ActionV>
    decreases state.len(),
{
    if state.len() == 0 {
        Seq::empty()
    } else {
        (if kv_find(local, state[0].0) is None {
            seq![ActionV::DeleteRemote { cloud_id: state[0].1.0 }]
        } else {
            Seq::empty()
        }) + missing_of(state.drop_first(), local)
    }
}

/// The entries a prune keeps: those whose path still has a local file.
pub open spec fn present_of(
    state: Seq<(Seq<char>, (Seq<char>, u64))>,
    local: Seq<(Seq<char>, u64)>,
) -> Seq<(Seq<char>, (Seq<char>, u64))>
    decreases state.len(),
{
    if state.len() == 0 {
        state
    } else {
        (if kv_find(local, state[0].0) is Some {
            seq![state[0]]
        } else {
            Seq::empty()
        }) + present_of(state.drop_first(), local)
    }
}

/// Deletion propagation: when every remote deletion succeeds, a prune
/// phase issues exactly one remote delete per tracked entry whose relative
/// path has no local file — with that entry's remote identifier — and ends
/// with exactly the other entries still tracked.  Since the keys are
/// distinct, no identifier is deleted twice.
pub proof fn lemma_prune_run(v: EngineV, outs: Seq<OutcomeV>)
    requires
        v.phase is Prune,
        0 <= v.idx <= v.state.len(),
        v.pending is None,
        kv_uniq(v.state),
        all_success(outs),
        outs.len() >= v.state.len() - v.idx,
    ensures
        run(v, outs).trace == missing_of(v.state.skip(v.idx), v.local),
        run(v, outs).end.state == v.state.take(v.idx) + present_of(
            v.state.skip(v.idx),
            v.local,
        ),
        run(v, outs).end.local == v.local,
        run(v, outs).end.phase is Done,
    decreases v.state.len() - v.idx,
{
    let rem = v.state.skip(v.idx);
    if v.idx >= v.state.len() {
        assert(rem =~= Seq::<(Seq<char>, (Seq<char>, u64))>::empty());
        assert(v.state.take(v.idx) + present_of(rem, v.local) =~= v.state);
    } else {
        let e = v.state[v.idx];
        assert(rem[0] == e);
        assert(rem.drop_first() =~= v.state.skip(v.idx + 1));
        if kv_find(v.local, e.0) is Some {
            let v1 = EngineV { idx: v.idx + 1, ..v };
            lemma_prune_run(v1, outs);
            assert(missing_of(rem, v.local) =~= missing_of(v.state.skip(v.idx + 1), v.local));
            assert(present_of(rem, v.local) =~= seq![e] + present_of(
                v.state.skip(v.idx + 1),
                v.local,
            ));
            assert(v.state.take(v.idx + 1) =~= v.state.take(v.idx) + seq![e]);
            assert(v.state.take(v.idx + 1) + present_of(v.state.skip(v.idx + 1), v.local)
                =~= v.state.take(v.idx) + present_of(rem, v.local));
        } else {
            let out = outs.first();
            assert(out is Success);
            lemma_kv_uniq_pairwise(v.state);
            lemma_kv_remove_found(v.state, v.idx, e.0);
            lemma_kv_uniq_remove(v.state, e.0);
            let state2 = kv_remove(v.state, e.0);
            assert(state2 =~= v.state.take(v.idx) + v.state.skip(v.idx + 1));
            let v2 = EngineV { state: state2, pending: None, ..v };
            assert(state2.skip(v.idx) =~= v.state.skip(v.idx + 1));
            assert(state2.take(v.idx) =~= v.state.take(v.idx));
            let outs2 = outs.drop_first();
            assert(forall|i: int|
                0 <= i < outs2.len() ==> (#[trigger] outs2[i]) == outs[i + 1]);
            lemma_prune_run(v2, outs2);
            assert(missing_of(rem, v.local) =~= seq![ActionV::DeleteRemote { cloud_id: e.1.0 }]
                + missing_of(v.state.skip(v.idx + 1), v.local));
            assert(present_of(rem, v.local) =~= present_of(v.state.skip(v.idx + 1), v.local));
            assert(run(v, outs).trace =~= missing_of(rem, v.local));
        }
    }
}

/// Idempotence: a run over inputs that carry no change — every delta at or
/// before the cutoff, every local file tracked and not newer than the
/// cutoff, every tracked file present locally, and no fresh flag —
/// performs no download, upload or deletion at all, and leaves both the
/// sync state and the local snapshot exactly as they were.  This is the
/// second of two back-to-back runs: the first run's commit produced
/// precisely such inputs.
pub proof fn lemma_idempotent(v: EngineV, outs: Seq<OutcomeV>)
    requires
        v.phase is Remote,
        v.idx == 0,
        v.pending is None,
        !v.fresh,
        forall|j: int|
            0 <= j < v.deltas.len() ==> (#[trigger] v.deltas[j]).last_modified <= v.last_synced,
        forall|j: int|
            0 <= j < v.local.len() ==> kv_find(v.state, (#[trigger] v.local[j]).0) is Some,
        forall|j: int| 0 <= j < v.local.len() ==> (#[trigger] v.local[j]).1 <= v.last_synced,
        forall|j: int|
            0 <= j < v.state.len() ==> kv_find(v.local, (#[trigger] v.state[j]).0) is Some,
    ensures
        run(v, outs).trace == Seq::<ActionV>::empty(),
        run(v, outs).end.state == v.state,
        run(v, outs).end.local == v.local,
        run(v, outs).end.phase is Done,
{
    lemma_remote_quiet(v, outs);
    let vb = EngineV { phase: Phase::Upload, idx: 0, ..v };
    assert forall|j: int| vb.idx <= j < vb.local.len() implies !upload_candidate(
        vb.state,
        vb.last_synced,
        (#[trigger] vb.local[j]).0,
        vb.local[j].1,
    ) by {
        assert(kv_find(v.state, v.local[j].0) is Some);
        assert(v.local[j].1 <= v.last_synced);
    }
    lemma_upload_quiet(vb, outs);
    let vc = EngineV { phase: Phase::Prune, idx: 0, ..vb };
    lemma_prune_quiet(vc, outs);
}

/// Conflict tie-break: a remote creation or modification whose timestamp
/// merely equals the local file's triggers no download; the file's
/// tracking entry is evicted instead, demoting it to untracked.
pub proof fn lemma_tie_untracks(v: EngineV)
    requires
        v.phase is Remote,
        0 <= v.idx < v.deltas.len(),
        v.pending is None,
        !v.fresh,
        !v.deltas[v.idx].deleted,
        v.last_synced < v.deltas[v.idx].last_modified,
        kv_find(v.local, v.deltas[v.idx].file_path) == Some(v.deltas[v.idx].last_modified),
    ensures
        step_spec(v).1 is Working,
        step_spec(v).0.state == kv_remove(v.state, v.deltas[v.idx].file_path),
        step_spec(v).0.local == v.local,
{
}

/// The snapshot and the state list the same paths position by position,
/// with matching last-modified times.
pub open spec fn paired(
    local: Seq<(Seq<char>, u64)>,
    state: Seq<(Seq<char>, (Seq<char>, u64))>,
) -> bool {
    &&& local.len() == state.len()
    &&& forall|i: int|
        0 <= i < local.len() ==> (#[trigger] local[i]).0 == state[i].0 && local[i].1
            == state[i].1.1
}

/// What a fresh run owes the feed: a local deletion per deletion entry and
/// a download per creation-or-modification entry, in feed order.
pub open spec fn fresh_trace(ds: Seq<DeltaV>) -> Seq<ActionV>
    decreases ds.len(),
{
    if ds.len() == 0 {
        Seq::empty()
    } else {
        seq![
            if ds[0].deleted {
                ActionV::DeleteLocalFile { path: ds[0].file_path }
            } else {
                ActionV::Download { path: ds[0].file_path }
            },
        ] + fresh_trace(ds.drop_first())
    }
}

proof fn lemma_fresh_remote(v: EngineV, outs: Seq<OutcomeV>)
    requires
        v.phase is Remote,
        0 <= v.idx <= v.deltas.len(),
        v.pending is None,
        v.fresh,
        v.last_synced == 0,
        v.now > 0,
        kv_uniq(v.local),
        kv_uniq(v.state),
        paired(v.local, v.state),
        forall|j: int, k: int|
            v.idx <= j < k < v.deltas.len() ==> (#[trigger] v.deltas[j]).file_path
                != (#[trigger] v.deltas[k]).file_path,
        forall|j: int|
            v.idx <= j < v.deltas.len() ==> kv_find(
                v.local,
                (#[trigger] v.deltas[j]).file_path,
            ) is None,
        forall|j: int|
            v.idx <= j < v.deltas.len() ==> (#[trigger] v.deltas[j]).last_modified > 0,
        all_success(outs),
        outs.len() >= v.deltas.len() - v.idx,
    ensures
        run(v, outs).trace == fresh_trace(v.deltas.skip(v.idx)),
    decreases v.deltas.len() - v.idx,
{
    if v.idx >= v.deltas.len() {
        assert(v.deltas.skip(v.idx) =~= Seq::<DeltaV>::empty());
        let vb = EngineV { phase: Phase::Upload, idx: 0, ..v };
        assert forall|j: int| vb.idx <= j < vb.local.len() implies !upload_candidate(
            vb.state,
            vb.last_synced,
            (#[trigger] vb.local[j]).0,
            vb.local[j].1,
        ) by {
            lemma_kv_find_at_index(v.state, j);
            assert(v.local[j].0 == v.state[j].0);
        }
        lemma_upload_quiet(vb, outs);
        let vc = EngineV { phase: Phase::Prune, idx: 0, ..vb };
        assert forall|j: int| vc.idx <= j < vc.state.len() implies kv_find(
            vc.local,
            (#[trigger] vc.state[j]).0,
        ) is Some by {
            lemma_kv_find_at_index(v.local, j);
            assert(v.local[j].0 == v.state[j].0);
        }
        lemma_prune_quiet(vc, outs);
    } else {
        let d = v.deltas[v.idx];
        assert(kv_find(v.local, d.file_path) is None);
        // The path is absent from the state too: a state entry for it
        // would, by the pairing, put it into the snapshot as well.
        assert(kv_find(v.state, d.file_path) is None) by {
            if kv_find(v.state, d.file_path) is Some {
                lemma_kv_find_some_index(v.state, d.file_path);
                let i = choose|i: int|
                    0 <= i < v.state.len() && (#[trigger] v.state[i]).0 == d.file_path;
                lemma_kv_find_at_index(v.local, i);
                assert(v.local[i].0 == d.file_path);
            }
        }
        let out = outs.first();
        assert(out is Success);
        let outs2 = outs.drop_first();
        assert(forall|i: int| 0 <= i < outs2.len() ==> (#[trigger] outs2[i]) == outs[i + 1]);
        assert(v.deltas.skip(v.idx).drop_first() =~= v.deltas.skip(v.idx + 1));
        assert(v.deltas.skip(v.idx)[0] == d);
        if d.deleted {
            lemma_kv_find_none(v.local, d.file_path);
            lemma_kv_find_none(v.state, d.file_path);
            lemma_kv_remove_absent(v.local, d.file_path);
            lemma_kv_remove_absent(v.state, d.file_path);
            let v2 = apply_outcome(step_spec(v).0, out);
            assert(v2.local == v.local);
            assert(v2.state == v.state);
            lemma_fresh_remote(v2, outs2);
        } else {
            let at = match out {
                OutcomeV::Success { at, .. } => at,
                OutcomeV::Failure => 0u64,
            };
            lemma_kv_find_none(v.local, d.file_path);
            lemma_kv_find_none(v.state, d.file_path);
            lemma_kv_upsert_absent(v.local, d.file_path, at);
            lemma_kv_upsert_absent(v.state, d.file_path, (d.cloud_id, at));
            lemma_kv_uniq_upsert(v.local, d.file_path, at);
            lemma_kv_uniq_upsert(v.state, d.file_path, (d.cloud_id, at));
            let v2 = apply_outcome(step_spec(v).0, out);
            assert(v2.local == v.local.push((d.file_path, at)));
            assert(v2.state == v.state.push((d.file_path, (d.cloud_id, at))));
            assert(paired(v2.local, v2.state));
            assert forall|j: int|
                v2.idx <= j < v2.deltas.len() implies kv_find(
                v2.local,
                (#[trigger] v2.deltas[j]).file_path,
            ) is None by {
                lemma_kv_find_upsert(v.local, d.file_path, at, v.deltas[j].file_path);
                assert(v.deltas[j].file_path != d.file_path);
            }
            lemma_fresh_remote(v2, outs2);
        }
    }
}

/// Fresh sync: with the cutoff reset to zero, the local directory already
/// emptied and its tracking state discarded, a run downloads every remote
/// creation-or-modification — regardless of its own timestamp — and
/// attempts the local deletion for every remote deletion entry, in feed
/// order, whatever `now` the run carries and at whatever seconds the
/// downloads complete.
pub proof fn lemma_fresh_run(v: EngineV, outs: Seq<OutcomeV>)
    requires
        v.phase is Remote,
        v.idx == 0,
        v.pending is None,
        v.fresh,
        v.last_synced == 0,
        v.now > 0,
        v.local.len() == 0,
        v.state.len() == 0,
        forall|j: int, k: int|
            0 <= j < k < v.deltas.len() ==> (#[trigger] v.deltas[j]).file_path
                != (#[trigger] v.deltas[k]).file_path,
        forall|j: int|
            0 <= j < v.deltas.len() ==> (#[trigger] v.deltas[j]).last_modified > 0,
        all_success(outs),
        outs.len() >= v.deltas.len(),
    ensures
        run(v, outs).trace == fresh_trace(v.deltas),
{
    assert(v.local =~= Seq::<(Seq<char>, u64)>::empty());
    assert(v.state =~= Seq::<(Seq<char>, (Seq<char>, u64))>::empty());
    lemma_fresh_remote(v, outs);
    assert(v.deltas.skip(0) =~= v.deltas);
}

/// The invariant behind the tracking guarantee, phase by phase: the
/// upload phase has already tracked every file it has passed, and the
/// prune phase has already confirmed a local file for every entry it has
/// kept.
spec fn tracking_inv(v: EngineV) -> bool {
    &&& kv_uniq(v.local)
    &&& kv_uniq(v.state)
    &&& v.pending is None
    &&& 0 <= v.idx
    &&& match v.phase {
        Phase::Remote => v.idx <= v.deltas.len(),
        Phase::Upload => v.idx <= v.local.len() && forall|j: int|
            0 <= j < v.idx ==> kv_find(v.state, (#[trigger] v.local[j]).0) is Some,
        Phase::Prune => {
            &&& v.idx <= v.state.len()
            &&& forall|j: int|
                0 <= j < v.local.len() ==> kv_find(v.state, (#[trigger] v.local[j]).0) is Some
            &&& forall|j: int|
                0 <= j < v.idx ==> kv_find(v.local, (#[trigger] v.state[j]).0) is Some
        },
        Phase::Done => {
            &&& forall|j: int|
                0 <= j < v.local.len() ==> kv_find(v.state, (#[trigger] v.local[j]).0) is Some
            &&& forall|j: int|
                0 <= j < v.state.len() ==> kv_find(v.local, (#[trigger] v.state[j]).0) is Some
        },
    }
}

/// Enough outcomes for every action the rest of the run could still ask
/// for: a delta can cost a transfer now and, through the entry it adds, a
/// prune later; a local file an upload and a prune.
spec fn outs_needed(v: EngineV) -> int {
    match v.phase {
        Phase::Remote => 5 * (v.deltas.len() - v.idx) + 2 * v.local.len() + v.state.len(),
        Phase::Upload => 2 * (v.local.len() - v.idx) + v.state.len(),
        Phase::Prune => v.state.len() - v.idx,
        Phase::Done => 0,
    }
}

proof fn lemma_success_run_inv(v: EngineV, outs: Seq<OutcomeV>)
    requires
        tracking_inv(v),
        all_success(outs),
        outs.len() >= outs_needed(v),
    ensures
        ({
            let e = run(v, outs).end;
            &&& e.phase is Done
            &&& kv_uniq(e.local)
            &&& kv_uniq(e.state)
            &&& forall|j: int|
                0 <= j < e.local.len() ==> kv_find(e.state, (#[trigger] e.local[j]).0) is Some
            &&& forall|j: int|
                0 <= j < e.state.len() ==> kv_find(e.local, (#[trigger] e.state[j]).0) is Some
        }),
    decreases phase_rank(v), work_left(v),
{
    let outs2 = outs.drop_first();
    if outs.len() > 0 {
        assert(forall|i: int| 0 <= i < outs2.len() ==> (#[trigger] outs2[i]) == outs[i + 1]);
    }
    match v.phase {
        Phase::Remote => {
            if v.idx >= v.deltas.len() {
                lemma_success_run_inv(EngineV { phase: Phase::Upload, idx: 0, ..v }, outs);
            } else {
                let d = v.deltas[v.idx];
                match crate::engine::delta_decision(v.fresh, v.now, v.last_synced, v.local, d) {
                    crate::engine::DeltaDecision::AlreadySeen => {
                        lemma_success_run_inv(EngineV { idx: v.idx + 1, ..v }, outs);
                    },
                    crate::engine::DeltaDecision::KeepLocal => {
                        lemma_success_run_inv(EngineV { idx: v.idx + 1, ..v }, outs);
                    },
                    crate::engine::DeltaDecision::Untrack => {
                        lemma_kv_uniq_remove(v.state, d.file_path);
                        lemma_kv_remove_len(v.state, d.file_path);
                        lemma_success_run_inv(
                            EngineV {
                                state: kv_remove(v.state, d.file_path),
                                idx: v.idx + 1,
                                ..v
                            },
                            outs,
                        );
                    },
                    crate::engine::DeltaDecision::RemoveLocal => {
                        let out = outs.first();
                        assert(out is Success);
                        lemma_kv_uniq_remove(v.local, d.file_path);
                        lemma_kv_uniq_remove(v.state, d.file_path);
                        lemma_kv_remove_len(v.local, d.file_path);
                        lemma_kv_remove_len(v.state, d.file_path);
                        let v2 = apply_outcome(step_spec(v).0, out);
                        assert(tracking_inv(v2));
                        assert(outs2.len() >= outs_needed(v2));
                        lemma_success_run_inv(v2, outs2);
                        assert(run(v, outs).end == run(v2, outs2).end);
                    },
                    crate::engine::DeltaDecision::Fetch => {
                        let out = outs.first();
                        assert(out is Success);
                        let at = match out {
                            OutcomeV::Success { at, .. } => at,
                            OutcomeV::Failure => 0u64,
                        };
                        lemma_kv_uniq_upsert(v.local, d.file_path, at);
                        lemma_kv_uniq_upsert(v.state, d.file_path, (d.cloud_id, at));
                        lemma_kv_upsert_len(v.local, d.file_path, at);
                        lemma_kv_upsert_len(v.state, d.file_path, (d.cloud_id, at));
                        let v2 = apply_outcome(step_spec(v).0, out);
                        assert(tracking_inv(v2));
                        assert(outs2.len() >= outs_needed(v2));
                        lemma_success_run_inv(v2, outs2);
                        assert(run(v, outs).end == run(v2, outs2).end);
                    },
                }
            }
        },
        Phase::Upload => {
            if v.idx >= v.local.len() {
                lemma_success_run_inv(EngineV { phase: Phase::Prune, idx: 0, ..v }, outs);
            } else {
                let (path, local_modified) = v.local[v.idx];
                if upload_candidate(v.state, v.last_synced, path, local_modified) {
                    let out = outs.first();
                    assert(out is Success);
                    let (at, cid) = match out {
                        OutcomeV::Success { at, cloud_id } => (at, cloud_id),
                        OutcomeV::Failure => (0u64, Seq::empty()),
                    };
                    lemma_kv_uniq_upsert(v.state, path, (cid, at));
                    lemma_kv_upsert_len(v.state, path, (cid, at));
                    let v2 = apply_outcome(step_spec(v).0, out);
                    assert forall|j: int| 0 <= j < v2.idx implies kv_find(
                        v2.state,
                        (#[trigger] v2.local[j]).0,
                    ) is Some by {
                        lemma_kv_find_upsert(v.state, path, (cid, at), v.local[j].0);
                    }
                    assert(tracking_inv(v2));
                    assert(outs2.len() >= outs_needed(v2));
                    lemma_success_run_inv(v2, outs2);
                    assert(run(v, outs).end == run(v2, outs2).end);
                } else {
                    lemma_success_run_inv(EngineV { idx: v.idx + 1, ..v }, outs);
                }
            }
        },
        Phase::Prune => {
            if v.idx >= v.state.len() {
                // The run returns right here, with the two sides agreeing.
            } else {
                let e = v.state[v.idx];
                if kv_find(v.local, e.0) is Some {
                    lemma_success_run_inv(EngineV { idx: v.idx + 1, ..v }, outs);
                } else {
                    let out = outs.first();
                    assert(out is Success);
                    lemma_kv_find_none(v.local, e.0);
                    lemma_kv_uniq_pairwise(v.state);
                    lemma_kv_remove_found(v.state, v.idx, e.0);
                    lemma_kv_uniq_remove(v.state, e.0);
                    lemma_kv_remove_len(v.state, e.0);
                    let state2 = kv_remove(v.state, e.0);
                    let v2 = apply_outcome(step_spec(v).0, out);
                    assert(v2.state == state2);
                    assert forall|j: int| 0 <= j < v2.local.len() implies kv_find(
                        v2.state,
                        (#[trigger] v2.local[j]).0,
                    ) is Some by {
                        lemma_kv_find_remove(v.state, e.0, v.local[j].0);
                        assert(v.local[j].0 != e.0);
                    }
                    assert forall|j: int| 0 <= j < v2.idx implies kv_find(
                        v2.local,
                        (#[trigger] v2.state[j]).0,
                    ) is Some by {
                        assert(state2 == v.state.remove(v.idx));
                        assert(v2.state[j] == v.state[j]);
                    }
                    assert(tracking_inv(v2));
                    assert(outs2.len() >= outs_needed(v2));
                    lemma_success_run_inv(v2, outs2);
                    assert(run(v, outs).end == run(v2, outs2).end);
                }
            }
        },
        Phase::Done => {},
    }
}

/// After a run whose outside work all succeeded, the tracking record and
/// the directory agree exactly: every tracked path has its local file and
/// every local file is tracked — the invariant the persisted state
/// promises to the next run.
pub proof fn lemma_success_run_tracks_exactly(v: EngineV, outs: Seq<OutcomeV>)
    requires
        v.phase is Remote,
        v.idx == 0,
        v.pending is None,
        kv_uniq(v.local),
        kv_uniq(v.state),
        all_success(outs),
        outs.len() >= 5 * v.deltas.len() + 2 * v.local.len() + v.state.len(),
    ensures
        ({
            let e = run(v, outs).end;
            &&& e.phase is Done
            &&& kv_uniq(e.local)
            &&& kv_uniq(e.state)
            &&& forall|j: int|
                0 <= j < e.local.len() ==> kv_find(e.state, (#[trigger] e.local[j]).0) is Some
            &&& forall|j: int|
                0 <= j < e.state.len() ==> kv_find(e.local, (#[trigger] e.state[j]).0) is Some
        }),
{
    lemma_success_run_inv(v, outs);
}

#[via_fn]
proof fn run_decreases(v: EngineV, outs: Seq<OutcomeV>) {
    // Only the successful remote deletion needs an argument: the entry at
    // the cursor is present, so removing its path shrinks the state by one
    // while the cursor stays put.
    match v.phase {
        Phase::Prune => {
            if 0 <= v.idx < v.state.len() {
                let e = v.state[v.idx];
                if kv_find(v.state, e.0) is None {
                    lemma_kv_find_none(v.state, e.0);
                    assert(false);
                }
                lemma_kv_remove_len(v.state, e.0);
            }
        },
        _ => {},
    }
}

} // verus!
