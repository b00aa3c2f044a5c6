use cloudsync::engine::{Action, Engine, Step};
use cloudsync::snapshot::Snapshot;
use cloudsync::state::SyncState;
use cloudsync::{commit_last_synced, Account, DriveDelta, DriveDeltaType, SyncService, Token};

fn delta(id: &str, path: &str, lm: u64, deleted: bool) -> DriveDelta {
    DriveDelta {
        cloud_id: id.to_string(),
        file_path: path.to_string(),
        last_modified: lm,
        delta_type: if deleted {
            DriveDeltaType::Deleted
        } else {
            DriveDeltaType::CreatedOrModified
        },
    }
}

/// Drives a run to completion, answering every action with success at
/// second `at`; uploads are acknowledged with identifiers `up-0`, `up-1`,
/// in order.  Returns the actions in the order the engine asked for them.
fn run_all_success(engine: &mut Engine, at: u64) -> Vec<Action> {
    let mut actions = Vec::new();
    let mut upload_no = 0u32;
    loop {
        match engine.step() {
            Step::Working => {}
            Step::Done => break,
            Step::Act(a) => {
                match &a {
                    Action::DeleteLocalFile { .. } => engine.on_local_delete(true),
                    Action::Download { .. } => engine.on_download(true, at),
                    Action::Upload { .. } => {
                        engine.on_upload(Some(format!("up-{}", upload_no)), at);
                        upload_no += 1;
                    }
                    Action::DeleteRemote { .. } => engine.on_remote_delete(true),
                }
                actions.push(a);
            }
        }
    }
    actions
}

#[test]
fn end_to_end_single_download() {
    // Local root empty, no tracking state, one remote file at /a/b.txt.
    let engine_now = 1000;
    let deltas = vec![delta("id-b", "/a/b.txt", 100, false)];
    let mut engine = Engine::new(false, engine_now, 0, Snapshot::new(), SyncState::new(), deltas);
    assert!(!engine.done());
    let actions = run_all_success(&mut engine, engine_now);
    assert!(engine.done());
    assert_eq!(
        actions,
        vec![Action::Download { path: "/a/b.txt".to_string() }]
    );
    // The file is now tracked under the delta's identifier, at the second
    // the write finished.
    assert_eq!(engine.state.len(), 1);
    let e = engine.state.get("/a/b.txt").unwrap();
    assert_eq!(e.cloud_id, "id-b");
    assert_eq!(e.last_modified, engine_now);
    assert_eq!(engine.local.get("/a/b.txt"), Some(engine_now));
    // The account's cutoff advances only at commit, to the commit second.
    let mut account = Account {
        service: SyncService::Onedrive,
        token: Token {
            access_token: "a".to_string(),
            refresh_token: "r".to_string(),
            valid_till: 9999,
        },
        last_synced: 0,
        attributes: std::collections::HashMap::new(),
    };
    commit_last_synced(&mut account, 1001);
    assert_eq!(account.last_synced, 1001);
}

#[test]
fn second_run_is_a_no_op() {
    // First run: one download, one local file to upload.
    let deltas = vec![delta("id-b", "/a/b.txt", 100, false)];
    let mut local = Snapshot::new();
    local.upsert("/c.txt".to_string(), 50);
    let mut engine = Engine::new(false, 1000, 0, local, SyncState::new(), deltas);
    let actions = run_all_success(&mut engine, 1000);
    assert_eq!(actions.len(), 2); // the download and the upload
    let committed_at = 1500;

    // Second run: unchanged local tree, unchanged remote but for the echo
    // of our own upload, which the cutoff already covers.
    let mut local2 = Snapshot::new();
    local2.upsert("/a/b.txt".to_string(), 1000);
    local2.upsert("/c.txt".to_string(), 50);
    let echo = vec![delta("up-0", "/c.txt", 1000, false)];
    let state2 = SyncState { entries: engine.state.entries };
    let mut engine2 = Engine::new(false, 2000, committed_at, local2, state2, echo);
    let actions2 = run_all_success(&mut engine2, 2000);
    assert_eq!(actions2, Vec::<Action>::new());
    assert_eq!(engine2.state.len(), 2);
    assert_eq!(engine2.local.len(), 2);
}

#[test]
fn equal_timestamps_keep_the_file_and_untrack_it() {
    // Remote and local timestamps are exactly equal: no download happens,
    // and the tracking entry is evicted.
    let deltas = vec![delta("id-f", "/f.txt", 100, false)];
    let mut local = Snapshot::new();
    local.upsert("/f.txt".to_string(), 100);
    let mut state = SyncState::new();
    state.upsert("/f.txt".to_string(), "id-f".to_string(), 90);
    let mut engine = Engine::new(false, 1000, 0, local, state, deltas);

    // Walk only the remote phase: the first non-Working result would be an
    // action; an untracked file becomes an upload candidate later.
    let r = engine.step();
    assert_eq!(r, Step::Working);
    assert!(engine.state.get("/f.txt").is_none(), "the entry must be evicted");
    assert_eq!(engine.local.get("/f.txt"), Some(100));

    // The now-untracked local file is re-uploaded, per the tie-break
    // policy, and then tracked again.
    let actions = run_all_success(&mut engine, 2000);
    assert_eq!(actions, vec![Action::Upload { path: "/f.txt".to_string() }]);
    assert_eq!(engine.state.get("/f.txt").unwrap().cloud_id, "up-0");
}

#[test]
fn local_deletion_propagates_to_the_cloud() {
    // A tracked path with no local file: exactly one remote delete with
    // that entry's identifier, and the entry is gone afterwards.
    let mut state = SyncState::new();
    state.upsert("/gone.txt".to_string(), "id-gone".to_string(), 50);
    state.upsert("/kept.txt".to_string(), "id-kept".to_string(), 50);
    let mut local = Snapshot::new();
    local.upsert("/kept.txt".to_string(), 50);
    let mut engine = Engine::new(false, 1000, 900, local, state, Vec::new());
    let actions = run_all_success(&mut engine, 1000);
    assert_eq!(
        actions,
        vec![Action::DeleteRemote { cloud_id: "id-gone".to_string() }]
    );
    assert!(engine.state.get("/gone.txt").is_none());
    assert!(engine.state.get("/kept.txt").is_some());
}

#[test]
fn failed_remote_delete_keeps_the_entry_for_retry() {
    let mut state = SyncState::new();
    state.upsert("/gone.txt".to_string(), "id-gone".to_string(), 50);
    let mut engine = Engine::new(false, 1000, 900, Snapshot::new(), state, Vec::new());
    loop {
        match engine.step() {
            Step::Working => {}
            Step::Done => break,
            Step::Act(Action::DeleteRemote { cloud_id }) => {
                assert_eq!(cloud_id, "id-gone");
                engine.on_remote_delete(false);
            }
            Step::Act(a) => panic!("unexpected action {:?}", a),
        }
    }
    assert!(engine.state.get("/gone.txt").is_some(), "kept for the next run");
}

#[test]
fn fresh_run_downloads_everything() {
    // Fresh: the caller emptied the directory and discarded the cursor;
    // the engine treats the cutoff as zero and fetches every remote file,
    // however old its timestamp.
    let deltas = vec![
        delta("id-1", "/old.txt", 1, false),
        delta("id-2", "/new.txt", 400, false),
    ];
    let mut stale = SyncState::new();
    stale.upsert("/junk".to_string(), "id-junk".to_string(), 5);
    let mut engine = Engine::new(true, 500, 999_999, Snapshot::new(), stale, deltas);
    assert_eq!(engine.last_synced, 0, "fresh runs reset the cutoff");
    assert_eq!(engine.state.len(), 0, "fresh runs discard the loaded state");
    let actions = run_all_success(&mut engine, 500);
    assert_eq!(
        actions,
        vec![
            Action::Download { path: "/old.txt".to_string() },
            Action::Download { path: "/new.txt".to_string() },
        ]
    );
    assert_eq!(engine.state.len(), 2);
}

#[test]
fn already_seen_deltas_are_skipped() {
    let deltas = vec![delta("id-1", "/a.txt", 100, false)];
    let mut engine = Engine::new(false, 1000, 100, Snapshot::new(), SyncState::new(), deltas);
    let actions = run_all_success(&mut engine, 1000);
    assert_eq!(actions, Vec::<Action>::new());
    assert_eq!(engine.state.len(), 0);
}

#[test]
fn remote_deletion_wins_and_removes_the_local_file() {
    let deltas = vec![delta("id-d", "/d.txt", 300, true)];
    let mut local = Snapshot::new();
    local.upsert("/d.txt".to_string(), 200);
    let mut state = SyncState::new();
    state.upsert("/d.txt".to_string(), "id-d".to_string(), 200);
    let mut engine = Engine::new(false, 1000, 0, local, state, deltas);
    let actions = run_all_success(&mut engine, 1000);
    assert_eq!(
        actions,
        vec![Action::DeleteLocalFile { path: "/d.txt".to_string() }]
    );
    assert_eq!(engine.local.get("/d.txt"), None);
    assert!(engine.state.get("/d.txt").is_none());
}

#[test]
fn remote_deletion_loses_against_a_newer_local_file() {
    let deltas = vec![delta("id-d", "/d.txt", 100, true)];
    let mut local = Snapshot::new();
    local.upsert("/d.txt".to_string(), 200);
    let mut state = SyncState::new();
    state.upsert("/d.txt".to_string(), "id-d".to_string(), 150);
    let mut engine = Engine::new(false, 1000, 0, local, state, deltas);
    let mut saw_local_delete = false;
    loop {
        match engine.step() {
            Step::Working => {}
            Step::Done => break,
            Step::Act(Action::DeleteLocalFile { .. }) => {
                saw_local_delete = true;
                engine.on_local_delete(true);
            }
            Step::Act(Action::Upload { .. }) => engine.on_upload(None, 1000),
            Step::Act(Action::DeleteRemote { .. }) => engine.on_remote_delete(true),
            Step::Act(Action::Download { .. }) => engine.on_download(true, 1000),
        }
    }
    assert!(!saw_local_delete, "the newer local file must be kept");
    assert_eq!(engine.local.get("/d.txt"), Some(200));
    assert!(engine.state.get("/d.txt").is_some(), "the entry stays");
}

#[test]
fn download_failure_records_nothing() {
    let deltas = vec![delta("id-b", "/b.txt", 100, false)];
    let mut engine = Engine::new(false, 1000, 0, Snapshot::new(), SyncState::new(), deltas);
    loop {
        match engine.step() {
            Step::Working => {}
            Step::Done => break,
            Step::Act(Action::Download { path }) => {
                assert_eq!(path, "/b.txt");
                engine.on_download(false, 1000);
            }
            Step::Act(a) => panic!("unexpected action {:?}", a),
        }
    }
    assert_eq!(engine.state.len(), 0);
    assert_eq!(engine.local.len(), 0);
}

#[test]
fn upload_tracks_the_returned_identifier() {
    let mut local = Snapshot::new();
    local.upsert("/u.txt".to_string(), 800);
    let mut engine = Engine::new(false, 1000, 0, local, SyncState::new(), Vec::new());
    let actions = run_all_success(&mut engine, 1000);
    assert_eq!(actions, vec![Action::Upload { path: "/u.txt".to_string() }]);
    let e = engine.state.get("/u.txt").unwrap();
    assert_eq!(e.cloud_id, "up-0");
    assert_eq!(e.last_modified, 1000);
}

#[test]
fn upload_failure_leaves_the_file_untracked() {
    let mut local = Snapshot::new();
    local.upsert("/u.txt".to_string(), 800);
    let mut engine = Engine::new(false, 1000, 0, local, SyncState::new(), Vec::new());
    loop {
        match engine.step() {
            Step::Working => {}
            Step::Done => break,
            Step::Act(Action::Upload { .. }) => engine.on_upload(None, 1000),
            Step::Act(a) => panic!("unexpected action {:?}", a),
        }
    }
    assert_eq!(engine.state.len(), 0);
}

#[test]
fn tracked_unchanged_file_is_not_uploaded() {
    let mut local = Snapshot::new();
    local.upsert("/s.txt".to_string(), 100);
    let mut state = SyncState::new();
    state.upsert("/s.txt".to_string(), "id-s".to_string(), 100);
    let mut engine = Engine::new(false, 1000, 500, local, state, Vec::new());
    let actions = run_all_success(&mut engine, 1000);
    assert_eq!(actions, Vec::<Action>::new());
}
