use cloudsync::persist::{decode_state, encode_state, load_state};
use cloudsync::snapshot::Snapshot;
use cloudsync::state::{SyncState, SyncStateEntry};

#[test]
fn snapshot_get_upsert_remove() {
    let mut snap = Snapshot::new();
    assert_eq!(snap.len(), 0);
    assert_eq!(snap.get("/a.txt"), None);
    snap.upsert("/a.txt".to_string(), 100);
    snap.upsert("/b.txt".to_string(), 200);
    assert_eq!(snap.len(), 2);
    assert_eq!(snap.get("/a.txt"), Some(100));
    assert_eq!(snap.get("/b.txt"), Some(200));
    snap.upsert("/a.txt".to_string(), 150);
    assert_eq!(snap.len(), 2);
    assert_eq!(snap.get("/a.txt"), Some(150));
    snap.remove("/a.txt");
    assert_eq!(snap.get("/a.txt"), None);
    assert_eq!(snap.len(), 1);
    snap.remove("/missing");
    assert_eq!(snap.len(), 1);
}

#[test]
fn sync_state_get_upsert_remove() {
    let mut st = SyncState::new();
    assert_eq!(st.len(), 0);
    assert!(st.get("/a.txt").is_none());
    st.upsert("/a.txt".to_string(), "id-1".to_string(), 100);
    st.upsert("/b.txt".to_string(), "id-2".to_string(), 200);
    assert_eq!(st.len(), 2);
    let e = st.get("/a.txt").unwrap();
    assert_eq!(e.cloud_id, "id-1");
    assert_eq!(e.last_modified, 100);
    st.upsert("/a.txt".to_string(), "id-3".to_string(), 300);
    assert_eq!(st.len(), 2);
    let e = st.get("/a.txt").unwrap();
    assert_eq!(e.cloud_id, "id-3");
    assert_eq!(e.last_modified, 300);
    st.remove("/a.txt");
    assert!(st.get("/a.txt").is_none());
    assert_eq!(st.len(), 1);
}

#[test]
fn encode_decode_round_trip() {
    let mut st = SyncState::new();
    st.upsert("/docs/a.txt".to_string(), "id-a".to_string(), 1691328180);
    st.upsert("/müsic/ä.txt".to_string(), "id-ä".to_string(), 42);
    st.upsert("/c".to_string(), "".to_string(), 0);
    let bytes = encode_state(&st);
    let back = decode_state(&bytes).expect("decoding its own encoding must succeed");
    assert_eq!(back.len(), 3);
    let e = back.get("/docs/a.txt").unwrap();
    assert_eq!(e.cloud_id, "id-a");
    assert_eq!(e.last_modified, 1691328180);
    let e = back.get("/müsic/ä.txt").unwrap();
    assert_eq!(e.cloud_id, "id-ä");
    assert_eq!(e.last_modified, 42);
    let e = back.get("/c").unwrap();
    assert_eq!(e.cloud_id, "");
    assert_eq!(e.last_modified, 0);
}

#[test]
fn empty_state_round_trips() {
    let st = SyncState::new();
    let bytes = encode_state(&st);
    assert_eq!(bytes.len(), 8);
    let back = decode_state(&bytes).unwrap();
    assert_eq!(back.len(), 0);
}

#[test]
fn corrupt_records_load_as_empty() {
    // Absent file: no bytes at all.
    assert_eq!(load_state(&[]).len(), 0);
    // Plain garbage.
    assert_eq!(load_state(b"not a state file at all").len(), 0);
    // Truncated: a count promising more entries than present.
    let mut st = SyncState::new();
    st.upsert("/a".to_string(), "id".to_string(), 7);
    let mut bytes = encode_state(&st);
    bytes.truncate(bytes.len() - 1);
    assert!(decode_state(&bytes).is_none());
    assert_eq!(load_state(&bytes).len(), 0);
    // Trailing junk after a valid record.
    let mut bytes = encode_state(&st);
    bytes.push(0);
    assert!(decode_state(&bytes).is_none());
    // Invalid UTF-8 inside a stored string.
    let mut bytes = encode_state(&st);
    let n = bytes.len();
    bytes[n - 9] = 0xFF; // last byte of the path is inside the id... flip one string byte
    let _ = decode_state(&bytes); // must not panic, whatever it returns
}

#[test]
fn duplicate_paths_are_corrupt() {
    // Built directly, bypassing the table operations, so both entries
    // share one path.
    let st = SyncState {
        entries: vec![
            SyncStateEntry {
                path: "/same".to_string(),
                cloud_id: "id-1".to_string(),
                last_modified: 1,
            },
            SyncStateEntry {
                path: "/same".to_string(),
                cloud_id: "id-2".to_string(),
                last_modified: 2,
            },
        ],
    };
    let bytes = encode_state(&st);
    assert!(decode_state(&bytes).is_none());
    assert_eq!(load_state(&bytes).len(), 0);
}

#[test]
fn valid_record_loads_in_full() {
    let mut st = SyncState::new();
    st.upsert("/x".to_string(), "idx".to_string(), 11);
    let loaded = load_state(&encode_state(&st));
    assert_eq!(loaded.len(), 1);
    assert_eq!(loaded.get("/x").unwrap().cloud_id, "idx");
}
