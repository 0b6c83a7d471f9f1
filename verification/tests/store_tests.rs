use watchr::store::State;

#[test]
fn upsert_twice_is_idempotent() {
    let mut s = State::empty();
    assert_eq!(s.update("pause".to_string(), "true".to_string()), None);
    assert_eq!(
        s.update("pause".to_string(), "true".to_string()),
        Some("true".to_string())
    );
    let snap = s.snapshot();
    assert_eq!(snap.len(), 1);
    assert_eq!(snap[0].0, "pause");
    assert_eq!(snap[0].1, "true");
}

#[test]
fn upsert_returns_previous_value() {
    let mut s = State::empty();
    assert_eq!(s.update("pause".to_string(), "no".to_string()), None);
    assert_eq!(
        s.update("pause".to_string(), "yes".to_string()),
        Some("no".to_string())
    );
    let snap = s.snapshot();
    assert_eq!(snap.len(), 1);
    assert_eq!(snap[0].1, "yes");
}

#[test]
fn snapshot_keeps_insertion_order() {
    let mut s = State::empty();
    s.update("pause".to_string(), "true".to_string());
    s.update("playback-time".to_string(), "42.0".to_string());
    s.update("pause".to_string(), "false".to_string());
    let snap = s.snapshot();
    assert_eq!(snap.len(), 2);
    assert_eq!(snap[0], ("pause".to_string(), "false".to_string()));
    assert_eq!(snap[1], ("playback-time".to_string(), "42.0".to_string()));
}

#[test]
fn empty_store_has_empty_snapshot() {
    let s = State::empty();
    assert!(s.snapshot().is_empty());
}

#[test]
fn sync_frames_seed_full_state_once() {
    let mut s = State::empty();
    s.update("pause".to_string(), "true".to_string());
    s.update("playback-time".to_string(), "42.0".to_string());
    let frames = s.sync_frames();
    assert_eq!(frames.len(), 2);
    assert_eq!(frames[0], b"pause\0true".to_vec());
    assert_eq!(frames[1], b"playback-time\x0042.0".to_vec());
}
