use diff_review::watcher::{
    change_event_for, classify_path, create_watcher_handle, stop_watching, ChangeKind,
    GitChangeEvent, WatcherState,
};
use std::sync::mpsc;

#[test]
fn paths_classified() {
    assert_eq!(classify_path("/r/.git/HEAD"), Some(ChangeKind::Branch));
    assert_eq!(classify_path("/r/.git/HEAD.lock"), Some(ChangeKind::Branch));
    assert_eq!(classify_path("/r/.git/index"), Some(ChangeKind::Index));
    assert_eq!(classify_path("/r/.git/index.lock"), Some(ChangeKind::Index));
    assert_eq!(classify_path("/r/.git/refs/heads/main"), Some(ChangeKind::Refs));
    assert_eq!(classify_path("/r/.git/ORIG_HEAD.lock"), Some(ChangeKind::Refs));
    assert_eq!(classify_path("/r/.git/FETCH_HEAD"), Some(ChangeKind::Branch));
    assert_eq!(classify_path("/r/.git/logs/x"), Some(ChangeKind::Refs));
    assert_eq!(classify_path("/r/.git/objects/ab/cd"), None);
}

#[test]
fn batch_reports_last_signal() {
    let paths = vec!["/r/.git/HEAD".to_string(), "/r/.git/index".to_string(), "/r/.git/objects/x".to_string()];
    assert_eq!(change_event_for(&paths), Some(GitChangeEvent { change_type: "index".to_string() }));
    assert_eq!(change_event_for(&vec!["/r/.git/objects/x".to_string()]), None);
    assert_eq!(change_event_for(&vec![]), None);
}

#[test]
fn state_begin_and_stop() {
    let mut s = WatcherState::new();
    assert!(s.stop_tx.is_none() && s.watched_path.is_none());
    let (tx, rx) = mpsc::channel::<()>();
    s.begin(tx, "/repo".to_string());
    assert_eq!(s.watched_path.as_deref(), Some("/repo"));
    let taken = s.stop();
    assert!(taken.is_some());
    assert!(s.stop_tx.is_none() && s.watched_path.is_none());
    taken.unwrap().send(()).unwrap();
    assert!(rx.try_recv().is_ok());
}

#[test]
fn stop_watching_signals_the_watch() {
    let handle = create_watcher_handle();
    let (tx, rx) = mpsc::channel::<()>();
    handle.lock().unwrap().begin(tx, "/repo".to_string());
    assert_eq!(stop_watching(handle.clone()), Ok(()));
    assert!(rx.try_recv().is_ok());
    let state = handle.lock().unwrap();
    assert!(state.stop_tx.is_none() && state.watched_path.is_none());
    drop(state);
    assert_eq!(stop_watching(handle), Ok(()));
}
