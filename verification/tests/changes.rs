//! Changes from disk to document and back.
use artel_fs::applier::{
    begin_tombstone, content_ready, content_settled, entry_path, follow_failed, handle_entry, judge_incoming,
    on_outcome, tombstone_event, unraced, ApplyOutcome, FollowFailure, Incoming, PathFingerprint, ReadyPlan,
};
use artel_fs::echo_guard::EchoGuard;
use artel_fs::events::{Direction, WorkspaceEvent};
use artel_fs::filter::{ExcludeRules, FileFacts, MAX_FILE_SIZE};
use artel_fs::ids::ContentHash;
use artel_fs::path::FsPath;
use artel_fs::progress::TransferTrackers;
use artel_fs::rules::{Mode, PathRule, PathRules};
use artel_fs::seeding::{
    export_entry, export_tombstone, export_write, export_written, reconcile_deleted, reconcile_entry, reconcile_path,
    scan_file, scan_published, scan_read, ReconcileStep,
};
use artel_fs::site::Site;
use artel_fs::watcher::{
    local_changes, on_modified, on_published, on_read, on_removed, on_tombstoned, watch_failed, ChangeKind,
    LocalChange, ModifyStep, ReadOutcome, ReadStep, RemoveStep, WatchFailure, DEBOUNCE,
};

fn site() -> Site {
    let rules = PathRules {
        default: Mode::ReadWrite,
        rules: vec![PathRule { glob: "ro/**".to_string(), mode: Mode::ReadOnly }],
    };
    Site::new(FsPath::new("/workspace"), rules, ExcludeRules::default()).ok().expect("rules compile")
}

fn at(rel: &str) -> FsPath {
    FsPath::new("/workspace").join(rel.as_bytes())
}

fn sized(size: u64) -> FileFacts {
    FileFacts { is_symlink: false, file_size: Some(size) }
}

fn gone() -> FileFacts {
    FileFacts { is_symlink: false, file_size: None }
}

fn hash(n: u8) -> ContentHash {
    ContentHash([n; 32])
}

#[test]
fn path_to_key_or_emit_surfaces_error_event_on_failure() {
    let outside = FsPath::new("/elsewhere/foo.txt");
    match site().path_to_key_or_emit(&outside) {
        Err(WorkspaceEvent::Error(msg)) => {
            assert!(
                msg.contains("path_to_key"),
                "error event should describe the failing operation: {msg}",
            );
            assert!(msg.contains("foo.txt"), "error event should mention the offending path: {msg}");
        }
        other => panic!("expected WorkspaceEvent::Error, got {other:?}"),
    }
}

#[test]
fn path_to_key_or_emit_returns_key_on_success() {
    let inside = at("a").join(b"b.txt");
    let key = site().path_to_key_or_emit(&inside).expect("happy-path translation must succeed");
    assert_eq!(key, b"path/a/b.txt");
}

#[test]
fn reports_of_the_file_system_become_changes() {
    let paths = vec![at("a"), at("b")];
    assert_eq!(
        local_changes(ChangeKind::Written, &paths),
        vec![LocalChange::Modified(at("a")), LocalChange::Modified(at("b"))]
    );
    assert_eq!(
        local_changes(ChangeKind::Removed, &paths),
        vec![LocalChange::Removed(at("a")), LocalChange::Removed(at("b"))]
    );
    assert!(local_changes(ChangeKind::Other, &paths).is_empty());
    assert_eq!(DEBOUNCE, 300);
    assert_eq!(
        watch_failed(WatchFailure::Init("x".to_string())),
        WorkspaceEvent::Error("watcher init failed: x".to_string())
    );
    assert_eq!(
        watch_failed(WatchFailure::Attach("x".to_string())),
        WorkspaceEvent::Error("watch failed: x".to_string())
    );
}

#[test]
fn a_change_is_read_unless_something_stops_it() {
    let site = site();
    assert!(matches!(on_modified(&site, false, &at("a.txt"), &sized(3), false), ModifyStep::Read));
    assert!(matches!(on_modified(&site, true, &at("a.txt"), &sized(3), false), ModifyStep::Ignore));
    assert!(matches!(on_modified(&site, false, &at("dir"), &gone(), true), ModifyStep::Rescan));
    assert!(matches!(on_modified(&site, false, &at("target/x"), &sized(3), false), ModifyStep::Ignore));
    let report = |step: ModifyStep| match step {
        ModifyStep::Report(event) => event,
        _ => panic!("expected a report"),
    };
    assert_eq!(
        report(on_modified(&site, false, &at("ro/a"), &sized(3), false)),
        WorkspaceEvent::SkippedReadOnly { path: at("ro/a"), direction: Direction::Outgoing }
    );
    assert_eq!(
        report(on_modified(&site, false, &at(".env"), &sized(3), false)),
        WorkspaceEvent::SkippedExcluded { path: at(".env"), direction: Direction::Outgoing }
    );
    assert_eq!(
        report(on_modified(&site, false, &at("big"), &sized(MAX_FILE_SIZE + 1), false)),
        WorkspaceEvent::SkippedTooLarge { path: at("big"), size: MAX_FILE_SIZE + 1 }
    );
}

#[test]
fn a_file_that_was_read_is_published_once() {
    let site = site();
    let mut guard = EchoGuard::new();
    let path = at("a.txt");
    let bytes = || ReadOutcome::Bytes(b"v1".to_vec());
    match on_read(&site, &guard, &path, &bytes()) {
        ReadStep::Publish { key } => assert_eq!(key, b"path/a.txt"),
        _ => panic!("expected a publish"),
    }
    assert_eq!(
        on_published(&mut guard, &path, b"v1", Err("x".to_string())),
        Some(WorkspaceEvent::Error("publish /workspace/a.txt failed: x".to_string()))
    );
    assert!(matches!(on_read(&site, &guard, &path, &bytes()), ReadStep::Publish { .. }));
    assert_eq!(on_published(&mut guard, &path, b"v1", Ok(())), None);
    assert!(matches!(on_read(&site, &guard, &path, &bytes()), ReadStep::Ignore));
    assert!(matches!(on_read(&site, &guard, &path, &ReadOutcome::Bytes(vec![])), ReadStep::Ignore));
    assert!(matches!(on_read(&site, &guard, &path, &ReadOutcome::NotFound), ReadStep::Removed));
    assert!(matches!(on_read(&site, &guard, &path, &ReadOutcome::Failed), ReadStep::Ignore));
    assert!(matches!(
        on_read(&site, &guard, &FsPath::new("/other/x"), &bytes()),
        ReadStep::Report(WorkspaceEvent::Error(_))
    ));
}

#[test]
fn a_removal_becomes_a_tombstone_unless_a_peer_did_it() {
    let site = site();
    let mut guard = EchoGuard::new();
    let path = at("a.txt");
    match on_removed(&site, &mut guard, false, &path, &gone()) {
        RemoveStep::Tombstone { key } => assert_eq!(key, b"path/a.txt"),
        _ => panic!("expected a tombstone"),
    }
    assert!(matches!(on_removed(&site, &mut guard, true, &path, &gone()), RemoveStep::Ignore));
    assert!(matches!(
        on_removed(&site, &mut guard, false, &at("ro/a"), &gone()),
        RemoveStep::Report(WorkspaceEvent::SkippedReadOnly { .. })
    ));
    assert!(matches!(
        on_removed(&site, &mut guard, false, &at(".env"), &gone()),
        RemoveStep::Report(WorkspaceEvent::SkippedExcluded { .. })
    ));
    assert!(matches!(
        on_removed(&site, &mut guard, false, &FsPath::new("/other/x"), &gone()),
        RemoveStep::Report(WorkspaceEvent::Error(_))
    ));
    guard.mark_remote_delete(&path);
    assert!(matches!(on_removed(&site, &mut guard, false, &path, &gone()), RemoveStep::Ignore));
    assert_eq!(on_tombstoned(&path, Ok(())), None);
    assert_eq!(
        on_tombstoned(&path, Err("x".to_string())),
        Some(WorkspaceEvent::Error("tombstone /workspace/a.txt failed: x".to_string()))
    );
}

#[test]
fn a_removal_forgets_what_was_published() {
    let site = site();
    let mut guard = EchoGuard::new();
    let path = at("a.txt");
    guard.record_local_publish(&path, b"v1");
    on_removed(&site, &mut guard, true, &path, &gone());
    assert!(!guard.should_skip_local(&path, b"v1"));
}

#[test]
fn an_entry_is_judged_before_it_touches_the_disk() {
    let site = site();
    assert_eq!(entry_path(&site, b"path/a/b").unwrap(), at("a/b"));
    match entry_path(&site, b"path/../x") {
        Err(WorkspaceEvent::Error(text)) => assert!(text.starts_with("invalid key: invalid path: "), "{text}"),
        other => panic!("expected an error, got {other:?}"),
    }
    assert!(matches!(judge_incoming(&site, None, &at("a"), &gone(), 5), Incoming::Fetch));
    assert!(matches!(judge_incoming(&site, None, &at("a"), &gone(), 0), Incoming::Tombstone));
    assert!(matches!(judge_incoming(&site, Some(4), &at("a"), &gone(), 4), Incoming::Fetch));
    assert!(matches!(
        judge_incoming(&site, Some(4), &at("a"), &gone(), 5),
        Incoming::Report(WorkspaceEvent::SkippedTooLarge { size: 5, .. })
    ));
    assert!(matches!(
        judge_incoming(&site, None, &at("ro/a"), &gone(), 0),
        Incoming::Report(WorkspaceEvent::SkippedReadOnly { direction: Direction::Incoming, .. })
    ));
    assert!(matches!(judge_incoming(&site, None, &at(".git/HEAD"), &gone(), 0), Incoming::Ignore));
    assert!(matches!(
        judge_incoming(&site, None, &at(".env"), &gone(), 0),
        Incoming::Report(WorkspaceEvent::SkippedExcluded { direction: Direction::Incoming, .. })
    ));
    assert_eq!(
        follow_failed(FollowFailure::Subscribe("x".to_string())),
        WorkspaceEvent::Error("subscribe failed: x".to_string())
    );
    assert_eq!(
        follow_failed(FollowFailure::Event("x".to_string())),
        WorkspaceEvent::Error("doc event error: x".to_string())
    );
    assert_eq!(
        follow_failed(FollowFailure::GetMany("x".to_string())),
        WorkspaceEvent::Error("get_many failed: x".to_string())
    );
    assert_eq!(
        follow_failed(FollowFailure::GetOne("x".to_string())),
        WorkspaceEvent::Error("get_one failed: x".to_string())
    );
}

#[test]
fn a_decided_entry_ends_the_narration_of_its_path() {
    let site = site();
    let mut trackers = TransferTrackers::new();
    trackers.track(hash(1), 10, &at("a"));
    let step = handle_entry(&site, None, &mut trackers, &at("a"), &gone(), 5);
    assert!(matches!(step.step, Incoming::Fetch));
    assert!(step.cancelled.is_empty());
    let step = handle_entry(&site, None, &mut trackers, &at("a"), &gone(), 0);
    assert!(matches!(step.step, Incoming::Tombstone));
    assert_eq!(step.cancelled, vec![hash(1)]);
    assert_eq!(trackers.len(), 0);
}

#[test]
fn outcomes_are_told_and_remembered() {
    let mut guard = EchoGuard::new();
    let mut trackers = TransferTrackers::new();
    let path = at("a");
    let waits = on_outcome(&mut guard, &mut trackers, &path, hash(1), 10, 0, &ApplyOutcome::NotReady);
    assert!(waits.pending && waits.observe && waits.event.is_none());
    let newer = on_outcome(&mut guard, &mut trackers, &path, hash(2), 10, 0, &ApplyOutcome::NotReady);
    assert_eq!(newer.cancelled, vec![hash(1)]);
    guard.mark_remote_content(&path, hash(2));
    let done = on_outcome(&mut guard, &mut trackers, &path, hash(2), 10, 1000, &ApplyOutcome::Applied);
    assert_eq!(done.event, Some(WorkspaceEvent::PeerWrote { path: at("a") }));
    assert!(done.finished && !done.pending);
    assert_eq!(trackers.len(), 0);
    guard.advance(1249);
    assert!(guard.should_skip_local(&path, b"anything"));
    guard.advance(1250);
    assert!(!guard.should_skip_local(&path, b"anything"));
    let failed = on_outcome(
        &mut guard,
        &mut trackers,
        &path,
        hash(3),
        10,
        0,
        &ApplyOutcome::Failed("x".to_string()),
    );
    assert_eq!(
        failed.event,
        Some(WorkspaceEvent::Error("write /workspace/a failed: x".to_string()))
    );
}

fn print(ino: u64, len: u64) -> Option<PathFingerprint> {
    Some(PathFingerprint { dev: 1, ino, mtime: 100, len })
}

#[test]
fn remove_if_unraced_deletes_when_fingerprint_unchanged() {
    assert!(unraced(print(1, 8), print(1, 8)), "unchanged fingerprint must proceed with the delete");
}

#[test]
fn remove_if_unraced_spares_a_racing_local_rewrite() {
    assert!(
        !unraced(print(1, 8), print(1, 22)),
        "a changed fingerprint must spare the file, not delete it",
    );
}

#[test]
fn remove_if_unraced_spares_a_racing_local_recreate_after_delete() {
    assert!(
        !unraced(print(1, 8), print(2, 8)),
        "a recreated path (new inode) must be treated as raced, not identical",
    );
    assert!(!unraced(print(1, 8), None));
    assert!(!unraced(None, print(1, 8)));
}

#[test]
fn remove_if_unraced_handles_already_gone_path() {
    assert!(unraced(None, None), "two absent fingerprints match; nothing to spare");
}

#[test]
fn apply_tombstone_deletes_and_emits_event_when_unraced() {
    let mut guard = EchoGuard::new();
    let path = at("f.txt");
    assert!(begin_tombstone(&mut guard, &path));
    let removed = unraced(print(1, 3), print(1, 3));
    assert_eq!(tombstone_event(&path, removed), Some(WorkspaceEvent::PeerDeleted { path: at("f.txt") }));
    assert!(!begin_tombstone(&mut guard, &path), "a duplicate removes nothing");
}

#[test]
fn apply_tombstone_spares_file_and_emits_nothing_when_raced() {
    let mut guard = EchoGuard::new();
    let path = at("f.txt");
    assert!(begin_tombstone(&mut guard, &path));
    let removed = unraced(print(1, 8), print(1, 17));
    assert!(!removed, "the race must be detected");
    assert_eq!(tombstone_event(&path, removed), None);
}

#[test]
fn arrived_content_is_looked_up_where_it_is_waited_for() {
    let site = site();
    let mut trackers = TransferTrackers::new();
    assert!(matches!(content_ready(&site, &trackers, &hash(1)), ReadyPlan::ScanAll));
    trackers.track(hash(1), 10, &at("b"));
    trackers.track(hash(1), 10, &at("a"));
    trackers.track(hash(1), 10, &FsPath::new("/elsewhere"));
    match content_ready(&site, &trackers, &hash(1)) {
        ReadyPlan::Lookup(keys) => assert_eq!(keys, vec![b"path/a".to_vec(), b"path/b".to_vec()]),
        ReadyPlan::ScanAll => panic!("expected a lookup"),
    }
    assert!(!content_settled(&mut trackers, &hash(1), true));
    assert_eq!(trackers.len(), 1);
    assert!(content_settled(&mut trackers, &hash(1), false));
    assert_eq!(trackers.len(), 0);
}

#[test]
fn a_scan_publishes_what_a_change_would() {
    let site = site();
    let mut guard = EchoGuard::new();
    assert!(matches!(scan_file(&site, &at("a"), &sized(1)), ModifyStep::Read));
    assert!(matches!(scan_file(&site, &at("ro/a"), &sized(1)), ModifyStep::Report(_)));
    assert_eq!(scan_read(&site, &at("a"), Ok(())).unwrap(), b"path/a");
    assert_eq!(
        scan_read(&site, &at("a"), Err("x".to_string())).unwrap_err(),
        WorkspaceEvent::Error("scan read /workspace/a failed: x".to_string())
    );
    assert!(matches!(
        scan_read(&site, &FsPath::new("/x"), Ok(())),
        Err(WorkspaceEvent::Error(text)) if text.starts_with("scan key /x failed: invalid path: ")
    ));
    assert_eq!(scan_published(&mut guard, &at("a"), b"v", Ok(())), None);
    assert!(guard.should_skip_local(&at("a"), b"v"));
    assert_eq!(
        scan_published(&mut guard, &at("a"), b"v", Err("x".to_string())),
        Some(WorkspaceEvent::Error("scan publish /workspace/a failed: x".to_string()))
    );
}

#[test]
fn an_export_writes_and_marks() {
    let site = site();
    let mut guard = EchoGuard::new();
    assert!(matches!(export_entry(&site, &at("a"), &gone(), 5), Incoming::Fetch));
    assert!(matches!(export_entry(&site, &at("ro/a"), &gone(), 5), Incoming::Report(_)));
    assert_eq!(
        export_tombstone(&mut guard, &at("d")),
        WorkspaceEvent::PeerDeleted { path: at("d") }
    );
    assert!(guard.should_skip_removal(&at("d")));
    export_write(&mut guard, &at("a"), b"v");
    assert_eq!(
        export_written(&mut guard, &at("a"), 0, Err("x".to_string())),
        WorkspaceEvent::Error("bulk export write /workspace/a failed: x".to_string())
    );
    assert_eq!(
        export_written(&mut guard, &at("a"), 0, Ok(())),
        WorkspaceEvent::PeerWrote { path: at("a") }
    );
    guard.advance(250);
    assert!(!guard.should_skip_local(&at("a"), b"w"));
    assert!(guard.should_skip_local(&at("a"), b"v"));
}

#[test]
fn a_host_that_comes_back_deletes_what_is_gone() {
    let site = site();
    assert!(matches!(reconcile_entry(&site, b"path/a", 0), ReconcileStep::Ignore));
    assert!(matches!(
        reconcile_entry(&site, b"path/a", 3),
        ReconcileStep::Look { path } if path == at("a")
    ));
    assert!(matches!(
        reconcile_entry(&site, b"nope", 3),
        ReconcileStep::Report(WorkspaceEvent::Error(text)) if text.starts_with("reconcile invalid key: ")
    ));
    assert!(reconcile_path(&site, &at("a"), &gone(), false));
    assert!(!reconcile_path(&site, &at("a"), &sized(1), true));
    assert!(!reconcile_path(&site, &at(".env"), &gone(), false));
    assert_eq!(reconcile_deleted(&at("a"), Ok(())), None);
    assert_eq!(
        reconcile_deleted(&at("a"), Err("x".to_string())),
        Some(WorkspaceEvent::Error("reconcile tombstone /workspace/a: x".to_string()))
    );
}
