//! Telling echoes from changes.
use artel_fs::echo_guard::{EchoGuard, RemoteDeleteMark, PENDING_RELEASE_GRACE};
use artel_fs::ids::ContentHash;
use artel_fs::path::FsPath;

fn p(s: &str) -> FsPath {
    FsPath::new(s)
}

#[test]
fn skips_local_during_pending_window() {
    let mut guard = EchoGuard::new();
    let path = p("/w/a.txt");
    let bytes = b"hello";
    guard.mark_remote_write(&path, bytes);
    assert!(
        guard.should_skip_local(&path, bytes),
        "should skip local while remote write is in flight",
    );
}

#[test]
fn does_not_skip_unrelated_path() {
    let mut guard = EchoGuard::new();
    guard.mark_remote_write(&p("/w/a.txt"), b"x");
    assert!(!guard.should_skip_local(&p("/w/b.txt"), b"y"));
}

#[test]
fn release_clears_pending() {
    let mut guard = EchoGuard::new();
    let path = p("/w/a.txt");
    guard.mark_remote_write(&path, b"x");
    guard.release_after(&path, 1000, 10);
    guard.advance(1009);
    assert!(guard.should_skip_local(&path, b"different"));
    guard.advance(1060);
    assert!(
        !guard.should_skip_local(&path, b"different"),
        "after release, unrelated bytes should not be skipped",
    );
}

#[test]
fn skips_when_bytes_match_last_published() {
    let mut guard = EchoGuard::new();
    let path = p("/w/a.txt");
    let bytes = b"snapshot";
    guard.record_local_publish(&path, bytes);
    assert!(
        guard.should_skip_local(&path, bytes),
        "writing the same bytes we just published should be deduped",
    );
}

#[test]
fn does_not_skip_when_bytes_differ_from_last_published() {
    let mut guard = EchoGuard::new();
    let path = p("/w/a.txt");
    guard.record_local_publish(&path, b"v1");
    assert!(!guard.should_skip_local(&path, b"v2"), "different bytes should not be deduped");
}

#[test]
fn forget_clears_last_published() {
    let mut guard = EchoGuard::new();
    let path = p("/w/a.txt");
    let bytes = b"same bytes before and after delete";
    guard.record_local_publish(&path, bytes);
    guard.forget(&path);
    assert!(
        !guard.should_skip_local(&path, bytes),
        "after forget, re-creating identical bytes must publish, not be deduped",
    );
}

#[test]
fn forget_leaves_pending_intact() {
    let mut guard = EchoGuard::new();
    let path = p("/w/a.txt");
    guard.mark_remote_write(&path, b"v1");
    guard.forget(&path);
    assert!(
        guard.should_skip_local(&path, b"v2"),
        "forget must not evict a pending remote write still inside its grace window",
    );
}

#[test]
fn forget_unknown_path_is_noop() {
    let mut guard = EchoGuard::new();
    guard.record_local_publish(&p("/w/a.txt"), b"x");
    guard.forget(&p("/w/never-seen.txt"));
    assert!(
        guard.should_skip_local(&p("/w/a.txt"), b"x"),
        "forgetting an unknown path must not disturb other entries",
    );
}

#[test]
fn peer_delete_suppresses_removal_until_recreated() {
    let mut guard = EchoGuard::new();
    let path = p("/w/a.txt");
    assert!(
        !guard.should_skip_removal(&path),
        "an unmarked path's removal is a user delete and must publish",
    );
    guard.mark_remote_delete(&path);
    assert!(
        guard.should_skip_removal(&path),
        "removal right after a peer tombstone is an echo",
    );
    assert!(
        guard.should_skip_removal(&path),
        "the marker must survive repeated events (macOS fans one unlink into several)",
    );
    guard.mark_remote_write(&path, b"recreated");
    assert!(
        !guard.should_skip_removal(&path),
        "a peer re-creation clears the marker; the next removal is meaningful again",
    );
}

#[test]
fn peer_delete_clears_last_published() {
    let mut guard = EchoGuard::new();
    let path = p("/w/a.txt");
    let bytes = b"same bytes before and after delete";
    guard.record_local_publish(&path, bytes);
    guard.mark_remote_delete(&path);
    assert!(
        !guard.should_skip_local(&path, bytes),
        "after a peer delete, re-creating identical bytes must publish, not be deduped",
    );
}

#[test]
fn second_peer_delete_is_a_duplicate() {
    let mut guard = EchoGuard::new();
    let path = p("/w/a.txt");
    assert_eq!(guard.mark_remote_delete(&path), RemoteDeleteMark::Fresh);
    assert_eq!(guard.mark_remote_delete(&path), RemoteDeleteMark::Duplicate);
    guard.record_local_publish(&path, b"new");
    assert_eq!(guard.mark_remote_delete(&path), RemoteDeleteMark::Fresh);
}

#[test]
fn forgetting_everything_published_keeps_the_marks() {
    let mut guard = EchoGuard::new();
    guard.record_local_publish(&p("/w/a"), b"x");
    guard.mark_remote_write(&p("/w/b"), b"y");
    guard.mark_remote_delete(&p("/w/c"));
    guard.forget_all_published();
    assert!(!guard.should_skip_local(&p("/w/a"), b"x"));
    assert!(guard.should_skip_local(&p("/w/b"), b"z"));
    assert!(guard.should_skip_removal(&p("/w/c")));
}

#[test]
fn content_is_known_by_its_hash() {
    let mut guard = EchoGuard::new();
    let path = p("/w/a.txt");
    let hash = ContentHash(*blake3::hash(b"content").as_bytes());
    guard.record_local_content(&path, hash);
    assert!(guard.should_skip_local(&path, b"content"));
    assert!(guard.is_known_content(&path, &hash));
    assert!(!guard.should_skip_local(&path, b"other"));
}

#[test]
fn a_path_is_known_by_its_components() {
    let mut guard = EchoGuard::new();
    guard.mark_remote_write(&p("/w//a.txt"), b"x");
    assert!(guard.should_skip_local(&p("/w/a.txt"), b"y"));
}

#[test]
fn grace_is_a_quarter_of_a_second() {
    assert_eq!(PENDING_RELEASE_GRACE, 250);
    let mut guard = EchoGuard::new();
    let path = p("/w/a");
    guard.mark_remote_write(&path, b"x");
    guard.release_after(&path, u64::MAX, PENDING_RELEASE_GRACE);
    guard.advance(u64::MAX - 1);
    assert!(guard.should_skip_local(&path, b"y"));
    guard.advance(u64::MAX);
    assert!(!guard.should_skip_local(&path, b"y"));
    guard.mark_remote_write(&path, b"x");
    guard.release(&path);
    assert!(!guard.should_skip_local(&path, b"y"));
    assert!(guard.should_skip_local(&path, b"x"));
}
