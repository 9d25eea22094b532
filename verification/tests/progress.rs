//! Narrating downloads.
use artel_fs::events::WorkspaceEvent;
use artel_fs::ids::ContentHash;
use artel_fs::path::FsPath;
use artel_fs::progress::{ProgressThrottle, TransferTrackers, MAX_CONCURRENT_TRACKERS, MIN_INTERVAL};

const T0: u64 = 8 * 1024 * 1024;

const START: u64 = 1000000;

#[test]
fn first_observation_always_emits() {
    let mut t = ProgressThrottle::new(T0);
    assert!(t.should_emit(0, START));
}

#[test]
fn unchanged_received_never_emits_even_after_interval() {
    let mut t = ProgressThrottle::new(T0);
    assert!(t.should_emit(100, START));
    assert!(!t.should_emit(100, START + MIN_INTERVAL * 4));
}

#[test]
fn sub_percent_within_interval_does_not_emit() {
    let mut t = ProgressThrottle::new(T0);
    assert!(t.should_emit(0, START));
    assert!(!t.should_emit(T0 / 100 - 1, START + 1));
}

#[test]
fn percent_gate_emits_regardless_of_elapsed_time() {
    let mut t = ProgressThrottle::new(T0);
    assert!(t.should_emit(0, START));
    assert!(t.should_emit(T0 / 100, START));
}

#[test]
fn time_gate_emits_only_when_received_changed() {
    let mut t = ProgressThrottle::new(T0);
    assert!(t.should_emit(0, START));
    let later: u64 = START + MIN_INTERVAL;
    assert!(t.should_emit(1, later));
    assert!(!t.should_emit(2, later));
}

#[test]
fn tiny_total_clamps_step_to_one_byte() {
    let mut t = ProgressThrottle::new(50);
    assert!(t.should_emit(0, START));
    assert!(t.should_emit(1, START));
}

fn hash(n: usize) -> ContentHash {
    ContentHash(*blake3::hash(format!("blob-{n}").as_bytes()).as_bytes())
}

fn transferring(path: &str, received: u64, total: u64) -> WorkspaceEvent {
    WorkspaceEvent::Transferring { path: FsPath::new(path), received, total }
}

fn paths(trackers: &TransferTrackers, hash: &ContentHash) -> Vec<FsPath> {
    trackers.tracked_paths(hash)
}

#[test]
fn two_paths_one_hash_each_get_first_observation() {
    let mut registry = TransferTrackers::new();
    let first = registry.track(hash(0), 1000, &FsPath::new("/ws/a.bin"));
    assert!(first.observe);
    assert_eq!(first.event, None);
    let second = registry.track(hash(0), 1000, &FsPath::new("/ws/b.bin"));
    assert!(!second.observe);
    assert_eq!(second.event, Some(transferring("/ws/b.bin", 0, 1000)));
    assert_eq!(registry.len(), 1, "one tracker per hash");
    let events = registry.observe(&hash(0), 0, START);
    assert_eq!(events.len(), 2);
    assert!(events.contains(&transferring("/ws/a.bin", 0, 1000)));
    assert!(events.contains(&transferring("/ws/b.bin", 0, 1000)));
    assert!(registry.finish(&hash(0)));
    assert_eq!(registry.len(), 0);
}

#[test]
fn late_join_gets_immediate_event_with_its_own_total() {
    let mut registry = TransferTrackers::new();
    registry.track(hash(0), 1000, &FsPath::new("/ws/a.bin"));
    assert_eq!(registry.observe(&hash(0), 700, START), vec![transferring("/ws/a.bin", 700, 1000)]);
    let joined = registry.track(hash(0), 500, &FsPath::new("/ws/b.bin"));
    assert_eq!(joined.event, Some(transferring("/ws/b.bin", 500, 500)));
}

#[test]
fn supersede_drops_path_then_tracker_when_empty() {
    let mut registry = TransferTrackers::new();
    registry.track(hash(0), 1000, &FsPath::new("/ws/a.bin"));
    registry.track(hash(0), 1000, &FsPath::new("/ws/b.bin"));
    let dropped = registry.supersede(&FsPath::new("/ws/a.bin"), Some(hash(1)));
    assert!(dropped.is_empty());
    assert_eq!(paths(&registry, &hash(0)), vec![FsPath::new("/ws/b.bin")]);
    let dropped = registry.supersede(&FsPath::new("/ws/b.bin"), None);
    assert_eq!(dropped, vec![hash(0)]);
    assert_eq!(registry.len(), 0, "empty tracker reaped");
    assert!(registry.observe(&hash(0), 10, START).is_empty());
}

#[test]
fn same_hash_reannounce_does_not_duplicate_join_event() {
    let mut registry = TransferTrackers::new();
    registry.track(hash(0), 1000, &FsPath::new("/ws/a.bin"));
    let again = registry.track(hash(0), 1000, &FsPath::new("/ws/a.bin"));
    assert_eq!(again.event, None);
    assert!(!again.observe);
    assert!(again.cancelled.is_empty());
    assert_eq!(paths(&registry, &hash(0)), vec![FsPath::new("/ws/a.bin")]);
    assert_eq!(registry.observe(&hash(0), 0, START).len(), 1);
}

#[test]
fn tracker_count_is_capped() {
    let mut registry = TransferTrackers::new();
    for i in 0..(MAX_CONCURRENT_TRACKERS + 50) {
        let path = FsPath::new(&format!("/ws/file-{i}.bin"));
        let outcome = registry.track(hash(i), 1000, &path);
        assert_eq!(outcome.observe, i < MAX_CONCURRENT_TRACKERS);
    }
    assert_eq!(
        registry.len(),
        MAX_CONCURRENT_TRACKERS,
        "tracker registry must never grow past the cap regardless of how many distinct hashes are announced",
    );
}

#[test]
fn existing_tracker_still_extendable_once_at_cap() {
    let mut registry = TransferTrackers::new();
    for i in 0..MAX_CONCURRENT_TRACKERS {
        let path = FsPath::new(&format!("/ws/filler-{i}.bin"));
        registry.track(hash(i), 1000, &path);
    }
    assert_eq!(registry.len(), MAX_CONCURRENT_TRACKERS);
    let over: usize = MAX_CONCURRENT_TRACKERS + 7;
    registry.track(hash(over), 1000, &FsPath::new("/ws/over-cap.bin"));
    assert_eq!(registry.len(), MAX_CONCURRENT_TRACKERS);
    assert!(
        registry.tracked_paths(&hash(over)).is_empty(),
        "a hash announced past the cap must not get a tracker",
    );
    registry.track(hash(0), 1000, &FsPath::new("/ws/b.bin"));
    assert_eq!(
        paths(&registry, &hash(0)),
        vec![FsPath::new("/ws/b.bin"), FsPath::new("/ws/filler-0.bin")],
        "an already-admitted hash must still accept new paths at the cap",
    );
}

#[test]
fn observations_are_throttled_and_clamped() {
    let mut registry = TransferTrackers::new();
    registry.track(hash(0), 1000, &FsPath::new("/ws/a.bin"));
    assert_eq!(registry.observe(&hash(0), 0, START).len(), 1);
    assert_eq!(registry.observe(&hash(0), 9, START).len(), 0);
    assert_eq!(registry.observe(&hash(0), 10, START), vec![transferring("/ws/a.bin", 10, 1000)]);
    assert_eq!(
        registry.observe(&hash(0), 5000, START),
        vec![transferring("/ws/a.bin", 1000, 1000)]
    );
    assert!(!registry.finish(&hash(3)));
}

#[test]
fn waiting_paths_come_in_order_and_as_first_written() {
    let mut registry = TransferTrackers::new();
    let written = ["/ws/b", "a.bin", "/ws/a/z", "/ws/a.bin", "./x", "/ws/a", "../y"];
    for path in written {
        registry.track(hash(0), 100, &FsPath::new(path));
    }
    registry.track(hash(0), 50, &FsPath::new("/ws//a/./z"));
    let order = ["/ws/a", "/ws/a/z", "/ws/a.bin", "/ws/b", "./x", "../y", "a.bin"];
    let want: Vec<FsPath> = order.iter().map(|p| FsPath::new(p)).collect();
    assert_eq!(registry.tracked_paths(&hash(0)), want);
    let mut sorted: Vec<std::path::PathBuf> = written.iter().map(std::path::PathBuf::from).collect();
    sorted.sort();
    let sorted: Vec<FsPath> = sorted.iter().map(|p| FsPath::new(p.to_str().unwrap())).collect();
    assert_eq!(want, sorted, "the order is that of std's paths");
    let events = registry.observe(&hash(0), 70, START);
    let told: Vec<WorkspaceEvent> = order
        .iter()
        .map(|p| if *p == "/ws/a/z" { transferring(p, 50, 50) } else { transferring(p, 70, 100) })
        .collect();
    assert_eq!(events, told);
}

#[test]
fn a_path_waits_for_one_content_at_a_time() {
    let mut registry = TransferTrackers::new();
    registry.track(hash(0), 10, &FsPath::new("/ws/a"));
    registry.track(hash(0), 10, &FsPath::new("/ws/b"));
    let moved = registry.track(hash(1), 20, &FsPath::new("/ws/a"));
    assert!(moved.cancelled.is_empty());
    assert_eq!(registry.tracked_paths(&hash(0)), vec![FsPath::new("/ws/b")]);
    assert_eq!(registry.tracked_paths(&hash(1)), vec![FsPath::new("/ws/a")]);
    let moved = registry.track(hash(1), 20, &FsPath::new("/ws/b"));
    assert_eq!(moved.cancelled, vec![hash(0)]);
    assert_eq!(registry.len(), 1);
}
