//! Progress of downloads, as events that a consumer can keep up with.
//!
//! There is one tracker for each content that is on its way. It knows the
//! paths that wait for the content, each as it was first written and with the
//! length that its own entry declares, and how much has arrived.
use vstd::prelude::*;

use crate::error::paths_view;
use crate::events::{events_view, EventView, WorkspaceEvent};
use crate::ids::{ContentHash, Key, PathKey};
use crate::path::{components, FsPath, Step};
use crate::path_order::{in_path_order, is_listed, keys_view, sorted_paths};
use crate::table::Table;

verus! {

/// How much of the total has to arrive between two events, in percent.
pub const MIN_DELTA_PERCENT: u64 = 1;

/// After how many milliseconds any change is worth an event.
pub const MIN_INTERVAL: u64 = 500;

/// How many contents are tracked at once.
pub const MAX_CONCURRENT_TRACKERS: usize = 256;

/// Decides which observations are worth an event.
#[derive(Clone, Copy, Debug, PartialEq, Eq)]
pub struct ProgressThrottle {
    /// The length of the whole content.
    pub total: u64,
    /// What the last event said, and when: bytes and milliseconds.
    pub last: Option<(u64, u64)>,
}

/// How many bytes have to arrive between two events.
pub open spec fn emit_step(total: u64) -> int {
    if total / 100 * MIN_DELTA_PERCENT < 1 {
        1
    } else {
        total / 100 * MIN_DELTA_PERCENT
    }
}

/// Whether an observation is worth an event: the first one is, and later ones
/// where something arrived and it is either enough or long enough after the
/// last event.
pub open spec fn worth_event(throttle: ProgressThrottle, received: u64, now: u64) -> bool {
    match throttle.last {
        None => true,
        Some((last_received, last_at)) => {
            &&& received != last_received
            &&& received - last_received >= emit_step(throttle.total) || now - last_at >= MIN_INTERVAL
        },
    }
}

/// The throttle after an observation.
pub open spec fn throttle_after(throttle: ProgressThrottle, received: u64, now: u64) -> ProgressThrottle {
    if worth_event(throttle, received, now) {
        ProgressThrottle { total: throttle.total, last: Some((received, now)) }
    } else {
        throttle
    }
}

impl ProgressThrottle {
    /// A throttle that has seen nothing.
    pub fn new(total: u64) -> (throttle: ProgressThrottle)
        ensures
            throttle == (ProgressThrottle { total, last: None }),
    {
        ProgressThrottle { total, last: None }
    }

    /// Whether `received` bytes at the time `now` are worth an event.
    pub fn should_emit(&mut self, received: u64, now: u64) -> (res: bool)
        ensures
            res == worth_event(*old(self), received, now),
            *final(self) == throttle_after(*old(self), received, now),
    {
        let (last_received, last_at) = match self.last {
            None => {
                self.last = Some((received, now));
                return true;
            },
            Some(last) => last,
        };
        if received == last_received {
            return false;
        }
        let part: u64 = self.total / 100 * MIN_DELTA_PERCENT;
        let step: u64 = if part < 1 {
            1
        } else {
            part
        };
        if received.saturating_sub(last_received) >= step || now.saturating_sub(last_at) >= MIN_INTERVAL {
            self.last = Some((received, now));
            return true;
        }
        false
    }
}

/// A path that waits for a content.
struct Waiting {
    path: FsPath,
    total: u64,
}

/// One content that is on its way.
struct Tracker {
    waiting: Table<PathKey, Waiting>,
    latest: u64,
    throttle: ProgressThrottle,
}

/// What is known of one content that is on its way, over maps.
pub struct TrackerView {
    /// The declared length of each path that waits.
    pub paths: Map<Seq<Step>, u64>,
    /// How each path that waits is written.
    pub spelled: Map<Seq<Step>, Seq<u8>>,
    /// The most that was ever seen to have arrived.
    pub latest: u64,
    /// Which observations are worth an event.
    pub throttle: ProgressThrottle,
}

impl View for Tracker {
    type V = TrackerView;

    closed spec fn view(&self) -> TrackerView {
        TrackerView {
            paths: self.waiting@.map_values(|w: Waiting| w.total),
            spelled: self.waiting@.map_values(|w: Waiting| w.path@),
            latest: self.latest,
            throttle: self.throttle,
        }
    }
}

/// The trackers over maps, by the hash of their content.
pub type TrackersView = Map<Seq<u8>, TrackerView>;

/// What holds of the trackers at all times: there are no more than the limit;
/// each is waited for by some path, and written down for each of its paths is
/// a way to write that path; and no path waits for two contents.
pub open spec fn well_formed(trackers: TrackersView) -> bool {
    &&& trackers.dom().finite()
    &&& trackers.dom().len() <= MAX_CONCURRENT_TRACKERS
    &&& forall|h: Seq<u8>| #[trigger] trackers.dom().contains(h) ==> is_waited_for(trackers[h])
    &&& forall|h: Seq<u8>| #[trigger] trackers.dom().contains(h) ==> is_spelled(trackers[h])
    &&& forall|g: Seq<u8>, h: Seq<u8>, p: Seq<Step>| g != h && trackers.dom().contains(g) && trackers.dom().contains(h)
        && #[trigger] trackers[g].paths.dom().contains(p) ==> !#[trigger] trackers[h].paths.dom().contains(p)
}

/// Whether some path waits for the content of a tracker.
pub open spec fn is_waited_for(tracker: TrackerView) -> bool {
    exists|p: Seq<Step>| tracker.paths.dom().contains(p)
}

/// Whether a tracker knows how to write each of its paths.
pub open spec fn is_spelled(tracker: TrackerView) -> bool {
    &&& tracker.spelled.dom() == tracker.paths.dom()
    &&& forall|p: Seq<Step>| #[trigger] tracker.paths.dom().contains(p) ==> components(tracker.spelled[p]) == p
}

/// A tracker without one of its paths.
pub open spec fn without_path(tracker: TrackerView, path: Seq<Step>) -> TrackerView {
    TrackerView { paths: tracker.paths.remove(path), spelled: tracker.spelled.remove(path), ..tracker }
}

/// A tracker with a path that waits for its content. A path that waited before
/// stays written as it was.
pub open spec fn with_path(tracker: TrackerView, path: Seq<u8>, total: u64) -> TrackerView {
    TrackerView {
        paths: tracker.paths.insert(components(path), total),
        spelled: if tracker.spelled.dom().contains(components(path)) {
            tracker.spelled
        } else {
            tracker.spelled.insert(components(path), path)
        },
        ..tracker
    }
}

/// The hash to keep, over sequences.
pub open spec fn keep_view(keep: Option<ContentHash>) -> Option<Seq<u8>> {
    match keep {
        Some(hash) => Some(hash@),
        None => None,
    }
}

/// Whether a tracker stays when a path is superseded: it is the one to keep,
/// or other paths wait for its content.
pub open spec fn stays(trackers: TrackersView, path: Seq<Step>, keep: Option<Seq<u8>>, hash: Seq<u8>) -> bool {
    trackers.dom().contains(hash) && (keep == Some(hash) || exists|p: Seq<Step>| p != path && #[trigger] trackers[hash].paths.dom().contains(p))
}

/// The trackers after a path was superseded.
pub open spec fn after_supersede(trackers: TrackersView, path: Seq<Step>, keep: Option<Seq<u8>>) -> TrackersView {
    Map::new(
        |h: Seq<u8>| stays(trackers, path, keep, h),
        |h: Seq<u8>| if keep == Some(h) {
            trackers[h]
        } else {
            without_path(trackers[h], path)
        },
    )
}

/// The trackers after a path began to wait for a content.
pub open spec fn after_track(trackers: TrackersView, hash: Seq<u8>, total: u64, path: Seq<u8>) -> TrackersView {
    let rest = after_supersede(trackers, components(path), Some(hash));
    if rest.dom().contains(hash) {
        rest.insert(hash, with_path(rest[hash], path, total))
    } else if rest.dom().len() >= MAX_CONCURRENT_TRACKERS {
        rest
    } else {
        rest.insert(hash, new_tracker(path, total))
    }
}

/// The tracker of a content that one path waits for.
pub open spec fn new_tracker(path: Seq<u8>, total: u64) -> TrackerView {
    TrackerView {
        paths: Map::empty().insert(components(path), total),
        spelled: Map::empty().insert(components(path), path),
        latest: 0,
        throttle: ProgressThrottle { total, last: None },
    }
}

/// Whether a path that begins to wait gets an event at once: it joins a
/// tracker that is there and does not know it.
pub open spec fn joins(trackers: TrackersView, hash: Seq<u8>, path: Seq<Step>) -> bool {
    trackers.dom().contains(hash) && !trackers[hash].paths.dom().contains(path)
}

/// Whether a path that begins to wait needs an observation of its own.
pub open spec fn starts(trackers: TrackersView, hash: Seq<u8>, path: Seq<Step>) -> bool {
    !trackers.dom().contains(hash) && after_supersede(trackers, path, Some(hash)).dom().len() < MAX_CONCURRENT_TRACKERS
}

/// The smaller of two numbers.
pub open spec fn least(a: u64, b: u64) -> u64 {
    if a <= b {
        a
    } else {
        b
    }
}

/// The larger of two numbers.
pub open spec fn most(a: u64, b: u64) -> u64 {
    if a >= b {
        a
    } else {
        b
    }
}

/// A tracker after an observation.
pub open spec fn after_observe(tracker: TrackerView, raw: u64, now: u64) -> TrackerView {
    let received = most(tracker.latest, raw);
    TrackerView { latest: received, throttle: throttle_after(tracker.throttle, received, now), ..tracker }
}

/// What happens when a path begins to wait for a content.
pub struct TrackOutcome {
    /// Contents that nothing waits for any more: their observation ends.
    pub cancelled: Vec<ContentHash>,
    /// What the consumer is told at once.
    pub event: Option<WorkspaceEvent>,
    /// Whether the content is new here: its observation begins.
    pub observe: bool,
}

/// Whether a list of hashes holds exactly the contents that leave, each once.
pub open spec fn lists_dropped(list: Seq<ContentHash>, before: TrackersView, after: TrackersView) -> bool {
    &&& forall|i: int, j: int| 0 <= i < j < list.len() ==> (#[trigger] list[i])@ != (#[trigger] list[j])@
    &&& forall|i: int| 0 <= i < list.len() ==> before.dom().contains((#[trigger] list[i])@) && !after.dom().contains(list[i]@)
    &&& forall|h: Seq<u8>| #[trigger] before.dom().contains(h) && !after.dom().contains(h) ==> exists|i: int|
        0 <= i < list.len() && (#[trigger] list[i])@ == h
}

/// Whether a list holds the waiting paths of a tracker, each once and as it is
/// written there, in the order of paths.
pub open spec fn lists_waiting(list: Seq<Seq<u8>>, tracker: TrackerView) -> bool {
    &&& list.len() == tracker.paths.dom().len()
    &&& in_path_order(list.map_values(|p: Seq<u8>| components(p)))
    &&& forall|i: int| 0 <= i < list.len() ==> tracker.paths.dom().contains(components(#[trigger] list[i]))
        && list[i] == tracker.spelled[components(list[i])]
    &&& forall|p: Seq<Step>| #[trigger] tracker.paths.dom().contains(p) ==> exists|i: int|
        0 <= i < list.len() && components(#[trigger] list[i]) == p
}

/// What the consumer is told of the waiting paths in a list: how much of its
/// declared length has arrived for each.
pub open spec fn narration(list: Seq<Seq<u8>>, tracker: TrackerView) -> Seq<EventView> {
    list.map_values(
        |p: Seq<u8>|
            EventView::Transferring(
                p,
                least(tracker.latest, tracker.paths[components(p)]),
                tracker.paths[components(p)],
            ),
    )
}

/// Whether a list of events tells each waiting path of a tracker once how much
/// of its declared length has arrived, in the order of the paths.
pub open spec fn narrates(events: Seq<EventView>, tracker: TrackerView) -> bool {
    exists|list: Seq<Seq<u8>>| #[trigger] lists_waiting(list, tracker) && events == narration(list, tracker)
}

/// The trackers, before anything is promised of them as a whole.
struct Registry {
    trackers: Table<ContentHash, Tracker>,
}

impl View for Registry {
    type V = TrackersView;

    closed spec fn view(&self) -> TrackersView {
        self.trackers@.map_values(|t: Tracker| t@)
    }
}

impl Registry {
    fn new() -> (trackers: Registry)
        ensures
            trackers@ == Map::<Seq<u8>, TrackerView>::empty(),
    {
        let trackers = Registry { trackers: Table::new() };
        assert(trackers@ =~= Map::<Seq<u8>, TrackerView>::empty());
        trackers
    }

    fn len(&self) -> (n: usize)
        ensures
            self@.dom().finite(),
            n == self@.dom().len(),
    {
        let n: usize = self.trackers.len();
        assert(self@.dom() =~= self.trackers@.dom());
        n
    }

    fn supersede(&mut self, path: &FsPath, keep: Option<ContentHash>) -> (cancelled: Vec<ContentHash>)
        ensures
            final(self)@ == after_supersede(old(self)@, components(path@), keep_view(keep)),
            lists_dropped(cancelled@, old(self)@, final(self)@),
    {
        let key = PathKey::of(path);
        let ghost p = components(path@);
        let ghost start = self@;
        let ghost kept = keep_view(keep);
        let hashes = self.trackers.keys();
        assert(start.dom() =~= self.trackers@.dom());
        let mut cancelled: Vec<ContentHash> = Vec::new();
        let mut i: usize = 0;
        assert(self@ =~= start);
        while i < hashes.len()
            invariant
                i <= hashes@.len(),
                key@ == p,
                p == components(path@),
                kept == keep_view(keep),
                forall|a: int, b: int| 0 <= a < b < hashes@.len() ==> (#[trigger] hashes@[a])@ != (#[trigger] hashes@[b])@,
                forall|a: int| 0 <= a < hashes@.len() ==> start.dom().contains((#[trigger] hashes@[a])@),
                forall|a: int| i <= a < hashes@.len() ==> self@.dom().contains((#[trigger] hashes@[a])@) && self@[hashes@[a]@] == start[hashes@[a]@],
                forall|a: int| 0 <= a < i ==> {
                    let h = (#[trigger] hashes@[a])@;
                    &&& self@.dom().contains(h) == stays(start, p, kept, h)
                    &&& self@.dom().contains(h) ==> self@[h] == after_supersede(start, p, kept)[h]
                },
                forall|h: Seq<u8>| #[trigger] self@.dom().contains(h) ==> start.dom().contains(h),
                forall|k: int| 0 <= k < cancelled@.len() ==> start.dom().contains((#[trigger] cancelled@[k])@) && !self@.dom().contains(cancelled@[k]@),
                forall|a: int, b: int| 0 <= a < b < cancelled@.len() ==> (#[trigger] cancelled@[a])@ != (#[trigger] cancelled@[b])@,
                forall|a: int| 0 <= a < i && !self@.dom().contains((#[trigger] hashes@[a])@) ==> exists|k: int|
                    0 <= k < cancelled@.len() && (#[trigger] cancelled@[k])@ == hashes@[a]@,
            decreases hashes@.len() - i,
        {
            let hash = hashes[i];
            let ghost h = hash@;
            let ghost before = self@;
            let ghost dropped = cancelled@;
            assert(self@.dom() =~= self.trackers@.dom());
            let is_kept = match keep {
                Some(k) => hash.same(&k),
                None => false,
            };
            assert(is_kept == (kept == Some(h)));
            assert(before.dom().contains(h) && before[h] == start[h]);
            if !is_kept {
                if let Some(mut tracker) = self.trackers.remove(&hash) {
                    assert(tracker@ == start[h]);
                    tracker.waiting.remove(&key);
                    let left: usize = tracker.waiting.len();
                    assert(tracker@.paths =~= start[h].paths.remove(p));
                    assert(tracker@.spelled =~= start[h].spelled.remove(p));
                    assert(tracker@ == without_path(start[h], p));
                    if left > 0 {
                        proof {
                            lemma_some_member(tracker.waiting@.dom());
                            let q = choose|q: Seq<Step>| tracker.waiting@.dom().contains(q);
                            assert(tracker@.paths.dom().contains(q));
                            assert(q != p && start[h].paths.dom().contains(q));
                        }
                        self.trackers.insert(hash, tracker);
                        assert(self@ =~= before.insert(h, without_path(start[h], p)));
                    } else {
                        proof {
                            lemma_no_member(tracker.waiting@.dom());
                            assert(!stays(start, p, kept, h)) by {
                                if exists|q: Seq<Step>| q != p && #[trigger] start[h].paths.dom().contains(q) {
                                    let q = choose|q: Seq<Step>| q != p && #[trigger] start[h].paths.dom().contains(q);
                                    assert(tracker@.paths.dom().contains(q));
                                    assert(tracker.waiting@.dom().contains(q));
                                }
                            }
                        }
                        cancelled.push(hash);
                        assert(self@ =~= before.remove(h));
                    }
                }
            }
            assert forall|a: int| 0 <= a < i implies {
                let g = (#[trigger] hashes@[a])@;
                self@.dom().contains(g) == before.dom().contains(g) && (self@.dom().contains(g) ==> self@[g] == before[g])
            } by {
                assert(hashes@[a]@ != hashes@[i as int]@);
            }
            assert forall|a: int| i + 1 <= a < hashes@.len() implies self@.dom().contains((#[trigger] hashes@[a])@) && self@[hashes@[a]@] == start[hashes@[a]@] by {
                assert(hashes@[i as int]@ != hashes@[a]@);
            }
            assert forall|a: int| 0 <= a < i + 1 && !self@.dom().contains((#[trigger] hashes@[a])@) implies exists|k: int|
                0 <= k < cancelled@.len() && (#[trigger] cancelled@[k])@ == hashes@[a]@ by {
                if a < i {
                    let k = choose|k: int| 0 <= k < dropped.len() && (#[trigger] dropped[k])@ == hashes@[a]@;
                    assert(cancelled@[k] == dropped[k]);
                } else {
                    assert(cancelled@[dropped.len() as int]@ == h);
                }
            }
            assert forall|k: int| 0 <= k < cancelled@.len() implies start.dom().contains((#[trigger] cancelled@[k])@) && !self@.dom().contains(cancelled@[k]@) by {
                if k < dropped.len() {
                    assert(cancelled@[k] == dropped[k]);
                    assert(!before.dom().contains(dropped[k]@));
                }
            }
            assert forall|a: int, b: int| 0 <= a < b < cancelled@.len() implies (#[trigger] cancelled@[a])@ != (#[trigger] cancelled@[b])@ by {
                assert(cancelled@[a] == dropped[a]);
                assert(!before.dom().contains(dropped[a]@));
            }
            i += 1;
        }
        proof {
            let want = after_supersede(start, p, kept);
            assert forall|h: Seq<u8>| self@.dom().contains(h) == want.dom().contains(h) by {
                if start.dom().contains(h) {
                    let a = choose|a: int| 0 <= a < hashes@.len() && (#[trigger] hashes@[a])@ == h;
                    assert(self@.dom().contains(hashes@[a]@) == stays(start, p, kept, h));
                }
            }
            assert forall|h: Seq<u8>| self@.dom().contains(h) implies self@[h] == want[h] by {
                let a = choose|a: int| 0 <= a < hashes@.len() && (#[trigger] hashes@[a])@ == h;
                assert(self@.dom().contains(hashes@[a]@));
            }
            assert(self@ =~= want);
            assert forall|h: Seq<u8>| #[trigger] start.dom().contains(h) && !self@.dom().contains(h) implies exists|k: int|
                0 <= k < cancelled@.len() && (#[trigger] cancelled@[k])@ == h by {
                let a = choose|a: int| 0 <= a < hashes@.len() && (#[trigger] hashes@[a])@ == h;
                assert(!self@.dom().contains(hashes@[a]@));
            }
        }
        cancelled
    }

    fn track(&mut self, hash: ContentHash, total: u64, path: &FsPath) -> (outcome: TrackOutcome)
        ensures
            final(self)@ == after_track(old(self)@, hash@, total, path@),
            lists_dropped(outcome.cancelled@, old(self)@, after_supersede(old(self)@, components(path@), Some(hash@))),
            match outcome.event {
                Some(event) => {
                    &&& joins(old(self)@, hash@, components(path@))
                    &&& event@ == EventView::Transferring(path@, least(old(self)@[hash@].latest, total), total)
                },
                None => !joins(old(self)@, hash@, components(path@)),
            },
            outcome.observe == starts(old(self)@, hash@, components(path@)),
    {
        let ghost start = self@;
        let ghost p = components(path@);
        let cancelled = self.supersede(path, Some(hash));
        let ghost rest = self@;
        assert(start.dom().contains(hash@) == rest.dom().contains(hash@));
        let live: usize = self.len();
        assert(self@.dom() =~= self.trackers@.dom());
        match self.trackers.remove(&hash) {
            Some(mut tracker) => {
                assert(tracker@ == rest[hash@]);
                assert(rest[hash@] == start[hash@]);
                let key = PathKey::of(path);
                let ghost before = tracker@;
                let known = match tracker.waiting.get(&key) {
                    Some(waiting) => Some(waiting.path.duplicate()),
                    None => None,
                };
                let is_new = known.is_none();
                let spelled = match known {
                    Some(spelled) => spelled,
                    None => path.duplicate(),
                };
                tracker.waiting.insert(key, Waiting { path: spelled, total });
                assert(tracker@.paths =~= before.paths.insert(p, total));
                assert(tracker@.spelled =~= with_path(before, path@, total).spelled);
                assert(tracker@ == with_path(before, path@, total));
                let latest: u64 = tracker.latest;
                let ghost now = tracker@;
                self.trackers.insert(hash, tracker);
                assert(self@ =~= rest.insert(hash@, now));
                let event = if is_new {
                    let received: u64 = if latest <= total {
                        latest
                    } else {
                        total
                    };
                    Some(WorkspaceEvent::Transferring { path: path.duplicate(), received, total })
                } else {
                    None
                };
                TrackOutcome { cancelled, event, observe: false }
            },
            None => {
                assert(self@ =~= rest);
                if live >= MAX_CONCURRENT_TRACKERS {
                    return TrackOutcome { cancelled, event: None, observe: false };
                }
                let mut waiting: Table<PathKey, Waiting> = Table::new();
                waiting.insert(PathKey::of(path), Waiting { path: path.duplicate(), total });
                let tracker = Tracker { waiting, latest: 0, throttle: ProgressThrottle::new(total) };
                assert(tracker@.paths =~= new_tracker(path@, total).paths);
                assert(tracker@.spelled =~= new_tracker(path@, total).spelled);
                assert(tracker@ == new_tracker(path@, total));
                let ghost now = tracker@;
                self.trackers.insert(hash, tracker);
                assert(self@ =~= rest.insert(hash@, now));
                TrackOutcome { cancelled, event: None, observe: true }
            },
        }
    }

    fn tracked_paths(&self, hash: &ContentHash) -> (list: Vec<FsPath>)
        requires
            well_formed(self@),
        ensures
            !self@.dom().contains(hash@) ==> list@.len() == 0,
            self@.dom().contains(hash@) ==> lists_waiting(paths_view(list@), self@[hash@]),
    {
        assert(self@.dom() =~= self.trackers@.dom());
        match self.trackers.get(hash) {
            Some(tracker) => {
                assert(is_spelled(self@[hash@]));
                waiting_in_order(tracker)
            },
            None => Vec::new(),
        }
    }

    fn observe(&mut self, hash: &ContentHash, raw: u64, now: u64) -> (events: Vec<WorkspaceEvent>)
        requires
            well_formed(old(self)@),
        ensures
            !old(self)@.dom().contains(hash@) ==> final(self)@ == old(self)@ && events@.len() == 0,
            old(self)@.dom().contains(hash@) ==> {
                let before = old(self)@[hash@];
                let after = after_observe(before, raw, now);
                &&& final(self)@ == old(self)@.insert(hash@, after)
                &&& worth_event(before.throttle, after.latest, now) ==> narrates(events_view(events@), after)
                &&& !worth_event(before.throttle, after.latest, now) ==> events@.len() == 0
            },
    {
        let ghost start = self@;
        assert(self@.dom() =~= self.trackers@.dom());
        let mut events: Vec<WorkspaceEvent> = Vec::new();
        match self.trackers.remove(hash) {
            None => {
                assert(self@ =~= start);
                events
            },
            Some(mut tracker) => {
                let ghost before = tracker@;
                assert(before == start[hash@]);
                assert(is_spelled(start[hash@]));
                let received: u64 = if tracker.latest >= raw {
                    tracker.latest
                } else {
                    raw
                };
                tracker.latest = received;
                let emit = tracker.throttle.should_emit(received, now);
                let ghost after = tracker@;
                assert(after == after_observe(before, raw, now));
                if emit {
                    events = narrate(&tracker);
                }
                self.trackers.insert(*hash, tracker);
                assert(self@ =~= start.insert(hash@, after));
                events
            },
        }
    }

    fn finish(&mut self, hash: &ContentHash) -> (was_tracked: bool)
        ensures
            final(self)@ == old(self)@.remove(hash@),
            was_tracked == old(self)@.dom().contains(hash@),
    {
        assert(self@.dom() =~= self.trackers@.dom());
        let was_tracked = self.trackers.remove(hash).is_some();
        assert(self@ =~= old(self)@.remove(hash@));
        was_tracked
    }
}

/// All contents that are on their way, by their hash.
pub struct TransferTrackers {
    registry: Registry,
}

impl View for TransferTrackers {
    type V = TrackersView;

    closed spec fn view(&self) -> TrackersView {
        self.registry@
    }
}

impl TransferTrackers {
    #[verifier::type_invariant]
    spec fn invariant_holds(self) -> bool {
        well_formed(self@)
    }

    /// Nothing is on its way.
    pub fn new() -> (trackers: TransferTrackers)
        ensures
            trackers@ == Map::<Seq<u8>, TrackerView>::empty(),
            well_formed(trackers@),
    {
        proof {
            law_invariant_holds_at_first();
        }
        TransferTrackers { registry: Registry::new() }
    }

    /// How many contents are tracked.
    pub fn len(&self) -> (n: usize)
        ensures
            self@.dom().finite(),
            n == self@.dom().len(),
            well_formed(self@),
    {
        proof {
            use_type_invariant(self);
        }
        self.registry.len()
    }

    /// A newer entry of `path` points at `keep`, or at nothing that is on its
    /// way: no other content is waited for by it. Returns the contents that
    /// nothing waits for any more.
    pub fn supersede(&mut self, path: &FsPath, keep: Option<ContentHash>) -> (cancelled: Vec<ContentHash>)
        ensures
            final(self)@ == after_supersede(old(self)@, components(path@), keep_view(keep)),
            lists_dropped(cancelled@, old(self)@, final(self)@),
            well_formed(final(self)@),
    {
        let mut registry = self.take();
        let cancelled = registry.supersede(path, keep);
        proof {
            law_supersede_keeps_the_invariant(old(self)@, components(path@), keep_view(keep));
        }
        self.registry = registry;
        cancelled
    }

    /// An entry of `path` with the declared length `total` waits for the
    /// content `hash`.
    pub fn track(&mut self, hash: ContentHash, total: u64, path: &FsPath) -> (outcome: TrackOutcome)
        ensures
            final(self)@ == after_track(old(self)@, hash@, total, path@),
            lists_dropped(outcome.cancelled@, old(self)@, after_supersede(old(self)@, components(path@), Some(hash@))),
            match outcome.event {
                Some(event) => {
                    &&& joins(old(self)@, hash@, components(path@))
                    &&& event@ == EventView::Transferring(path@, least(old(self)@[hash@].latest, total), total)
                },
                None => !joins(old(self)@, hash@, components(path@)),
            },
            outcome.observe == starts(old(self)@, hash@, components(path@)),
            well_formed(final(self)@),
    {
        let mut registry = self.take();
        let outcome = registry.track(hash, total, path);
        proof {
            law_track_keeps_the_invariant(old(self)@, hash@, total, path@);
        }
        self.registry = registry;
        outcome
    }

    /// The paths that wait for a content, each once and as it was first
    /// written, in order.
    pub fn tracked_paths(&self, hash: &ContentHash) -> (list: Vec<FsPath>)
        ensures
            !self@.dom().contains(hash@) ==> list@.len() == 0,
            self@.dom().contains(hash@) ==> lists_waiting(paths_view(list@), self@[hash@]),
            well_formed(self@),
    {
        proof {
            use_type_invariant(self);
        }
        self.registry.tracked_paths(hash)
    }

    /// An observation of a content: `raw` bytes are here at the time `now`.
    /// Returns what the consumer is told.
    pub fn observe(&mut self, hash: &ContentHash, raw: u64, now: u64) -> (events: Vec<WorkspaceEvent>)
        ensures
            !old(self)@.dom().contains(hash@) ==> final(self)@ == old(self)@ && events@.len() == 0,
            old(self)@.dom().contains(hash@) ==> {
                let before = old(self)@[hash@];
                let after = after_observe(before, raw, now);
                &&& final(self)@ == old(self)@.insert(hash@, after)
                &&& worth_event(before.throttle, after.latest, now) ==> narrates(events_view(events@), after)
                &&& !worth_event(before.throttle, after.latest, now) ==> events@.len() == 0
            },
            well_formed(final(self)@),
    {
        let mut registry = self.take();
        let events = registry.observe(hash, raw, now);
        proof {
            if old(self)@.dom().contains(hash@) {
                law_observe_keeps_the_invariant(old(self)@, hash@, raw, now);
            }
        }
        self.registry = registry;
        events
    }

    /// A content is here: nothing waits for it any more. Says whether
    /// something did.
    pub fn finish(&mut self, hash: &ContentHash) -> (was_tracked: bool)
        ensures
            final(self)@ == old(self)@.remove(hash@),
            was_tracked == old(self)@.dom().contains(hash@),
            well_formed(final(self)@),
    {
        let mut registry = self.take();
        let was_tracked = registry.finish(hash);
        proof {
            law_finish_keeps_the_invariant(old(self)@, hash@);
        }
        self.registry = registry;
        was_tracked
    }

    /// Takes the trackers out, so that nothing is on its way here.
    fn take(&mut self) -> (registry: Registry)
        ensures
            registry@ == old(self)@,
            well_formed(registry@),
            final(self)@ == Map::<Seq<u8>, TrackerView>::empty(),
    {
        proof {
            use_type_invariant(&*self);
            law_invariant_holds_at_first();
        }
        let mut registry = Registry::new();
        std::mem::swap(&mut registry, &mut self.registry);
        registry
    }
}

/// The waiting paths of a tracker, in order.
fn waiting_in_order(tracker: &Tracker) -> (list: Vec<FsPath>)
    requires
        is_spelled(tracker@),
    ensures
        lists_waiting(paths_view(list@), tracker@),
{
    let keys = tracker.waiting.keys();
    let sorted = sorted_paths(&keys);
    let mut list: Vec<FsPath> = Vec::new();
    let mut i: usize = 0;
    assert(tracker@.paths.dom() =~= tracker.waiting@.dom());
    assert forall|k: int| 0 <= k < sorted@.len() implies tracker.waiting@.dom().contains((#[trigger] sorted@[k])@) by {
        assert(is_listed(sorted@, sorted@[k]@));
        assert(is_listed(keys@, sorted@[k]@));
    }
    while i < sorted.len()
        invariant
            i <= sorted@.len(),
            list@.len() == i,
            is_spelled(tracker@),
            tracker@.paths.dom() == tracker.waiting@.dom(),
            forall|k: int| 0 <= k < sorted@.len() ==> tracker.waiting@.dom().contains((#[trigger] sorted@[k])@),
            forall|k: int| 0 <= k < i ==> (#[trigger] list@[k])@ == tracker@.spelled[sorted@[k]@],
        decreases sorted@.len() - i,
    {
        assert(tracker.waiting@.dom().contains(sorted@[i as int]@));
        if let Some(waiting) = tracker.waiting.get(&sorted[i]) {
            list.push(waiting.path.duplicate());
        }
        i += 1;
    }
    proof {
        let written = paths_view(list@);
        assert forall|k: int| 0 <= k < written.len() implies {
            &&& tracker@.paths.dom().contains(components(#[trigger] written[k]))
            &&& written[k] == tracker@.spelled[components(written[k])]
            &&& components(written[k]) == sorted@[k]@
        } by {
            assert(written[k] == list@[k]@);
            assert(tracker@.paths.dom().contains(sorted@[k]@));
        }
        assert(written.map_values(|p: Seq<u8>| components(p)) =~= keys_view(sorted@));
        assert forall|p: Seq<Step>| #[trigger] tracker@.paths.dom().contains(p) implies exists|k: int|
            0 <= k < written.len() && components(#[trigger] written[k]) == p by {
            assert(tracker.waiting@.dom().contains(p));
            assert(is_listed(keys@, p));
            assert(is_listed(sorted@, p));
            let k = choose|k: int| 0 <= k < sorted@.len() && (#[trigger] sorted@[k])@ == p;
            assert(components(written[k]) == p);
        }
    }
    list
}

/// One event for each path that waits, in order.
fn narrate(tracker: &Tracker) -> (events: Vec<WorkspaceEvent>)
    requires
        is_spelled(tracker@),
    ensures
        narrates(events_view(events@), tracker@),
{
    let list = waiting_in_order(tracker);
    let ghost written = paths_view(list@);
    let mut events: Vec<WorkspaceEvent> = Vec::new();
    let mut i: usize = 0;
    while i < list.len()
        invariant
            i <= list@.len(),
            events@.len() == i,
            written == paths_view(list@),
            lists_waiting(written, tracker@),
            forall|k: int| 0 <= k < i ==> (#[trigger] events@[k])@ == narration(written, tracker@)[k],
        decreases list@.len() - i,
    {
        assert(tracker@.paths.dom().contains(components(written[i as int])));
        assert(tracker@.paths.dom() =~= tracker.waiting@.dom());
        if let Some(waiting) = tracker.waiting.get(&PathKey::of(&list[i])) {
            let total: u64 = waiting.total;
            let received: u64 = if tracker.latest <= total {
                tracker.latest
            } else {
                total
            };
            events.push(WorkspaceEvent::Transferring { path: list[i].duplicate(), received, total });
        }
        i += 1;
    }
    assert(events_view(events@) =~= narration(written, tracker@));
    events
}

/// A finite set with members has one.
proof fn lemma_some_member<A>(set: Set<A>)
    requires
        set.finite(),
        set.len() > 0,
    ensures
        exists|a: A| set.contains(a),
{
    if forall|a: A| !set.contains(a) {
        assert(set =~= Set::empty());
    }
}

/// A finite set without members has none.
proof fn lemma_no_member<A>(set: Set<A>)
    requires
        set.finite(),
        set.len() == 0,
    ensures
        forall|a: A| !set.contains(a),
{
    assert forall|a: A| !set.contains(a) by {
        if set.contains(a) {
            assert(set.remove(a).len() < set.len());
        }
    }
}

/// Where nothing is on its way, the invariant of the trackers holds.
pub proof fn law_invariant_holds_at_first()
    ensures
        well_formed(Map::empty()),
{
}

/// Superseding a path keeps the invariant of the trackers, and adds none.
pub proof fn law_supersede_keeps_the_invariant(trackers: TrackersView, path: Seq<Step>, keep: Option<Seq<u8>>)
    requires
        well_formed(trackers),
    ensures
        well_formed(after_supersede(trackers, path, keep)),
        after_supersede(trackers, path, keep).dom().subset_of(trackers.dom()),
        after_supersede(trackers, path, keep).dom().len() <= trackers.dom().len(),
{
    let after = after_supersede(trackers, path, keep);
    assert(after.dom().subset_of(trackers.dom()));
    vstd::set_lib::lemma_len_subset(after.dom(), trackers.dom());
    assert forall|h: Seq<u8>| #[trigger] after.dom().contains(h) implies is_waited_for(after[h]) && is_spelled(after[h]) by {
        assert(stays(trackers, path, keep, h));
        assert(trackers.dom().contains(h));
        assert(is_spelled(trackers[h]));
        if keep != Some(h) {
            let q = choose|q: Seq<Step>| q != path && #[trigger] trackers[h].paths.dom().contains(q);
            assert(after[h].paths.dom().contains(q));
            assert(after[h].spelled.dom() =~= after[h].paths.dom());
            assert forall|p: Seq<Step>| #[trigger] after[h].paths.dom().contains(p) implies components(after[h].spelled[p]) == p by {
                assert(trackers[h].paths.dom().contains(p));
            }
        }
    }
    assert forall|g: Seq<u8>, h: Seq<u8>, p: Seq<Step>| g != h && after.dom().contains(g) && after.dom().contains(h)
        && #[trigger] after[g].paths.dom().contains(p) implies !#[trigger] after[h].paths.dom().contains(p) by {
        assert(trackers.dom().contains(g) && trackers.dom().contains(h));
        assert(trackers[g].paths.dom().contains(p));
        assert(!trackers[h].paths.dom().contains(p));
    }
}

/// Tracking a path keeps the invariant of the trackers: the path waits for the
/// content that it points at now, and for no other.
pub proof fn law_track_keeps_the_invariant(trackers: TrackersView, hash: Seq<u8>, total: u64, path: Seq<u8>)
    requires
        well_formed(trackers),
    ensures
        well_formed(after_track(trackers, hash, total, path)),
{
    let steps = components(path);
    let rest = after_supersede(trackers, steps, Some(hash));
    let after = after_track(trackers, hash, total, path);
    law_supersede_keeps_the_invariant(trackers, steps, Some(hash));
    if rest.dom().contains(hash) {
        assert(after.dom() =~= rest.dom());
    } else if rest.dom().len() < MAX_CONCURRENT_TRACKERS {
        assert(after.dom() =~= rest.dom().insert(hash));
    }
    if after.dom().contains(hash) {
        assert(after[hash].paths.dom().contains(steps));
        assert(is_spelled(after[hash])) by {
            if rest.dom().contains(hash) {
                assert(is_spelled(rest[hash]));
            }
            assert(after[hash].spelled.dom() =~= after[hash].paths.dom());
            assert forall|p: Seq<Step>| #[trigger] after[hash].paths.dom().contains(p) implies components(
                after[hash].spelled[p],
            ) == p by {
                if p != steps {
                    assert(rest.dom().contains(hash));
                    assert(rest[hash].paths.dom().contains(p));
                } else if rest.dom().contains(hash) && rest[hash].spelled.dom().contains(p) {
                    assert(rest[hash].paths.dom().contains(p));
                }
            }
        }
    }
    assert forall|h: Seq<u8>| #[trigger] after.dom().contains(h) implies is_waited_for(after[h]) && is_spelled(after[h]) by {
        if h != hash {
            assert(rest.dom().contains(h));
        }
    }
    assert forall|g: Seq<u8>, h: Seq<u8>, p: Seq<Step>| g != h && after.dom().contains(g) && after.dom().contains(h)
        && #[trigger] after[g].paths.dom().contains(p) implies !#[trigger] after[h].paths.dom().contains(p) by {
        if p == steps {
            let other = if g == hash { h } else { g };
            assert(rest.dom().contains(other));
            assert(!rest[other].paths.dom().contains(p));
            if g != hash && h != hash {
                assert(!rest[h].paths.dom().contains(p));
                assert(rest.dom().contains(h));
            }
        } else {
            assert(rest.dom().contains(g) && rest[g].paths.dom().contains(p));
            if rest.dom().contains(h) {
                assert(!rest[h].paths.dom().contains(p));
            }
        }
    }
}

/// An observation keeps the invariant of the trackers.
pub proof fn law_observe_keeps_the_invariant(trackers: TrackersView, hash: Seq<u8>, raw: u64, now: u64)
    requires
        well_formed(trackers),
        trackers.dom().contains(hash),
    ensures
        well_formed(trackers.insert(hash, after_observe(trackers[hash], raw, now))),
{
    let after = trackers.insert(hash, after_observe(trackers[hash], raw, now));
    assert(after.dom() =~= trackers.dom());
    assert forall|h: Seq<u8>| #[trigger] after.dom().contains(h) implies is_waited_for(after[h]) && is_spelled(after[h]) by {
        assert(trackers.dom().contains(h));
        assert(after[h].paths == trackers[h].paths);
        assert(is_waited_for(trackers[h]));
        assert(is_spelled(trackers[h]));
    }
    assert forall|g: Seq<u8>, h: Seq<u8>, p: Seq<Step>| g != h && after.dom().contains(g) && after.dom().contains(h)
        && #[trigger] after[g].paths.dom().contains(p) implies !#[trigger] after[h].paths.dom().contains(p) by {
        assert(trackers[g].paths.dom().contains(p));
        assert(!trackers[h].paths.dom().contains(p));
    }
}

/// The end of a download keeps the invariant of the trackers.
pub proof fn law_finish_keeps_the_invariant(trackers: TrackersView, hash: Seq<u8>)
    requires
        well_formed(trackers),
    ensures
        well_formed(trackers.remove(hash)),
{
    let after = trackers.remove(hash);
    assert(after.dom() =~= trackers.dom().remove(hash));
    assert forall|h: Seq<u8>| #[trigger] after.dom().contains(h) implies is_waited_for(after[h]) && is_spelled(after[h]) by {
        assert(trackers.dom().contains(h));
    }
    assert forall|g: Seq<u8>, h: Seq<u8>, p: Seq<Step>| g != h && after.dom().contains(g) && after.dom().contains(h)
        && #[trigger] after[g].paths.dom().contains(p) implies !#[trigger] after[h].paths.dom().contains(p) by {
        assert(trackers[g].paths.dom().contains(p));
        assert(!trackers[h].paths.dom().contains(p));
    }
}

/// A content that is tracked stays open to further paths, however many others
/// are tracked.
pub proof fn law_known_content_is_extendable(trackers: TrackersView, hash: Seq<u8>, total: u64, path: Seq<u8>)
    requires
        trackers.dom().contains(hash),
    ensures
        after_track(trackers, hash, total, path).dom().contains(hash),
        after_track(trackers, hash, total, path)[hash].paths == trackers[hash].paths.insert(components(path), total),
{
}

/// After a path was superseded, only the content to keep is waited for by it.
pub proof fn law_superseded_path_waits_nowhere_else(trackers: TrackersView, path: Seq<Step>, keep: Option<Seq<u8>>, hash: Seq<u8>)
    requires
        after_supersede(trackers, path, keep).dom().contains(hash),
        keep != Some(hash),
    ensures
        !after_supersede(trackers, path, keep)[hash].paths.dom().contains(path),
        forall|p: Seq<Step>| p != path ==> after_supersede(trackers, path, keep)[hash].paths.dom().contains(p)
            == #[trigger] trackers[hash].paths.dom().contains(p),
{
}

/// A path that is tracked again stays written as it was.
pub proof fn law_first_spelling_stays(trackers: TrackersView, hash: Seq<u8>, total: u64, path: Seq<u8>)
    requires
        well_formed(trackers),
        trackers.dom().contains(hash),
        trackers[hash].paths.dom().contains(components(path)),
    ensures
        after_track(trackers, hash, total, path)[hash].spelled == trackers[hash].spelled,
{
    assert(is_spelled(trackers[hash]));
}

/// What is reported as received never falls and never passes the total.
pub proof fn law_progress_is_monotone(tracker: TrackerView, raw: u64, now: u64, total: u64)
    ensures
        after_observe(tracker, raw, now).latest >= tracker.latest,
        after_observe(tracker, raw, now).latest >= raw,
        least(after_observe(tracker, raw, now).latest, total) >= least(tracker.latest, total),
        least(after_observe(tracker, raw, now).latest, total) <= total,
{
}

/// The same amount is never worth a second event, however long ago the first
/// one was.
pub proof fn law_unchanged_amount_is_quiet(throttle: ProgressThrottle, received: u64, at: u64, now: u64)
    requires
        worth_event(throttle, received, at),
    ensures
        !worth_event(throttle_after(throttle, received, at), received, now),
{
}

/// The step between two events is the hundredth part of the total, rounded
/// down, and at least one byte.
pub proof fn law_steps_are_hundredths(total: u64)
    ensures
        total < 200 ==> emit_step(total) == 1,
        total >= 100 ==> emit_step(total) * 100 <= total < emit_step(total) * 100 + 100,
{
}

/// The first observation is worth an event. A later one is exactly where the
/// amount has changed, and either a step more has arrived or the interval has
/// passed since the last event.
pub proof fn law_what_is_worth_an_event(throttle: ProgressThrottle, received: u64, now: u64, seen: u64, at: u64)
    ensures
        throttle.last is None ==> worth_event(throttle, received, now),
        throttle.last == Some((seen, at)) ==> (worth_event(throttle, received, now) <==> {
            &&& received != seen
            &&& received >= seen + emit_step(throttle.total) || now >= at + MIN_INTERVAL
        }),
{
}

/// An event is remembered with its amount and its time; an observation without
/// one leaves the throttle as it was. The total never changes.
pub proof fn law_events_are_remembered(throttle: ProgressThrottle, received: u64, now: u64)
    ensures
        throttle_after(throttle, received, now).total == throttle.total,
        worth_event(throttle, received, now) ==> throttle_after(throttle, received, now).last == Some((received, now)),
        !worth_event(throttle, received, now) ==> throttle_after(throttle, received, now) == throttle,
{
}

/// A content stays tracked after a path was superseded exactly where it is the
/// one to keep or some other path waits for it. It loses that path and nothing
/// else, and the one to keep loses nothing.
pub proof fn law_supersede_takes_one_path(trackers: TrackersView, path: Seq<Step>, keep: Option<Seq<u8>>, hash: Seq<u8>)
    ensures
        ({
            let after = after_supersede(trackers, path, keep);
            &&& after.dom().contains(hash) <==> trackers.dom().contains(hash) && (keep == Some(hash) || exists|p: Seq<Step>|
                p != path && #[trigger] trackers[hash].paths.dom().contains(p))
            &&& after.dom().contains(hash) && keep == Some(hash) ==> after[hash] == trackers[hash]
            &&& after.dom().contains(hash) && keep != Some(hash) ==> {
                &&& after[hash].paths == trackers[hash].paths.remove(path)
                &&& after[hash].spelled == trackers[hash].spelled.remove(path)
                &&& after[hash].latest == trackers[hash].latest
                &&& after[hash].throttle == trackers[hash].throttle
            }
        }),
{
}

/// A path that begins to wait for a content that is tracked joins the others:
/// it waits with its own length, and how much has arrived stays.
pub proof fn law_paths_join_a_tracked_content(trackers: TrackersView, hash: Seq<u8>, total: u64, path: Seq<u8>)
    requires
        trackers.dom().contains(hash),
    ensures
        ({
            let after = after_track(trackers, hash, total, path);
            &&& after.dom().contains(hash)
            &&& after[hash].paths == trackers[hash].paths.insert(components(path), total)
            &&& after[hash].latest == trackers[hash].latest
            &&& after[hash].throttle == trackers[hash].throttle
            &&& !trackers[hash].spelled.dom().contains(components(path)) ==> after[hash].spelled
                == trackers[hash].spelled.insert(components(path), path)
            &&& joins(trackers, hash, components(path)) <==> !trackers[hash].paths.dom().contains(components(path))
            &&& !starts(trackers, hash, components(path))
        }),
{
}

/// A path that begins to wait for a content that is not tracked starts a
/// tracker, which has seen nothing, unless as many as can be are still waited
/// for: then nothing is tracked for it, and the consumer is told nothing.
pub proof fn law_paths_start_a_tracker(trackers: TrackersView, hash: Seq<u8>, total: u64, path: Seq<u8>)
    requires
        !trackers.dom().contains(hash),
    ensures
        ({
            let after = after_track(trackers, hash, total, path);
            let left = after_supersede(trackers, components(path), Some(hash)).dom().len();
            &&& after.dom().contains(hash) <==> left < MAX_CONCURRENT_TRACKERS
            &&& starts(trackers, hash, components(path)) <==> left < MAX_CONCURRENT_TRACKERS
            &&& !joins(trackers, hash, components(path))
            &&& after.dom().contains(hash) ==> {
                &&& after[hash].paths == Map::<Seq<Step>, u64>::empty().insert(components(path), total)
                &&& after[hash].spelled == Map::<Seq<Step>, Seq<u8>>::empty().insert(components(path), path)
                &&& after[hash].latest == 0
                &&& after[hash].throttle.total == total
                &&& after[hash].throttle.last is None
            }
        }),
{
}

/// What waits for other contents is treated as if the path had moved on.
pub proof fn law_tracking_leaves_other_contents(trackers: TrackersView, hash: Seq<u8>, total: u64, path: Seq<u8>, other: Seq<u8>)
    requires
        other != hash,
    ensures
        ({
            let after = after_track(trackers, hash, total, path);
            let rest = after_supersede(trackers, components(path), Some(hash));
            &&& after.dom().contains(other) == rest.dom().contains(other)
            &&& rest.dom().contains(other) ==> after[other] == rest[other]
        }),
{
}

/// An observation raises how much has arrived to what was observed, and no
/// further; it never lowers it, and it changes nothing about who waits.
pub proof fn law_observations_raise_the_amount(tracker: TrackerView, raw: u64, now: u64)
    ensures
        ({
            let after = after_observe(tracker, raw, now);
            &&& after.latest == raw || after.latest == tracker.latest
            &&& after.latest >= raw
            &&& after.latest >= tracker.latest
            &&& after.paths == tracker.paths
            &&& after.spelled == tracker.spelled
            &&& after.throttle == throttle_after(tracker.throttle, after.latest, now)
        }),
{
}

/// Each waiting path in a list is told, at its place, how much of its own
/// declared length has arrived, and that length.
pub proof fn law_every_waiting_path_is_told(list: Seq<Seq<u8>>, tracker: TrackerView, i: int)
    requires
        0 <= i < list.len(),
    ensures
        narration(list, tracker).len() == list.len(),
        narration(list, tracker)[i] matches EventView::Transferring(path, received, total) && {
            &&& path == list[i]
            &&& total == tracker.paths[components(list[i])]
            &&& received <= total
            &&& received <= tracker.latest
            &&& received == total || received == tracker.latest
        },
{
}

/// What holds of the trackers at all times: no more than the limit, each with a
/// path that waits for it, and no path in two of them.
pub proof fn law_what_the_invariant_says(trackers: TrackersView, hash: Seq<u8>, other: Seq<u8>, path: Seq<Step>)
    requires
        well_formed(trackers),
        trackers.dom().contains(hash),
    ensures
        trackers.dom().len() <= MAX_CONCURRENT_TRACKERS,
        exists|p: Seq<Step>| trackers[hash].paths.dom().contains(p),
        trackers[hash].paths.dom().contains(path) ==> trackers[hash].spelled.dom().contains(path) && components(
            trackers[hash].spelled[path],
        ) == path,
        trackers.dom().contains(other) && other != hash && trackers[hash].paths.dom().contains(path)
            ==> !trackers[other].paths.dom().contains(path),
{
    assert(is_waited_for(trackers[hash]));
    assert(is_spelled(trackers[hash]));
}

/// A list of the waiting paths of a tracker holds each of them, as it is
/// written there, and stands in the order of paths.
pub proof fn law_what_is_listed_as_waiting(list: Seq<Seq<u8>>, tracker: TrackerView, path: Seq<Step>, i: int, j: int)
    requires
        lists_waiting(list, tracker),
    ensures
        tracker.paths.dom().contains(path) ==> exists|k: int| 0 <= k < list.len() && components(#[trigger] list[k]) == path,
        0 <= i < list.len() ==> tracker.paths.dom().contains(components(list[i])) && tracker.spelled[components(list[i])]
            == list[i],
        0 <= i < j < list.len() ==> crate::path_order::path_before(components(list[i]), components(list[j])),
        list.len() == tracker.paths.dom().len(),
{
    if 0 <= i < j < list.len() {
        let steps = list.map_values(|p: Seq<u8>| components(p));
        crate::path_order::law_ordered_lists(steps, i, j);
    }
}

/// A list of the contents that leave holds each that was there and is not any
/// more, once, and nothing else.
pub proof fn law_what_is_listed_as_dropped(list: Seq<ContentHash>, before: TrackersView, after: TrackersView, hash: Seq<u8>, i: int, j: int)
    requires
        lists_dropped(list, before, after),
    ensures
        before.dom().contains(hash) && !after.dom().contains(hash) <==> exists|k: int|
            0 <= k < list.len() && (#[trigger] list[k])@ == hash,
        0 <= i < j < list.len() ==> list[i]@ != list[j]@,
{
}

/// Events that narrate a tracker tell of each waiting path, and of no other, in
/// the order of the paths.
pub proof fn law_narrations_are_whole(events: Seq<EventView>, tracker: TrackerView, path: Seq<Step>)
    requires
        narrates(events, tracker),
        tracker.paths.dom().contains(path),
    ensures
        events.len() == tracker.paths.dom().len(),
        exists|k: int|
            0 <= k < events.len() && (#[trigger] events[k] matches EventView::Transferring(p, received, total) && p
                == tracker.spelled[path] && total == tracker.paths[path] && received == least(tracker.latest, total)),
        forall|k: int| 0 <= k < events.len() ==> (#[trigger] events[k]) is Transferring,
{
    let list = choose|list: Seq<Seq<u8>>| #[trigger] lists_waiting(list, tracker) && events == narration(list, tracker);
    let k = choose|k: int| 0 <= k < list.len() && components(#[trigger] list[k]) == path;
    assert(list[k] == tracker.spelled[components(list[k])]);
    assert(events[k] == narration(list, tracker)[k]);
}

/// The smaller and the larger of two numbers.
pub proof fn law_least_and_most(a: u64, b: u64)
    ensures
        least(a, b) <= a && least(a, b) <= b && (least(a, b) == a || least(a, b) == b),
        most(a, b) >= a && most(a, b) >= b && (most(a, b) == a || most(a, b) == b),
{
}

/// A path that begins to wait is told at once exactly where it joins others
/// that wait for the same content, and an observation begins exactly where the
/// content was not tracked and now is. The path waits for no other content from
/// then on.
pub proof fn law_tracked_paths(trackers: &mut TransferTrackers, hash: ContentHash, total: u64, path: &FsPath, outcome: TrackOutcome, other: Seq<u8>)
    requires
        call_ensures(TransferTrackers::track, (trackers, hash, total, path), outcome),
    ensures
        outcome.event is Some <==> old(trackers)@.dom().contains(hash@) && !old(trackers)@[hash@].paths.dom().contains(
            components(path@),
        ),
        outcome.event matches Some(event) ==> (event@ matches EventView::Transferring(p, received, whole) && p == path@ && whole
            == total && received <= total && received <= old(trackers)@[hash@].latest && (received == total || received
            == old(trackers)@[hash@].latest)),
        outcome.observe <==> !old(trackers)@.dom().contains(hash@) && final(trackers)@.dom().contains(hash@),
        final(trackers)@.dom().contains(other) && other != hash@ ==> !final(trackers)@[other].paths.dom().contains(
            components(path@),
        ),
        final(trackers)@.dom().len() <= MAX_CONCURRENT_TRACKERS,
{
}

/// An observation of a content that is not tracked does nothing. Otherwise the
/// amount never falls, each waiting path is told or none is, and the first
/// observation is always told.
pub proof fn law_observed_contents(trackers: &mut TransferTrackers, hash: &ContentHash, raw: u64, now: u64, events: Vec<WorkspaceEvent>)
    requires
        call_ensures(TransferTrackers::observe, (trackers, hash, raw, now), events),
    ensures
        !old(trackers)@.dom().contains(hash@) ==> final(trackers)@ == old(trackers)@ && events@.len() == 0,
        old(trackers)@.dom().contains(hash@) ==> {
            let before = old(trackers)@[hash@];
            let after = final(trackers)@[hash@];
            &&& final(trackers)@.dom().contains(hash@)
            &&& after.latest >= before.latest
            &&& after.latest >= raw
            &&& after.paths == before.paths
            &&& events@.len() == 0 || events@.len() == before.paths.dom().len()
            &&& before.throttle.last is None ==> events@.len() == before.paths.dom().len()
        },
{
    if old(trackers)@.dom().contains(hash@) {
        let before = old(trackers)@[hash@];
        let after = after_observe(before, raw, now);
        assert(events_view(events@).len() == events@.len());
        if worth_event(before.throttle, after.latest, now) {
            let list = choose|list: Seq<Seq<u8>>| #[trigger] lists_waiting(list, after) && events_view(events@) == narration(
                list,
                after,
            );
            assert(events_view(events@).len() == list.len());
        }
    }
}

/// The end of a download is the end of that download alone.
pub proof fn law_finished_contents(trackers: &mut TransferTrackers, hash: &ContentHash, was_tracked: bool, other: Seq<u8>)
    requires
        call_ensures(TransferTrackers::finish, (trackers, hash), was_tracked),
    ensures
        was_tracked <==> old(trackers)@.dom().contains(hash@),
        !final(trackers)@.dom().contains(hash@),
        other != hash@ ==> {
            &&& final(trackers)@.dom().contains(other) == old(trackers)@.dom().contains(other)
            &&& final(trackers)@.dom().contains(other) ==> final(trackers)@[other] == old(trackers)@[other]
        },
{
}

/// Of two observations of one amount at most one is told, and the throttle never
/// tells the second.
pub proof fn law_throttles_tell_once(first: &mut ProgressThrottle, second: &mut ProgressThrottle, received: u64, at: u64, now: u64, told: bool, told_again: bool)
    requires
        call_ensures(ProgressThrottle::should_emit, (first, received, at), told),
        call_ensures(ProgressThrottle::should_emit, (second, received, now), told_again),
        *old(second) == *final(first),
    ensures
        told ==> !told_again,
        old(first).last is None ==> told,
{
}

} // verus!
