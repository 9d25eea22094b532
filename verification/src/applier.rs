//! What an entry of the document leads to on disk.
//!
//! An entry is judged in steps, between which the caller looks at the file,
//! fetches the content and writes it: [`entry_path`], [`handle_entry`], and
//! then [`on_outcome`] for content or [`begin_tombstone`], [`unraced`] and
//! [`tombstone_event`] for a delete. [`content_ready`] says which entries are
//! judged again when content has arrived.
use vstd::prelude::*;

use crate::echo_guard::{
    after_remote_delete, deadline, EchoGuard, GuardView, RemoteDeleteMark, PENDING_RELEASE_GRACE,
};
use crate::error::{concat, paths_view, workspace_fault_text, WorkspaceFault};
use crate::events::{Direction, EventView, WorkspaceEvent};
use crate::filter::FileFacts;
use crate::ids::{ContentHash, Key};
use crate::keys::{key_of, key_to_path, path_of, path_to_key};
use crate::path::{components, FsPath, Step};
use crate::progress::{
    after_supersede, after_track, is_waited_for, joins, least, lists_dropped, lists_waiting, starts, TrackerView,
    TrackersView, TransferTrackers,
};
use crate::rules::Mode;
use crate::site::{event_view, failed, failed_text, Passage, Site};

verus! {

/// Why the document is not followed.
#[derive(Clone, Debug, PartialEq, Eq)]
pub enum FollowFailure {
    /// There are no events of it.
    Subscribe(String),
    /// One of its events failed; the next ones still come.
    Event(String),
    /// Its entries could not be read when content had arrived.
    GetMany(String),
    /// One of its entries could not be read when content had arrived.
    GetOne(String),
}

/// What the consumer is told of a document that is not followed.
pub fn follow_failed(failure: FollowFailure) -> (event: WorkspaceEvent)
    ensures
        event@ == EventView::Error(
            match failure {
                FollowFailure::Subscribe(why) => "subscribe failed: "@ + why@,
                FollowFailure::Event(why) => "doc event error: "@ + why@,
                FollowFailure::GetMany(why) => "get_many failed: "@ + why@,
                FollowFailure::GetOne(why) => "get_one failed: "@ + why@,
            },
        ),
{
    match failure {
        FollowFailure::Subscribe(why) => WorkspaceEvent::Error(concat("subscribe failed: ", why.as_str())),
        FollowFailure::Event(why) => WorkspaceEvent::Error(concat("doc event error: ", why.as_str())),
        FollowFailure::GetMany(why) => WorkspaceEvent::Error(concat("get_many failed: ", why.as_str())),
        FollowFailure::GetOne(why) => WorkspaceEvent::Error(concat("get_one failed: ", why.as_str())),
    }
}

/// Why a key has no path, as an event.
pub open spec fn bad_key_event(prefix: Seq<char>, why: Seq<char>) -> EventView {
    EventView::Error(prefix + workspace_fault_text(WorkspaceFault::InvalidPath(why)))
}

/// The path of an entry, or what the consumer is told where its key has none.
pub fn entry_path(site: &Site, key: &[u8]) -> (res: Result<FsPath, WorkspaceEvent>)
    ensures
        match res {
            Ok(path) => path_of(site.root(), key@) == Ok::<Seq<u8>, Seq<char>>(path@),
            Err(event) => {
                &&& path_of(site.root(), key@) matches Err(why)
                &&& event@ == bad_key_event("invalid key: "@, why)
            },
        },
{
    named_entry_path(site, key, "invalid key: ")
}

/// The same, with other words before the reason.
pub fn named_entry_path(site: &Site, key: &[u8], prefix: &str) -> (res: Result<FsPath, WorkspaceEvent>)
    ensures
        match res {
            Ok(path) => path_of(site.root(), key@) == Ok::<Seq<u8>, Seq<char>>(path@),
            Err(event) => {
                &&& path_of(site.root(), key@) matches Err(why)
                &&& event@ == bad_key_event(prefix@, why)
            },
        },
{
    match key_to_path(&site.filter.root, key) {
        Ok(path) => Ok(path),
        Err(err) => Err(WorkspaceEvent::Error(concat(prefix, err.message().as_str()))),
    }
}

/// What an entry of a peer leads to.
pub enum Incoming {
    /// Nothing.
    Ignore,
    /// The consumer is told, and nothing else.
    Report(WorkspaceEvent),
    /// The file is deleted.
    Tombstone,
    /// The content is fetched and written.
    Fetch,
}

/// An [`Incoming`] over sequences.
pub enum IncomingView {
    /// [`Incoming::Ignore`].
    Ignore,
    /// [`Incoming::Report`].
    Report(EventView),
    /// [`Incoming::Tombstone`].
    Tombstone,
    /// [`Incoming::Fetch`].
    Fetch,
}

impl View for Incoming {
    type V = IncomingView;

    open spec fn view(&self) -> IncomingView {
        match *self {
            Incoming::Ignore => IncomingView::Ignore,
            Incoming::Report(event) => IncomingView::Report(event@),
            Incoming::Tombstone => IncomingView::Tombstone,
            Incoming::Fetch => IncomingView::Fetch,
        }
    }
}

/// What an entry of a peer leads to: the filter, the limit on the declared
/// length and the path rules come first, also for a delete; an entry without
/// content is a delete.
pub open spec fn incoming(site: Site, cap: Option<u64>, path: Seq<u8>, facts: FileFacts, len: u64) -> IncomingView {
    match site.stops(path, facts, Direction::Incoming) {
        Some(Some(event)) => IncomingView::Report(event),
        Some(None) => IncomingView::Ignore,
        None => if over_cap(cap, len) {
            IncomingView::Report(EventView::SkippedTooLarge(path, len))
        } else if site.mode(path) == Mode::ReadOnly {
            IncomingView::Report(EventView::SkippedReadOnly(path, Direction::Incoming))
        } else if len == 0 {
            IncomingView::Tombstone
        } else {
            IncomingView::Fetch
        },
    }
}

/// Whether a declared length is over a limit, where there is one.
pub open spec fn over_cap(cap: Option<u64>, len: u64) -> bool {
    match cap {
        Some(cap) => len > cap,
        None => false,
    }
}

/// Judges an entry of a peer by its path and its declared length.
pub fn judge_incoming(site: &Site, cap: Option<u64>, path: &FsPath, facts: &FileFacts, len: u64) -> (step: Incoming)
    requires
        site.wf(),
    ensures
        step@ == incoming(*site, cap, path@, *facts, len),
{
    match site.pass(path, facts, Direction::Incoming) {
        Passage::Stop(Some(event)) => {
            return Incoming::Report(event);
        },
        Passage::Stop(None) => {
            return Incoming::Ignore;
        },
        Passage::Pass => {},
    }
    if let Some(limit) = cap {
        if len > limit {
            return Incoming::Report(WorkspaceEvent::SkippedTooLarge { path: path.duplicate(), size: len });
        }
    }
    if site.mode_for(path) == Mode::ReadOnly {
        return Incoming::Report(
            WorkspaceEvent::SkippedReadOnly { path: path.duplicate(), direction: Direction::Incoming },
        );
    }
    if len == 0 {
        Incoming::Tombstone
    } else {
        Incoming::Fetch
    }
}

/// What a live entry leads to, and the downloads that nothing waits for any
/// more.
pub struct EntryStep {
    /// What is done.
    pub step: Incoming,
    /// Contents whose observation ends.
    pub cancelled: Vec<ContentHash>,
}

/// Judges a live entry. An entry is the newest state of its path: unless its
/// content is to be fetched, no download is waited for by the path any more.
pub fn handle_entry(site: &Site, cap: Option<u64>, trackers: &mut TransferTrackers, path: &FsPath, facts: &FileFacts, len: u64) -> (res: EntryStep)
    requires
        site.wf(),
    ensures
        res.step@ == incoming(*site, cap, path@, *facts, len),
        res.step is Fetch ==> final(trackers)@ == old(trackers)@ && res.cancelled@.len() == 0,
        !(res.step is Fetch) ==> {
            &&& final(trackers)@ == after_supersede(old(trackers)@, components(path@), None)
            &&& lists_dropped(res.cancelled@, old(trackers)@, final(trackers)@)
        },
{
    let step = judge_incoming(site, cap, path, facts, len);
    let cancelled = match &step {
        Incoming::Fetch => Vec::new(),
        _ => trackers.supersede(path, None),
    };
    EntryStep { step, cancelled }
}

/// How fetching and writing content went.
pub enum ApplyOutcome {
    /// The file is written.
    Applied,
    /// The content is not here yet.
    NotReady,
    /// It failed.
    Failed(String),
}

/// What the outcome of an entry leads to.
pub struct OutcomeStep {
    /// What the consumer is told.
    pub event: Option<WorkspaceEvent>,
    /// Contents whose observation ends.
    pub cancelled: Vec<ContentHash>,
    /// Whether the observation of the entry's own content ends.
    pub finished: bool,
    /// Whether the observation of the entry's own content begins.
    pub observe: bool,
    /// Whether the entry waits for its content.
    pub pending: bool,
}

/// The trackers after the outcome of an entry.
pub open spec fn trackers_after(trackers: TrackersView, path: Seq<u8>, hash: Seq<u8>, len: u64, outcome: ApplyOutcome) -> TrackersView {
    match outcome {
        ApplyOutcome::Applied => after_supersede(trackers, components(path), Some(hash)).remove(hash),
        ApplyOutcome::NotReady => after_track(trackers, hash, len, path),
        ApplyOutcome::Failed(_) => after_supersede(trackers, components(path), None),
    }
}

/// The guard after the outcome of an entry: the pending mark of a file that
/// was written ends after a while.
pub open spec fn guard_after(guard: GuardView, path: Seq<Step>, now: u64, outcome: ApplyOutcome) -> GuardView {
    match outcome {
        ApplyOutcome::Applied => GuardView {
            releases: guard.releases.push((deadline(now, PENDING_RELEASE_GRACE), path)),
            ..guard
        },
        _ => guard,
    }
}

/// What the consumer is told of the outcome of an entry.
pub open spec fn outcome_event(trackers: TrackersView, path: Seq<u8>, hash: Seq<u8>, len: u64, outcome: ApplyOutcome) -> Option<EventView> {
    match outcome {
        ApplyOutcome::Applied => Some(EventView::PeerWrote(path)),
        ApplyOutcome::NotReady => if joins(trackers, hash, components(path)) {
            Some(EventView::Transferring(path, least(trackers[hash].latest, len), len))
        } else {
            None
        },
        ApplyOutcome::Failed(why) => Some(EventView::Error(failed_text("write "@, path, why@))),
    }
}

/// Notes the outcome of an entry whose content was to be fetched, at the time
/// `now`.
pub fn on_outcome(guard: &mut EchoGuard, trackers: &mut TransferTrackers, path: &FsPath, hash: ContentHash, len: u64, now: u64, outcome: &ApplyOutcome) -> (res: OutcomeStep)
    ensures
        final(trackers)@ == trackers_after(old(trackers)@, path@, hash@, len, *outcome),
        final(guard)@ == guard_after(old(guard)@, components(path@), now, *outcome),
        event_view(res.event) == outcome_event(old(trackers)@, path@, hash@, len, *outcome),
        res.pending == (*outcome is NotReady),
        res.finished == (*outcome is Applied && old(trackers)@.dom().contains(hash@)),
        res.observe == (*outcome is NotReady && starts(old(trackers)@, hash@, components(path@))),
        lists_dropped(
            res.cancelled@,
            old(trackers)@,
            after_supersede(
                old(trackers)@,
                components(path@),
                if *outcome is Failed {
                    None
                } else {
                    Some(hash@)
                },
            ),
        ),
{
    match outcome {
        ApplyOutcome::Applied => {
            guard.release_after(path, now, PENDING_RELEASE_GRACE);
            let cancelled = trackers.supersede(path, Some(hash));
            let finished = trackers.finish(&hash);
            OutcomeStep {
                event: Some(WorkspaceEvent::PeerWrote { path: path.duplicate() }),
                cancelled,
                finished,
                observe: false,
                pending: false,
            }
        },
        ApplyOutcome::NotReady => {
            let track = trackers.track(hash, len, path);
            OutcomeStep {
                event: track.event,
                cancelled: track.cancelled,
                finished: false,
                observe: track.observe,
                pending: true,
            }
        },
        ApplyOutcome::Failed(why) => {
            let cancelled = trackers.supersede(path, None);
            OutcomeStep {
                event: Some(failed("write ", path, why.as_str())),
                cancelled,
                finished: false,
                observe: false,
                pending: false,
            }
        },
    }
}

/// What identifies a file: its device, its number, when it was changed, and
/// its size.
#[derive(Clone, Copy, Debug, PartialEq, Eq, Structural)]
pub struct PathFingerprint {
    /// The device.
    pub dev: u64,
    /// The number on the device.
    pub ino: u64,
    /// The time of the last change.
    pub mtime: i64,
    /// The size.
    pub len: u64,
}

/// Marks a path as deleted by a peer, and says whether the file may be looked
/// at for removal. A second delete of a path that is gone removes nothing:
/// what is there now was put there since.
pub fn begin_tombstone(guard: &mut EchoGuard, path: &FsPath) -> (go_on: bool)
    ensures
        final(guard)@ == after_remote_delete(old(guard)@, components(path@)),
        go_on == !old(guard)@.deleted.contains(components(path@)),
{
    match guard.mark_remote_delete(path) {
        RemoteDeleteMark::Fresh => true,
        RemoteDeleteMark::Duplicate => false,
    }
}

/// Whether a file may be removed: it is what it was when the delete was
/// marked, so that no local write came between.
pub fn unraced(before: Option<PathFingerprint>, now: Option<PathFingerprint>) -> (res: bool)
    ensures
        res == (before == now),
{
    match (before, now) {
        (None, None) => true,
        (Some(a), Some(b)) => a == b,
        _ => false,
    }
}

/// What the consumer is told of a delete: something only where the file was
/// removed.
pub fn tombstone_event(path: &FsPath, was_removed: bool) -> (event: Option<WorkspaceEvent>)
    ensures
        event_view(event) == (if was_removed {
            Some(EventView::PeerDeleted(path@))
        } else {
            None
        }),
{
    if was_removed {
        Some(WorkspaceEvent::PeerDeleted { path: path.duplicate() })
    } else {
        None
    }
}

/// Which entries are judged again when content has arrived.
pub enum ReadyPlan {
    /// Every entry of the document that has this content.
    ScanAll,
    /// The entries with these keys, where they still have this content.
    Lookup(Vec<Vec<u8>>),
}

/// The keys of the paths in a list that have one, in the order of the list.
pub open spec fn keys_along(root: Seq<u8>, list: Seq<Seq<u8>>) -> Seq<Seq<u8>>
    decreases list.len(),
{
    if list.len() == 0 {
        Seq::empty()
    } else {
        let before = keys_along(root, list.drop_last());
        match key_of(root, list.last()) {
            Ok(key) => before.push(key),
            Err(_) => before,
        }
    }
}

/// Whether a list of keys holds the keys of the waiting paths of a tracker
/// that have one, in the order of the paths.
pub open spec fn keys_of_waiting(keys: Seq<Vec<u8>>, root: Seq<u8>, tracker: TrackerView) -> bool {
    exists|list: Seq<Seq<u8>>| #[trigger] lists_waiting(list, tracker) && keys.map_values(|k: Vec<u8>| k@) == keys_along(
        root,
        list,
    )
}

/// Says which entries are judged again when the content `hash` has arrived:
/// those of the paths that are known to wait for it, or all where none is
/// known.
pub fn content_ready(site: &Site, trackers: &TransferTrackers, hash: &ContentHash) -> (plan: ReadyPlan)
    ensures
        match plan {
            ReadyPlan::ScanAll => !trackers@.dom().contains(hash@),
            ReadyPlan::Lookup(keys) => {
                &&& trackers@.dom().contains(hash@)
                &&& keys_of_waiting(keys@, site.root(), trackers@[hash@])
                &&& keys@.len() <= trackers@[hash@].paths.dom().len()
            },
        },
{
    let waiting = trackers.tracked_paths(hash);
    let ghost list = paths_view(waiting@);
    if waiting.len() == 0 {
        proof {
            if trackers@.dom().contains(hash@) {
                assert(is_waited_for(trackers@[hash@]));
                let p = choose|p: Seq<Step>| trackers@[hash@].paths.dom().contains(p);
                assert(exists|i: int| 0 <= i < list.len() && components(#[trigger] list[i]) == p);
            }
        }
        return ReadyPlan::ScanAll;
    }
    let ghost root = site.root();
    let mut keys: Vec<Vec<u8>> = Vec::new();
    let mut i: usize = 0;
    assert(list.take(0) =~= Seq::empty());
    assert(keys@.map_values(|k: Vec<u8>| k@) =~= keys_along(root, list.take(0)));
    while i < waiting.len()
        invariant
            i <= waiting@.len(),
            root == site.root(),
            list == paths_view(waiting@),
            keys@.len() <= i,
            keys@.map_values(|k: Vec<u8>| k@) == keys_along(root, list.take(i as int)),
        decreases waiting@.len() - i,
    {
        let ghost before = keys@.map_values(|k: Vec<u8>| k@);
        assert(list.take(i + 1).drop_last() =~= list.take(i as int));
        assert(list.take(i + 1).last() == waiting@[i as int]@);
        match path_to_key(&site.filter.root, &waiting[i]) {
            Ok(key) => {
                let ghost added = key@;
                keys.push(key);
                assert(keys@.map_values(|k: Vec<u8>| k@) =~= before.push(added));
            },
            Err(_) => {},
        }
        i += 1;
    }
    assert(list.take(i as int) =~= list);
    ReadyPlan::Lookup(keys)
}

/// Notes that the entries with some content were judged again: unless one of
/// them still waits, the download is over. Says whether its observation ends.
pub fn content_settled(trackers: &mut TransferTrackers, hash: &ContentHash, still_pending: bool) -> (finished: bool)
    ensures
        final(trackers)@ == (if still_pending {
            old(trackers)@
        } else {
            old(trackers)@.remove(hash@)
        }),
        finished == (!still_pending && old(trackers)@.dom().contains(hash@)),
{
    if still_pending {
        return false;
    }
    trackers.finish(hash)
}

/// What the filter stops, or the rules make read-only, is neither written nor
/// deleted for a peer.
pub proof fn law_protected_paths_are_not_touched(site: Site, cap: Option<u64>, path: Seq<u8>, facts: FileFacts, len: u64)
    requires
        site.stops(path, facts, Direction::Incoming) is Some || site.mode(path) == Mode::ReadOnly,
    ensures
        !(incoming(site, cap, path, facts, len) is Tombstone),
        !(incoming(site, cap, path, facts, len) is Fetch),
{
}

/// A limit on the length never stops a delete.
pub proof fn law_cap_never_stops_a_delete(site: Site, cap: Option<u64>, path: Seq<u8>, facts: FileFacts)
    ensures
        incoming(site, cap, path, facts, 0) == incoming(site, None, path, facts, 0),
{
}

/// A path that is decided, one way or the other, waits for no download.
pub proof fn law_decided_path_waits_for_nothing(trackers: TrackersView, path: Seq<u8>, hash: Seq<u8>, len: u64, outcome: ApplyOutcome, other: Seq<u8>)
    requires
        !(outcome is NotReady),
        trackers_after(trackers, path, hash, len, outcome).dom().contains(other),
    ensures
        !trackers_after(trackers, path, hash, len, outcome)[other].paths.dom().contains(components(path)),
{
}

/// What the filter lets through, is not over the limit and may be written is
/// done: a delete where the entry has no content, and otherwise the content is
/// fetched. What the file system says of the path plays no part in it.
pub proof fn law_passed_entries_are_applied(site: Site, cap: Option<u64>, path: Seq<u8>, facts: FileFacts, len: u64)
    requires
        site.stops(path, facts, Direction::Incoming) is None,
        cap matches Some(limit) ==> len <= limit,
        site.mode(path) == Mode::ReadWrite,
    ensures
        len == 0 ==> incoming(site, cap, path, facts, len) == IncomingView::Tombstone,
        len > 0 ==> incoming(site, cap, path, facts, len) == IncomingView::Fetch,
{
}

/// What stops an entry, in this order: the filter, with what the filter tells
/// the consumer; a declared length over the limit; a path that is read-only.
/// The consumer is told the path, and the length or the direction.
pub proof fn law_stopped_entries_are_reported(site: Site, cap: Option<u64>, path: Seq<u8>, facts: FileFacts, len: u64)
    ensures
        site.stops(path, facts, Direction::Incoming) matches Some(told) ==> incoming(site, cap, path, facts, len) == (
        match told {
            Some(event) => IncomingView::Report(event),
            None => IncomingView::Ignore,
        }),
        site.stops(path, facts, Direction::Incoming) is None && (cap matches Some(limit) && len > limit) ==> incoming(
            site,
            cap,
            path,
            facts,
            len,
        ) == IncomingView::Report(EventView::SkippedTooLarge(path, len)),
        site.stops(path, facts, Direction::Incoming) is None && !(cap matches Some(limit) && len > limit) && site.mode(path)
            == Mode::ReadOnly ==> incoming(site, cap, path, facts, len) == IncomingView::Report(
            EventView::SkippedReadOnly(path, Direction::Incoming),
        ),
{
}

/// Two looks at the file system that the filter answers alike lead to the same
/// step.
pub proof fn law_only_the_filter_looks_at_the_file(site: Site, cap: Option<u64>, path: Seq<u8>, a: FileFacts, b: FileFacts, len: u64)
    requires
        site.stops(path, a, Direction::Incoming) == site.stops(path, b, Direction::Incoming),
    ensures
        incoming(site, cap, path, a, len) == incoming(site, cap, path, b, len),
{
}

/// The outcome of an entry is told: a write that landed and one that failed
/// always, and content that is not here yet where the path joins others that
/// wait for it, with how much of its length has arrived.
pub proof fn law_outcomes_are_told(trackers: TrackersView, path: Seq<u8>, hash: Seq<u8>, len: u64, outcome: ApplyOutcome)
    ensures
        ({
            let told = outcome_event(trackers, path, hash, len, outcome);
            let joined = trackers.dom().contains(hash) && !trackers[hash].paths.dom().contains(components(path));
            &&& outcome is Applied ==> told == Some(EventView::PeerWrote(path))
            &&& outcome matches ApplyOutcome::Failed(why) ==> told == Some(
                EventView::Error(failed_text("write "@, path, why@)),
            )
            &&& outcome is NotReady && !joined ==> told is None
            &&& outcome is NotReady && joined ==> (told matches Some(EventView::Transferring(p, received, total)) && p == path
                && total == len && received <= len && received <= trackers[hash].latest && (received == len || received
                == trackers[hash].latest))
        }),
{
}

/// The pending mark of a path is set to end, after the grace, exactly where its
/// content was written; nothing else that the guard knows changes.
pub proof fn law_written_files_are_released(guard: GuardView, path: Seq<Step>, now: u64, outcome: ApplyOutcome)
    ensures
        ({
            let after = guard_after(guard, path, now, outcome);
            &&& after.pending == guard.pending
            &&& after.published == guard.published
            &&& after.deleted == guard.deleted
            &&& outcome is Applied ==> after.releases == guard.releases.push((deadline(now, PENDING_RELEASE_GRACE), path))
            &&& !(outcome is Applied) ==> after.releases == guard.releases
        }),
{
}

/// Content that is here is not tracked any more, and content that is not here
/// yet is waited for by the path, unless as much is tracked as can be.
pub proof fn law_outcomes_settle_the_trackers(trackers: TrackersView, path: Seq<u8>, hash: Seq<u8>, len: u64, outcome: ApplyOutcome, other: Seq<u8>)
    ensures
        ({
            let after = trackers_after(trackers, path, hash, len, outcome);
            let wanted = trackers.dom().contains(other) && exists|p: Seq<Step>|
                p != components(path) && #[trigger] trackers[other].paths.dom().contains(p);
            &&& outcome is Applied ==> !after.dom().contains(hash)
            &&& outcome is Applied && other != hash ==> after.dom().contains(other) == wanted
            &&& outcome is Failed ==> after.dom().contains(other) == wanted
            &&& outcome is NotReady && trackers.dom().contains(hash) ==> {
                &&& after.dom().contains(hash)
                &&& after[hash].paths == trackers[hash].paths.insert(components(path), len)
            }
            &&& outcome is NotReady && after.dom().contains(hash) ==> {
                &&& after[hash].paths.dom().contains(components(path))
                &&& after[hash].paths[components(path)] == len
            }
        }),
{
}

/// The keys that are looked up are those of the waiting paths that have one,
/// each at its place.
pub proof fn law_keys_follow_their_paths(root: Seq<u8>, list: Seq<Seq<u8>>, path: Seq<u8>)
    ensures
        keys_along(root, Seq::empty()) == Seq::<Seq<u8>>::empty(),
        key_of(root, path) matches Ok(key) ==> keys_along(root, list.push(path)) == keys_along(root, list).push(key),
        key_of(root, path) is Err ==> keys_along(root, list.push(path)) == keys_along(root, list),
{
    assert(list.push(path).drop_last() =~= list);
}

/// A lookup asks for the key of each waiting path that has one, and for no
/// other key.
pub proof fn law_lookups_ask_for_waiting_paths(keys: Seq<Vec<u8>>, root: Seq<u8>, tracker: TrackerView, path: Seq<Step>, key: Seq<u8>)
    requires
        keys_of_waiting(keys, root, tracker),
        tracker.paths.dom().contains(path),
        key_of(root, tracker.spelled[path]) == Ok::<Seq<u8>, Seq<char>>(key),
    ensures
        exists|k: int| 0 <= k < keys.len() && (#[trigger] keys[k])@ == key,
{
    let seen = keys.map_values(|k: Vec<u8>| k@);
    let list = choose|list: Seq<Seq<u8>>| #[trigger] lists_waiting(list, tracker) && seen == keys_along(root, list);
    let i = choose|i: int| 0 <= i < list.len() && components(#[trigger] list[i]) == path;
    assert(list[i] == tracker.spelled[components(list[i])]);
    lemma_key_along(root, list, i, key);
    let k = choose|k: int| 0 <= k < seen.len() && seen[k] == key;
    assert(keys[k]@ == key);
}

proof fn lemma_key_along(root: Seq<u8>, list: Seq<Seq<u8>>, i: int, key: Seq<u8>)
    requires
        0 <= i < list.len(),
        key_of(root, list[i]) == Ok::<Seq<u8>, Seq<char>>(key),
    ensures
        keys_along(root, list).contains(key),
    decreases list.len(),
{
    let all = keys_along(root, list);
    let head = keys_along(root, list.drop_last());
    if i < list.len() - 1 {
        assert(list.drop_last()[i] == list[i]);
        lemma_key_along(root, list.drop_last(), i, key);
        let k = choose|k: int| 0 <= k < head.len() && head[k] == key;
        assert(all[k] == head[k]);
    } else {
        assert(all[all.len() - 1] == key);
    }
}

/// A file may be removed exactly where it is what it was when the delete was
/// marked, in every part of what identifies it, or was and is not there.
pub proof fn law_only_unraced_files_are_removed(before: Option<PathFingerprint>, now: Option<PathFingerprint>, res: bool)
    requires
        call_ensures(unraced, (before, now), res),
    ensures
        before is None && now is None ==> res,
        before is None != now is None ==> !res,
        (before matches Some(a) && now matches Some(b)) ==> (res <==> before->0.dev == now->0.dev && before->0.ino == now->0.ino
            && before->0.mtime == now->0.mtime && before->0.len == now->0.len),
{
}

/// What the filter lets through, is within the limit and may be written is
/// applied, and nothing else is.
pub proof fn law_judged_entries(site: &Site, cap: Option<u64>, path: &FsPath, facts: &FileFacts, len: u64, step: Incoming)
    requires
        call_ensures(judge_incoming, (site, cap, path, facts, len), step),
    ensures
        ({
            let applies = site.stops(path@, *facts, Direction::Incoming) is None && (cap matches Some(limit) ==> len <= limit)
                && site.mode(path@) == Mode::ReadWrite;
            &&& step is Fetch <==> applies && len > 0
            &&& step is Tombstone <==> applies && len == 0
        }),
{
}

/// A live entry is judged like any other. Where its content is not fetched, the
/// path waits for nothing any more, and what nothing waits for is no longer
/// observed; where it is, all stays as it was.
pub proof fn law_handled_entries(site: &Site, cap: Option<u64>, trackers: &mut TransferTrackers, path: &FsPath, facts: &FileFacts, len: u64, res: EntryStep, hash: Seq<u8>)
    requires
        call_ensures(handle_entry, (site, cap, trackers, path, facts, len), res),
    ensures
        res.step@ == incoming(*site, cap, path@, *facts, len),
        res.step is Fetch ==> final(trackers)@ == old(trackers)@ && res.cancelled@.len() == 0,
        !(res.step is Fetch) && final(trackers)@.dom().contains(hash) ==> !final(trackers)@[hash].paths.dom().contains(
            components(path@),
        ),
        !(res.step is Fetch) && old(trackers)@.dom().contains(hash) && !final(trackers)@.dom().contains(hash) ==> exists|
            i: int,
        |
            0 <= i < res.cancelled@.len() && (#[trigger] res.cancelled@[i])@ == hash,
{
}

/// A delete of a peer goes on to the file exactly where the path was not marked
/// as deleted before; the mark is set in either case, so that a second delete
/// removes nothing.
pub proof fn law_deletes_are_applied_once(first: &mut EchoGuard, second: &mut EchoGuard, path: &FsPath, goes: bool, goes_again: bool)
    requires
        call_ensures(begin_tombstone, (first, path), goes),
        call_ensures(begin_tombstone, (second, path), goes_again),
        old(second)@ == final(first)@,
    ensures
        goes <==> !old(first)@.deleted.contains(components(path@)),
        !goes_again,
        final(second)@.deleted.contains(components(path@)),
{
}

/// The consumer is told of a delete exactly where a file was removed, and of
/// which.
pub proof fn law_deletes_are_told(path: &FsPath, was_removed: bool, event: Option<WorkspaceEvent>)
    requires
        call_ensures(tombstone_event, (path, was_removed), event),
    ensures
        event is Some <==> was_removed,
        event matches Some(told) ==> told@ == EventView::PeerDeleted(path@),
{
}

/// A download is over when no entry waits for it any more, and not before; its
/// observation ends where it was observed.
pub proof fn law_settled_contents(trackers: &mut TransferTrackers, hash: &ContentHash, still_pending: bool, finished: bool, other: Seq<u8>)
    requires
        call_ensures(content_settled, (trackers, hash, still_pending), finished),
    ensures
        still_pending ==> final(trackers)@ == old(trackers)@ && !finished,
        !still_pending ==> !final(trackers)@.dom().contains(hash@) && finished == old(trackers)@.dom().contains(hash@),
        other != hash@ ==> final(trackers)@.dom().contains(other) == old(trackers)@.dom().contains(other),
{
}

/// When content has arrived, the entries of the waiting paths are looked up
/// where it is tracked, and every entry is looked at where it is not.
pub proof fn law_arrived_contents(site: &Site, trackers: &TransferTrackers, hash: &ContentHash, plan: ReadyPlan, path: Seq<Step>, key: Seq<u8>)
    requires
        call_ensures(content_ready, (site, trackers, hash), plan),
    ensures
        plan is Lookup <==> trackers@.dom().contains(hash@),
        (plan matches ReadyPlan::Lookup(keys) && trackers@[hash@].paths.dom().contains(path) && key_of(
            site.root(),
            trackers@[hash@].spelled[path],
        ) == Ok::<Seq<u8>, Seq<char>>(key)) ==> exists|k: int|
            0 <= k < plan->Lookup_0@.len() && (#[trigger] plan->Lookup_0@[k])@ == key,
{
    if let ReadyPlan::Lookup(keys) = plan {
        if trackers@[hash@].paths.dom().contains(path) && key_of(site.root(), trackers@[hash@].spelled[path]) == Ok::<
            Seq<u8>,
            Seq<char>,
        >(key) {
            law_lookups_ask_for_waiting_paths(keys@, site.root(), trackers@[hash@], path, key);
        }
    }
}

/// What the outcome of an entry leads to beyond the events: an entry waits
/// exactly where its content is not here, an observation begins exactly where
/// such content is new here and there is room, and ends where the content that
/// was observed is written.
pub proof fn law_outcomes_steer_observations(
    guard: &mut EchoGuard,
    trackers: &mut TransferTrackers,
    path: &FsPath,
    hash: ContentHash,
    len: u64,
    now: u64,
    outcome: &ApplyOutcome,
    res: OutcomeStep,
)
    requires
        call_ensures(on_outcome, (guard, trackers, path, hash, len, now, outcome), res),
    ensures
        res.pending <==> *outcome is NotReady,
        res.finished <==> *outcome is Applied && old(trackers)@.dom().contains(hash@),
        res.observe <==> *outcome is NotReady && !old(trackers)@.dom().contains(hash@) && final(trackers)@.dom().contains(hash@),
        *outcome is Applied ==> !final(trackers)@.dom().contains(hash@) && final(guard)@.releases.len()
            == old(guard)@.releases.len() + 1,
        !(*outcome is Applied) ==> final(guard)@ == old(guard)@,
{
}

} // verus!
