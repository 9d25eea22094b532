//! Keeps a node from publishing what its own applier wrote.
//!
//! Three marks are kept by path: a peer's write is in flight (pending), the
//! content that was last written or published, and that a peer deleted it.
//! The watcher asks before it publishes a change or a removal.
use vstd::prelude::*;

use crate::hashing::{blake3_hash, hash_content};
use crate::ids::{ContentHash, Key, PathKey};
use crate::path::{components, FsPath, Step};
use crate::table::Table;

verus! {

/// How many milliseconds a pending mark outlives the write it stands for.
pub const PENDING_RELEASE_GRACE: u64 = 250;

/// Whether a peer's delete was news.
#[derive(Clone, Copy, Debug, PartialEq, Eq, Structural)]
pub enum RemoteDeleteMark {
    /// The path was not marked as deleted.
    Fresh,
    /// The path was marked already.
    Duplicate,
}

/// What the guard knows, over sets and maps of path components.
pub struct GuardView {
    /// Paths with a peer's write in flight.
    pub pending: Set<Seq<Step>>,
    /// The hash of what was last written or published.
    pub published: Map<Seq<Step>, Seq<u8>>,
    /// Paths that a peer deleted and that nobody has created since.
    pub deleted: Set<Seq<Step>>,
    /// When pending marks end: a time in milliseconds and a path.
    pub releases: Seq<(u64, Seq<Step>)>,
}

/// The guard of one workspace.
pub struct EchoGuard {
    pending: Table<PathKey, ()>,
    last_published: Table<PathKey, ContentHash>,
    peer_deleted: Table<PathKey, ()>,
    releases: Vec<(u64, PathKey)>,
}

/// Releases over sequences.
spec fn releases_view(releases: Seq<(u64, PathKey)>) -> Seq<(u64, Seq<Step>)> {
    releases.map_values(|r: (u64, PathKey)| (r.0, r.1@))
}

impl View for EchoGuard {
    type V = GuardView;

    closed spec fn view(&self) -> GuardView {
        GuardView {
            pending: self.pending@.dom(),
            published: self.last_published@.map_values(|h: ContentHash| h@),
            deleted: self.peer_deleted@.dom(),
            releases: releases_view(self.releases@),
        }
    }
}

/// The guard that knows nothing.
pub open spec fn guard_empty() -> GuardView {
    GuardView {
        pending: Set::empty(),
        published: Map::empty(),
        deleted: Set::empty(),
        releases: Seq::empty(),
    }
}

/// The guard after a peer's write of some content.
pub open spec fn after_remote_write(guard: GuardView, path: Seq<Step>, hash: Seq<u8>) -> GuardView {
    GuardView {
        pending: guard.pending.insert(path),
        published: guard.published.insert(path, hash),
        deleted: guard.deleted.remove(path),
        releases: guard.releases,
    }
}

/// The guard after a peer's delete.
pub open spec fn after_remote_delete(guard: GuardView, path: Seq<Step>) -> GuardView {
    GuardView {
        pending: guard.pending,
        published: guard.published.remove(path),
        deleted: guard.deleted.insert(path),
        releases: guard.releases,
    }
}

/// The guard after this node published some content.
pub open spec fn after_local_publish(guard: GuardView, path: Seq<Step>, hash: Seq<u8>) -> GuardView {
    GuardView {
        pending: guard.pending,
        published: guard.published.insert(path, hash),
        deleted: guard.deleted.remove(path),
        releases: guard.releases,
    }
}

/// The guard after the content of a path was forgotten.
pub open spec fn after_forget(guard: GuardView, path: Seq<Step>) -> GuardView {
    GuardView {
        pending: guard.pending,
        published: guard.published.remove(path),
        deleted: guard.deleted,
        releases: guard.releases,
    }
}

/// The guard after all contents were forgotten.
pub open spec fn after_forget_all(guard: GuardView) -> GuardView {
    GuardView {
        pending: guard.pending,
        published: Map::empty(),
        deleted: guard.deleted,
        releases: guard.releases,
    }
}

/// The guard after one pending mark was lifted.
pub open spec fn after_release(guard: GuardView, path: Seq<Step>) -> GuardView {
    GuardView {
        pending: guard.pending.remove(path),
        published: guard.published,
        deleted: guard.deleted,
        releases: guard.releases,
    }
}

/// The time `grace` after `now`, or the end of time.
pub open spec fn deadline(now: u64, grace: u64) -> u64 {
    if now + grace > u64::MAX {
        u64::MAX
    } else {
        (now + grace) as u64
    }
}

/// Whether a release of a path is due.
pub open spec fn release_due(releases: Seq<(u64, Seq<Step>)>, path: Seq<Step>, now: u64) -> bool {
    exists|i: int| 0 <= i < releases.len() && (#[trigger] releases[i]).0 <= now && releases[i].1 == path
}

/// The releases that are not due, in order.
pub open spec fn not_due(releases: Seq<(u64, Seq<Step>)>, now: u64) -> Seq<(u64, Seq<Step>)> {
    releases.filter(|r: (u64, Seq<Step>)| r.0 > now)
}

/// The guard once every release that is due has taken place.
pub open spec fn at_time(guard: GuardView, now: u64) -> GuardView {
    GuardView {
        pending: guard.pending.difference(Set::new(|p: Seq<Step>| release_due(guard.releases, p, now))),
        published: guard.published,
        deleted: guard.deleted,
        releases: not_due(guard.releases, now),
    }
}

/// Whether a change of a path to some content is an echo.
pub open spec fn is_echo(guard: GuardView, path: Seq<Step>, hash: Seq<u8>) -> bool {
    guard.pending.contains(path) || (guard.published.dom().contains(path) && guard.published[path] == hash)
}

impl Default for EchoGuard {
    /// A guard that knows nothing.
    fn default() -> (guard: EchoGuard)
        ensures
            guard@ == guard_empty(),
    {
        EchoGuard::new()
    }
}

impl EchoGuard {
    /// A guard that knows nothing.
    pub fn new() -> (guard: EchoGuard)
        ensures
            guard@ == guard_empty(),
    {
        let guard = EchoGuard {
            pending: Table::new(),
            last_published: Table::new(),
            peer_deleted: Table::new(),
            releases: Vec::new(),
        };
        assert(guard@.pending =~= Set::empty());
        assert(guard@.published =~= Map::empty());
        assert(guard@.deleted =~= Set::empty());
        assert(guard@.releases =~= Seq::empty());
        guard
    }

    /// Marks that a peer's write of `bytes` is about to land.
    pub fn mark_remote_write(&mut self, path: &FsPath, bytes: &[u8])
        ensures
            final(self)@ == after_remote_write(old(self)@, components(path@), blake3_hash(bytes@)),
    {
        let hash = hash_content(bytes);
        self.mark_remote_content(path, hash);
    }

    /// Marks that a peer's write of the content with this hash is about to
    /// land.
    pub fn mark_remote_content(&mut self, path: &FsPath, hash: ContentHash)
        ensures
            final(self)@ == after_remote_write(old(self)@, components(path@), hash@),
    {
        let key = PathKey::of(path);
        self.pending.insert(key.duplicate(), ());
        self.peer_deleted.remove(&key);
        self.last_published.insert(key, hash);
        let ghost want = after_remote_write(old(self)@, components(path@), hash@);
        assert(self@.pending =~= want.pending);
        assert(self@.published =~= want.published);
        assert(self@.deleted =~= want.deleted);
    }

    /// Marks that a peer's delete is about to be applied, and says whether it
    /// was news.
    pub fn mark_remote_delete(&mut self, path: &FsPath) -> (mark: RemoteDeleteMark)
        ensures
            final(self)@ == after_remote_delete(old(self)@, components(path@)),
            mark == (if old(self)@.deleted.contains(components(path@)) {
                RemoteDeleteMark::Duplicate
            } else {
                RemoteDeleteMark::Fresh
            }),
    {
        let key = PathKey::of(path);
        let known = self.peer_deleted.contains(&key);
        self.last_published.remove(&key);
        self.peer_deleted.insert(key, ());
        let ghost want = after_remote_delete(old(self)@, components(path@));
        assert(self@.published =~= want.published);
        assert(self@.deleted =~= want.deleted);
        if known {
            RemoteDeleteMark::Duplicate
        } else {
            RemoteDeleteMark::Fresh
        }
    }

    /// Whether a removal of the path is the echo of a peer's delete.
    pub fn should_skip_removal(&self, path: &FsPath) -> (res: bool)
        ensures
            res == self@.deleted.contains(components(path@)),
    {
        self.peer_deleted.contains(&PathKey::of(path))
    }

    /// Lets the pending mark of the path end `grace` milliseconds after `now`.
    pub fn release_after(&mut self, path: &FsPath, now: u64, grace: u64)
        ensures
            final(self)@ == (GuardView {
                releases: old(self)@.releases.push((deadline(now, grace), components(path@))),
                ..old(self)@
            }),
    {
        let at: u64 = now.saturating_add(grace);
        self.releases.push((at, PathKey::of(path)));
        assert(self@.releases =~= old(self)@.releases.push((deadline(now, grace), components(path@))));
    }

    /// Lifts the pending mark of a path.
    pub fn release(&mut self, path: &FsPath)
        ensures
            final(self)@ == after_release(old(self)@, components(path@)),
    {
        self.pending.remove(&PathKey::of(path));
        assert(self@.pending =~= after_release(old(self)@, components(path@)).pending);
    }

    /// Lets every release take place that is due at `now`.
    pub fn advance(&mut self, now: u64)
        ensures
            final(self)@ == at_time(old(self)@, now),
    {
        let ghost all = self@.releases;
        let ghost start = self@;
        let mut kept: Vec<(u64, PathKey)> = Vec::new();
        let mut i: usize = 0;
        assert(all.take(0) =~= Seq::empty());
        assert(releases_view(kept@) =~= not_due(all.take(0), now)) by {
            reveal(Seq::filter);
        }
        while i < self.releases.len()
            invariant
                i <= self.releases@.len(),
                all == releases_view(self.releases@),
                self.releases@ == old(self).releases@,
                self.last_published@ == old(self).last_published@,
                self.peer_deleted@ == old(self).peer_deleted@,
                start == old(self)@,
                releases_view(kept@) == not_due(all.take(i as int), now),
                forall|p: Seq<Step>| #[trigger] self.pending@.dom().contains(p) == (start.pending.contains(p)
                    && !release_due(all.take(i as int), p, now)),
            decreases self.releases@.len() - i,
        {
            let ghost before = all.take(i as int);
            let ghost after = all.take(i + 1);
            let ghost marks = self.pending@.dom();
            assert(after.drop_last() =~= before);
            assert(after.last() == (self.releases@[i as int].0, self.releases@[i as int].1@));
            proof {
                reveal(Seq::filter);
            }
            let at: u64 = self.releases[i].0;
            let key = self.releases[i].1.duplicate();
            let ghost path = key@;
            let ghost done = releases_view(kept@);
            if at <= now {
                self.pending.remove(&key);
            } else {
                kept.push((at, key));
                assert(releases_view(kept@) =~= done.push((at, path)));
            }
            assert(releases_view(kept@) =~= not_due(after, now));
            assert forall|p: Seq<Step>| #[trigger] self.pending@.dom().contains(p) == (start.pending.contains(p)
                && !release_due(after, p, now)) by {
                assert(marks.contains(p) == (start.pending.contains(p) && !release_due(before, p, now)));
                if release_due(before, p, now) {
                    let k = choose|k: int| 0 <= k < before.len() && (#[trigger] before[k]).0 <= now && before[k].1 == p;
                    assert(after[k] == before[k]);
                }
                if release_due(after, p, now) {
                    let k = choose|k: int| 0 <= k < after.len() && (#[trigger] after[k]).0 <= now && after[k].1 == p;
                    if k < before.len() {
                        assert(before[k] == after[k]);
                    }
                }
                if at <= now && p == path {
                    assert(after[i as int].0 <= now && after[i as int].1 == p);
                }
            }
            i += 1;
        }
        assert(all.take(i as int) =~= all);
        self.releases = kept;
        assert(self@.pending =~= at_time(start, now).pending);
    }

    /// Whether a change of the path to `bytes` is an echo.
    pub fn should_skip_local(&self, path: &FsPath, bytes: &[u8]) -> (res: bool)
        ensures
            res == is_echo(self@, components(path@), blake3_hash(bytes@)),
    {
        let hash = hash_content(bytes);
        self.is_known_content(path, &hash)
    }

    /// Whether a change of the path to the content with this hash is an echo.
    pub fn is_known_content(&self, path: &FsPath, hash: &ContentHash) -> (res: bool)
        ensures
            res == is_echo(self@, components(path@), hash@),
    {
        let key = PathKey::of(path);
        if self.pending.contains(&key) {
            return true;
        }
        match self.last_published.get(&key) {
            Some(last) => last.same(hash),
            None => false,
        }
    }

    /// Marks that this node published `bytes` for the path.
    pub fn record_local_publish(&mut self, path: &FsPath, bytes: &[u8])
        ensures
            final(self)@ == after_local_publish(old(self)@, components(path@), blake3_hash(bytes@)),
    {
        let hash = hash_content(bytes);
        self.record_local_content(path, hash);
    }

    /// Marks that this node published the content with this hash.
    pub fn record_local_content(&mut self, path: &FsPath, hash: ContentHash)
        ensures
            final(self)@ == after_local_publish(old(self)@, components(path@), hash@),
    {
        let key = PathKey::of(path);
        self.peer_deleted.remove(&key);
        self.last_published.insert(key, hash);
        let ghost want = after_local_publish(old(self)@, components(path@), hash@);
        assert(self@.published =~= want.published);
        assert(self@.deleted =~= want.deleted);
    }

    /// Forgets the content of a path.
    pub fn forget(&mut self, path: &FsPath)
        ensures
            final(self)@ == after_forget(old(self)@, components(path@)),
    {
        self.last_published.remove(&PathKey::of(path));
        assert(self@.published =~= after_forget(old(self)@, components(path@)).published);
    }

    /// Forgets the content of every path.
    pub fn forget_all_published(&mut self)
        ensures
            final(self)@ == after_forget_all(old(self)@),
    {
        self.last_published = Table::new();
        assert(self@.published =~= after_forget_all(old(self)@).published);
    }
}

/// One thing that can happen to the guard.
pub enum GuardStep {
    /// A peer's write.
    RemoteWrite(Seq<Step>, Seq<u8>),
    /// A peer's delete.
    RemoteDelete(Seq<Step>),
    /// A publish of this node.
    LocalPublish(Seq<Step>, Seq<u8>),
    /// The content of a path is forgotten.
    Forget(Seq<Step>),
    /// All contents are forgotten.
    ForgetAll,
    /// A pending mark is lifted.
    Release(Seq<Step>),
    /// Time passes.
    Time(u64),
}

/// The guard after one step.
pub open spec fn after_step(guard: GuardView, step: GuardStep) -> GuardView {
    match step {
        GuardStep::RemoteWrite(path, hash) => after_remote_write(guard, path, hash),
        GuardStep::RemoteDelete(path) => after_remote_delete(guard, path),
        GuardStep::LocalPublish(path, hash) => after_local_publish(guard, path, hash),
        GuardStep::Forget(path) => after_forget(guard, path),
        GuardStep::ForgetAll => after_forget_all(guard),
        GuardStep::Release(path) => after_release(guard, path),
        GuardStep::Time(now) => at_time(guard, now),
    }
}

/// Whether a step brings the path into existence again.
pub open spec fn creates(step: GuardStep, path: Seq<Step>) -> bool {
    match step {
        GuardStep::RemoteWrite(p, _) => p == path,
        GuardStep::LocalPublish(p, _) => p == path,
        _ => false,
    }
}

/// No path is both deleted by a peer and known by its content: every step
/// keeps it so.
pub proof fn law_deleted_paths_have_no_content(guard: GuardView, step: GuardStep)
    requires
        forall|p: Seq<Step>| guard.deleted.contains(p) ==> !#[trigger] guard.published.dom().contains(p),
    ensures
        forall|p: Seq<Step>|
            after_step(guard, step).deleted.contains(p) ==> !#[trigger] after_step(guard, step).published.dom().contains(p),
{
    assert forall|p: Seq<Step>| after_step(guard, step).deleted.contains(p) implies !#[trigger] after_step(
        guard,
        step,
    ).published.dom().contains(p) by {
        if guard.deleted.contains(p) {
            assert(!guard.published.dom().contains(p));
        }
    }
}

/// While a peer's write is in flight, and whenever the content is the one that
/// was written, a change of the path is an echo.
pub proof fn law_remote_write_is_not_echoed(guard: GuardView, path: Seq<Step>, hash: Seq<u8>, seen: Seq<u8>)
    ensures
        is_echo(after_remote_write(guard, path, hash), path, seen),
        is_echo(after_release(after_remote_write(guard, path, hash), path), path, seen) == (seen == hash),
{
}

/// What was published last is an echo, and other content of a path that is not
/// pending is none.
pub proof fn law_publish_deduplicates(guard: GuardView, path: Seq<Step>, hash: Seq<u8>, seen: Seq<u8>)
    requires
        !guard.pending.contains(path),
    ensures
        is_echo(after_local_publish(guard, path, hash), path, seen) == (seen == hash),
{
}

/// After a path was forgotten or deleted by a peer, the same content is
/// published again, unless a peer's write is in flight.
pub proof fn law_recreation_is_published(guard: GuardView, path: Seq<Step>, hash: Seq<u8>)
    ensures
        is_echo(after_forget(guard, path), path, hash) == guard.pending.contains(path),
        is_echo(after_remote_delete(guard, path), path, hash) == guard.pending.contains(path),
        after_forget(guard, path).pending == guard.pending,
{
}

/// A peer's delete suppresses removals of the path through every step that
/// does not create it, and no longer after one that does.
pub proof fn law_delete_mark_lasts_until_recreated(guard: GuardView, step: GuardStep, path: Seq<Step>)
    requires
        guard.deleted.contains(path),
    ensures
        after_step(guard, step).deleted.contains(path) == !creates(step, path),
{
}

/// A removal is suppressed only by a peer's delete of that path.
pub proof fn law_only_peer_delete_marks(guard: GuardView, step: GuardStep, path: Seq<Step>)
    requires
        !guard.deleted.contains(path),
    ensures
        after_step(guard, step).deleted.contains(path) == (step == GuardStep::RemoteDelete(path)),
{
}

/// The path that a step is about, if it is about one.
pub open spec fn subject(step: GuardStep) -> Option<Seq<Step>> {
    match step {
        GuardStep::RemoteWrite(p, _) => Some(p),
        GuardStep::RemoteDelete(p) => Some(p),
        GuardStep::LocalPublish(p, _) => Some(p),
        GuardStep::Forget(p) => Some(p),
        GuardStep::Release(p) => Some(p),
        GuardStep::ForgetAll => None,
        GuardStep::Time(_) => None,
    }
}

/// A step about one path leaves every other path as it was.
pub proof fn law_steps_leave_other_paths_alone(guard: GuardView, step: GuardStep, other: Seq<Step>, hash: Seq<u8>)
    requires
        subject(step) is Some,
        subject(step) != Some(other),
    ensures
        is_echo(after_step(guard, step), other, hash) == is_echo(guard, other, hash),
        after_step(guard, step).deleted.contains(other) == guard.deleted.contains(other),
{
}

/// Whether two guards hold the same marks of a path.
pub open spec fn same_marks(a: GuardView, b: GuardView, path: Seq<Step>) -> bool {
    &&& a.pending.contains(path) == b.pending.contains(path)
    &&& a.published.dom().contains(path) == b.published.dom().contains(path)
    &&& a.published.dom().contains(path) ==> a.published[path] == b.published[path]
    &&& a.deleted.contains(path) == b.deleted.contains(path)
}

/// A change is an echo exactly where a peer's write to the path is in flight,
/// or where the content is the one last written or published there.
pub proof fn law_echoes(guard: GuardView, path: Seq<Step>, hash: Seq<u8>)
    ensures
        is_echo(guard, path, hash) <==> {
            ||| guard.pending.contains(path)
            ||| guard.published.dom().contains(path) && guard.published[path] == hash
        },
{
}

/// A peer's write marks the path as in flight with its content, and as there;
/// it touches no other path and ends no mark.
pub proof fn law_remote_write_marks(guard: GuardView, path: Seq<Step>, hash: Seq<u8>, other: Seq<Step>)
    ensures
        ({
            let after = after_remote_write(guard, path, hash);
            &&& after.pending.contains(path)
            &&& after.published.dom().contains(path)
            &&& after.published[path] == hash
            &&& !after.deleted.contains(path)
            &&& after.releases == guard.releases
            &&& other != path ==> same_marks(after, guard, other)
        }),
{
}

/// A peer's delete marks the path as deleted and forgets its content. A write
/// that is in flight stays in flight, and no other path is touched.
pub proof fn law_remote_delete_marks(guard: GuardView, path: Seq<Step>, other: Seq<Step>)
    ensures
        ({
            let after = after_remote_delete(guard, path);
            &&& after.pending.contains(path) == guard.pending.contains(path)
            &&& !after.published.dom().contains(path)
            &&& after.deleted.contains(path)
            &&& after.releases == guard.releases
            &&& other != path ==> same_marks(after, guard, other)
        }),
{
}

/// A publish of this node remembers the content and that the path is there. A
/// write that is in flight stays in flight, and no other path is touched.
pub proof fn law_local_publish_marks(guard: GuardView, path: Seq<Step>, hash: Seq<u8>, other: Seq<Step>)
    ensures
        ({
            let after = after_local_publish(guard, path, hash);
            &&& after.pending.contains(path) == guard.pending.contains(path)
            &&& after.published.dom().contains(path)
            &&& after.published[path] == hash
            &&& !after.deleted.contains(path)
            &&& after.releases == guard.releases
            &&& other != path ==> same_marks(after, guard, other)
        }),
{
}

/// Forgetting the content of a path leaves its other marks and every other
/// path; forgetting all contents leaves every other mark.
pub proof fn law_forgetting_marks(guard: GuardView, path: Seq<Step>, other: Seq<Step>)
    ensures
        ({
            let one = after_forget(guard, path);
            let all = after_forget_all(guard);
            &&& one.pending.contains(path) == guard.pending.contains(path)
            &&& !one.published.dom().contains(path)
            &&& one.deleted.contains(path) == guard.deleted.contains(path)
            &&& one.releases == guard.releases
            &&& other != path ==> same_marks(one, guard, other)
            &&& all.pending.contains(path) == guard.pending.contains(path)
            &&& !all.published.dom().contains(path)
            &&& all.deleted.contains(path) == guard.deleted.contains(path)
            &&& all.releases == guard.releases
        }),
{
}

/// Lifting a pending mark lifts that mark alone.
pub proof fn law_release_lifts_one_mark(guard: GuardView, path: Seq<Step>, other: Seq<Step>)
    ensures
        ({
            let after = after_release(guard, path);
            &&& !after.pending.contains(path)
            &&& after.published == guard.published
            &&& after.deleted == guard.deleted
            &&& after.releases == guard.releases
            &&& other != path ==> same_marks(after, guard, other)
        }),
{
}

/// As time passes, exactly those pending marks end for which a release was set
/// to this time or an earlier one; what is set to a later time stays set, and
/// contents and deletes are remembered.
pub proof fn law_marks_end_when_they_are_due(guard: GuardView, now: u64, path: Seq<Step>)
    ensures
        at_time(guard, now).pending.contains(path) <==> guard.pending.contains(path) && !exists|i: int|
            0 <= i < guard.releases.len() && (#[trigger] guard.releases[i]).1 == path && guard.releases[i].0 <= now,
        at_time(guard, now).releases == guard.releases.filter(|r: (u64, Seq<Step>)| r.0 > now),
        at_time(guard, now).published == guard.published,
        at_time(guard, now).deleted == guard.deleted,
{
}

/// A pending mark with one release lasts until the time of that release, and
/// no longer.
pub proof fn law_pending_mark_lasts_for_the_grace(guard: GuardView, path: Seq<Step>, set: u64, grace: u64, now: u64)
    requires
        guard.pending.contains(path),
        forall|i: int| 0 <= i < guard.releases.len() ==> (#[trigger] guard.releases[i]).1 != path,
    ensures
        ({
            let released = GuardView { releases: guard.releases.push((deadline(set, grace), path)), ..guard };
            at_time(released, now).pending.contains(path) <==> (now < set + grace && now < u64::MAX)
        }),
{
    let released = GuardView { releases: guard.releases.push((deadline(set, grace), path)), ..guard };
    let n = guard.releases.len() as int;
    assert(released.releases[n] == (deadline(set, grace), path));
    assert forall|i: int| 0 <= i < n implies (#[trigger] released.releases[i]).1 != path by {
        assert(released.releases[i] == guard.releases[i]);
    }
}

/// Looking at the clock twice is looking at it once, at the later time.
pub proof fn law_time_passes_once(guard: GuardView, first: u64, second: u64, path: Seq<Step>)
    requires
        first <= second,
    ensures
        at_time(at_time(guard, first), second).pending.contains(path) == at_time(guard, second).pending.contains(path),
{
    let mid = at_time(guard, first);
    guard.releases.filter_lemma(|r: (u64, Seq<Step>)| r.0 > first);
    if guard.pending.contains(path) && release_due(guard.releases, path, second) && !release_due(
        guard.releases,
        path,
        first,
    ) {
        let i = choose|i: int|
            0 <= i < guard.releases.len() && (#[trigger] guard.releases[i]).0 <= second && guard.releases[i].1 == path;
        assert(guard.releases[i].0 > first);
        assert(mid.releases.contains(guard.releases[i]));
    }
    if release_due(mid.releases, path, second) {
        let j = choose|j: int| 0 <= j < mid.releases.len() && (#[trigger] mid.releases[j]).0 <= second && mid.releases[j].1 == path;
        lemma_kept_release(guard.releases, first, j);
    }
}

/// A release that is kept was set before.
proof fn lemma_kept_release(releases: Seq<(u64, Seq<Step>)>, now: u64, j: int)
    requires
        0 <= j < not_due(releases, now).len(),
    ensures
        releases.contains(not_due(releases, now)[j]),
    decreases releases.len(),
{
    reveal(Seq::filter);
    if releases.len() > 0 {
        let head = releases.drop_last();
        if j < not_due(head, now).len() {
            lemma_kept_release(head, now, j);
            let i = choose|i: int| 0 <= i < head.len() && head[i] == not_due(head, now)[j];
            assert(releases[i] == head[i]);
        } else {
            assert(releases[releases.len() - 1] == releases.last());
        }
    }
}

/// A new guard holds no mark of any path.
pub proof fn law_new_guards_know_nothing(path: Seq<Step>, hash: Seq<u8>)
    ensures
        !guard_empty().pending.contains(path),
        !guard_empty().published.dom().contains(path),
        !guard_empty().deleted.contains(path),
        guard_empty().releases.len() == 0,
        !is_echo(guard_empty(), path, hash),
{
}

/// A deadline lies as far ahead as asked, and never beyond the end of time.
pub proof fn law_deadlines_lie_ahead(now: u64, grace: u64)
    ensures
        now + grace <= u64::MAX ==> deadline(now, grace) == now + grace,
        now + grace > u64::MAX ==> deadline(now, grace) == u64::MAX,
{
}

/// A peer's delete is news exactly where the path was not marked as deleted.
pub proof fn law_second_deletes_are_no_news(guard: &mut EchoGuard, path: &FsPath, mark: RemoteDeleteMark)
    requires
        call_ensures(EchoGuard::mark_remote_delete, (guard, path), mark),
    ensures
        mark == RemoteDeleteMark::Fresh <==> !old(guard)@.deleted.contains(components(path@)),
        final(guard)@.deleted.contains(components(path@)),
{
}

/// Letting a pending mark end sets one release more, as far ahead as asked, and
/// changes no mark.
pub proof fn law_releases_are_set(guard: &mut EchoGuard, path: &FsPath, now: u64, grace: u64)
    requires
        call_ensures(EchoGuard::release_after, (guard, path, now, grace), ()),
        now + grace <= u64::MAX,
    ensures
        final(guard)@.releases == old(guard)@.releases.push(((now + grace) as u64, components(path@))),
        final(guard)@.pending == old(guard)@.pending,
        final(guard)@.published == old(guard)@.published,
        final(guard)@.deleted == old(guard)@.deleted,
{
}

} // verus!
