//! What a change on disk leads to.
//!
//! A change is judged in steps, between which the caller looks at the file,
//! reads it, and writes the document: [`on_modified`], [`on_read`],
//! [`on_published`] for a file that changed, [`on_removed`] and
//! [`on_tombstoned`] for one that went away.
use vstd::prelude::*;

use crate::echo_guard::{after_forget, after_local_publish, is_echo, EchoGuard, GuardView};
use crate::error::concat;
use crate::events::{Direction, EventView, WorkspaceEvent};
use crate::filter::FileFacts;
use crate::hashing::blake3_hash;
use crate::ids::Key;
use crate::keys::key_of;
use crate::path::{components, FsPath};
use crate::rules::Mode;
use crate::site::{event_view, failed, failed_text, no_key_event, Passage, Site};

verus! {

/// How often changes on disk are gathered, in milliseconds.
pub const DEBOUNCE: u64 = 300;

/// What kind of change the file system reports.
#[derive(Clone, Copy, Debug, PartialEq, Eq, Structural)]
pub enum ChangeKind {
    /// Something was created or changed.
    Written,
    /// Something went away.
    Removed,
    /// Anything else.
    Other,
}

/// A change on disk that is judged.
#[derive(Clone, Debug, PartialEq, Eq)]
pub enum LocalChange {
    /// By [`on_modified`].
    Modified(FsPath),
    /// By [`on_removed`].
    Removed(FsPath),
}

/// A [`LocalChange`] over sequences: whether the path went away, and the path.
pub open spec fn change_view(change: LocalChange) -> (bool, Seq<u8>) {
    match change {
        LocalChange::Modified(path) => (false, path@),
        LocalChange::Removed(path) => (true, path@),
    }
}

/// What a report of the file system leads to: one change for each path, in
/// their order, or none where the kind does not count.
pub open spec fn changes_for(kind: ChangeKind, paths: Seq<FsPath>) -> Seq<(bool, Seq<u8>)> {
    match kind {
        ChangeKind::Written => paths.map_values(|p: FsPath| (false, p@)),
        ChangeKind::Removed => paths.map_values(|p: FsPath| (true, p@)),
        ChangeKind::Other => Seq::empty(),
    }
}

/// The changes that a report of the file system stands for.
pub fn local_changes(kind: ChangeKind, paths: &Vec<FsPath>) -> (changes: Vec<LocalChange>)
    ensures
        changes@.map_values(|c: LocalChange| change_view(c)) == changes_for(kind, paths@),
{
    let mut changes: Vec<LocalChange> = Vec::new();
    if kind == ChangeKind::Other {
        assert(changes@.map_values(|c: LocalChange| change_view(c)) =~= Seq::empty());
        return changes;
    }
    let gone = kind == ChangeKind::Removed;
    let mut i: usize = 0;
    while i < paths.len()
        invariant
            i <= paths@.len(),
            changes@.len() == i,
            forall|k: int| 0 <= k < i ==> change_view(#[trigger] changes@[k]) == (gone, paths@[k]@),
        decreases paths@.len() - i,
    {
        if gone {
            changes.push(LocalChange::Removed(paths[i].duplicate()));
        } else {
            changes.push(LocalChange::Modified(paths[i].duplicate()));
        }
        i += 1;
    }
    assert(changes@.map_values(|c: LocalChange| change_view(c)) =~= changes_for(kind, paths@));
    changes
}

/// Why the root is not watched.
#[derive(Clone, Debug, PartialEq, Eq)]
pub enum WatchFailure {
    /// There is nothing to watch with.
    Init(String),
    /// The root cannot be watched.
    Attach(String),
}

/// What the consumer is told of a root that is not watched.
pub fn watch_failed(failure: WatchFailure) -> (event: WorkspaceEvent)
    ensures
        event@ == EventView::Error(
            match failure {
                WatchFailure::Init(why) => "watcher init failed: "@ + why@,
                WatchFailure::Attach(why) => "watch failed: "@ + why@,
            },
        ),
{
    match failure {
        WatchFailure::Init(why) => WorkspaceEvent::Error(concat("watcher init failed: ", why.as_str())),
        WatchFailure::Attach(why) => WorkspaceEvent::Error(concat("watch failed: ", why.as_str())),
    }
}

/// What a changed path leads to.
pub enum ModifyStep {
    /// Nothing.
    Ignore,
    /// The consumer is told, and nothing else.
    Report(WorkspaceEvent),
    /// The path is a directory: each file in it is judged as if it had
    /// changed.
    Rescan,
    /// The file is read, and then judged by [`on_read`].
    Read,
}

/// A [`ModifyStep`] over sequences.
pub enum ModifyView {
    /// [`ModifyStep::Ignore`].
    Ignore,
    /// [`ModifyStep::Report`].
    Report(EventView),
    /// [`ModifyStep::Rescan`].
    Rescan,
    /// [`ModifyStep::Read`].
    Read,
}

impl View for ModifyStep {
    type V = ModifyView;

    open spec fn view(&self) -> ModifyView {
        match *self {
            ModifyStep::Ignore => ModifyView::Ignore,
            ModifyStep::Report(event) => ModifyView::Report(event@),
            ModifyStep::Rescan => ModifyView::Rescan,
            ModifyStep::Read => ModifyView::Read,
        }
    }
}

/// What a changed path leads to: nothing on a node that may not write; then
/// the filter, the directory question and the path rules, in this order.
pub open spec fn modified(site: Site, halted: bool, path: Seq<u8>, facts: FileFacts, is_dir: bool) -> ModifyView {
    if halted {
        ModifyView::Ignore
    } else {
        match site.stops(path, facts, Direction::Outgoing) {
            Some(Some(event)) => ModifyView::Report(event),
            Some(None) => ModifyView::Ignore,
            None => if is_dir {
                ModifyView::Rescan
            } else if site.mode(path) == Mode::ReadOnly {
                ModifyView::Report(EventView::SkippedReadOnly(path, Direction::Outgoing))
            } else {
                ModifyView::Read
            },
        }
    }
}

/// Judges a path that changed. `halted` says that this node was made a reader,
/// `is_dir` that the path is a directory.
pub fn on_modified(site: &Site, halted: bool, path: &FsPath, facts: &FileFacts, is_dir: bool) -> (step: ModifyStep)
    requires
        site.wf(),
    ensures
        step@ == modified(*site, halted, path@, *facts, is_dir),
{
    if halted {
        return ModifyStep::Ignore;
    }
    match site.pass(path, facts, Direction::Outgoing) {
        Passage::Stop(Some(event)) => {
            return ModifyStep::Report(event);
        },
        Passage::Stop(None) => {
            return ModifyStep::Ignore;
        },
        Passage::Pass => {},
    }
    if is_dir {
        return ModifyStep::Rescan;
    }
    if site.mode_for(path) == Mode::ReadOnly {
        return ModifyStep::Report(
            WorkspaceEvent::SkippedReadOnly { path: path.duplicate(), direction: Direction::Outgoing },
        );
    }
    ModifyStep::Read
}

/// How reading a file went.
pub enum ReadOutcome {
    /// Its content.
    Bytes(Vec<u8>),
    /// There is no such file any more.
    NotFound,
    /// It could not be read.
    Failed,
}

/// What a read file leads to.
pub enum ReadStep {
    /// Nothing.
    Ignore,
    /// The consumer is told, and nothing else.
    Report(WorkspaceEvent),
    /// The path went away: it is judged by [`on_removed`].
    Removed,
    /// The content is published under a key, and the outcome is judged by
    /// [`on_published`].
    Publish {
        /// The key.
        key: Vec<u8>,
    },
}

/// A [`ReadStep`] over sequences.
pub enum ReadView {
    /// [`ReadStep::Ignore`].
    Ignore,
    /// [`ReadStep::Report`].
    Report(EventView),
    /// [`ReadStep::Removed`].
    Removed,
    /// [`ReadStep::Publish`].
    Publish(Seq<u8>),
}

impl View for ReadStep {
    type V = ReadView;

    open spec fn view(&self) -> ReadView {
        match *self {
            ReadStep::Ignore => ReadView::Ignore,
            ReadStep::Report(event) => ReadView::Report(event@),
            ReadStep::Removed => ReadView::Removed,
            ReadStep::Publish { key } => ReadView::Publish(key@),
        }
    }
}

/// What a read file leads to. Empty content is not published: an empty entry
/// stands for a delete.
pub open spec fn read_step(site: Site, guard: GuardView, path: Seq<u8>, outcome: ReadOutcome) -> ReadView {
    match outcome {
        ReadOutcome::NotFound => ReadView::Removed,
        ReadOutcome::Failed => ReadView::Ignore,
        ReadOutcome::Bytes(bytes) => if bytes@.len() == 0 {
            ReadView::Ignore
        } else if is_echo(guard, components(path), blake3_hash(bytes@)) {
            ReadView::Ignore
        } else {
            match key_of(site.root(), path) {
                Ok(key) => ReadView::Publish(key),
                Err(why) => ReadView::Report(no_key_event(path, why)),
            }
        },
    }
}

/// Judges a file that was read after it changed.
pub fn on_read(site: &Site, guard: &EchoGuard, path: &FsPath, outcome: &ReadOutcome) -> (step: ReadStep)
    ensures
        step@ == read_step(*site, guard@, path@, *outcome),
{
    match outcome {
        ReadOutcome::NotFound => ReadStep::Removed,
        ReadOutcome::Failed => ReadStep::Ignore,
        ReadOutcome::Bytes(bytes) => {
            if bytes.len() == 0 {
                return ReadStep::Ignore;
            }
            if guard.should_skip_local(path, bytes.as_slice()) {
                return ReadStep::Ignore;
            }
            match site.path_to_key_or_emit(path) {
                Ok(key) => ReadStep::Publish { key },
                Err(event) => ReadStep::Report(event),
            }
        },
    }
}

/// Notes how a publish went: content that went out is remembered, and a
/// failure is reported.
pub fn on_published(guard: &mut EchoGuard, path: &FsPath, bytes: &[u8], outcome: Result<(), String>) -> (event: Option<WorkspaceEvent>)
    ensures
        match outcome {
            Ok(()) => {
                &&& final(guard)@ == after_local_publish(old(guard)@, components(path@), blake3_hash(bytes@))
                &&& event is None
            },
            Err(why) => {
                &&& final(guard)@ == old(guard)@
                &&& event_view(event) == Some(EventView::Error(failed_text("publish "@, path@, why@)))
            },
        },
{
    match outcome {
        Ok(()) => {
            guard.record_local_publish(path, bytes);
            None
        },
        Err(why) => Some(failed("publish ", path, why.as_str())),
    }
}

/// What a path that went away leads to.
pub enum RemoveStep {
    /// Nothing.
    Ignore,
    /// The consumer is told, and nothing else.
    Report(WorkspaceEvent),
    /// The entry of a key is deleted, and the outcome is judged by
    /// [`on_tombstoned`].
    Tombstone {
        /// The key.
        key: Vec<u8>,
    },
}

/// A [`RemoveStep`] over sequences.
pub enum RemoveView {
    /// [`RemoveStep::Ignore`].
    Ignore,
    /// [`RemoveStep::Report`].
    Report(EventView),
    /// [`RemoveStep::Tombstone`].
    Tombstone(Seq<u8>),
}

impl View for RemoveStep {
    type V = RemoveView;

    open spec fn view(&self) -> RemoveView {
        match *self {
            RemoveStep::Ignore => RemoveView::Ignore,
            RemoveStep::Report(event) => RemoveView::Report(event@),
            RemoveStep::Tombstone { key } => RemoveView::Tombstone(key@),
        }
    }
}

/// What a path that went away leads to: nothing where a peer deleted it; then
/// the same questions as for a change. Only what the exclude rules and the path
/// rules stop is reported.
pub open spec fn removed(site: Site, guard: GuardView, halted: bool, path: Seq<u8>, facts: FileFacts) -> RemoveView {
    if guard.deleted.contains(components(path)) || halted {
        RemoveView::Ignore
    } else {
        match site.stops(path, facts, Direction::Outgoing) {
            Some(Some(EventView::SkippedExcluded(p, d))) => RemoveView::Report(EventView::SkippedExcluded(p, d)),
            Some(_) => RemoveView::Ignore,
            None => if site.mode(path) == Mode::ReadOnly {
                RemoveView::Report(EventView::SkippedReadOnly(path, Direction::Outgoing))
            } else {
                match key_of(site.root(), path) {
                    Ok(key) => RemoveView::Tombstone(key),
                    Err(why) => RemoveView::Report(no_key_event(path, why)),
                }
            },
        }
    }
}

/// Judges a path that went away. Whatever comes of it, the content of a path
/// that this machine deleted is forgotten.
pub fn on_removed(site: &Site, guard: &mut EchoGuard, halted: bool, path: &FsPath, facts: &FileFacts) -> (step: RemoveStep)
    requires
        site.wf(),
    ensures
        step@ == removed(*site, old(guard)@, halted, path@, *facts),
        final(guard)@ == (if old(guard)@.deleted.contains(components(path@)) {
            old(guard)@
        } else {
            after_forget(old(guard)@, components(path@))
        }),
{
    if guard.should_skip_removal(path) {
        return RemoveStep::Ignore;
    }
    guard.forget(path);
    if halted {
        return RemoveStep::Ignore;
    }
    match site.pass(path, facts, Direction::Outgoing) {
        Passage::Stop(Some(WorkspaceEvent::SkippedExcluded { path, direction })) => {
            return RemoveStep::Report(WorkspaceEvent::SkippedExcluded { path, direction });
        },
        Passage::Stop(_) => {
            return RemoveStep::Ignore;
        },
        Passage::Pass => {},
    }
    if site.mode_for(path) == Mode::ReadOnly {
        return RemoveStep::Report(
            WorkspaceEvent::SkippedReadOnly { path: path.duplicate(), direction: Direction::Outgoing },
        );
    }
    match site.path_to_key_or_emit(path) {
        Ok(key) => RemoveStep::Tombstone { key },
        Err(event) => RemoveStep::Report(event),
    }
}

/// Notes how a delete of an entry went: a failure is reported.
pub fn on_tombstoned(path: &FsPath, outcome: Result<(), String>) -> (event: Option<WorkspaceEvent>)
    ensures
        match outcome {
            Ok(()) => event is None,
            Err(why) => event_view(event) == Some(EventView::Error(failed_text("tombstone "@, path@, why@))),
        },
{
    match outcome {
        Ok(()) => None,
        Err(why) => Some(failed("tombstone ", path, why.as_str())),
    }
}

/// A node that was made a reader publishes nothing and deletes nothing.
pub proof fn law_halted_node_sends_nothing(site: Site, guard: GuardView, path: Seq<u8>, facts: FileFacts, is_dir: bool)
    ensures
        modified(site, true, path, facts, is_dir) == ModifyView::Ignore,
        removed(site, guard, true, path, facts) == RemoveView::Ignore,
{
}

/// A path that the rules make read-only is neither read nor deleted.
pub proof fn law_read_only_paths_are_not_sent(site: Site, guard: GuardView, halted: bool, path: Seq<u8>, facts: FileFacts)
    requires
        site.mode(path) == Mode::ReadOnly,
    ensures
        modified(site, halted, path, facts, false) != ModifyView::Read,
        !(removed(site, guard, halted, path, facts) is Tombstone),
{
}

/// A path that the filter stops is neither read nor deleted.
pub proof fn law_filtered_paths_are_not_sent(site: Site, guard: GuardView, halted: bool, path: Seq<u8>, facts: FileFacts, is_dir: bool)
    requires
        site.stops(path, facts, Direction::Outgoing) is Some,
    ensures
        modified(site, halted, path, facts, is_dir) is Ignore || modified(site, halted, path, facts, is_dir) is Report,
        !(removed(site, guard, halted, path, facts) is Tombstone),
{
}

/// What a peer wrote or deleted is not sent back.
pub proof fn law_peer_changes_are_not_echoed(site: Site, guard: GuardView, path: Seq<u8>, bytes: Vec<u8>, halted: bool, facts: FileFacts)
    ensures
        read_step(
            site,
            crate::echo_guard::after_remote_write(guard, components(path), blake3_hash(bytes@)),
            path,
            ReadOutcome::Bytes(bytes),
        ) == ReadView::Ignore,
        removed(site, crate::echo_guard::after_remote_delete(guard, components(path)), halted, path, facts) == RemoveView::Ignore,
{
}

/// Content that is not empty, of a path with a key, is published under that
/// key exactly where no write of a peer to the path is in flight and it is not
/// the content that was last written or published there; otherwise nothing is
/// done. Whether a peer deleted the path before plays no part in it.
pub proof fn law_new_content_is_published(site: Site, guard: GuardView, path: Seq<u8>, bytes: Vec<u8>, key: Seq<u8>)
    requires
        key_of(site.root(), path) == Ok::<Seq<u8>, Seq<char>>(key),
        bytes@.len() > 0,
    ensures
        ({
            let step = read_step(site, guard, path, ReadOutcome::Bytes(bytes));
            let known = guard.published.dom().contains(components(path)) && guard.published[components(path)] == blake3_hash(
                bytes@,
            );
            &&& step == ReadView::Publish(key) <==> !guard.pending.contains(components(path)) && !known
            &&& step == ReadView::Ignore <==> guard.pending.contains(components(path)) || known
        }),
{
}

/// A file that comes back after a peer deleted it is published, whatever it
/// holds and whatever was published before, unless a write of a peer is in
/// flight.
pub proof fn law_recreated_files_are_published(site: Site, guard: GuardView, path: Seq<u8>, bytes: Vec<u8>, key: Seq<u8>)
    requires
        key_of(site.root(), path) == Ok::<Seq<u8>, Seq<char>>(key),
        bytes@.len() > 0,
        !guard.pending.contains(components(path)),
    ensures
        read_step(
            site,
            crate::echo_guard::after_remote_delete(guard, components(path)),
            path,
            ReadOutcome::Bytes(bytes),
        ) == ReadView::Publish(key),
        read_step(site, after_forget(guard, components(path)), path, ReadOutcome::Bytes(bytes)) == ReadView::Publish(key),
{
}

/// A file that changed is read exactly where this node may write, the filter
/// lets the path through, the path is no directory and the rules let it be
/// written; a directory that the filter lets through is walked, whatever the
/// rules say of it.
pub proof fn law_changed_files_are_read(site: Site, halted: bool, path: Seq<u8>, facts: FileFacts, is_dir: bool)
    ensures
        ({
            let passes = !halted && site.stops(path, facts, Direction::Outgoing) is None;
            let step = modified(site, halted, path, facts, is_dir);
            &&& step == ModifyView::Read <==> passes && !is_dir && site.mode(path) == Mode::ReadWrite
            &&& step == ModifyView::Rescan <==> passes && is_dir
            &&& passes && !is_dir && site.mode(path) == Mode::ReadOnly ==> step == ModifyView::Report(
                EventView::SkippedReadOnly(path, Direction::Outgoing),
            )
            &&& !halted && (site.stops(path, facts, Direction::Outgoing) matches Some(told)) ==> step == (
            match site.stops(path, facts, Direction::Outgoing)->0 {
                Some(event) => ModifyView::Report(event),
                None => ModifyView::Ignore,
            })
        }),
{
}

/// What reading a file gave decides first: a file that is gone is judged as
/// removed, one that cannot be read and one that is empty lead to nothing,
/// whatever the guard knows.
pub proof fn law_unread_files_are_not_published(site: Site, guard: GuardView, path: Seq<u8>, outcome: ReadOutcome)
    ensures
        outcome is NotFound ==> read_step(site, guard, path, outcome) == ReadView::Removed,
        outcome is Failed ==> read_step(site, guard, path, outcome) == ReadView::Ignore,
        (outcome matches ReadOutcome::Bytes(bytes) && bytes@.len() == 0) ==> read_step(site, guard, path, outcome)
            == ReadView::Ignore,
{
}

/// Content of a path without a key is reported, with the reason, unless it is
/// an echo.
pub proof fn law_content_without_a_key_is_reported(site: Site, guard: GuardView, path: Seq<u8>, bytes: Vec<u8>, why: Seq<char>)
    requires
        key_of(site.root(), path) == Err::<Seq<u8>, Seq<char>>(why),
        bytes@.len() > 0,
        !guard.pending.contains(components(path)),
        !guard.published.dom().contains(components(path)) || guard.published[components(path)] != blake3_hash(bytes@),
    ensures
        read_step(site, guard, path, ReadOutcome::Bytes(bytes)) == ReadView::Report(no_key_event(path, why)),
{
}

/// A file that went away, and that no peer deleted, is deleted under its key
/// exactly where this node may write, the filter lets the path through and the
/// rules let it be written. What was published before, and whether a write of a
/// peer is in flight, play no part in it.
pub proof fn law_removed_files_are_deleted(site: Site, guard: GuardView, halted: bool, path: Seq<u8>, facts: FileFacts, key: Seq<u8>)
    requires
        key_of(site.root(), path) == Ok::<Seq<u8>, Seq<char>>(key),
    ensures
        removed(site, guard, halted, path, facts) == RemoveView::Tombstone(key) <==> {
            &&& !guard.deleted.contains(components(path))
            &&& !halted
            &&& site.stops(path, facts, Direction::Outgoing) is None
            &&& site.mode(path) == Mode::ReadWrite
        },
{
}

/// Of the removals that are not sent, those that the exclude rules or the path
/// rules stop are reported, and one of a path without a key; the others lead to
/// nothing.
pub proof fn law_stopped_removals(site: Site, guard: GuardView, halted: bool, path: Seq<u8>, facts: FileFacts)
    ensures
        ({
            let step = removed(site, guard, halted, path, facts);
            let stopped = site.stops(path, facts, Direction::Outgoing);
            let heard = !halted && !guard.deleted.contains(components(path));
            &&& !heard ==> step == RemoveView::Ignore
            &&& heard && stopped is Some ==> step == (match site.filter.decides(path, facts) {
                crate::filter::FilterDecision::Skip(crate::filter::SkipReason::Excluded) => RemoveView::Report(
                    EventView::SkippedExcluded(path, Direction::Outgoing),
                ),
                _ => RemoveView::Ignore,
            })
            &&& heard && stopped is None && site.mode(path) == Mode::ReadOnly ==> step == RemoveView::Report(
                EventView::SkippedReadOnly(path, Direction::Outgoing),
            )
            &&& heard && stopped is None && site.mode(path) == Mode::ReadWrite && key_of(site.root(), path) is Err ==> step
                == RemoveView::Report(no_key_event(path, key_of(site.root(), path)->Err_0))
        }),
{
}

/// Each path of a report is judged once, in the order of the report, as written
/// or as gone; other reports lead to nothing.
pub proof fn law_every_reported_path_is_judged(kind: ChangeKind, paths: Seq<FsPath>, i: int)
    requires
        0 <= i < paths.len(),
    ensures
        kind == ChangeKind::Other ==> changes_for(kind, paths).len() == 0,
        kind != ChangeKind::Other ==> changes_for(kind, paths).len() == paths.len(),
        kind != ChangeKind::Other ==> changes_for(kind, paths)[i] == (kind == ChangeKind::Removed, paths[i]@),
{
}

/// A file that was read is published exactly where it has content that is no
/// echo, and a key.
pub proof fn law_read_files(site: &Site, guard: &EchoGuard, path: &FsPath, outcome: &ReadOutcome, step: ReadStep)
    requires
        call_ensures(on_read, (site, guard, path, outcome), step),
    ensures
        step is Publish <==> {
            &&& *outcome matches ReadOutcome::Bytes(bytes)
            &&& bytes@.len() > 0
            &&& !guard@.pending.contains(components(path@))
            &&& !(guard@.published.dom().contains(components(path@)) && guard@.published[components(path@)] == blake3_hash(
                bytes@,
            ))
            &&& key_of(site.root(), path@) is Ok
        },
        step matches ReadStep::Publish { key } ==> key_of(site.root(), path@) == Ok::<Seq<u8>, Seq<char>>(key@),
        step is Removed <==> *outcome is NotFound,
{
}

/// Content that went out is an echo from then on, whatever was known of the
/// path; content that did not is published again, and the consumer is told.
pub proof fn law_published_content_is_an_echo(guard: &mut EchoGuard, path: &FsPath, bytes: &[u8], outcome: Result<(), String>, event: Option<WorkspaceEvent>)
    requires
        call_ensures(on_published, (guard, path, bytes, outcome), event),
    ensures
        outcome is Ok ==> is_echo(final(guard)@, components(path@), blake3_hash(bytes@)) && event is None
            && !final(guard)@.deleted.contains(components(path@)),
        outcome is Err ==> final(guard)@ == old(guard)@ && event is Some,
{
}

/// A file that went away is forgotten, unless a peer deleted it, whatever else
/// comes of it: when it comes back it is published, unless a write of a peer is
/// in flight.
pub proof fn law_removed_files_are_forgotten(site: &Site, guard: &mut EchoGuard, halted: bool, path: &FsPath, facts: &FileFacts, step: RemoveStep, hash: Seq<u8>)
    requires
        call_ensures(on_removed, (site, guard, halted, path, facts), step),
    ensures
        step@ == removed(*site, old(guard)@, halted, path@, *facts),
        final(guard)@.deleted == old(guard)@.deleted,
        final(guard)@.pending == old(guard)@.pending,
        old(guard)@.deleted.contains(components(path@)) ==> final(guard)@ == old(guard)@,
        !old(guard)@.deleted.contains(components(path@)) ==> is_echo(final(guard)@, components(path@), hash)
            == old(guard)@.pending.contains(components(path@)),
{
}

/// A delete that went out is not reported, and one that did not is.
pub proof fn law_failed_deletes_are_told(path: &FsPath, outcome: Result<(), String>, event: Option<WorkspaceEvent>)
    requires
        call_ensures(on_tombstoned, (path, outcome), event),
    ensures
        event is Some <==> outcome is Err,
        event matches Some(told) ==> told@ is Error,
{
}

} // verus!
