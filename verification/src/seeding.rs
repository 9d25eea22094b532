//! The passes over a whole workspace when it is set up: publishing what is on
//! disk, pruning what is gone, and writing what the document holds.
use vstd::prelude::*;

use crate::applier::{bad_key_event, incoming, judge_incoming, named_entry_path, Incoming};
use crate::echo_guard::{
    after_local_publish, after_remote_delete, after_remote_write, deadline, EchoGuard, GuardView,
    PENDING_RELEASE_GRACE,
};
use crate::error::{concat, workspace_fault_text, WorkspaceFault};
use crate::events::{EventView, WorkspaceEvent};
use crate::filter::{FileFacts, FilterDecision};
use crate::hashing::blake3_hash;
use crate::ids::Key;
use crate::keys::{key_of, path_of, path_to_key};
use crate::path::{components, FsPath};
use crate::site::{event_view, failed, failed_text, Site};
use crate::text::lossy_text;
use crate::watcher::{modified, on_modified, ModifyStep};

verus! {

// ---------------------------------------------------------------------------
// Publishing what is on disk

/// What a file that the scan found leads to: as a change would, on a node that
/// may write.
pub fn scan_file(site: &Site, path: &FsPath, facts: &FileFacts) -> (step: ModifyStep)
    requires
        site.wf(),
    ensures
        step@ == modified(*site, false, path@, *facts, false),
{
    on_modified(site, false, path, facts, false)
}

/// The key under which a file that the scan read is published, or what the
/// consumer is told. `outcome` says how reading went.
pub fn scan_read(site: &Site, path: &FsPath, outcome: Result<(), String>) -> (res: Result<Vec<u8>, WorkspaceEvent>)
    ensures
        match outcome {
            Err(why) => res matches Err(event) && event@ == EventView::Error(failed_text("scan read "@, path@, why@)),
            Ok(()) => match key_of(site.root(), path@) {
                Ok(key) => res matches Ok(k) && k@ == key,
                Err(why) => res matches Err(event) && event@ == EventView::Error(
                    failed_text("scan key "@, path@, workspace_fault_text(WorkspaceFault::InvalidPath(why))),
                ),
            },
        },
{
    if let Err(why) = outcome {
        return Err(failed("scan read ", path, why.as_str()));
    }
    match path_to_key(&site.filter.root, path) {
        Ok(key) => Ok(key),
        Err(err) => Err(failed("scan key ", path, err.message().as_str())),
    }
}

/// Notes how publishing a file that the scan read went.
pub fn scan_published(guard: &mut EchoGuard, path: &FsPath, bytes: &[u8], outcome: Result<(), String>) -> (event: Option<WorkspaceEvent>)
    ensures
        match outcome {
            Ok(()) => {
                &&& final(guard)@ == after_local_publish(old(guard)@, components(path@), blake3_hash(bytes@))
                &&& event is None
            },
            Err(why) => {
                &&& final(guard)@ == old(guard)@
                &&& event_view(event) == Some(EventView::Error(failed_text("scan publish "@, path@, why@)))
            },
        },
{
    match outcome {
        Ok(()) => {
            guard.record_local_publish(path, bytes);
            None
        },
        Err(why) => Some(failed("scan publish ", path, why.as_str())),
    }
}

// ---------------------------------------------------------------------------
// Writing what the document holds

/// Judges an entry that is written to a fresh workspace: the questions are
/// those of a live entry, without a limit of its own on the length.
pub fn export_entry(site: &Site, path: &FsPath, facts: &FileFacts, len: u64) -> (step: Incoming)
    requires
        site.wf(),
    ensures
        step@ == incoming(*site, None, path@, *facts, len),
{
    judge_incoming(site, None, path, facts, len)
}

/// Marks a delete, which is then done and reported.
pub fn export_tombstone(guard: &mut EchoGuard, path: &FsPath) -> (event: WorkspaceEvent)
    ensures
        final(guard)@ == after_remote_delete(old(guard)@, components(path@)),
        event@ == EventView::PeerDeleted(path@),
{
    guard.mark_remote_delete(path);
    WorkspaceEvent::PeerDeleted { path: path.duplicate() }
}

/// Marks content that is about to be written.
pub fn export_write(guard: &mut EchoGuard, path: &FsPath, bytes: &[u8])
    ensures
        final(guard)@ == after_remote_write(old(guard)@, components(path@), blake3_hash(bytes@)),
{
    guard.mark_remote_write(path, bytes);
}

/// Notes how writing went, at the time `now`. The mark of content that could
/// not be written stays.
pub fn export_written(guard: &mut EchoGuard, path: &FsPath, now: u64, outcome: Result<(), String>) -> (event: WorkspaceEvent)
    ensures
        match outcome {
            Ok(()) => {
                &&& event@ == EventView::PeerWrote(path@)
                &&& final(guard)@ == (GuardView {
                    releases: old(guard)@.releases.push((deadline(now, PENDING_RELEASE_GRACE), components(path@))),
                    ..old(guard)@
                })
            },
            Err(why) => {
                &&& event@ == EventView::Error(failed_text("bulk export write "@, path@, why@))
                &&& final(guard)@ == old(guard)@
            },
        },
{
    match outcome {
        Ok(()) => {
            guard.release_after(path, now, PENDING_RELEASE_GRACE);
            WorkspaceEvent::PeerWrote { path: path.duplicate() }
        },
        Err(why) => failed("bulk export write ", path, why.as_str()),
    }
}

// ---------------------------------------------------------------------------
// Pruning what is gone

/// What an entry leads to when a host comes back.
pub enum ReconcileStep {
    /// Nothing.
    Ignore,
    /// The consumer is told, and nothing else.
    Report(WorkspaceEvent),
    /// The path is looked for, and judged by [`reconcile_path`].
    Look {
        /// The path.
        path: FsPath,
    },
}

/// A [`ReconcileStep`] over sequences.
pub enum ReconcileView {
    /// [`ReconcileStep::Ignore`].
    Ignore,
    /// [`ReconcileStep::Report`].
    Report(EventView),
    /// [`ReconcileStep::Look`].
    Look(Seq<u8>),
}

impl View for ReconcileStep {
    type V = ReconcileView;

    open spec fn view(&self) -> ReconcileView {
        match *self {
            ReconcileStep::Ignore => ReconcileView::Ignore,
            ReconcileStep::Report(event) => ReconcileView::Report(event@),
            ReconcileStep::Look { path } => ReconcileView::Look(path@),
        }
    }
}

/// What an entry leads to when a host comes back: a delete is passed over, and
/// otherwise its path is looked for.
pub open spec fn reconciled(root: Seq<u8>, key: Seq<u8>, len: u64) -> ReconcileView {
    if len == 0 {
        ReconcileView::Ignore
    } else {
        match path_of(root, key) {
            Ok(path) => ReconcileView::Look(path),
            Err(why) => ReconcileView::Report(bad_key_event("reconcile invalid key: "@, why)),
        }
    }
}

/// Judges an entry when a host comes back.
pub fn reconcile_entry(site: &Site, key: &[u8], len: u64) -> (step: ReconcileStep)
    ensures
        step@ == reconciled(site.root(), key@, len),
{
    if len == 0 {
        return ReconcileStep::Ignore;
    }
    match named_entry_path(site, key, "reconcile invalid key: ") {
        Ok(path) => ReconcileStep::Look { path },
        Err(event) => ReconcileStep::Report(event),
    }
}

/// Whether the entry of a path is deleted: the path is one that this node
/// mirrors, and it is not on disk.
pub fn reconcile_path(site: &Site, path: &FsPath, facts: &FileFacts, exists_on_disk: bool) -> (delete: bool)
    ensures
        delete == (site.filter.decides(path@, *facts) == FilterDecision::Include && !exists_on_disk),
{
    match site.filter.check(path, facts) {
        FilterDecision::Include => !exists_on_disk,
        FilterDecision::Skip(_) => false,
    }
}

/// Notes how deleting an entry went.
pub fn reconcile_deleted(path: &FsPath, outcome: Result<(), String>) -> (event: Option<WorkspaceEvent>)
    ensures
        match outcome {
            Ok(()) => event is None,
            Err(why) => event_view(event) == Some(
                EventView::Error("reconcile tombstone "@ + lossy_text(path@) + ": "@ + why@),
            ),
        },
{
    match outcome {
        Ok(()) => None,
        Err(why) => {
            let mut text = concat("reconcile tombstone ", path.display().as_str());
            text.append(": ");
            text.append(why.as_str());
            Some(WorkspaceEvent::Error(text))
        },
    }
}

/// When a host comes back, the path of an entry with content is looked for,
/// whatever its content is; an entry without content is passed over, whatever
/// its key is; and a key without a path is reported.
pub proof fn law_entries_with_content_are_looked_for(root: Seq<u8>, key: Seq<u8>, len: u64)
    ensures
        len == 0 ==> reconciled(root, key, len) == ReconcileView::Ignore,
        len > 0 ==> match path_of(root, key) {
            Ok(path) => reconciled(root, key, len) == ReconcileView::Look(path),
            Err(why) => reconciled(root, key, len) == ReconcileView::Report(
                EventView::Error(
                    "reconcile invalid key: "@ + workspace_fault_text(WorkspaceFault::InvalidPath(why)),
                ),
            ),
        },
{
}

/// A fresh workspace takes in what the document holds however long it is: no
/// limit of its own stands between, and what is on disk plays no part where the
/// filter lets the path through.
pub proof fn law_exports_have_no_limit(site: Site, path: Seq<u8>, facts: FileFacts, len: u64)
    requires
        site.filter.decides(path, facts) == FilterDecision::Include,
        site.mode(path) == crate::rules::Mode::ReadWrite,
    ensures
        incoming(site, None, path, facts, len) == (if len == 0 {
            crate::applier::IncomingView::Tombstone
        } else {
            crate::applier::IncomingView::Fetch
        }),
{
}

/// A file that a scan finds is read wherever a change of it would be, on a node
/// that may write.
pub proof fn law_scans_read_what_may_be_sent(site: Site, path: Seq<u8>, facts: FileFacts)
    ensures
        modified(site, false, path, facts, false) == crate::watcher::ModifyView::Read <==> site.filter.decides(path, facts)
            == FilterDecision::Include && site.mode(path) == crate::rules::Mode::ReadWrite,
{
}

/// The entry of a path is deleted when a host comes back exactly where the
/// filter lets the path through and it is not on disk.
pub proof fn law_only_missing_files_are_pruned(site: &Site, path: &FsPath, facts: &FileFacts, exists_on_disk: bool, delete: bool)
    requires
        call_ensures(reconcile_path, (site, path, facts, exists_on_disk), delete),
    ensures
        delete <==> site.stops(path@, *facts, crate::events::Direction::Outgoing) is None && !exists_on_disk,
{
}

/// What a scan read is published under the key of its path, and where there is
/// none, or it could not be read, the consumer is told.
pub proof fn law_scanned_files(site: &Site, path: &FsPath, outcome: Result<(), String>, res: Result<Vec<u8>, WorkspaceEvent>)
    requires
        call_ensures(scan_read, (site, path, outcome), res),
    ensures
        res is Ok <==> outcome is Ok && key_of(site.root(), path@) is Ok,
        res matches Ok(key) ==> key_of(site.root(), path@) == Ok::<Seq<u8>, Seq<char>>(key@),
{
}

/// What a scan published is an echo from then on, and what it could not publish
/// is not.
pub proof fn law_scanned_content_is_an_echo(guard: &mut EchoGuard, path: &FsPath, bytes: &[u8], outcome: Result<(), String>, event: Option<WorkspaceEvent>)
    requires
        call_ensures(scan_published, (guard, path, bytes, outcome), event),
    ensures
        outcome is Ok ==> crate::echo_guard::is_echo(final(guard)@, components(path@), blake3_hash(bytes@)) && event is None,
        outcome is Err ==> final(guard)@ == old(guard)@ && event is Some,
{
}

/// What an export writes or deletes is not sent back: the write is an echo while
/// it is in flight and afterwards, and the removal is marked. A mark is set to
/// end exactly where the file was written.
pub proof fn law_exports_are_not_sent_back(
    deleted: &mut EchoGuard,
    writing: &mut EchoGuard,
    written: &mut EchoGuard,
    path: &FsPath,
    bytes: &[u8],
    now: u64,
    outcome: Result<(), String>,
    told: WorkspaceEvent,
    event: WorkspaceEvent,
    seen: Seq<u8>,
)
    requires
        call_ensures(export_tombstone, (deleted, path), told),
        call_ensures(export_write, (writing, path, bytes), ()),
        call_ensures(export_written, (written, path, now, outcome), event),
    ensures
        final(deleted)@.deleted.contains(components(path@)),
        told@ == EventView::PeerDeleted(path@),
        crate::echo_guard::is_echo(final(writing)@, components(path@), seen),
        final(writing)@.published[components(path@)] == blake3_hash(bytes@),
        !final(writing)@.deleted.contains(components(path@)),
        outcome is Ok ==> event@ == EventView::PeerWrote(path@) && final(written)@.releases.len()
            == old(written)@.releases.len() + 1,
        outcome is Err ==> event@ is Error && final(written)@ == old(written)@,
        final(written)@.pending == old(written)@.pending,
{
}

} // verus!
