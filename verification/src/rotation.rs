//! Moving a workspace to a fresh namespace after a member was evicted.
//!
//! The host copies the latest entry of each key into a new namespace, under
//! its own name, and leaves out what members wrote who may not write any more.
//! It moves there itself first and then hands the new ticket to the members
//! that stay. A member moves when it is told of an epoch that it has not seen.
use vstd::prelude::*;

use crate::endpoint::{endpoint_fault, endpoint_of, is_endpoint};
use crate::error::{concat, WorkspaceError, WorkspaceFault};
use crate::events::{EventView, WorkspaceEvent};
use crate::ids::{ContentHash, EndpointId, Key};
use crate::path::FsPath;
use crate::peer_map::{disposition, AuthorDisposition, PeerMap, PeerMapView};
use crate::text::{copy_bytes, decimal, decimal_text, lossy_text};

verus! {

/// One entry of a document.
#[derive(Clone, Debug, PartialEq, Eq)]
pub struct DocEntry {
    /// The key.
    pub key: Vec<u8>,
    /// Who wrote it.
    pub author: [u8; 32],
    /// The hash of the content.
    pub hash: ContentHash,
    /// The length of the content; an entry of length zero is a delete.
    pub len: u64,
}

/// A [`DocEntry`] over sequences.
pub struct EntryView {
    /// The key.
    pub key: Seq<u8>,
    /// Who wrote it.
    pub author: Seq<u8>,
    /// The hash of the content.
    pub hash: Seq<u8>,
    /// The length of the content.
    pub len: u64,
}

impl View for DocEntry {
    type V = EntryView;

    open spec fn view(&self) -> EntryView {
        EntryView { key: self.key@, author: self.author@, hash: self.hash@, len: self.len }
    }
}

/// One thing to do to the network node or the state directory, in order, to
/// mint the next namespace.
#[derive(Clone, Debug, PartialEq, Eq)]
pub enum RotateStep {
    /// Create an empty namespace.
    Create,
    /// Write a delete of a key into it, as the host.
    Delete {
        /// The key.
        key: Vec<u8>,
    },
    /// Point a key of it at a content that is already here, as the host.
    SetHash {
        /// The key.
        key: Vec<u8>,
        /// The hash of the content.
        hash: ContentHash,
        /// The length of the content.
        len: u64,
    },
    /// Make the ticket that lets its holder write.
    ShareWrite,
    /// Make the ticket that lets its holder read.
    ShareRead,
    /// Record the new namespace as the current one.
    PersistNamespace,
    /// Record the epoch.
    PersistEpoch {
        /// The epoch.
        epoch: u64,
    },
}

/// A [`RotateStep`] over sequences.
pub enum StepView {
    /// [`RotateStep::Create`].
    Create,
    /// [`RotateStep::Delete`].
    Delete(Seq<u8>),
    /// [`RotateStep::SetHash`].
    SetHash(Seq<u8>, Seq<u8>, u64),
    /// [`RotateStep::ShareWrite`].
    ShareWrite,
    /// [`RotateStep::ShareRead`].
    ShareRead,
    /// [`RotateStep::PersistNamespace`].
    PersistNamespace,
    /// [`RotateStep::PersistEpoch`].
    PersistEpoch(u64),
}

impl View for RotateStep {
    type V = StepView;

    open spec fn view(&self) -> StepView {
        match *self {
            RotateStep::Create => StepView::Create,
            RotateStep::Delete { key } => StepView::Delete(key@),
            RotateStep::SetHash { key, hash, len } => StepView::SetHash(key@, hash@, len),
            RotateStep::ShareWrite => StepView::ShareWrite,
            RotateStep::ShareRead => StepView::ShareRead,
            RotateStep::PersistNamespace => StepView::PersistNamespace,
            RotateStep::PersistEpoch { epoch } => StepView::PersistEpoch(epoch),
        }
    }
}

/// The steps over sequences.
pub open spec fn rotate_steps_view(steps: Seq<RotateStep>) -> Seq<StepView> {
    steps.map_values(|s: RotateStep| s@)
}

/// What a snapshot of the document gave: entries, or a failure on the way.
pub open spec fn snapshot_view(items: Seq<Result<DocEntry, String>>) -> Seq<Result<EntryView, Seq<char>>> {
    items.map_values(
        |item: Result<DocEntry, String>|
            match item {
                Ok(entry) => Ok::<EntryView, Seq<char>>(entry@),
                Err(why) => Err::<EntryView, Seq<char>>(why@),
            },
    )
}

/// How many entries were left out of a new namespace, by reason.
#[derive(Clone, Copy, Debug, PartialEq, Eq)]
pub struct RotationDropCounts {
    /// The author was revoked, as intended.
    pub revoked: usize,
    /// The author is known and may not write.
    pub not_rw: usize,
    /// Nobody knows yet who the author is.
    pub unresolvable: usize,
}

impl Default for RotationDropCounts {
    /// Nothing was left out.
    fn default() -> (counts: RotationDropCounts)
        ensures
            counts.revoked == 0,
            counts.not_rw == 0,
            counts.unresolvable == 0,
    {
        RotationDropCounts { revoked: 0, not_rw: 0, unresolvable: 0 }
    }
}

impl RotationDropCounts {
    /// The sum over the reasons.
    pub fn total(&self) -> (n: usize)
        requires
            self.revoked + self.not_rw + self.unresolvable <= usize::MAX,
        ensures
            n == self.revoked + self.not_rw + self.unresolvable,
    {
        self.revoked + self.not_rw + self.unresolvable
    }
}

/// Whether an entry goes into the new namespace: the host wrote it, or
/// somebody who may write.
pub open spec fn is_carried(map: PeerMapView, host_endpoint: Seq<u8>, entry: EntryView) -> bool {
    entry.author == host_endpoint || disposition(map, entry.author) == AuthorDisposition::Rw
}

/// What is wrong with one item of a snapshot.
pub open spec fn item_fault(item: Result<EntryView, Seq<char>>) -> Option<Seq<char>> {
    match item {
        Err(why) => Some("rotate: snapshot entry: "@ + why),
        Ok(entry) => if is_endpoint(entry.author) {
            None
        } else {
            Some("rotate: author not an endpoint: "@ + endpoint_fault())
        },
    }
}

/// What is wrong with a snapshot: the first fault of an item.
pub open spec fn snapshot_fault(items: Seq<Result<EntryView, Seq<char>>>) -> Option<Seq<char>>
    decreases items.len(),
{
    if items.len() == 0 {
        None
    } else {
        match snapshot_fault(items.drop_last()) {
            Some(why) => Some(why),
            None => item_fault(items.last()),
        }
    }
}

/// The entries of a snapshot without faults.
pub open spec fn entries_of(items: Seq<Result<EntryView, Seq<char>>>) -> Seq<EntryView> {
    items.map_values(|item: Result<EntryView, Seq<char>>| item->Ok_0)
}

/// The entries that go into the new namespace, in their order.
pub open spec fn carried(entries: Seq<EntryView>, host_endpoint: Seq<u8>, map: PeerMapView) -> Seq<EntryView> {
    entries.filter(|e: EntryView| is_carried(map, host_endpoint, e))
}

/// How many entries are left out for one reason.
pub open spec fn dropped_for(entries: Seq<EntryView>, host_endpoint: Seq<u8>, map: PeerMapView, why: AuthorDisposition) -> nat
    decreases entries.len(),
{
    if entries.len() == 0 {
        0
    } else {
        let rest = dropped_for(entries.drop_last(), host_endpoint, map, why);
        if !is_carried(map, host_endpoint, entries.last()) && disposition(map, entries.last().author) == why {
            rest + 1
        } else {
            rest
        }
    }
}

/// How an entry is written into the new namespace: a delete as a delete.
pub open spec fn carry_step(entry: EntryView) -> StepView {
    if entry.len == 0 {
        StepView::Delete(entry.key)
    } else {
        StepView::SetHash(entry.key, entry.hash, entry.len)
    }
}

/// What it takes to mint a namespace with these entries: the namespace is
/// recorded before the epoch.
pub open spec fn mint_steps(entries: Seq<EntryView>, epoch: u64) -> Seq<StepView> {
    seq![StepView::Create] + entries.map_values(|e: EntryView| carry_step(e)) + seq![
        StepView::ShareWrite,
        StepView::ShareRead,
        StepView::PersistNamespace,
        StepView::PersistEpoch(epoch),
    ]
}

/// What the host has to know of entries that were left out because nobody
/// knows who wrote them.
pub open spec fn loss_text(count: nat) -> Seq<char> {
    "rotation dropped "@ + decimal(count) + (if count == 1 {
        " entry"@
    } else {
        " entries"@
    }) + " with an unresolvable author (possible survivor data loss from a NODE_ID mapping race)"@
}

proof fn lemma_fault_of_prefix(items: Seq<Result<EntryView, Seq<char>>>, n: int)
    requires
        0 <= n <= items.len(),
        snapshot_fault(items.take(n)) is Some,
    ensures
        snapshot_fault(items) == snapshot_fault(items.take(n)),
    decreases items.len() - n,
{
    if n == items.len() {
        assert(items.take(n) =~= items);
    } else {
        assert(items.take(n + 1).drop_last() =~= items.take(n));
        lemma_fault_of_prefix(items, n + 1);
    }
}

proof fn lemma_no_fault(items: Seq<Result<EntryView, Seq<char>>>, i: int)
    requires
        snapshot_fault(items) is None,
        0 <= i < items.len(),
    ensures
        item_fault(items[i]) is None,
    decreases items.len(),
{
    if i < items.len() - 1 {
        lemma_no_fault(items.drop_last(), i);
    }
}

/// Splits a snapshot of the document into what goes into the new namespace
/// and how many entries do not.
pub fn collect_rotation_survivors(items: &Vec<Result<DocEntry, String>>, host_endpoint: &EndpointId, map: &PeerMap) -> (res: Result<
    (Vec<DocEntry>, RotationDropCounts),
    WorkspaceError,
>)
    ensures
        match res {
            Ok((kept, counts)) => {
                let entries = entries_of(snapshot_view(items@));
                &&& snapshot_fault(snapshot_view(items@)) is None
                &&& kept@.map_values(|e: DocEntry| e@) == carried(entries, host_endpoint@, map@)
                &&& counts.revoked == dropped_for(entries, host_endpoint@, map@, AuthorDisposition::Revoked)
                &&& counts.not_rw == dropped_for(entries, host_endpoint@, map@, AuthorDisposition::NotRw)
                &&& counts.unresolvable == dropped_for(entries, host_endpoint@, map@, AuthorDisposition::Unresolvable)
                &&& kept@.len() + counts.revoked + counts.not_rw + counts.unresolvable == items@.len()
            },
            Err(err) => snapshot_fault(snapshot_view(items@)) matches Some(why) && err@ == WorkspaceFault::Doc(why),
        },
{
    let ghost all = snapshot_view(items@);
    let ghost entries = entries_of(all);
    let ghost host = host_endpoint@;
    let mut kept: Vec<DocEntry> = Vec::new();
    let mut counts = RotationDropCounts::default();
    let mut i: usize = 0;
    assert(kept@.map_values(|e: DocEntry| e@) =~= carried(entries.take(0), host, map@)) by {
        reveal(Seq::filter);
    }
    while i < items.len()
        invariant
            i <= items@.len(),
            all == snapshot_view(items@),
            entries == entries_of(all),
            host == host_endpoint@,
            snapshot_fault(all.take(i as int)) is None,
            kept@.map_values(|e: DocEntry| e@) == carried(entries.take(i as int), host, map@),
            counts.revoked == dropped_for(entries.take(i as int), host, map@, AuthorDisposition::Revoked),
            counts.not_rw == dropped_for(entries.take(i as int), host, map@, AuthorDisposition::NotRw),
            counts.unresolvable == dropped_for(entries.take(i as int), host, map@, AuthorDisposition::Unresolvable),
            kept@.len() + counts.revoked + counts.not_rw + counts.unresolvable == i,
        decreases items@.len() - i,
    {
        let ghost so_far = entries.take(i as int);
        let ghost next = entries.take(i + 1);
        proof {
            assert(all.take(i + 1).drop_last() =~= all.take(i as int));
            assert(all.take(i + 1).last() == all[i as int]);
            assert(next.drop_last() =~= so_far);
            assert(next =~= so_far.push(entries[i as int]));
        }
        let entry = match &items[i] {
            Err(why) => {
                proof {
                    lemma_fault_of_prefix(all, i + 1);
                }
                return Err(WorkspaceError::Doc(concat("rotate: snapshot entry: ", why.as_str())));
            },
            Ok(entry) => entry,
        };
        let author = match endpoint_of(&entry.author) {
            Err(why) => {
                proof {
                    lemma_fault_of_prefix(all, i + 1);
                }
                return Err(WorkspaceError::Doc(concat("rotate: author not an endpoint: ", why.as_str())));
            },
            Ok(author) => author,
        };
        assert(entries[i as int] == entry@);
        let keep = if author.same(host_endpoint) {
            true
        } else {
            match map.classify_author(&author) {
                AuthorDisposition::Rw => true,
                AuthorDisposition::Revoked => {
                    counts.revoked = counts.revoked + 1;
                    false
                },
                AuthorDisposition::NotRw => {
                    counts.not_rw = counts.not_rw + 1;
                    false
                },
                AuthorDisposition::Unresolvable => {
                    counts.unresolvable = counts.unresolvable + 1;
                    false
                },
            }
        };
        assert(keep == is_carried(map@, host, entry@));
        proof {
            reveal(Seq::filter);
            assert(carried(next, host, map@) == if keep {
                carried(so_far, host, map@).push(entry@)
            } else {
                carried(so_far, host, map@)
            });
        }
        if keep {
            let ghost before = kept@;
            kept.push(
                DocEntry {
                    key: copy_bytes(entry.key.as_slice()),
                    author: entry.author,
                    hash: entry.hash,
                    len: entry.len,
                },
            );
            assert(kept@.map_values(|e: DocEntry| e@) =~= before.map_values(|e: DocEntry| e@).push(entry@));
        }
        i += 1;
    }
    assert(all.take(i as int) =~= all);
    assert(entries.take(i as int) =~= entries);
    Ok((kept, counts))
}

/// What reading the document before a rotation gave.
#[derive(Clone, Debug, PartialEq, Eq)]
pub enum Snapshot {
    /// The network node is gone.
    NodeGone,
    /// The document could not be read.
    Failed(String),
    /// The latest entry of each key, deletes among them, or a failure on the
    /// way.
    Items(Vec<Result<DocEntry, String>>),
}

/// Why a snapshot cannot be used.
pub open spec fn unusable(snapshot: Snapshot) -> Option<Seq<char>> {
    match snapshot {
        Snapshot::NodeGone => Some("rotate: node already torn down"@),
        Snapshot::Failed(why) => Some("rotate: snapshot get_many: "@ + why@),
        Snapshot::Items(items) => snapshot_fault(snapshot_view(items@)),
    }
}

/// The entries of a usable snapshot.
pub open spec fn snapshot_entries(snapshot: Snapshot) -> Seq<EntryView> {
    match snapshot {
        Snapshot::Items(items) => entries_of(snapshot_view(items@)),
        _ => Seq::empty(),
    }
}

/// How to mint the next namespace.
#[derive(Clone, Debug, PartialEq, Eq)]
pub struct RotationPlan {
    /// What the consumer has to know first.
    pub event: Option<WorkspaceEvent>,
    /// What to do, in order; the first failure ends the rotation.
    pub steps: Vec<RotateStep>,
    /// The epoch of the new namespace.
    pub epoch: u64,
    /// How many entries go into it.
    pub survivor_entries: usize,
    /// How many do not.
    pub dropped_entries: usize,
}

/// Plans the rotation that follows an epoch.
pub fn plan_rotation(snapshot: &Snapshot, host_endpoint: &EndpointId, map: &PeerMap, prev_epoch: u64) -> (res: Result<
    RotationPlan,
    WorkspaceError,
>)
    requires
        prev_epoch < u64::MAX,
    ensures
        match res {
            Err(err) => unusable(*snapshot) matches Some(why) && err@ == WorkspaceFault::Doc(why),
            Ok(plan) => {
                let entries = snapshot_entries(*snapshot);
                let kept = carried(entries, host_endpoint@, map@);
                let lost = dropped_for(entries, host_endpoint@, map@, AuthorDisposition::Unresolvable);
                &&& unusable(*snapshot) is None
                &&& plan.epoch == prev_epoch + 1
                &&& rotate_steps_view(plan.steps@) == mint_steps(kept, plan.epoch)
                &&& plan.survivor_entries == kept.len()
                &&& plan.dropped_entries == entries.len() - kept.len()
                &&& if lost > 0 {
                    plan.event matches Some(event) && event@ == EventView::Error(loss_text(lost))
                } else {
                    plan.event is None
                }
            },
        },
{
    let items = match snapshot {
        Snapshot::NodeGone => {
            return Err(WorkspaceError::Doc("rotate: node already torn down".to_owned()));
        },
        Snapshot::Failed(why) => {
            return Err(WorkspaceError::Doc(concat("rotate: snapshot get_many: ", why.as_str())));
        },
        Snapshot::Items(items) => items,
    };
    let (kept, counts) = match collect_rotation_survivors(items, host_endpoint, map) {
        Err(err) => {
            return Err(err);
        },
        Ok(pair) => pair,
    };
    let ghost entries = kept@.map_values(|e: DocEntry| e@);
    let epoch: u64 = prev_epoch + 1;
    let mut steps: Vec<RotateStep> = Vec::new();
    steps.push(RotateStep::Create);
    let ghost moves = entries.map_values(|e: EntryView| carry_step(e));
    let mut i: usize = 0;
    assert(rotate_steps_view(steps@) =~= seq![StepView::Create] + moves.take(0));
    while i < kept.len()
        invariant
            i <= kept@.len(),
            entries == kept@.map_values(|e: DocEntry| e@),
            moves == entries.map_values(|e: EntryView| carry_step(e)),
            rotate_steps_view(steps@) == seq![StepView::Create] + moves.take(i as int),
        decreases kept@.len() - i,
    {
        let ghost before = steps@;
        let entry = &kept[i];
        assert(moves[i as int] == carry_step(entry@));
        if entry.len == 0 {
            steps.push(RotateStep::Delete { key: copy_bytes(entry.key.as_slice()) });
        } else {
            steps.push(RotateStep::SetHash { key: copy_bytes(entry.key.as_slice()), hash: entry.hash, len: entry.len });
        }
        assert(rotate_steps_view(steps@) =~= rotate_steps_view(before).push(moves[i as int]));
        assert(moves.take(i + 1) =~= moves.take(i as int).push(moves[i as int]));
        i += 1;
    }
    assert(moves.take(i as int) =~= moves);
    steps.push(RotateStep::ShareWrite);
    steps.push(RotateStep::ShareRead);
    steps.push(RotateStep::PersistNamespace);
    steps.push(RotateStep::PersistEpoch { epoch });
    assert(rotate_steps_view(steps@) =~= mint_steps(entries, epoch));
    assert(items.len() <= usize::MAX);
    let dropped_entries = counts.total();
    let event = if counts.unresolvable > 0 {
        let mut text = concat("rotation dropped ", decimal_text(counts.unresolvable as u64).as_str());
        if counts.unresolvable == 1 {
            text.append(" entry");
        } else {
            text.append(" entries");
        }
        text.append(" with an unresolvable author (possible survivor data loss from a NODE_ID mapping race)");
        Some(WorkspaceEvent::Error(text))
    } else {
        None
    };
    Ok(RotationPlan { event, steps, epoch, survivor_entries: kept.len(), dropped_entries })
}

/// The message for a step of a rotation that failed. The path is that of the
/// file that the step writes, where it writes one.
pub open spec fn rotate_failure(step: StepView, path: Seq<u8>, why: Seq<char>) -> Seq<char> {
    match step {
        StepView::Create => "rotate: create namespace: "@ + why,
        StepView::Delete(_) => "rotate: carry-forward del: "@ + why,
        StepView::SetHash(_, _, _) => "rotate: set_hash: "@ + why,
        StepView::ShareWrite => "rotate: share new doc: "@ + why,
        StepView::ShareRead => "rotate: share new doc (read): "@ + why,
        StepView::PersistNamespace => "rotate: persist current-namespace at "@ + lossy_text(path) + ": "@ + why,
        StepView::PersistEpoch(_) => "persist "@ + "namespace-epoch"@ + " at "@ + lossy_text(path) + ": "@ + why,
    }
}

/// The error for a step of a rotation that failed.
pub fn rotate_failed(step: &RotateStep, path: &FsPath, why: &str) -> (err: WorkspaceError)
    ensures
        err@ == WorkspaceFault::Doc(rotate_failure(step@, path@, why@)),
{
    let text = match step {
        RotateStep::Create => concat("rotate: create namespace: ", why),
        RotateStep::Delete { .. } => concat("rotate: carry-forward del: ", why),
        RotateStep::SetHash { .. } => concat("rotate: set_hash: ", why),
        RotateStep::ShareWrite => concat("rotate: share new doc: ", why),
        RotateStep::ShareRead => concat("rotate: share new doc (read): ", why),
        RotateStep::PersistNamespace => at_path("rotate: persist current-namespace at ", path, why),
        RotateStep::PersistEpoch { .. } => {
            at_path(concat(concat("persist ", "namespace-epoch").as_str(), " at ").as_str(), path, why)
        },
    };
    WorkspaceError::Doc(text)
}

fn at_path(what: &str, path: &FsPath, why: &str) -> (text: String)
    ensures
        text@ == what@ + lossy_text(path@) + ": "@ + why@,
{
    let mut text = concat(what, path.display().as_str());
    text.append(": ");
    text.append(why);
    text
}

/// What a revoked member wrote, and the host did not write itself, is never
/// carried over.
pub proof fn law_revoked_entries_are_left_behind(entries: Seq<EntryView>, host_endpoint: Seq<u8>, map: PeerMapView, entry: EntryView)
    requires
        entry.author != host_endpoint,
        disposition(map, entry.author) != AuthorDisposition::Rw,
    ensures
        !carried(entries, host_endpoint, map).contains(entry),
{
    let pred = |e: EntryView| is_carried(map, host_endpoint, e);
    entries.filter_lemma(pred);
    if carried(entries, host_endpoint, map).contains(entry) {
        let i = choose|i: int| 0 <= i < entries.filter(pred).len() && entries.filter(pred)[i] == entry;
        assert(pred(entries.filter(pred)[i]));
    }
}

/// What the host wrote and what members wrote who may write is carried over,
/// deletes as deletes and contents as they are.
pub proof fn law_writers_entries_are_carried(entries: Seq<EntryView>, host_endpoint: Seq<u8>, map: PeerMapView, entry: EntryView, epoch: u64)
    requires
        entries.contains(entry),
        is_carried(map, host_endpoint, entry),
    ensures
        carried(entries, host_endpoint, map).contains(entry),
        entry.len == 0 ==> mint_steps(carried(entries, host_endpoint, map), epoch).contains(StepView::Delete(entry.key)),
        entry.len != 0 ==> mint_steps(carried(entries, host_endpoint, map), epoch).contains(
            StepView::SetHash(entry.key, entry.hash, entry.len),
        ),
{
    let pred = |e: EntryView| is_carried(map, host_endpoint, e);
    entries.filter_lemma(pred);
    let i = choose|i: int| 0 <= i < entries.len() && entries[i] == entry;
    assert(pred(entries[i]));
    let kept = carried(entries, host_endpoint, map);
    assert(kept.contains(entries[i]));
    let j = choose|j: int| 0 <= j < kept.len() && kept[j] == entry;
    assert(mint_steps(kept, epoch)[j + 1] == carry_step(entry));
}

/// Every entry is carried over or counted as left out, for exactly one reason.
pub proof fn law_entries_are_carried_or_counted(entries: Seq<EntryView>, host_endpoint: Seq<u8>, map: PeerMapView)
    ensures
        carried(entries, host_endpoint, map).len() + dropped_for(entries, host_endpoint, map, AuthorDisposition::Revoked)
            + dropped_for(entries, host_endpoint, map, AuthorDisposition::NotRw) + dropped_for(
            entries,
            host_endpoint,
            map,
            AuthorDisposition::Unresolvable,
        ) == entries.len(),
    decreases entries.len(),
{
    reveal(Seq::filter);
    if entries.len() > 0 {
        law_entries_are_carried_or_counted(entries.drop_last(), host_endpoint, map);
    }
}

/// The new namespace is recorded as the current one before its epoch is, and
/// both after everything was written into it.
pub proof fn law_namespace_before_epoch(entries: Seq<EntryView>, epoch: u64)
    ensures
        ({
            let steps = mint_steps(entries, epoch);
            let n = steps.len() as int;
            &&& n == entries.len() + 5
            &&& steps[n - 1] == StepView::PersistEpoch(epoch)
            &&& steps[n - 2] == StepView::PersistNamespace
            &&& forall|i: int| 0 <= i < n - 2 ==> !((#[trigger] steps[i]) is PersistNamespace) && !(steps[i] is PersistEpoch)
        }),
{
    let steps = mint_steps(entries, epoch);
    assert forall|i: int| 0 <= i < steps.len() - 2 implies !((#[trigger] steps[i]) is PersistNamespace) && !(steps[i] is PersistEpoch) by {
        if 1 <= i <= entries.len() {
            assert(steps[i] == carry_step(entries[i - 1]));
        }
    }
}

/// Filtering a list with one more entry adds that entry where it passes.
proof fn lemma_filter_push(entries: Seq<EntryView>, entry: EntryView, pred: spec_fn(EntryView) -> bool)
    ensures
        entries.push(entry).filter(pred) == (if pred(entry) {
            entries.filter(pred).push(entry)
        } else {
            entries.filter(pred)
        }),
{
    reveal(Seq::filter);
    assert(entries.push(entry).drop_last() =~= entries);
}

/// What passes a filter was in the list.
proof fn lemma_filter_from(entries: Seq<EntryView>, pred: spec_fn(EntryView) -> bool, j: int)
    requires
        0 <= j < entries.filter(pred).len(),
    ensures
        entries.contains(entries.filter(pred)[j]),
    decreases entries.len(),
{
    reveal(Seq::filter);
    if entries.len() > 0 {
        let head = entries.drop_last();
        if j < head.filter(pred).len() {
            lemma_filter_from(head, pred, j);
            let i = choose|i: int| 0 <= i < head.len() && head[i] == head.filter(pred)[j];
            assert(entries[i] == head[i]);
        } else {
            assert(entries[entries.len() - 1] == entries.last());
        }
    }
}

/// Every entry of a snapshot that the host wrote, or an author who may write,
/// is in the plan, whatever its length: as a delete of its key where it has no
/// content, and otherwise as its key, its hash and its length.
pub proof fn law_plan_holds_what_writers_wrote(
    items: Vec<Result<DocEntry, String>>,
    host_endpoint: Seq<u8>,
    map: PeerMapView,
    epoch: u64,
    i: int,
    entry: DocEntry,
)
    requires
        0 <= i < items@.len(),
        items@[i] == Ok::<DocEntry, String>(entry),
        entry.author@ == host_endpoint || disposition(map, entry.author@) == AuthorDisposition::Rw,
    ensures
        ({
            let steps = mint_steps(carried(snapshot_entries(Snapshot::Items(items)), host_endpoint, map), epoch);
            &&& entry.len == 0 ==> steps.contains(StepView::Delete(entry.key@))
            &&& entry.len > 0 ==> steps.contains(StepView::SetHash(entry.key@, entry.hash@, entry.len))
        }),
{
    let entries = snapshot_entries(Snapshot::Items(items));
    assert(entries[i] == entry@);
    law_writers_entries_are_carried(entries, host_endpoint, map, entry@, epoch);
}

/// Nothing is in the plan but what the host or an author who may write wrote:
/// each key that is deleted or set in it is that of such an entry, which has no
/// content or this content.
pub proof fn law_plan_holds_nothing_else(entries: Seq<EntryView>, host_endpoint: Seq<u8>, map: PeerMapView, epoch: u64, step: StepView)
    requires
        mint_steps(carried(entries, host_endpoint, map), epoch).contains(step),
        step is Delete || step is SetHash,
    ensures
        exists|i: int|
            0 <= i < entries.len() && ((#[trigger] entries[i]).author == host_endpoint || disposition(map, entries[i].author)
                == AuthorDisposition::Rw) && step == (if entries[i].len == 0 {
                StepView::Delete(entries[i].key)
            } else {
                StepView::SetHash(entries[i].key, entries[i].hash, entries[i].len)
            }),
{
    let kept = carried(entries, host_endpoint, map);
    let steps = mint_steps(kept, epoch);
    let pred = |e: EntryView| is_carried(map, host_endpoint, e);
    entries.filter_lemma(pred);
    let j = choose|j: int| 0 <= j < steps.len() && steps[j] == step;
    assert(1 <= j <= kept.len());
    assert(step == carry_step(kept[j - 1]));
    assert(pred(kept[j - 1]));
    lemma_filter_from(entries, pred, j - 1);
    let i = choose|i: int| 0 <= i < entries.len() && entries[i] == kept[j - 1];
    assert(entries[i] == kept[j - 1]);
}

/// The plan for nothing makes an empty namespace and its two tickets, and
/// records the namespace and then the epoch.
pub proof fn law_plan_for_nothing(host_endpoint: Seq<u8>, map: PeerMapView, epoch: u64)
    ensures
        mint_steps(carried(Seq::empty(), host_endpoint, map), epoch) == seq![
            StepView::Create,
            StepView::ShareWrite,
            StepView::ShareRead,
            StepView::PersistNamespace,
            StepView::PersistEpoch(epoch),
        ],
{
    reveal(Seq::filter);
    assert(mint_steps(carried(Seq::empty(), host_endpoint, map), epoch) =~= seq![
        StepView::Create,
        StepView::ShareWrite,
        StepView::ShareRead,
        StepView::PersistNamespace,
        StepView::PersistEpoch(epoch),
    ]);
}

/// One entry more in a snapshot is one step more in the plan, behind those of
/// the entries before it, where the host wrote it or an author who may write;
/// what anybody else wrote leaves the plan as it is.
pub proof fn law_plan_follows_the_snapshot(entries: Seq<EntryView>, entry: EntryView, host_endpoint: Seq<u8>, map: PeerMapView, epoch: u64)
    ensures
        ({
            let before = mint_steps(carried(entries, host_endpoint, map), epoch);
            let after = mint_steps(carried(entries.push(entry), host_endpoint, map), epoch);
            if entry.author == host_endpoint || disposition(map, entry.author) == AuthorDisposition::Rw {
                after == before.insert(
                    before.len() - 4,
                    if entry.len == 0 {
                        StepView::Delete(entry.key)
                    } else {
                        StepView::SetHash(entry.key, entry.hash, entry.len)
                    },
                )
            } else {
                after == before
            }
        }),
{
    let pred = |e: EntryView| is_carried(map, host_endpoint, e);
    lemma_filter_push(entries, entry, pred);
    let before = mint_steps(carried(entries, host_endpoint, map), epoch);
    let after = mint_steps(carried(entries.push(entry), host_endpoint, map), epoch);
    if pred(entry) {
        assert(after =~= before.insert(before.len() - 4, carry_step(entry)));
    }
}

/// The number that is counted for a reason is the number of entries that
/// somebody else than the host wrote, with an author of that kind.
pub proof fn law_left_out_entries_are_counted_by_author(entries: Seq<EntryView>, host_endpoint: Seq<u8>, map: PeerMapView, why: AuthorDisposition)
    requires
        why != AuthorDisposition::Rw,
    ensures
        dropped_for(entries, host_endpoint, map, why) == entries.filter(
            |e: EntryView| e.author != host_endpoint && disposition(map, e.author) == why,
        ).len(),
    decreases entries.len(),
{
    reveal(Seq::filter);
    if entries.len() > 0 {
        law_left_out_entries_are_counted_by_author(entries.drop_last(), host_endpoint, map, why);
    }
}

/// One entry more is counted once, for the kind of its author, unless the host
/// wrote it or an author who may write.
pub proof fn law_each_entry_is_counted_once(entries: Seq<EntryView>, entry: EntryView, host_endpoint: Seq<u8>, map: PeerMapView, why: AuthorDisposition)
    requires
        why != AuthorDisposition::Rw,
    ensures
        dropped_for(Seq::empty(), host_endpoint, map, why) == 0,
        dropped_for(entries.push(entry), host_endpoint, map, why) == dropped_for(entries, host_endpoint, map, why) + (
        if entry.author != host_endpoint && disposition(map, entry.author) == why {
            1int
        } else {
            0
        }),
{
    assert(entries.push(entry).drop_last() =~= entries);
}

/// A snapshot can be used exactly where the network node was there, the
/// document could be read, and each item is an entry whose author is an
/// endpoint.
pub proof fn law_usable_snapshots(snapshot: Snapshot)
    ensures
        unusable(snapshot) is None <==> (snapshot matches Snapshot::Items(items) && forall|i: int|
            0 <= i < items@.len() ==> (#[trigger] items@[i] matches Ok(entry) && is_endpoint(entry.author@))),
{
    if let Snapshot::Items(items) = snapshot {
        let all = snapshot_view(items@);
        lemma_faultless(all);
        assert forall|i: int| 0 <= i < items@.len() implies (item_fault(#[trigger] all[i]) is None <==> (items@[i] matches Ok(
            entry,
        ) && is_endpoint(entry.author@))) by {}
        if unusable(snapshot) is None {
            assert forall|i: int| 0 <= i < items@.len() implies (#[trigger] items@[i] matches Ok(entry) && is_endpoint(
                entry.author@,
            )) by {
                assert(item_fault(all[i]) is None);
            }
        }
        if forall|i: int| 0 <= i < items@.len() ==> (#[trigger] items@[i] matches Ok(entry) && is_endpoint(entry.author@)) {
            assert forall|i: int| 0 <= i < all.len() implies item_fault(#[trigger] all[i]) is None by {
                assert(items@[i] is Ok);
            }
        }
    }
}

proof fn lemma_faultless(items: Seq<Result<EntryView, Seq<char>>>)
    ensures
        snapshot_fault(items) is None <==> forall|i: int| 0 <= i < items.len() ==> item_fault(#[trigger] items[i]) is None,
    decreases items.len(),
{
    if items.len() > 0 {
        let head = items.drop_last();
        lemma_faultless(head);
        assert(items[items.len() - 1] == items.last());
        if snapshot_fault(head) is None && item_fault(items.last()) is None {
            assert forall|i: int| 0 <= i < items.len() implies item_fault(#[trigger] items[i]) is None by {
                if i < head.len() {
                    assert(head[i] == items[i]);
                }
            }
        }
        if forall|i: int| 0 <= i < items.len() ==> item_fault(#[trigger] items[i]) is None {
            assert forall|i: int| 0 <= i < head.len() implies item_fault(#[trigger] head[i]) is None by {
                assert(head[i] == items[i]);
            }
        }
    }
}

/// The first item that is no entry of an endpoint is what a snapshot is refused
/// for, whatever stands behind it.
pub proof fn law_first_bad_item_is_named(items: Vec<Result<DocEntry, String>>, k: int)
    requires
        0 <= k < items@.len(),
        forall|i: int| 0 <= i < k ==> (#[trigger] items@[i] matches Ok(entry) && is_endpoint(entry.author@)),
        !(items@[k] matches Ok(entry) && is_endpoint(entry.author@)),
    ensures
        unusable(Snapshot::Items(items)) == Some(
            match items@[k] {
                Err(why) => "rotate: snapshot entry: "@ + why@,
                Ok(_) => "rotate: author not an endpoint: "@ + endpoint_fault(),
            },
        ),
{
    let all = snapshot_view(items@);
    let head = all.take(k);
    assert forall|i: int| 0 <= i < head.len() implies item_fault(#[trigger] head[i]) is None by {
        assert(items@[i] is Ok);
    }
    lemma_faultless(head);
    assert(all.take(k + 1).drop_last() =~= head);
    assert(all.take(k + 1).last() == all[k]);
    lemma_fault_of_prefix(all, k + 1);
}

/// What the host is told of entries that nobody can be named for: their number,
/// and that they may be lost.
pub proof fn law_losses_are_numbered(count: nat)
    ensures
        ("rotation dropped "@ + decimal(count)).is_prefix_of(loss_text(count)),
        count == 1 ==> loss_text(count) == "rotation dropped "@ + decimal(count) + " entry"@
            + " with an unresolvable author (possible survivor data loss from a NODE_ID mapping race)"@,
        count != 1 ==> loss_text(count) == "rotation dropped "@ + decimal(count) + " entries"@
            + " with an unresolvable author (possible survivor data loss from a NODE_ID mapping race)"@,
{
    let front = "rotation dropped "@ + decimal(count);
    assert(loss_text(count).subrange(0, front.len() as int) =~= front);
}

/// A rotation that failed is told with the reason, whichever step it was.
pub proof fn law_rotation_failures_keep_the_reason(step: StepView, path: Seq<u8>, why: Seq<char>)
    ensures
        why.is_suffix_of(rotate_failure(step, path, why)),
{
    let text = rotate_failure(step, path, why);
    assert(text.subrange(text.len() - why.len(), text.len() as int) =~= why);
}

/// A rotation that is planned holds every entry of the snapshot that the host
/// wrote, or an author who may write, deletes among them; it is for the epoch
/// after the one before, and every entry is counted as carried over or as left
/// out. The host is told where an entry has an author that nobody knows.
pub proof fn law_planned_rotations_lose_nothing_of_writers(
    items: Vec<Result<DocEntry, String>>,
    host_endpoint: &EndpointId,
    map: &PeerMap,
    prev_epoch: u64,
    plan: RotationPlan,
    i: int,
    entry: DocEntry,
)
    requires
        call_ensures(
            plan_rotation,
            (&Snapshot::Items(items), host_endpoint, map, prev_epoch),
            Ok::<RotationPlan, WorkspaceError>(plan),
        ),
        0 <= i < items@.len(),
        items@[i] == Ok::<DocEntry, String>(entry),
    ensures
        ({
            let steps = rotate_steps_view(plan.steps@);
            let writer = entry.author@ == host_endpoint@ || disposition(map@, entry.author@) == AuthorDisposition::Rw;
            &&& writer && entry.len == 0 ==> steps.contains(StepView::Delete(entry.key@))
            &&& writer && entry.len > 0 ==> steps.contains(StepView::SetHash(entry.key@, entry.hash@, entry.len))
            &&& steps.last() == StepView::PersistEpoch(plan.epoch)
            &&& plan.epoch == prev_epoch + 1
            &&& plan.survivor_entries + plan.dropped_entries == items@.len()
            &&& plan.steps@.len() == plan.survivor_entries + 5
            &&& entry.author@ != host_endpoint@ && disposition(map@, entry.author@) == AuthorDisposition::Unresolvable
                ==> plan.event is Some
        }),
{
    let entries = snapshot_entries(Snapshot::Items(items));
    let kept = carried(entries, host_endpoint@, map@);
    assert(entries[i] == entry@);
    if entry.author@ == host_endpoint@ || disposition(map@, entry.author@) == AuthorDisposition::Rw {
        law_plan_holds_what_writers_wrote(items, host_endpoint@, map@, plan.epoch, i, entry);
    } else {
        lemma_dropped_some(entries, host_endpoint@, map@, i);
    }
    assert(rotate_steps_view(plan.steps@).len() == plan.steps@.len());
    law_namespace_before_epoch(kept, plan.epoch);
}

/// An entry that is left out is counted.
proof fn lemma_dropped_some(entries: Seq<EntryView>, host_endpoint: Seq<u8>, map: PeerMapView, i: int)
    requires
        0 <= i < entries.len(),
        !is_carried(map, host_endpoint, entries[i]),
    ensures
        dropped_for(entries, host_endpoint, map, disposition(map, entries[i].author)) > 0,
    decreases entries.len(),
{
    if i < entries.len() - 1 {
        assert(entries.drop_last()[i] == entries[i]);
        lemma_dropped_some(entries.drop_last(), host_endpoint, map, i);
    } else {
        assert(entries.last() == entries[i]);
    }
}

/// A rotation is planned exactly where the snapshot can be used.
pub proof fn law_usable_snapshots_are_planned(
    snapshot: &Snapshot,
    host_endpoint: &EndpointId,
    map: &PeerMap,
    prev_epoch: u64,
    res: Result<RotationPlan, WorkspaceError>,
)
    requires
        call_ensures(plan_rotation, (snapshot, host_endpoint, map, prev_epoch), res),
    ensures
        res is Ok <==> (*snapshot matches Snapshot::Items(items) && forall|i: int|
            0 <= i < items@.len() ==> (#[trigger] items@[i] matches Ok(entry) && is_endpoint(entry.author@))),
{
    law_usable_snapshots(*snapshot);
}

/// What is collected from a snapshot: as many entries are kept or counted as
/// the snapshot holds, what is kept is from the host or from authors who may
/// write, and no count is of the host.
pub proof fn law_collected_survivors(
    items: &Vec<Result<DocEntry, String>>,
    host_endpoint: &EndpointId,
    map: &PeerMap,
    kept: Vec<DocEntry>,
    counts: RotationDropCounts,
    i: int,
)
    requires
        call_ensures(
            collect_rotation_survivors,
            (items, host_endpoint, map),
            Ok::<(Vec<DocEntry>, RotationDropCounts), WorkspaceError>((kept, counts)),
        ),
    ensures
        kept@.len() + counts.revoked + counts.not_rw + counts.unresolvable == items@.len(),
        0 <= i < kept@.len() ==> kept@[i].author@ == host_endpoint@ || disposition(map@, kept@[i].author@)
            == AuthorDisposition::Rw,
        counts.revoked == entries_of(snapshot_view(items@)).filter(
            |e: EntryView| e.author != host_endpoint@ && disposition(map@, e.author) == AuthorDisposition::Revoked,
        ).len(),
        counts.not_rw == entries_of(snapshot_view(items@)).filter(
            |e: EntryView| e.author != host_endpoint@ && disposition(map@, e.author) == AuthorDisposition::NotRw,
        ).len(),
        counts.unresolvable == entries_of(snapshot_view(items@)).filter(
            |e: EntryView| e.author != host_endpoint@ && disposition(map@, e.author) == AuthorDisposition::Unresolvable,
        ).len(),
{
    let entries = entries_of(snapshot_view(items@));
    law_left_out_entries_are_counted_by_author(entries, host_endpoint@, map@, AuthorDisposition::Revoked);
    law_left_out_entries_are_counted_by_author(entries, host_endpoint@, map@, AuthorDisposition::NotRw);
    law_left_out_entries_are_counted_by_author(entries, host_endpoint@, map@, AuthorDisposition::Unresolvable);
    let pred = |e: EntryView| is_carried(map@, host_endpoint@, e);
    entries.filter_lemma(pred);
    let seen = kept@.map_values(|e: DocEntry| e@);
    if 0 <= i < kept@.len() {
        assert(seen[i] == kept@[i]@);
        assert(pred(entries.filter(pred)[i]));
    }
}

} // verus!
