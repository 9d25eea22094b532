//! What follows a revoke: who rotates, who moves, and in which order.
//!
//! The host rotates once for each revoke of the log, however often the log is
//! replayed. It moves to the new namespace itself before it tells anybody.
use vstd::prelude::*;

use crate::error::{concat, workspace_fault_text, WorkspaceError, WorkspaceFault};
use crate::events::{EventView, WorkspaceEvent};
use crate::ids::{NamespaceId, PeerId};
use crate::path::FsPath;
use crate::peer_map::{PeerMap, Readiness};
use crate::rules::{rules_fault, PathRules};
use crate::text::lossy_text;
use crate::ticket::{
    encode, envelope_fault_text, mode_choice, rules_on_wire, EnvelopeFault, WorkspaceTicketEnvelope, ENVELOPE_VERSION,
};
use crate::wire::{envelope_bytes, envelope_of, EnvelopeParts};

verus! {

/// How far a workspace has come.
#[derive(Clone, Copy, Debug, PartialEq, Eq, Structural)]
pub struct RotationState {
    /// The epoch of the namespace that the workspace is on; it starts at zero.
    pub epoch: u64,
    /// The last revoke of the log that this host has rotated for.
    pub rotated_revoke_seq: u64,
}

/// What the follower of the log hands to the rotation task.
#[derive(Clone, Debug, PartialEq, Eq)]
pub enum RotationSignal {
    /// On the host: somebody was evicted.
    HostEvict {
        /// Who.
        revoked_peer: PeerId,
        /// The place of the revoke in the log.
        revoke_seq: u64,
    },
    /// On a member: the host has moved.
    SurvivorRotate {
        /// The epoch of the namespace that it moved to.
        namespace_epoch: u64,
        /// The ticket of that namespace.
        doc_ticket: String,
    },
}

/// What the rotation task does about a signal.
#[derive(Clone, Debug, PartialEq, Eq)]
pub enum RotationAction {
    /// Nothing.
    Ignore,
    /// Ask again when the log has been replayed.
    Wait,
    /// Nothing, for the workspace is going down.
    Abandon,
    /// Mint the namespace that follows this epoch.
    Rotate {
        /// The epoch.
        prev_epoch: u64,
    },
    /// Move to the namespace of a ticket.
    Reimport {
        /// The ticket.
        doc_ticket: String,
        /// The epoch of its namespace.
        epoch: u64,
    },
}

/// A [`RotationAction`] over sequences.
pub enum ActionView {
    /// [`RotationAction::Ignore`].
    Ignore,
    /// [`RotationAction::Wait`].
    Wait,
    /// [`RotationAction::Abandon`].
    Abandon,
    /// [`RotationAction::Rotate`].
    Rotate(u64),
    /// [`RotationAction::Reimport`].
    Reimport(Seq<char>, u64),
}

impl View for RotationAction {
    type V = ActionView;

    open spec fn view(&self) -> ActionView {
        match *self {
            RotationAction::Ignore => ActionView::Ignore,
            RotationAction::Wait => ActionView::Wait,
            RotationAction::Abandon => ActionView::Abandon,
            RotationAction::Rotate { prev_epoch } => ActionView::Rotate(prev_epoch),
            RotationAction::Reimport { doc_ticket, epoch } => ActionView::Reimport(doc_ticket@, epoch),
        }
    }
}

/// What a signal calls for. A revoke that was rotated for is not rotated for
/// again, and nobody rotates on a log that is still being read: who stays is
/// not known before its end. A member that is already at an epoch stays put.
pub open spec fn called_for(state: RotationState, signal: RotationSignal, readiness: Readiness) -> ActionView {
    match signal {
        RotationSignal::HostEvict { revoke_seq, .. } => if revoke_seq <= state.rotated_revoke_seq {
            ActionView::Ignore
        } else {
            match readiness {
                Readiness::Replaying => ActionView::Wait,
                Readiness::Closed => ActionView::Abandon,
                Readiness::Ready => ActionView::Rotate(state.epoch),
            }
        },
        RotationSignal::SurvivorRotate { namespace_epoch, doc_ticket } => if namespace_epoch <= state.epoch {
            ActionView::Ignore
        } else {
            ActionView::Reimport(doc_ticket@, namespace_epoch)
        },
    }
}

/// What the host does once a namespace was minted, in order: it moves there
/// before it tells the others.
#[derive(Clone, Copy, Debug, PartialEq, Eq, Structural)]
pub enum EvictStep {
    /// Record the place of the revoke in the log; a failure is not fatal.
    PersistRevokeSeq(u64),
    /// Move to the new namespace.
    ReimportHost(u64),
    /// Hand out the new secret and the new ticket from now on.
    RefreshDistribution(u64),
    /// Deliver the new ticket to each member that may write.
    DeliverToSurvivors(u64),
}

/// What follows an attempt to mint a namespace.
#[derive(Clone, Debug, PartialEq, Eq)]
pub struct EvictNext {
    /// What the consumer has to know.
    pub event: Option<WorkspaceEvent>,
    /// What to do, in order.
    pub steps: Vec<EvictStep>,
}

/// The steps that follow a rotation.
pub open spec fn evict_steps(revoke_seq: u64, epoch: u64) -> Seq<EvictStep> {
    seq![
        EvictStep::PersistRevokeSeq(revoke_seq),
        EvictStep::ReimportHost(epoch),
        EvictStep::RefreshDistribution(epoch),
        EvictStep::DeliverToSurvivors(epoch),
    ]
}

/// The state of a host that has rotated for a revoke.
pub open spec fn after_rotation(revoke_seq: u64, epoch: u64) -> RotationState {
    RotationState { epoch, rotated_revoke_seq: revoke_seq }
}

/// The state of a workspace that has moved to an epoch.
pub open spec fn after_reimport(state: RotationState, epoch: u64) -> RotationState {
    RotationState { epoch, ..state }
}

impl RotationState {
    /// The state that the state directory holds.
    pub fn recovered(epoch: u64, rotated_revoke_seq: u64) -> (state: RotationState)
        ensures
            state.epoch == epoch,
            state.rotated_revoke_seq == rotated_revoke_seq,
    {
        RotationState { epoch, rotated_revoke_seq }
    }

    /// What to do about a signal.
    pub fn on_signal(&self, signal: &RotationSignal, map: &PeerMap) -> (action: RotationAction)
        ensures
            action@ == called_for(*self, *signal, map@.readiness),
    {
        match signal {
            RotationSignal::HostEvict { revoke_seq, .. } => {
                if *revoke_seq <= self.rotated_revoke_seq {
                    return RotationAction::Ignore;
                }
                match map.poll_ready() {
                    None => RotationAction::Wait,
                    Some(false) => RotationAction::Abandon,
                    Some(true) => RotationAction::Rotate { prev_epoch: self.epoch },
                }
            },
            RotationSignal::SurvivorRotate { namespace_epoch, doc_ticket } => {
                if *namespace_epoch <= self.epoch {
                    return RotationAction::Ignore;
                }
                RotationAction::Reimport { doc_ticket: doc_ticket.clone(), epoch: *namespace_epoch }
            },
        }
    }

    /// Takes note of how minting a namespace for a revoke went: its epoch, or
    /// why there is none.
    pub fn on_minted(&mut self, revoke_seq: u64, minted: Result<u64, WorkspaceError>) -> (next: EvictNext)
        ensures
            match minted {
                Ok(epoch) => {
                    &&& *final(self) == after_rotation(revoke_seq, epoch)
                    &&& next.event is None
                    &&& next.steps@ == evict_steps(revoke_seq, epoch)
                },
                Err(err) => {
                    &&& *final(self) == *old(self)
                    &&& next.event matches Some(event)
                    &&& event@ == EventView::Error("rotation failed: "@ + workspace_fault_text(err@))
                    &&& next.steps@ == Seq::<EvictStep>::empty()
                },
            },
    {
        let mut steps: Vec<EvictStep> = Vec::new();
        match minted {
            Ok(epoch) => {
                self.epoch = epoch;
                self.rotated_revoke_seq = revoke_seq;
                steps.push(EvictStep::PersistRevokeSeq(revoke_seq));
                steps.push(EvictStep::ReimportHost(epoch));
                steps.push(EvictStep::RefreshDistribution(epoch));
                steps.push(EvictStep::DeliverToSurvivors(epoch));
                assert(steps@ =~= evict_steps(revoke_seq, epoch));
                EvictNext { event: None, steps }
            },
            Err(err) => EvictNext { event: Some(failure("rotation failed: ", &err)), steps },
        }
    }

    /// Takes note of how the host's own move to an epoch went.
    pub fn on_host_reimport(&mut self, epoch: u64, outcome: Result<(), WorkspaceError>) -> (event: Option<WorkspaceEvent>)
        ensures
            match outcome {
                Ok(()) => *final(self) == after_reimport(*old(self), epoch) && event is None,
                Err(err) => {
                    &&& *final(self) == *old(self)
                    &&& event matches Some(ev)
                    &&& ev@ == EventView::Error("host reimport failed: "@ + workspace_fault_text(err@))
                },
            },
    {
        match outcome {
            Ok(()) => {
                self.epoch = epoch;
                None
            },
            Err(err) => Some(failure("host reimport failed: ", &err)),
        }
    }

    /// Takes note of how a member's move to an epoch went.
    pub fn on_survivor_reimport(&mut self, epoch: u64, outcome: Result<(), WorkspaceError>) -> (event: Option<WorkspaceEvent>)
        ensures
            match outcome {
                Ok(()) => *final(self) == after_reimport(*old(self), epoch) && event is None,
                Err(err) => {
                    &&& *final(self) == *old(self)
                    &&& event matches Some(ev)
                    &&& ev@ == EventView::Error("survivor reimport failed: "@ + workspace_fault_text(err@))
                },
            },
    {
        match outcome {
            Ok(()) => {
                self.epoch = epoch;
                None
            },
            Err(err) => Some(failure("survivor reimport failed: ", &err)),
        }
    }
}

fn failure(what: &str, err: &WorkspaceError) -> (event: WorkspaceEvent)
    ensures
        event@ == EventView::Error(what@ + workspace_fault_text(err@)),
{
    WorkspaceEvent::Error(concat(what, err.message().as_str()))
}

/// The envelope that a host publishes after a rotation, or what the consumer
/// has to know where there is none.
pub fn rotated_envelope(read_ticket: String, rules: PathRules) -> (res: Result<Vec<u8>, WorkspaceEvent>)
    ensures
        match rules_fault(rules.rules@) {
            None => {
                &&& res matches Ok(bytes)
                &&& bytes@ == envelope_bytes(
                    ENVELOPE_VERSION,
                    read_ticket@,
                    mode_choice(rules.default),
                    rules_on_wire(rules.rules@),
                )
                &&& envelope_of(bytes@) == Ok::<EnvelopeParts, Seq<char>>(
                    (ENVELOPE_VERSION, read_ticket@, mode_choice(rules.default), rules_on_wire(rules.rules@)),
                )
                &&& bytes@.len() > 0
                &&& bytes@[0] == ENVELOPE_VERSION
            },
            Some(fault) => {
                &&& res matches Err(event)
                &&& event@ == EventView::Error(
                    "rotation: encode rotated envelope failed: "@ + envelope_fault_text(EnvelopeFault::PathRules(fault)),
                )
            },
        },
{
    match encode(&WorkspaceTicketEnvelope::new(read_ticket, rules)) {
        Ok(bytes) => Ok(bytes),
        Err(err) => Err(
            WorkspaceEvent::Error(concat("rotation: encode rotated envelope failed: ", err.message().as_str())),
        ),
    }
}

/// What the consumer has to know of the publication of a ticket after a
/// rotation.
pub fn republished(outcome: Result<(), String>) -> (event: Option<WorkspaceEvent>)
    ensures
        match outcome {
            Ok(()) => event is None,
            Err(why) => event matches Some(ev) && ev@ == EventView::Error("rotation: re-publish ticket failed: "@ + why@),
        },
{
    match outcome {
        Ok(()) => None,
        Err(why) => Some(WorkspaceEvent::Error(concat("rotation: re-publish ticket failed: ", why.as_str()))),
    }
}

/// From where a workspace gets the namespace that it moves to.
#[derive(Clone, Debug, PartialEq, Eq)]
pub enum ReimportSource {
    /// The host has just minted it.
    HostLocal {
        /// The secret of the namespace.
        new_secret: [u8; 32],
        /// The namespace.
        new_namespace: NamespaceId,
        /// Its epoch.
        epoch: u64,
    },
    /// The host has sent a ticket.
    SurvivorTicket {
        /// The ticket.
        doc_ticket: String,
        /// The epoch of its namespace.
        epoch: u64,
    },
}

/// One step of a move to another namespace.
#[derive(Clone, Copy, Debug, PartialEq, Eq, Structural)]
pub enum ReimportStep {
    /// Read the ticket.
    ParseTicket,
    /// Import the namespace.
    Import,
    /// Open its document.
    Open,
    /// Start to sync it.
    StartSync,
    /// Record it as the current one.
    PersistNamespace,
    /// Record its epoch.
    PersistEpoch(u64),
    /// Put its document in the place of the old one.
    SwapDoc,
    /// Stop what works on the old document.
    ResetTasks,
    /// Forget what was published into the old document.
    ForgetPublished,
    /// Start what works on the new document.
    Respawn,
    /// Publish what the root holds.
    Scan,
    /// From now on the workspace is at the epoch.
    SetEpoch(u64),
}

/// The steps of a move. Only a host publishes its tree again: a member would
/// bring back what the host has deleted.
pub open spec fn reimport_steps(source: ReimportSource) -> Seq<ReimportStep> {
    let (start, scan, epoch) = match source {
        ReimportSource::HostLocal { epoch, .. } => (Seq::empty(), seq![ReimportStep::Scan], epoch),
        ReimportSource::SurvivorTicket { epoch, .. } => (seq![ReimportStep::ParseTicket], Seq::empty(), epoch),
    };
    start + seq![
        ReimportStep::Import,
        ReimportStep::Open,
        ReimportStep::StartSync,
        ReimportStep::PersistNamespace,
        ReimportStep::PersistEpoch(epoch),
        ReimportStep::SwapDoc,
        ReimportStep::ResetTasks,
        ReimportStep::ForgetPublished,
        ReimportStep::Respawn,
    ] + scan + seq![ReimportStep::SetEpoch(epoch)]
}

/// What to do, in order, to move to another namespace; the first failure ends
/// it.
pub fn plan_reimport(source: &ReimportSource) -> (steps: Vec<ReimportStep>)
    ensures
        steps@ == reimport_steps(*source),
{
    let mut steps: Vec<ReimportStep> = Vec::new();
    let (from_ticket, epoch): (bool, u64) = match source {
        ReimportSource::HostLocal { epoch, .. } => (false, *epoch),
        ReimportSource::SurvivorTicket { epoch, .. } => (true, *epoch),
    };
    if from_ticket {
        steps.push(ReimportStep::ParseTicket);
    }
    steps.push(ReimportStep::Import);
    steps.push(ReimportStep::Open);
    steps.push(ReimportStep::StartSync);
    steps.push(ReimportStep::PersistNamespace);
    steps.push(ReimportStep::PersistEpoch(epoch));
    steps.push(ReimportStep::SwapDoc);
    steps.push(ReimportStep::ResetTasks);
    steps.push(ReimportStep::ForgetPublished);
    steps.push(ReimportStep::Respawn);
    if !from_ticket {
        steps.push(ReimportStep::Scan);
    }
    steps.push(ReimportStep::SetEpoch(epoch));
    assert(steps@ =~= reimport_steps(*source));
    steps
}

/// Why a move to another namespace failed.
#[derive(Clone, Debug, PartialEq, Eq)]
pub enum ReimportFailure {
    /// The ticket does not parse.
    Ticket(String),
    /// The network node is gone.
    NodeGone,
    /// The namespace was not imported.
    Import(String),
    /// Its document was not opened.
    Open(String),
    /// It is not there although it was imported.
    Absent,
    /// It does not sync.
    Sync(String),
    /// It was not recorded in this file.
    Namespace(FsPath, String),
}

/// The message for a move that failed.
pub open spec fn reimport_failure_text(failure: ReimportFailure) -> Seq<char> {
    match failure {
        ReimportFailure::Ticket(why) => "reimport: parse rotation ticket: "@ + why@,
        ReimportFailure::NodeGone => "reimport: node torn down"@,
        ReimportFailure::Import(why) => "reimport import_namespace: "@ + why@,
        ReimportFailure::Open(why) => "reimport open: "@ + why@,
        ReimportFailure::Absent => "reimport: namespace absent after import"@,
        ReimportFailure::Sync(why) => "reimport start_sync: "@ + why@,
        ReimportFailure::Namespace(path, why) => "reimport: persist current-namespace at "@ + lossy_text(path@) + ": "@
            + why@,
    }
}

/// The error for a move that failed.
pub fn reimport_failed(failure: &ReimportFailure) -> (err: WorkspaceError)
    ensures
        err@ == WorkspaceFault::Doc(reimport_failure_text(*failure)),
{
    let text = match failure {
        ReimportFailure::Ticket(why) => concat("reimport: parse rotation ticket: ", why.as_str()),
        ReimportFailure::NodeGone => "reimport: node torn down".to_owned(),
        ReimportFailure::Import(why) => concat("reimport import_namespace: ", why.as_str()),
        ReimportFailure::Open(why) => concat("reimport open: ", why.as_str()),
        ReimportFailure::Absent => "reimport: namespace absent after import".to_owned(),
        ReimportFailure::Sync(why) => concat("reimport start_sync: ", why.as_str()),
        ReimportFailure::Namespace(path, why) => {
            let mut text = concat("reimport: persist current-namespace at ", path.display().as_str());
            text.append(": ");
            text.append(why.as_str());
            text
        },
    };
    WorkspaceError::Doc(text)
}

/// A revoke that was rotated for, and every earlier one, never makes a host
/// rotate again, whatever the state of the log.
pub proof fn law_replayed_revokes_do_not_rotate(revoked_peer: PeerId, revoke_seq: u64, rotated: u64, epoch: u64, readiness: Readiness)
    requires
        revoke_seq <= rotated,
    ensures
        called_for(
            after_rotation(rotated, epoch),
            RotationSignal::HostEvict { revoked_peer, revoke_seq },
            readiness,
        ) == ActionView::Ignore,
{
}

/// A revoke that is later in the log than all that were rotated for makes a
/// host with a log that was read rotate; the mark then moves on.
pub proof fn law_new_revokes_rotate(state: RotationState, revoked_peer: PeerId, revoke_seq: u64, epoch: u64)
    requires
        revoke_seq > state.rotated_revoke_seq,
    ensures
        called_for(state, RotationSignal::HostEvict { revoked_peer, revoke_seq }, Readiness::Ready) == ActionView::Rotate(
            state.epoch,
        ),
        called_for(state, RotationSignal::HostEvict { revoked_peer, revoke_seq }, Readiness::Replaying) == ActionView::Wait,
        called_for(state, RotationSignal::HostEvict { revoked_peer, revoke_seq }, Readiness::Closed) == ActionView::Abandon,
        after_rotation(revoke_seq, epoch).rotated_revoke_seq > state.rotated_revoke_seq,
{
}

/// A member moves to later epochs only, and never twice to one.
pub proof fn law_epochs_only_rise(state: RotationState, namespace_epoch: u64, doc_ticket: String, readiness: Readiness)
    ensures
        called_for(state, RotationSignal::SurvivorRotate { namespace_epoch, doc_ticket }, readiness) is Reimport ==> {
            let moved = after_reimport(state, namespace_epoch);
            &&& moved.epoch > state.epoch
            &&& moved.rotated_revoke_seq == state.rotated_revoke_seq
            &&& called_for(moved, RotationSignal::SurvivorRotate { namespace_epoch, doc_ticket }, readiness) is Ignore
        },
{
}

/// The host is on the new namespace before it hands out its ticket to anybody.
pub proof fn law_host_moves_first(revoke_seq: u64, epoch: u64, i: int, j: int)
    requires
        0 <= i < evict_steps(revoke_seq, epoch).len(),
        0 <= j < evict_steps(revoke_seq, epoch).len(),
        evict_steps(revoke_seq, epoch)[i] is ReimportHost,
        evict_steps(revoke_seq, epoch)[j] is DeliverToSurvivors || evict_steps(revoke_seq, epoch)[j] is RefreshDistribution,
    ensures
        i < j,
{
}

/// A member never publishes its whole tree when it moves; a host always does,
/// after what works on the new document has started.
pub proof fn law_only_hosts_scan(source: ReimportSource)
    ensures
        source is SurvivorTicket ==> !reimport_steps(source).contains(ReimportStep::Scan),
        source is HostLocal ==> exists|i: int|
            0 < i < reimport_steps(source).len() && (#[trigger] reimport_steps(source)[i]) == ReimportStep::Scan
                && reimport_steps(source)[i - 1] == ReimportStep::Respawn,
{
    if source is HostLocal {
        assert(reimport_steps(source)[9] == ReimportStep::Scan);
    }
}

/// A member that is told of a later epoch moves to it, with the ticket that it
/// was given, however many epochs lie between and whatever the state of its
/// log; one that is told of its own epoch or an earlier one stays.
pub proof fn law_members_follow_every_later_epoch(state: RotationState, namespace_epoch: u64, doc_ticket: String, readiness: Readiness)
    ensures
        namespace_epoch > state.epoch ==> called_for(
            state,
            RotationSignal::SurvivorRotate { namespace_epoch, doc_ticket },
            readiness,
        ) == ActionView::Reimport(doc_ticket@, namespace_epoch),
        namespace_epoch <= state.epoch ==> called_for(
            state,
            RotationSignal::SurvivorRotate { namespace_epoch, doc_ticket },
            readiness,
        ) == ActionView::Ignore,
{
}

/// A host rotates exactly for revokes that are later in the log than the last
/// one that it rotated for, and from the epoch that it is on; whom a revoke is
/// about and which epoch it is play no part in whether it does.
pub proof fn law_hosts_answer_every_later_revoke(state: RotationState, revoked_peer: PeerId, revoke_seq: u64, readiness: Readiness)
    ensures
        ({
            let action = called_for(state, RotationSignal::HostEvict { revoked_peer, revoke_seq }, readiness);
            &&& action == ActionView::Rotate(state.epoch) <==> revoke_seq > state.rotated_revoke_seq && readiness
                == Readiness::Ready
            &&& action == ActionView::Wait <==> revoke_seq > state.rotated_revoke_seq && readiness == Readiness::Replaying
            &&& action == ActionView::Abandon <==> revoke_seq > state.rotated_revoke_seq && readiness == Readiness::Closed
            &&& action == ActionView::Ignore <==> revoke_seq <= state.rotated_revoke_seq
        }),
{
}

/// A rotation puts the host on the new epoch and marks its revoke; a move puts
/// a workspace on the new epoch and leaves the mark where it was.
pub proof fn law_moves_reach_their_epoch(state: RotationState, revoke_seq: u64, epoch: u64)
    ensures
        after_rotation(revoke_seq, epoch).epoch == epoch,
        after_rotation(revoke_seq, epoch).rotated_revoke_seq == revoke_seq,
        after_reimport(state, epoch).epoch == epoch,
        after_reimport(state, epoch).rotated_revoke_seq == state.rotated_revoke_seq,
{
}

/// After a namespace was minted the host records the revoke, moves, hands out
/// the new secret and the new ticket and delivers them, each once, for this
/// revoke and this epoch.
pub proof fn law_rotation_is_followed_through(revoke_seq: u64, epoch: u64, i: int)
    ensures
        evict_steps(revoke_seq, epoch).len() == 4,
        0 <= i < 4 ==> match evict_steps(revoke_seq, epoch)[i] {
            EvictStep::PersistRevokeSeq(seq) => i == 0 && seq == revoke_seq,
            EvictStep::ReimportHost(n) => i == 1 && n == epoch,
            EvictStep::RefreshDistribution(n) => i == 2 && n == epoch,
            EvictStep::DeliverToSurvivors(n) => i == 3 && n == epoch,
        },
{
}

/// The epoch that a source comes with.
pub open spec fn source_epoch(source: ReimportSource) -> u64 {
    match source {
        ReimportSource::HostLocal { epoch, .. } => epoch,
        ReimportSource::SurvivorTicket { epoch, .. } => epoch,
    }
}

/// A move of a host and a move of a member are the same but for two steps: the
/// member reads a ticket first, and the host publishes its tree before the
/// last. Both record the namespace and then the epoch before the document is
/// swapped, and forget what was published before anything is started again.
pub proof fn law_moves_differ_in_two_steps(host: ReimportSource, member: ReimportSource)
    requires
        host is HostLocal,
        member is SurvivorTicket,
        source_epoch(host) == source_epoch(member),
    ensures
        reimport_steps(member)[0] == ReimportStep::ParseTicket,
        reimport_steps(host)[reimport_steps(host).len() - 2] == ReimportStep::Scan,
        reimport_steps(member).remove(0) == reimport_steps(host).remove(reimport_steps(host).len() - 2),
{
    assert(reimport_steps(member).remove(0) =~= reimport_steps(host).remove(reimport_steps(host).len() - 2));
}

/// The steps of a move up to its last, in order.
pub proof fn law_moves_record_before_they_swap(source: ReimportSource)
    ensures
        ({
            let steps = reimport_steps(source);
            let at: int = if source is SurvivorTicket {
                1
            } else {
                0
            };
            &&& steps.len() == 11
            &&& steps[at] == ReimportStep::Import
            &&& steps[at + 1] == ReimportStep::Open
            &&& steps[at + 2] == ReimportStep::StartSync
            &&& steps[at + 3] == ReimportStep::PersistNamespace
            &&& steps[at + 4] == ReimportStep::PersistEpoch(source_epoch(source))
            &&& steps[at + 5] == ReimportStep::SwapDoc
            &&& steps[at + 6] == ReimportStep::ResetTasks
            &&& steps[at + 7] == ReimportStep::ForgetPublished
            &&& steps[at + 8] == ReimportStep::Respawn
            &&& steps[10] == ReimportStep::SetEpoch(source_epoch(source))
        }),
{
}

/// What the rotation task does about a signal: a member that hears of a later
/// epoch moves to it, and a host with a log that was read rotates for a later
/// revoke; nothing else makes either move.
pub proof fn law_signals_are_acted_on(state: &RotationState, signal: &RotationSignal, map: &PeerMap, action: RotationAction)
    requires
        call_ensures(RotationState::on_signal, (state, signal, map), action),
    ensures
        (*signal matches RotationSignal::SurvivorRotate { namespace_epoch, doc_ticket } && namespace_epoch > state.epoch) ==> (
        action matches RotationAction::Reimport { doc_ticket, epoch } && doc_ticket@ == signal->doc_ticket@ && epoch
            == signal->namespace_epoch),
        (*signal matches RotationSignal::HostEvict { revoke_seq, .. } && revoke_seq > state.rotated_revoke_seq)
            && map@.readiness == Readiness::Ready ==> (action matches RotationAction::Rotate { prev_epoch } && prev_epoch
            == state.epoch),
        action is Reimport ==> *signal is SurvivorRotate && signal->namespace_epoch > state.epoch,
        action is Rotate ==> *signal is HostEvict && signal->revoke_seq > state.rotated_revoke_seq && map@.readiness
            == Readiness::Ready,
{
}

/// A namespace that was minted puts the host on its epoch, and its revoke makes
/// nobody rotate again; one that was not leaves the state as it was, so that
/// the revoke makes the host rotate again, and the consumer is told why.
pub proof fn law_minting_settles_the_revoke(state: &mut RotationState, revoke_seq: u64, minted: Result<u64, WorkspaceError>, next: EvictNext, revoked_peer: PeerId)
    requires
        call_ensures(RotationState::on_minted, (state, revoke_seq, minted), next),
    ensures
        minted matches Ok(epoch) ==> {
            &&& final(state).epoch == epoch
            &&& final(state).rotated_revoke_seq == revoke_seq
            &&& next.event is None
            &&& next.steps@.len() > 0
            &&& called_for(
                *final(state),
                RotationSignal::HostEvict { revoked_peer, revoke_seq },
                Readiness::Ready,
            ) == ActionView::Ignore
        },
        minted is Err ==> {
            &&& *final(state) == *old(state)
            &&& next.event is Some
            &&& next.steps@.len() == 0
        },
{
}

/// A move that succeeded puts the workspace on its epoch, on the host as on a
/// member; one that failed leaves it where it was, and the consumer is told.
pub proof fn law_moves_settle_the_epoch(host: &mut RotationState, member: &mut RotationState, epoch: u64, outcome: Result<(), WorkspaceError>, told: Option<WorkspaceEvent>, heard: Option<WorkspaceEvent>)
    requires
        call_ensures(RotationState::on_host_reimport, (host, epoch, outcome), told),
        call_ensures(RotationState::on_survivor_reimport, (member, epoch, outcome), heard),
    ensures
        final(host).rotated_revoke_seq == old(host).rotated_revoke_seq,
        final(member).rotated_revoke_seq == old(member).rotated_revoke_seq,
        outcome is Ok ==> final(host).epoch == epoch && told is None && final(member).epoch == epoch && heard is None,
        outcome is Err ==> *final(host) == *old(host) && told is Some && *final(member) == *old(member) && heard is Some,
{
}

/// After a rotation the host publishes its own rules with the new ticket for
/// reading, and those who read it get both; where its rules do not pass, or the
/// publication fails, the consumer is told.
pub proof fn law_rotated_envelopes(read_ticket: String, rules: PathRules, res: Result<Vec<u8>, WorkspaceEvent>, outcome: Result<(), String>, told: Option<WorkspaceEvent>)
    requires
        call_ensures(rotated_envelope, (read_ticket, rules), res),
        call_ensures(republished, (outcome,), told),
    ensures
        res is Ok <==> rules_fault(rules.rules@) is None,
        res matches Ok(bytes) ==> (envelope_of(bytes@) matches Ok(parts) && parts.0 == ENVELOPE_VERSION && parts.1 == read_ticket@
            && parts.2 == mode_choice(rules.default) && parts.3.len() == rules.rules@.len()),
        res matches Err(event) ==> event@ is Error,
        told is Some <==> outcome is Err,
{
}

} // verus!
