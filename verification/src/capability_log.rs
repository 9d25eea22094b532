//! Following the session's log: what each message changes and calls for.
//!
//! Capability messages change who may write. Announcements link endpoints to
//! members. On the host both can call for deliveries, and a revoke calls for a
//! rotation. On a member the host's deliveries are taken in, where they are
//! meant for it.
use vstd::prelude::*;

use crate::endpoint::{announced, read_announcement};
use crate::events::{EventView, WorkspaceEvent};
use crate::eviction::RotationSignal;
use crate::ids::{EndpointId, Key, PeerId, SessionId};
use crate::peer_map::{
    after_capability, after_register, may_write, Capability, CapabilityAction, PeerMap, PeerMapView, Readiness,
};
use crate::redelivery::{after_announce, is_answered, Redelivery, RedeliveryView};
use crate::text::text_eq;

verus! {

/// The action of the message with which a member announces its endpoint.
pub const NODE_ID_ACTION: &'static str = "workspace.node_id";

/// The action of the message with which a host hands out its ticket.
pub const TICKET_ACTION: &'static str = "workspace.ticket";

/// A delivery of the namespace secret.
#[derive(Clone, Copy, Debug, PartialEq, Eq)]
pub struct UpgradePayload {
    /// For whom it is.
    pub target_peer: PeerId,
    /// The secret.
    pub namespace_secret: [u8; 32],
}

/// A notice that a member is a reader from now on.
#[derive(Clone, Copy, Debug, PartialEq, Eq)]
pub struct DowngradePayload {
    /// For whom it is.
    pub target_peer: PeerId,
}

/// A delivery of the ticket of a new namespace.
#[derive(Clone, Debug, PartialEq, Eq)]
pub struct RotatePayload {
    /// For whom it is.
    pub target_peer: PeerId,
    /// The epoch of the namespace.
    pub namespace_epoch: u64,
    /// Its ticket.
    pub doc_ticket: String,
}

/// What a message of the log says. Where the bytes of a payload do not decode
/// there is none.
#[derive(Clone, Debug, PartialEq, Eq)]
pub enum MessageBody {
    /// An entry of the capability log.
    Capability(Option<CapabilityAction>),
    /// A delivery of the namespace secret.
    Upgrade(Option<UpgradePayload>),
    /// A notice that a member is a reader.
    Downgrade(Option<DowngradePayload>),
    /// A delivery of a new ticket.
    Rotate(Option<RotatePayload>),
    /// A system message with another action.
    System {
        /// The action.
        action: String,
        /// What comes with it.
        payload: Vec<u8>,
    },
    /// Something for the applications of the session.
    Other,
}

/// A message of a session's log.
#[derive(Clone, Debug, PartialEq, Eq)]
pub struct SessionMessage {
    /// Its place in the log; synthetic messages have zero.
    pub seq: u64,
    /// Who wrote it.
    pub author: PeerId,
    /// What it says.
    pub body: MessageBody,
}

/// What the daemon tells those who follow a session.
#[derive(Clone, Debug, PartialEq, Eq)]
pub enum SessionEvent {
    /// A message of the log, or a synthetic one.
    Message {
        /// The session.
        session: SessionId,
        /// The message.
        message: SessionMessage,
    },
    /// Somebody has joined.
    PeerJoined {
        /// The session.
        session: SessionId,
        /// Who.
        peer: PeerId,
    },
    /// Messages were dropped on the way here.
    Gap {
        /// The session.
        session: SessionId,
    },
    /// What the log held was sent.
    ReplayComplete {
        /// The session.
        session: SessionId,
    },
    /// Anything else.
    Other,
}

/// What a host keeps for its deliveries.
pub struct HostContext {
    /// The epoch of the ticket that it hands out.
    pub epoch: u64,
    /// Whom it has served.
    pub redelivery: Redelivery,
}

/// What a member keeps.
pub struct JoinerContext {
    /// The member itself.
    pub me: PeerId,
    /// Whether the host has made it a reader, so that it publishes nothing.
    pub write_halted: bool,
}

/// In which role a workspace follows the log.
pub enum Role {
    /// As the host.
    Host(HostContext),
    /// As a member that joined.
    Joiner(JoinerContext),
    /// To know who is blocked, and nothing more.
    Bystander,
}

/// A [`Role`] over sequences and maps.
pub enum RoleView {
    /// [`Role::Host`].
    Host(u64, RedeliveryView),
    /// [`Role::Joiner`].
    Joiner(Seq<u8>, bool),
    /// [`Role::Bystander`].
    Bystander,
}

impl View for Role {
    type V = RoleView;

    open spec fn view(&self) -> RoleView {
        match *self {
            Role::Host(ctx) => RoleView::Host(ctx.epoch, ctx.redelivery@),
            Role::Joiner(ctx) => RoleView::Joiner(ctx.me@, ctx.write_halted),
            Role::Bystander => RoleView::Bystander,
        }
    }
}

/// Something that a message calls for. Deliveries are best effort.
#[derive(Clone, Debug, PartialEq, Eq)]
pub enum CapAction {
    /// Tell the consumer.
    Emit(WorkspaceEvent),
    /// Send the current secret to a member.
    DeliverUpgrade(PeerId),
    /// Tell a member that it is a reader.
    DeliverDowngrade(PeerId),
    /// Send the current secret and the ticket of this epoch to a member, and
    /// say how both went.
    Redeliver(PeerId, u64),
    /// Hand a signal to the rotation task.
    Signal(RotationSignal),
    /// Have the daemon drop a member from the session.
    RemoveMember(PeerId),
    /// Import a namespace secret.
    ImportSecret([u8; 32]),
}

/// A [`CapAction`] over sequences.
pub enum CapActionView {
    /// [`CapAction::Emit`].
    Emit(EventView),
    /// [`CapAction::DeliverUpgrade`].
    DeliverUpgrade(Seq<u8>),
    /// [`CapAction::DeliverDowngrade`].
    DeliverDowngrade(Seq<u8>),
    /// [`CapAction::Redeliver`].
    Redeliver(Seq<u8>, u64),
    /// [`CapAction::Signal`] for an eviction: who, and the place in the log.
    HostEvict(Seq<u8>, u64),
    /// [`CapAction::Signal`] for a move of the host: the epoch and the ticket.
    SurvivorRotate(u64, Seq<char>),
    /// [`CapAction::RemoveMember`].
    RemoveMember(Seq<u8>),
    /// [`CapAction::ImportSecret`].
    ImportSecret(Seq<u8>),
}

impl View for CapAction {
    type V = CapActionView;

    open spec fn view(&self) -> CapActionView {
        match *self {
            CapAction::Emit(event) => CapActionView::Emit(event@),
            CapAction::DeliverUpgrade(peer) => CapActionView::DeliverUpgrade(peer@),
            CapAction::DeliverDowngrade(peer) => CapActionView::DeliverDowngrade(peer@),
            CapAction::Redeliver(peer, epoch) => CapActionView::Redeliver(peer@, epoch),
            CapAction::Signal(RotationSignal::HostEvict { revoked_peer, revoke_seq }) => CapActionView::HostEvict(
                revoked_peer@,
                revoke_seq,
            ),
            CapAction::Signal(RotationSignal::SurvivorRotate { namespace_epoch, doc_ticket }) =>
                CapActionView::SurvivorRotate(namespace_epoch, doc_ticket@),
            CapAction::RemoveMember(peer) => CapActionView::RemoveMember(peer@),
            CapAction::ImportSecret(secret) => CapActionView::ImportSecret(secret@),
        }
    }
}

/// The actions over sequences.
pub open spec fn actions_view(actions: Seq<CapAction>) -> Seq<CapActionView> {
    actions.map_values(|a: CapAction| a@)
}

/// What an event means to the one who reads the stream.
#[derive(Clone, Copy, Debug, PartialEq, Eq, Structural)]
pub enum CapOutcome {
    /// A message was taken in; this is its place in the log.
    Advanced(u64),
    /// Messages were dropped: subscribe again from the last one seen.
    Gap,
    /// Nothing.
    Ignored,
}

/// What a capability message calls for, given who may write before it. What
/// somebody other than the host wrote calls for nothing.
///
/// A revoke that blocks a member is told to the consumer. On a host: a grant
/// to write that takes effect brings the secret to the member, a grant to read
/// that takes effect brings a notice to a member that could write before, and
/// a revoke of anybody but the host itself brings a rotation and takes the
/// member out of the session.
pub open spec fn capability_actions(map: PeerMapView, is_host: bool, author: Seq<u8>, action: Option<CapabilityAction>, seq: u64) -> Seq<
    CapActionView,
> {
    let after = after_capability(map, author, action);
    if author != map.host {
        Seq::empty()
    } else {
        match action {
            None => Seq::empty(),
            Some(CapabilityAction::Revoke { peer }) => (if after.revoked.contains(peer@) {
                seq![CapActionView::Emit(EventView::PeerRevoked(peer@))]
            } else {
                Seq::empty()
            }) + (if is_host && peer@ != map.host {
                seq![CapActionView::HostEvict(peer@, seq), CapActionView::RemoveMember(peer@)]
            } else {
                Seq::empty()
            }),
            Some(CapabilityAction::Grant { peer, cap: Capability::ReadWrite }) => if is_host && may_write(after, peer@) {
                seq![CapActionView::DeliverUpgrade(peer@)]
            } else {
                Seq::empty()
            },
            Some(CapabilityAction::Grant { peer, cap: Capability::Read }) => if is_host && may_write(map, peer@)
                && !may_write(after, peer@) {
                seq![CapActionView::DeliverDowngrade(peer@)]
            } else {
                Seq::empty()
            },
        }
    }
}

/// Takes in a capability message.
pub fn handle_capability_message(map: &mut PeerMap, is_host: bool, author: PeerId, action: Option<CapabilityAction>, seq: u64) -> (actions: Vec<
    CapAction,
>)
    ensures
        final(map)@ == after_capability(old(map)@, author@, action),
        actions_view(actions@) == capability_actions(old(map)@, is_host, author@, action, seq),
{
    let ghost before = map@;
    let mut actions: Vec<CapAction> = Vec::new();
    let host = map.host_peer_id();
    if !author.same(&host) {
        assert(actions_view(actions@) =~= capability_actions(before, is_host, author@, action, seq));
        return actions;
    }
    let could_write = match &action {
        Some(CapabilityAction::Grant { peer, .. }) => map.has_rw(peer),
        _ => false,
    };
    map.apply_capability(author, action);
    match action {
        None => {},
        Some(CapabilityAction::Revoke { peer }) => {
            if map.is_revoked(&peer) {
                actions.push(CapAction::Emit(WorkspaceEvent::PeerRevoked { peer }));
            }
            if is_host && !peer.same(&host) {
                actions.push(CapAction::Signal(RotationSignal::HostEvict { revoked_peer: peer, revoke_seq: seq }));
                actions.push(CapAction::RemoveMember(peer));
            }
        },
        Some(CapabilityAction::Grant { peer, cap }) => {
            if is_host {
                match cap {
                    Capability::ReadWrite => {
                        if map.has_rw(&peer) {
                            actions.push(CapAction::DeliverUpgrade(peer));
                        }
                    },
                    Capability::Read => {
                        if could_write && !map.has_rw(&peer) {
                            actions.push(CapAction::DeliverDowngrade(peer));
                        }
                    },
                }
            }
        },
    }
    assert(actions_view(actions@) =~= capability_actions(before, is_host, author@, action, seq));
    actions
}

/// The map after an announcement that names an endpoint, or does not.
pub open spec fn map_after_announcement(map: PeerMapView, author: Seq<u8>, endpoint: Option<Seq<u8>>) -> PeerMapView {
    match endpoint {
        Some(id) => after_register(map, id, author),
        None => map,
    }
}

/// Whether an announcement concerns the deliveries of a role: it names an
/// endpoint, the role is the host's, and the member may write.
pub open spec fn is_served(map: PeerMapView, role: RoleView, author: Seq<u8>, endpoint: Option<Seq<u8>>) -> bool {
    endpoint is Some && role is Host && may_write(map, author)
}

/// The role after an announcement.
pub open spec fn role_after_announcement(map: PeerMapView, role: RoleView, author: Seq<u8>, seq: u64, endpoint: Option<Seq<u8>>) -> RoleView {
    match role {
        RoleView::Host(epoch, served) => if is_served(map, role, author, endpoint) {
            RoleView::Host(epoch, after_announce(served, author, seq, epoch))
        } else {
            role
        },
        _ => role,
    }
}

/// What an announcement calls for.
pub open spec fn announcement_actions(map: PeerMapView, role: RoleView, author: Seq<u8>, seq: u64, endpoint: Option<Seq<u8>>) -> Seq<
    CapActionView,
> {
    match role {
        RoleView::Host(epoch, served) => if is_served(map, role, author, endpoint) && is_answered(
            served,
            author,
            seq,
            epoch,
        ) {
            seq![CapActionView::Redeliver(author, epoch)]
        } else {
            Seq::empty()
        },
        _ => Seq::empty(),
    }
}

/// An endpoint over sequences.
pub open spec fn endpoint_view(endpoint: Option<EndpointId>) -> Option<Seq<u8>> {
    match endpoint {
        Some(id) => Some(id@),
        None => None,
    }
}

/// Takes in an announcement of an endpoint.
pub fn handle_announcement(map: &mut PeerMap, role: &mut Role, author: PeerId, seq: u64, endpoint: Option<EndpointId>) -> (actions: Vec<
    CapAction,
>)
    ensures
        final(map)@ == map_after_announcement(old(map)@, author@, endpoint_view(endpoint)),
        final(role)@ == role_after_announcement(old(map)@, old(role)@, author@, seq, endpoint_view(endpoint)),
        actions_view(actions@) == announcement_actions(
            old(map)@,
            old(role)@,
            author@,
            seq,
            endpoint_view(endpoint),
        ),
{
    let ghost before = map@;
    let ghost was = role@;
    let mut actions: Vec<CapAction> = Vec::new();
    if let Some(id) = endpoint {
        map.register(id, author);
        if map.has_rw(&author) {
            match role {
                Role::Host(ctx) => {
                    let epoch = ctx.epoch;
                    if ctx.redelivery.on_announce(author, seq, epoch) {
                        actions.push(CapAction::Redeliver(author, epoch));
                    }
                },
                _ => {},
            }
        }
    }
    assert(actions_view(actions@) =~= announcement_actions(before, was, author@, seq, endpoint_view(endpoint)));
    actions
}

/// Takes in the message with which a member announces its endpoint.
pub fn handle_node_id_message(map: &mut PeerMap, role: &mut Role, author: PeerId, seq: u64, payload: &Vec<u8>) -> (actions: Vec<
    CapAction,
>)
    ensures
        final(map)@ == map_after_announcement(old(map)@, author@, announced(payload@)),
        final(role)@ == role_after_announcement(old(map)@, old(role)@, author@, seq, announced(payload@)),
        actions_view(actions@) == announcement_actions(old(map)@, old(role)@, author@, seq, announced(payload@)),
{
    let endpoint = read_announcement(payload);
    assert(endpoint_view(endpoint) == announced(payload@));
    handle_announcement(map, role, author, seq, endpoint)
}

/// Whether a delivery is for the member that follows the log: the host wrote
/// it, and it names this member.
pub open spec fn is_for_me(map: PeerMapView, role: RoleView, author: Seq<u8>, target: Seq<u8>) -> bool {
    role matches RoleView::Joiner(me, _) && author == map.host && target == me
}

/// The map after a message.
pub open spec fn map_after_message(map: PeerMapView, message: SessionMessage) -> PeerMapView {
    match message.body {
        MessageBody::Capability(action) => after_capability(map, message.author@, action),
        MessageBody::System { action, payload } => if action@ == NODE_ID_ACTION@ {
            map_after_announcement(map, message.author@, announced(payload@))
        } else {
            map
        },
        _ => map,
    }
}

/// The role after a message.
pub open spec fn role_after_message(map: PeerMapView, role: RoleView, message: SessionMessage) -> RoleView {
    match message.body {
        MessageBody::System { action, payload } => if action@ == NODE_ID_ACTION@ {
            role_after_announcement(map, role, message.author@, message.seq, announced(payload@))
        } else {
            role
        },
        MessageBody::Downgrade(Some(notice)) => match role {
            RoleView::Joiner(me, _) => if is_for_me(map, role, message.author@, notice.target_peer@) {
                RoleView::Joiner(me, true)
            } else {
                role
            },
            _ => role,
        },
        _ => role,
    }
}

/// What a message calls for.
pub open spec fn message_actions(map: PeerMapView, role: RoleView, message: SessionMessage) -> Seq<CapActionView> {
    match message.body {
        MessageBody::Capability(action) => capability_actions(map, role is Host, message.author@, action, message.seq),
        MessageBody::System { action, payload } => if action@ == NODE_ID_ACTION@ {
            announcement_actions(map, role, message.author@, message.seq, announced(payload@))
        } else {
            Seq::empty()
        },
        MessageBody::Upgrade(Some(p)) => if is_for_me(map, role, message.author@, p.target_peer@) {
            seq![CapActionView::ImportSecret(p.namespace_secret@)]
        } else {
            Seq::empty()
        },
        MessageBody::Downgrade(Some(p)) => if is_for_me(map, role, message.author@, p.target_peer@) {
            seq![CapActionView::Emit(EventView::Demoted)]
        } else {
            Seq::empty()
        },
        MessageBody::Rotate(Some(p)) => if is_for_me(map, role, message.author@, p.target_peer@) {
            seq![CapActionView::SurvivorRotate(p.namespace_epoch, p.doc_ticket@)]
        } else {
            Seq::empty()
        },
        _ => Seq::empty(),
    }
}

fn for_me(map: &PeerMap, role: &Role, author: &PeerId, target: &PeerId) -> (res: bool)
    ensures
        res == is_for_me(map@, role@, author@, target@),
{
    match role {
        Role::Joiner(ctx) => author.same(&map.host_peer_id()) && target.same(&ctx.me),
        _ => false,
    }
}

/// Takes in a message of the log.
pub fn handle_message(map: &mut PeerMap, role: &mut Role, message: &SessionMessage) -> (actions: Vec<CapAction>)
    ensures
        final(map)@ == map_after_message(old(map)@, *message),
        final(role)@ == role_after_message(old(map)@, old(role)@, *message),
        actions_view(actions@) == message_actions(old(map)@, old(role)@, *message),
{
    let ghost before = map@;
    let ghost was = role@;
    let mut actions: Vec<CapAction> = Vec::new();
    assert(actions_view(actions@) =~= Seq::empty());
    match &message.body {
        MessageBody::Capability(action) => {
            let is_host = match role {
                Role::Host(_) => true,
                _ => false,
            };
            actions = handle_capability_message(map, is_host, message.author, *action, message.seq);
        },
        MessageBody::System { action, payload } => {
            if text_eq(action.as_str(), NODE_ID_ACTION) {
                actions = handle_node_id_message(map, role, message.author, message.seq, payload);
            }
        },
        MessageBody::Upgrade(Some(p)) => {
            if for_me(map, role, &message.author, &p.target_peer) {
                actions.push(CapAction::ImportSecret(p.namespace_secret));
                assert(actions_view(actions@) =~= message_actions(before, was, *message));
            }
        },
        MessageBody::Downgrade(Some(p)) => {
            if for_me(map, role, &message.author, &p.target_peer) {
                match role {
                    Role::Joiner(ctx) => {
                        ctx.write_halted = true;
                    },
                    _ => {},
                }
                actions.push(CapAction::Emit(WorkspaceEvent::Demoted));
                assert(actions_view(actions@) =~= message_actions(before, was, *message));
            }
        },
        MessageBody::Rotate(Some(p)) => {
            if for_me(map, role, &message.author, &p.target_peer) {
                actions.push(
                    CapAction::Signal(
                        RotationSignal::SurvivorRotate {
                            namespace_epoch: p.namespace_epoch,
                            doc_ticket: p.doc_ticket.clone(),
                        },
                    ),
                );
                assert(actions_view(actions@) =~= message_actions(before, was, *message));
            }
        },
        _ => {},
    }
    actions
}

/// Whether an event is about a session.
pub open spec fn is_about(event: SessionEvent, session: Seq<u8>) -> bool {
    match event {
        SessionEvent::Message { session: id, .. } => id@ == session,
        SessionEvent::PeerJoined { session: id, .. } => id@ == session,
        SessionEvent::Gap { session: id } => id@ == session,
        SessionEvent::ReplayComplete { session: id } => id@ == session,
        SessionEvent::Other => false,
    }
}

/// The map at the end of a replay.
pub open spec fn replay_finished(map: PeerMapView) -> PeerMapView {
    PeerMapView {
        readiness: if map.readiness == Readiness::Closed {
            Readiness::Closed
        } else {
            Readiness::Ready
        },
        ..map
    }
}

/// The map after an event.
pub open spec fn map_after_event(map: PeerMapView, event: SessionEvent, session: Seq<u8>) -> PeerMapView {
    if !is_about(event, session) {
        map
    } else {
        match event {
            SessionEvent::Message { message, .. } => map_after_message(map, message),
            SessionEvent::ReplayComplete { .. } => replay_finished(map),
            _ => map,
        }
    }
}

/// The role after an event.
pub open spec fn role_after_event(map: PeerMapView, role: RoleView, event: SessionEvent, session: Seq<u8>) -> RoleView {
    match event {
        SessionEvent::Message { message, .. } => if is_about(event, session) {
            role_after_message(map, role, message)
        } else {
            role
        },
        _ => role,
    }
}

/// What an event calls for. A member that comes back and may write gets the
/// secret again.
pub open spec fn event_actions(map: PeerMapView, role: RoleView, event: SessionEvent, session: Seq<u8>) -> Seq<CapActionView> {
    if !is_about(event, session) {
        Seq::empty()
    } else {
        match event {
            SessionEvent::Message { message, .. } => message_actions(map, role, message),
            SessionEvent::PeerJoined { peer, .. } => if role is Host && may_write(map, peer@) {
                seq![CapActionView::DeliverUpgrade(peer@)]
            } else {
                Seq::empty()
            },
            _ => Seq::empty(),
        }
    }
}

/// What an event means to the one who reads the stream.
pub open spec fn event_outcome(event: SessionEvent, session: Seq<u8>) -> CapOutcome {
    if !is_about(event, session) {
        CapOutcome::Ignored
    } else {
        match event {
            SessionEvent::Message { message, .. } => CapOutcome::Advanced(message.seq),
            SessionEvent::Gap { .. } => CapOutcome::Gap,
            _ => CapOutcome::Ignored,
        }
    }
}

/// Takes in an event of the stream.
pub fn handle_cap_event(event: &SessionEvent, session: &SessionId, map: &mut PeerMap, role: &mut Role) -> (res: (
    CapOutcome,
    Vec<CapAction>,
))
    ensures
        final(map)@ == map_after_event(old(map)@, *event, session@),
        final(role)@ == role_after_event(old(map)@, old(role)@, *event, session@),
        res.0 == event_outcome(*event, session@),
        actions_view(res.1@) == event_actions(old(map)@, old(role)@, *event, session@),
{
    let ghost before = map@;
    let ghost was = role@;
    let mut actions: Vec<CapAction> = Vec::new();
    assert(actions_view(actions@) =~= Seq::empty());
    match event {
        SessionEvent::Message { session: id, message } => {
            if id.same(session) {
                let actions = handle_message(map, role, message);
                return (CapOutcome::Advanced(message.seq), actions);
            }
        },
        SessionEvent::PeerJoined { session: id, peer } => {
            if id.same(session) {
                let is_host = match role {
                    Role::Host(_) => true,
                    _ => false,
                };
                if is_host && map.has_rw(peer) {
                    actions.push(CapAction::DeliverUpgrade(*peer));
                    assert(actions_view(actions@) =~= event_actions(before, was, *event, session@));
                }
            }
        },
        SessionEvent::Gap { session: id } => {
            if id.same(session) {
                return (CapOutcome::Gap, actions);
            }
        },
        SessionEvent::ReplayComplete { session: id } => {
            if id.same(session) {
                map.finish_replay();
            }
        },
        SessionEvent::Other => {},
    }
    (CapOutcome::Ignored, actions)
}

/// Only the host can demote, move or arm a member, and only the member that is
/// named: anything else of these kinds changes nothing and calls for nothing.
pub proof fn law_deliveries_come_from_the_host(map: PeerMapView, role: RoleView, message: SessionMessage, target: Seq<u8>)
    requires
        match message.body {
            MessageBody::Upgrade(p) => p matches Some(p) ==> p.target_peer@ == target,
            MessageBody::Downgrade(p) => p matches Some(p) ==> p.target_peer@ == target,
            MessageBody::Rotate(p) => p matches Some(p) ==> p.target_peer@ == target,
            _ => false,
        },
        message.author@ != map.host || !(role matches RoleView::Joiner(me, _) && me == target),
    ensures
        map_after_message(map, message) == map,
        role_after_message(map, role, message) == role,
        message_actions(map, role, message) == Seq::<CapActionView>::empty(),
{
}

/// A member that was made a reader stays one: nothing in the log undoes it.
pub proof fn law_demotion_lasts(map: PeerMapView, me: Seq<u8>, event: SessionEvent, session: Seq<u8>)
    ensures
        role_after_event(map, RoleView::Joiner(me, true), event, session) == RoleView::Joiner(me, true),
{
}

/// Nothing is delivered to somebody who may not write, but for the notice that
/// takes the right away.
pub proof fn law_secrets_go_to_writers(map: PeerMapView, role: RoleView, event: SessionEvent, session: Seq<u8>, peer: Seq<u8>, epoch: u64)
    ensures
        event_actions(map, role, event, session).contains(CapActionView::DeliverUpgrade(peer))
            || event_actions(map, role, event, session).contains(CapActionView::Redeliver(peer, epoch)) ==> may_write(
            map_after_event(map, event, session),
            peer,
        ),
{
}

/// A revoke that the host wrote about somebody else always calls for a
/// rotation with its place in the log, and the revoked member is not among
/// those that may write when it does. The consumer is told exactly where the
/// member is blocked from then on, on the host and elsewhere.
pub proof fn law_revoke_calls_for_rotation(map: PeerMapView, author: Seq<u8>, peer: PeerId, seq: u64, is_host: bool)
    requires
        author == map.host,
        peer@ != map.host,
    ensures
        ({
            let revoke = Some(CapabilityAction::Revoke { peer });
            let after = after_capability(map, author, revoke);
            &&& capability_actions(map, true, author, revoke, seq).contains(CapActionView::HostEvict(peer@, seq))
            &&& capability_actions(map, true, author, revoke, seq).contains(CapActionView::RemoveMember(peer@))
            &&& !may_write(after, peer@)
            &&& capability_actions(map, is_host, author, revoke, seq).contains(
                CapActionView::Emit(EventView::PeerRevoked(peer@)),
            ) == after.revoked.contains(peer@)
        }),
{
    let revoke = Some(CapabilityAction::Revoke { peer });
    let actions = capability_actions(map, true, author, revoke, seq);
    assert(actions[actions.len() - 2] == CapActionView::HostEvict(peer@, seq));
    assert(actions[actions.len() - 1] == CapActionView::RemoveMember(peer@));
    let told = capability_actions(map, is_host, author, revoke, seq);
    if after_capability(map, author, revoke).revoked.contains(peer@) {
        assert(told[0] == CapActionView::Emit(EventView::PeerRevoked(peer@)));
    }
}

/// An entry of the capability log that the host did not write changes nothing
/// and calls for nothing, on the host as elsewhere.
pub proof fn law_foreign_entries_call_for_nothing(map: PeerMapView, is_host: bool, author: Seq<u8>, action: Option<CapabilityAction>, seq: u64)
    requires
        author != map.host,
    ensures
        after_capability(map, author, action) == map,
        capability_actions(map, is_host, author, action, seq) == Seq::<CapActionView>::empty(),
{
}

/// What a grant of the host calls for: on the host, a grant to write brings the
/// secret to the member whenever it is granted, and a grant to read brings the
/// notice to a member that could write until then; elsewhere nothing.
pub proof fn law_grants_bring_what_they_grant(map: PeerMapView, is_host: bool, peer: PeerId, seq: u64)
    requires
        peer@ != map.host,
    ensures
        capability_actions(
            map,
            is_host,
            map.host,
            Some(CapabilityAction::Grant { peer, cap: Capability::ReadWrite }),
            seq,
        ) == (if is_host {
            seq![CapActionView::DeliverUpgrade(peer@)]
        } else {
            Seq::empty()
        }),
        capability_actions(map, is_host, map.host, Some(CapabilityAction::Grant { peer, cap: Capability::Read }), seq) == (
        if is_host && map.caps.dom().contains(peer@) && map.caps[peer@] == Capability::ReadWrite {
            seq![CapActionView::DeliverDowngrade(peer@)]
        } else {
            Seq::empty()
        }),
{
}

/// What a revoke of the host calls for, in order: the consumer is told where the
/// member held a capability or was revoked before; on the host the rotation and
/// the removal from the session follow in any case.
pub proof fn law_revokes_bring_this_and_nothing_else(map: PeerMapView, is_host: bool, peer: PeerId, seq: u64)
    requires
        peer@ != map.host,
    ensures
        ({
            let actions = capability_actions(map, is_host, map.host, Some(CapabilityAction::Revoke { peer }), seq);
            let blocked = map.caps.dom().contains(peer@) || map.revoked.contains(peer@);
            &&& blocked && is_host ==> actions == seq![
                CapActionView::Emit(EventView::PeerRevoked(peer@)),
                CapActionView::HostEvict(peer@, seq),
                CapActionView::RemoveMember(peer@),
            ]
            &&& blocked && !is_host ==> actions == seq![CapActionView::Emit(EventView::PeerRevoked(peer@))]
            &&& !blocked && is_host ==> actions == seq![
                CapActionView::HostEvict(peer@, seq),
                CapActionView::RemoveMember(peer@),
            ]
            &&& !blocked && !is_host ==> actions == Seq::<CapActionView>::empty()
        }),
{
    let actions = capability_actions(map, is_host, map.host, Some(CapabilityAction::Revoke { peer }), seq);
    let blocked = map.caps.dom().contains(peer@) || map.revoked.contains(peer@);
    if blocked && is_host {
        assert(actions =~= seq![
            CapActionView::Emit(EventView::PeerRevoked(peer@)),
            CapActionView::HostEvict(peer@, seq),
            CapActionView::RemoveMember(peer@),
        ]);
    } else if is_host {
        assert(actions =~= seq![CapActionView::HostEvict(peer@, seq), CapActionView::RemoveMember(peer@)]);
    } else if blocked {
        assert(actions =~= seq![CapActionView::Emit(EventView::PeerRevoked(peer@))]);
    } else {
        assert(actions =~= Seq::<CapActionView>::empty());
    }
}

/// An entry that does not decode calls for nothing, and neither does a grant or
/// a revoke of the host itself, but that a grant to write brings the host its
/// own secret.
pub proof fn law_entries_about_nobody_else(map: PeerMapView, is_host: bool, peer: PeerId, seq: u64)
    requires
        peer@ == map.host,
        map.caps.dom().contains(map.host),
        map.caps[map.host] == Capability::ReadWrite,
        !map.revoked.contains(map.host),
    ensures
        capability_actions(map, is_host, map.host, None, seq) == Seq::<CapActionView>::empty(),
        capability_actions(map, is_host, map.host, Some(CapabilityAction::Revoke { peer }), seq) == Seq::<
            CapActionView,
        >::empty(),
        capability_actions(map, is_host, map.host, Some(CapabilityAction::Grant { peer, cap: Capability::Read }), seq)
            == Seq::<CapActionView>::empty(),
        capability_actions(
            map,
            is_host,
            map.host,
            Some(CapabilityAction::Grant { peer, cap: Capability::ReadWrite }),
            seq,
        ) == (if is_host {
            seq![CapActionView::DeliverUpgrade(peer@)]
        } else {
            Seq::empty()
        }),
{
    assert(capability_actions(map, is_host, map.host, Some(CapabilityAction::Revoke { peer }), seq) =~= Seq::<
        CapActionView,
    >::empty());
}

/// An announcement links the endpoint that it names to its author, in every
/// role and whatever the author may do; one that names none changes nothing and
/// calls for nothing.
pub proof fn law_announcements_link_their_author(map: PeerMapView, role: RoleView, author: Seq<u8>, seq: u64, endpoint: Seq<u8>)
    ensures
        map_after_announcement(map, author, Some(endpoint)).members == map.members.insert(endpoint, author),
        map_after_announcement(map, author, Some(endpoint)).caps == map.caps,
        map_after_announcement(map, author, Some(endpoint)).revoked == map.revoked,
        map_after_announcement(map, author, Some(endpoint)).host == map.host,
        map_after_announcement(map, author, Some(endpoint)).readiness == map.readiness,
        map_after_announcement(map, author, None) == map,
        role_after_announcement(map, role, author, seq, None) == role,
        announcement_actions(map, role, author, seq, None) == Seq::<CapActionView>::empty(),
{
}

/// A host answers the announcement of a member that may write exactly where the
/// member was not served at this epoch, or where the announcement is later than
/// those that it saw; it answers with the secret and the ticket of its epoch,
/// and remembers the announcement in either case.
pub proof fn law_hosts_answer_writers(map: PeerMapView, epoch: u64, served: RedeliveryView, author: Seq<u8>, seq: u64, endpoint: Seq<u8>)
    ensures
        ({
            let role = RoleView::Host(epoch, served);
            let writes = map.caps.dom().contains(author) && map.caps[author] == Capability::ReadWrite;
            let news = !served.epochs.dom().contains(author) || served.epochs[author] < epoch
                || !served.announces.dom().contains(author) || served.announces[author] < seq;
            let actions = announcement_actions(map, role, author, seq, Some(endpoint));
            &&& writes && news ==> actions == seq![CapActionView::Redeliver(author, epoch)]
            &&& !(writes && news) ==> actions == Seq::<CapActionView>::empty()
            &&& writes ==> role_after_announcement(map, role, author, seq, Some(endpoint)) == RoleView::Host(
                epoch,
                after_announce(served, author, seq, epoch),
            )
            &&& !writes ==> role_after_announcement(map, role, author, seq, Some(endpoint)) == role
        }),
{
}

/// Nobody but a host answers announcements.
pub proof fn law_only_hosts_answer(map: PeerMapView, role: RoleView, author: Seq<u8>, seq: u64, endpoint: Option<Seq<u8>>)
    requires
        !(role is Host),
    ensures
        announcement_actions(map, role, author, seq, endpoint) == Seq::<CapActionView>::empty(),
        role_after_announcement(map, role, author, seq, endpoint) == role,
{
}

/// What the host delivers to a member reaches it: the secret is imported, the
/// notice is told and halts the member, and the ticket goes to the rotation
/// task with its epoch. None of it changes the map.
pub proof fn law_deliveries_reach_the_member(
    map: PeerMapView,
    me: Seq<u8>,
    halted: bool,
    message: SessionMessage,
    upgrade: UpgradePayload,
    notice: DowngradePayload,
    rotate: RotatePayload,
)
    requires
        message.author@ == map.host,
        upgrade.target_peer@ == me,
        notice.target_peer@ == me,
        rotate.target_peer@ == me,
    ensures
        ({
            let role = RoleView::Joiner(me, halted);
            let a = SessionMessage { body: MessageBody::Upgrade(Some(upgrade)), ..message };
            let b = SessionMessage { body: MessageBody::Downgrade(Some(notice)), ..message };
            let c = SessionMessage { body: MessageBody::Rotate(Some(rotate)), ..message };
            &&& message_actions(map, role, a) == seq![CapActionView::ImportSecret(upgrade.namespace_secret@)]
            &&& message_actions(map, role, b) == seq![CapActionView::Emit(EventView::Demoted)]
            &&& message_actions(map, role, c) == seq![
                CapActionView::SurvivorRotate(rotate.namespace_epoch, rotate.doc_ticket@),
            ]
            &&& role_after_message(map, role, a) == role
            &&& role_after_message(map, role, b) == RoleView::Joiner(me, true)
            &&& role_after_message(map, role, c) == role
            &&& map_after_message(map, a) == map
            &&& map_after_message(map, b) == map
            &&& map_after_message(map, c) == map
        }),
{
}

/// A message of the capability log is taken in as what its author wrote, at its
/// place; it changes no role. A member's announcement is read from the bytes of
/// its message, and other messages of the system, and those for applications,
/// do nothing.
pub proof fn law_messages_mean_what_they_hold(map: PeerMapView, role: RoleView, message: SessionMessage)
    ensures
        message.body matches MessageBody::Capability(action) ==> {
            &&& map_after_message(map, message) == after_capability(map, message.author@, action)
            &&& role_after_message(map, role, message) == role
            &&& message_actions(map, role, message) == capability_actions(
                map,
                role is Host,
                message.author@,
                action,
                message.seq,
            )
        },
        message.body matches MessageBody::System { action, payload } ==> {
            let endpoint = if payload@.len() == 32 && crate::endpoint::is_endpoint(payload@) {
                Some(payload@)
            } else {
                None
            };
            if action@ == NODE_ID_ACTION@ {
                &&& map_after_message(map, message) == map_after_announcement(map, message.author@, endpoint)
                &&& role_after_message(map, role, message) == role_after_announcement(
                    map,
                    role,
                    message.author@,
                    message.seq,
                    endpoint,
                )
                &&& message_actions(map, role, message) == announcement_actions(
                    map,
                    role,
                    message.author@,
                    message.seq,
                    endpoint,
                )
            } else {
                &&& map_after_message(map, message) == map
                &&& role_after_message(map, role, message) == role
                &&& message_actions(map, role, message) == Seq::<CapActionView>::empty()
            }
        },
        message.body is Other ==> {
            &&& map_after_message(map, message) == map
            &&& role_after_message(map, role, message) == role
            &&& message_actions(map, role, message) == Seq::<CapActionView>::empty()
        },
{
}

/// Events of other sessions change nothing, call for nothing and are passed
/// over.
pub proof fn law_other_sessions_do_not_matter(map: PeerMapView, role: RoleView, event: SessionEvent, session: Seq<u8>)
    requires
        match event {
            SessionEvent::Message { session: id, .. } => id@ != session,
            SessionEvent::PeerJoined { session: id, .. } => id@ != session,
            SessionEvent::Gap { session: id } => id@ != session,
            SessionEvent::ReplayComplete { session: id } => id@ != session,
            SessionEvent::Other => true,
        },
    ensures
        map_after_event(map, event, session) == map,
        role_after_event(map, role, event, session) == role,
        event_actions(map, role, event, session) == Seq::<CapActionView>::empty(),
        event_outcome(event, session) == CapOutcome::Ignored,
{
}

/// A message of the session is taken in, and its place is the new mark of the
/// one who reads, whatever the message is.
pub proof fn law_messages_are_taken_in(map: PeerMapView, role: RoleView, session: SessionId, message: SessionMessage)
    ensures
        ({
            let event = SessionEvent::Message { session, message };
            &&& map_after_event(map, event, session@) == map_after_message(map, message)
            &&& role_after_event(map, role, event, session@) == role_after_message(map, role, message)
            &&& event_actions(map, role, event, session@) == message_actions(map, role, message)
            &&& event_outcome(event, session@) == CapOutcome::Advanced(message.seq)
        }),
{
}

/// One who joins and may write is sent the secret by the host; nobody else is
/// sent anything. A gap asks for the messages again, and the end of the log
/// makes the map ready, unless it is closed for good.
pub proof fn law_other_events_of_the_session(map: PeerMapView, role: RoleView, session: SessionId, peer: PeerId)
    ensures
        ({
            let joined = SessionEvent::PeerJoined { session, peer };
            let gap = SessionEvent::Gap { session };
            let done = SessionEvent::ReplayComplete { session };
            let writes = map.caps.dom().contains(peer@) && map.caps[peer@] == Capability::ReadWrite;
            &&& role is Host && writes ==> event_actions(map, role, joined, session@) == seq![
                CapActionView::DeliverUpgrade(peer@),
            ]
            &&& !(role is Host && writes) ==> event_actions(map, role, joined, session@) == Seq::<CapActionView>::empty()
            &&& map_after_event(map, joined, session@) == map
            &&& role_after_event(map, role, joined, session@) == role
            &&& event_outcome(joined, session@) == CapOutcome::Ignored
            &&& event_outcome(gap, session@) == CapOutcome::Gap
            &&& map_after_event(map, gap, session@) == map
            &&& role_after_event(map, role, gap, session@) == role
            &&& event_actions(map, role, gap, session@) == Seq::<CapActionView>::empty()
            &&& event_outcome(done, session@) == CapOutcome::Ignored
            &&& role_after_event(map, role, done, session@) == role
            &&& event_actions(map, role, done, session@) == Seq::<CapActionView>::empty()
            &&& map_after_event(map, done, session@).readiness == (if map.readiness == Readiness::Closed {
                Readiness::Closed
            } else {
                Readiness::Ready
            })
            &&& map_after_event(map, done, session@).members == map.members
            &&& map_after_event(map, done, session@).caps == map.caps
            &&& map_after_event(map, done, session@).revoked == map.revoked
            &&& map_after_event(map, done, session@).host == map.host
        }),
{
}

/// A delivery of the host that names this member takes effect on it, whatever
/// came before, and one that names somebody else, or that somebody else wrote,
/// does not: a member is halted exactly by the notice that is for it.
pub proof fn law_members_are_halted_by_their_notice(map: &mut PeerMap, role: &mut Role, message: &SessionMessage, actions: Vec<CapAction>, me: Seq<u8>, halted: bool)
    requires
        call_ensures(handle_message, (map, role, message), actions),
        old(role)@ == RoleView::Joiner(me, halted),
    ensures
        ({
            let mine = message.author@ == old(map)@.host && (message.body matches MessageBody::Downgrade(Some(notice))
                && notice.target_peer@ == me);
            final(role)@ == RoleView::Joiner(me, halted || mine)
        }),
        final(map)@.host == old(map)@.host,
        final(map)@.readiness == old(map)@.readiness,
{
}

/// Taking in an event of another session leaves the map and the role as they
/// were and calls for nothing.
pub proof fn law_foreign_events_are_passed_over(event: &SessionEvent, session: &SessionId, map: &mut PeerMap, role: &mut Role, res: (CapOutcome, Vec<CapAction>))
    requires
        call_ensures(handle_cap_event, (event, session, map, role), res),
        match *event {
            SessionEvent::Message { session: id, .. } => id@ != session@,
            SessionEvent::PeerJoined { session: id, .. } => id@ != session@,
            SessionEvent::Gap { session: id } => id@ != session@,
            SessionEvent::ReplayComplete { session: id } => id@ != session@,
            SessionEvent::Other => true,
        },
    ensures
        final(map)@ == old(map)@,
        final(role)@ == old(role)@,
        res.0 == CapOutcome::Ignored,
        res.1@.len() == 0,
{
    assert(actions_view(res.1@).len() == res.1@.len());
}

} // verus!
