//! Keeps revoked peers off the network side of a workspace: dials to them,
//! connections from them, and their document sync.
use vstd::prelude::*;

use crate::events::{Direction, EventView, WorkspaceEvent};
use crate::ids::{EndpointId, PeerId};
use crate::peer_map::{after_capability, revoked_behind, CapabilityAction, PeerMap, PeerMapView};

verus! {

/// The code with which a connection of a revoked peer is closed.
pub const REVOKED_CODE: u32 = 1;

/// The reason with which a connection of a revoked peer is closed.
pub const REVOKED_REASON: &'static str = "revoked";

/// Which side of a connection this node is.
#[derive(Clone, Copy, Debug, PartialEq, Eq, Structural)]
pub enum Side {
    /// This node dialed.
    Client,
    /// This node was dialed.
    Server,
}

/// What becomes of a connection.
#[derive(Clone, Debug, PartialEq, Eq)]
pub enum Gate {
    /// It goes on.
    Accept,
    /// It is refused, and the consumer is told.
    Reject {
        /// What the consumer is told.
        event: WorkspaceEvent,
    },
}

/// What the consumer is told of a connection that is refused.
pub open spec fn gate_view(gate: Gate) -> Option<EventView> {
    match gate {
        Gate::Accept => None,
        Gate::Reject { event } => Some(event@),
    }
}

/// What the consumer is told of a connection with an endpoint, if it is
/// refused.
pub open spec fn blocked(map: PeerMapView, endpoint: Seq<u8>, direction: Direction) -> Option<EventView> {
    match revoked_behind(map, endpoint) {
        Some(peer) => Some(EventView::RevokedPeerBlocked(peer, direction)),
        None => None,
    }
}

fn gate(map: &PeerMap, endpoint: &EndpointId, direction: Direction) -> (res: Gate)
    ensures
        gate_view(res) == blocked(map@, endpoint@, direction),
{
    match map.revoked_daemon_peer(endpoint) {
        Some(peer) => Gate::Reject { event: WorkspaceEvent::RevokedPeerBlocked { peer, direction } },
        None => Gate::Accept,
    }
}

/// Whether this node may dial an endpoint, whatever for.
pub fn before_connect(map: &PeerMap, remote: &EndpointId) -> (res: Gate)
    ensures
        gate_view(res) == blocked(map@, remote@, Direction::Outgoing),
{
    gate(map, remote, Direction::Outgoing)
}

/// Whether a connection goes on after the handshake. Those that this node
/// dialed were judged before.
pub fn after_handshake(map: &PeerMap, side: Side, remote: &EndpointId) -> (res: Gate)
    ensures
        gate_view(res) == (if side == Side::Server {
            blocked(map@, remote@, Direction::Incoming)
        } else {
            None
        }),
{
    if side == Side::Server {
        gate(map, remote, Direction::Incoming)
    } else {
        Gate::Accept
    }
}

/// Whether a peer that dialed may sync documents.
pub fn accept_docs(map: &PeerMap, remote: &EndpointId) -> (res: Gate)
    ensures
        gate_view(res) == blocked(map@, remote@, Direction::Incoming),
{
    gate(map, remote, Direction::Incoming)
}

/// From the moment that the host revokes a member that held a capability,
/// nobody dials its endpoints and it comes in from none of them, and the consumer is told which member it
/// was.
pub proof fn law_revoked_members_are_blocked(map: PeerMapView, peer: PeerId, endpoint: Seq<u8>, direction: Direction)
    requires
        map.members.dom().contains(endpoint),
        map.members[endpoint] == peer@,
        peer@ != map.host,
        map.caps.dom().contains(peer@) || map.revoked.contains(peer@),
    ensures
        blocked(after_capability(map, map.host, Some(CapabilityAction::Revoke { peer })), endpoint, direction) == Some(
            EventView::RevokedPeerBlocked(peer@, direction),
        ),
{
}

/// A connection is refused exactly where the endpoint is linked to a member
/// that is revoked; the consumer is told that member and who dialed.
pub proof fn law_only_revoked_members_are_blocked(map: PeerMapView, endpoint: Seq<u8>, direction: Direction)
    ensures
        map.members.dom().contains(endpoint) && map.revoked.contains(map.members[endpoint]) ==> blocked(
            map,
            endpoint,
            direction,
        ) == Some(EventView::RevokedPeerBlocked(map.members[endpoint], direction)),
        !(map.members.dom().contains(endpoint) && map.revoked.contains(map.members[endpoint])) ==> blocked(
            map,
            endpoint,
            direction,
        ) is None,
{
}

/// A dial is judged before it, whatever it is for; a connection that comes in
/// is judged after its handshake and again for documents. One that this node
/// dialed is not judged twice.
pub proof fn law_connections_are_judged(map: &PeerMap, remote: &EndpointId, side: Side, dial: Gate, shaken: Gate, docs: Gate)
    requires
        call_ensures(before_connect, (map, remote), dial),
        call_ensures(after_handshake, (map, side, remote), shaken),
        call_ensures(accept_docs, (map, remote), docs),
    ensures
        ({
            let revoked = map@.members.dom().contains(remote@) && map@.revoked.contains(map@.members[remote@]);
            &&& dial is Reject <==> revoked
            &&& shaken is Reject <==> revoked && side == Side::Server
            &&& docs is Reject <==> revoked
            &&& dial matches Gate::Reject { event } ==> event@ == EventView::RevokedPeerBlocked(
                map@.members[remote@],
                Direction::Outgoing,
            )
            &&& shaken matches Gate::Reject { event } ==> event@ == EventView::RevokedPeerBlocked(
                map@.members[remote@],
                Direction::Incoming,
            )
            &&& docs matches Gate::Reject { event } ==> event@ == EventView::RevokedPeerBlocked(
                map@.members[remote@],
                Direction::Incoming,
            )
        }),
{
}

} // verus!
