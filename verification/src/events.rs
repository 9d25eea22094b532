//! What a workspace tells its consumer while it runs.
use vstd::prelude::*;

use crate::ids::PeerId;
use crate::path::FsPath;

verus! {

/// How many events wait for the consumer before further ones are dropped.
pub const EVENT_BUFFER: usize = 64;

/// Which side of the workspace an event is about.
#[derive(Clone, Copy, Debug, PartialEq, Eq, Structural)]
pub enum Direction {
    /// A peer did something that was refused here.
    Incoming,
    /// Something done here was not sent out.
    Outgoing,
}

/// One thing that a consumer may want to know.
#[derive(Clone, Debug, PartialEq, Eq)]
pub enum WorkspaceEvent {
    /// A peer's write landed on disk.
    PeerWrote {
        /// The path.
        path: FsPath,
    },
    /// A peer's delete removed a file.
    PeerDeleted {
        /// The path.
        path: FsPath,
    },
    /// A file is over the size limit.
    SkippedTooLarge {
        /// The path.
        path: FsPath,
        /// Its size in bytes.
        size: u64,
    },
    /// The path rules make a path read-only.
    SkippedReadOnly {
        /// The path.
        path: FsPath,
        /// The side on which it was skipped.
        direction: Direction,
    },
    /// The exclude rules of this node match a path.
    SkippedExcluded {
        /// The path.
        path: FsPath,
        /// The side on which it was skipped.
        direction: Direction,
    },
    /// The content of a path is on its way.
    Transferring {
        /// The path.
        path: FsPath,
        /// How many bytes have arrived.
        received: u64,
        /// How many bytes there are.
        total: u64,
    },
    /// The host made this node a reader.
    Demoted,
    /// The host revoked a peer.
    PeerRevoked {
        /// The peer.
        peer: PeerId,
    },
    /// A connection with a revoked peer was refused.
    RevokedPeerBlocked {
        /// The peer.
        peer: PeerId,
        /// Who dialed.
        direction: Direction,
    },
    /// Something failed; the workspace goes on.
    Error(String),
}

/// A [`WorkspaceEvent`] over sequences.
pub enum EventView {
    /// [`WorkspaceEvent::PeerWrote`].
    PeerWrote(Seq<u8>),
    /// [`WorkspaceEvent::PeerDeleted`].
    PeerDeleted(Seq<u8>),
    /// [`WorkspaceEvent::SkippedTooLarge`].
    SkippedTooLarge(Seq<u8>, u64),
    /// [`WorkspaceEvent::SkippedReadOnly`].
    SkippedReadOnly(Seq<u8>, Direction),
    /// [`WorkspaceEvent::SkippedExcluded`].
    SkippedExcluded(Seq<u8>, Direction),
    /// [`WorkspaceEvent::Transferring`].
    Transferring(Seq<u8>, u64, u64),
    /// [`WorkspaceEvent::Demoted`].
    Demoted,
    /// [`WorkspaceEvent::PeerRevoked`].
    PeerRevoked(Seq<u8>),
    /// [`WorkspaceEvent::RevokedPeerBlocked`].
    RevokedPeerBlocked(Seq<u8>, Direction),
    /// [`WorkspaceEvent::Error`].
    Error(Seq<char>),
}

impl View for WorkspaceEvent {
    type V = EventView;

    open spec fn view(&self) -> EventView {
        match *self {
            WorkspaceEvent::PeerWrote { path } => EventView::PeerWrote(path@),
            WorkspaceEvent::PeerDeleted { path } => EventView::PeerDeleted(path@),
            WorkspaceEvent::SkippedTooLarge { path, size } => EventView::SkippedTooLarge(path@, size),
            WorkspaceEvent::SkippedReadOnly { path, direction } => EventView::SkippedReadOnly(path@, direction),
            WorkspaceEvent::SkippedExcluded { path, direction } => EventView::SkippedExcluded(path@, direction),
            WorkspaceEvent::Transferring { path, received, total } => EventView::Transferring(path@, received, total),
            WorkspaceEvent::Demoted => EventView::Demoted,
            WorkspaceEvent::PeerRevoked { peer } => EventView::PeerRevoked(peer@),
            WorkspaceEvent::RevokedPeerBlocked { peer, direction } => EventView::RevokedPeerBlocked(peer@, direction),
            WorkspaceEvent::Error(text) => EventView::Error(text@),
        }
    }
}

/// A list of events over sequences.
pub open spec fn events_view(events: Seq<WorkspaceEvent>) -> Seq<EventView> {
    events.map_values(|e: WorkspaceEvent| e@)
}

} // verus!
