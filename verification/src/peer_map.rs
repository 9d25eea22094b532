//! Who is who, and who may write.
//!
//! The map links network endpoints to session members and follows the host's
//! capability log: the latest grant of each member, and who was revoked. While
//! the log is replayed the map is not ready, and what depends on its final
//! state waits.
use vstd::prelude::*;

use crate::ids::{EndpointId, Key, PeerId};
use crate::table::Table;

verus! {

/// What a member may do.
#[derive(Clone, Copy, Debug, PartialEq, Eq, Structural)]
pub enum Capability {
    /// Read only.
    Read,
    /// Read and write.
    ReadWrite,
}

/// One entry of the capability log.
#[derive(Clone, Copy, Debug, PartialEq, Eq)]
pub enum CapabilityAction {
    /// The host gives a member a capability.
    Grant {
        /// The member.
        peer: PeerId,
        /// What the member may do from now on.
        cap: Capability,
    },
    /// The host takes a member's capability away.
    Revoke {
        /// The member.
        peer: PeerId,
    },
}

/// What becomes of the entries of an author when the namespace is rotated.
#[derive(Clone, Copy, Debug, PartialEq, Eq, Structural)]
pub enum AuthorDisposition {
    /// The author may write: the entries are kept.
    Rw,
    /// The author was revoked: the entries are dropped, as intended.
    Revoked,
    /// The author is known and may not write: the entries are dropped.
    NotRw,
    /// Nobody knows who the author is: the entries are dropped, which may
    /// lose the data of a member whose announcement is still under way.
    Unresolvable,
}

/// Whether the capability log has been read to its end.
#[derive(Clone, Copy, Debug, PartialEq, Eq, Structural)]
pub enum Readiness {
    /// It has.
    Ready,
    /// It is being replayed.
    Replaying,
    /// It never will be: the workspace is going down.
    Closed,
}

/// What the map holds, over sequences, maps and sets.
pub struct PeerMapView {
    /// The member behind each endpoint.
    pub members: Map<Seq<u8>, Seq<u8>>,
    /// What each member may do.
    pub caps: Map<Seq<u8>, Capability>,
    /// Members that were revoked and not granted anything since.
    pub revoked: Set<Seq<u8>>,
    /// The host.
    pub host: Seq<u8>,
    /// Whether the capability log has been read.
    pub readiness: Readiness,
}

/// The peer map of one workspace.
pub struct PeerMap {
    id_map: Table<EndpointId, PeerId>,
    caps: Table<PeerId, Capability>,
    revoked: Table<PeerId, ()>,
    host: PeerId,
    readiness: Readiness,
}

impl View for PeerMap {
    type V = PeerMapView;

    closed spec fn view(&self) -> PeerMapView {
        PeerMapView {
            members: self.id_map@.map_values(|p: PeerId| p@),
            caps: self.caps@,
            revoked: self.revoked@.dom(),
            host: self.host@,
            readiness: self.readiness,
        }
    }
}

/// The map of a workspace that knows its host alone.
pub open spec fn map_of_host(host: Seq<u8>, readiness: Readiness) -> PeerMapView {
    PeerMapView {
        members: Map::empty(),
        caps: Map::empty().insert(host, Capability::ReadWrite),
        revoked: Set::empty(),
        host,
        readiness,
    }
}

/// The map after an endpoint was linked to a member.
pub open spec fn after_register(map: PeerMapView, endpoint: Seq<u8>, peer: Seq<u8>) -> PeerMapView {
    PeerMapView { members: map.members.insert(endpoint, peer), ..map }
}

/// The member that an entry of the capability log is about.
pub open spec fn subject(action: Option<CapabilityAction>) -> Option<Seq<u8>> {
    match action {
        None => None,
        Some(CapabilityAction::Grant { peer, .. }) => Some(peer@),
        Some(CapabilityAction::Revoke { peer }) => Some(peer@),
    }
}

/// Whether a member holds a capability, or held one when it was revoked.
pub open spec fn was_member(map: PeerMapView, peer: Seq<u8>) -> bool {
    map.caps.dom().contains(peer) || map.revoked.contains(peer)
}

/// The map after an entry of the capability log. Only what the host wrote
/// counts, and nothing takes the host's own capability away. Somebody who
/// never held a capability has none to lose, and is not revoked.
pub open spec fn after_capability(map: PeerMapView, author: Seq<u8>, action: Option<CapabilityAction>) -> PeerMapView {
    if author != map.host || subject(action) == Some(map.host) {
        map
    } else {
        match action {
            None => map,
            Some(CapabilityAction::Grant { peer, cap }) => PeerMapView {
                caps: map.caps.insert(peer@, cap),
                revoked: map.revoked.remove(peer@),
                ..map
            },
            Some(CapabilityAction::Revoke { peer }) => PeerMapView {
                caps: map.caps.remove(peer@),
                revoked: if was_member(map, peer@) {
                    map.revoked.insert(peer@)
                } else {
                    map.revoked
                },
                ..map
            },
        }
    }
}

/// Whether a member may write.
pub open spec fn may_write(map: PeerMapView, peer: Seq<u8>) -> bool {
    map.caps.dom().contains(peer) && map.caps[peer] == Capability::ReadWrite
}

/// The revoked member behind an endpoint, if there is one.
pub open spec fn revoked_behind(map: PeerMapView, endpoint: Seq<u8>) -> Option<Seq<u8>> {
    if map.members.dom().contains(endpoint) && map.revoked.contains(map.members[endpoint]) {
        Some(map.members[endpoint])
    } else {
        None
    }
}

/// What becomes of the entries of an author.
pub open spec fn disposition(map: PeerMapView, author: Seq<u8>) -> AuthorDisposition {
    if !map.members.dom().contains(author) {
        AuthorDisposition::Unresolvable
    } else if may_write(map, map.members[author]) {
        AuthorDisposition::Rw
    } else if map.revoked.contains(map.members[author]) {
        AuthorDisposition::Revoked
    } else {
        AuthorDisposition::NotRw
    }
}

/// Whether a member has to be told of a rotation: it may write and is not the
/// host.
pub open spec fn is_survivor(map: PeerMapView, peer: Seq<u8>) -> bool {
    peer != map.host && may_write(map, peer)
}

impl PeerMap {
    /// A map that is ready and knows the host alone, who may write.
    pub fn new(host: PeerId) -> (map: PeerMap)
        ensures
            map@ == map_of_host(host@, Readiness::Ready),
    {
        PeerMap::start(host, Readiness::Ready)
    }

    /// The same, but waiting for the capability log to be replayed.
    pub fn replaying(host: PeerId) -> (map: PeerMap)
        ensures
            map@ == map_of_host(host@, Readiness::Replaying),
    {
        PeerMap::start(host, Readiness::Replaying)
    }

    fn start(host: PeerId, readiness: Readiness) -> (map: PeerMap)
        ensures
            map@ == map_of_host(host@, readiness),
    {
        let mut caps: Table<PeerId, Capability> = Table::new();
        caps.insert(host, Capability::ReadWrite);
        let map = PeerMap { id_map: Table::new(), caps, revoked: Table::new(), host, readiness };
        assert(map@.members =~= Map::empty());
        assert(map@.revoked =~= Set::empty());
        map
    }

    /// Links an endpoint to a member, and says whether the member is revoked.
    pub fn register(&mut self, workspace_id: EndpointId, daemon_peer: PeerId) -> (is_revoked: bool)
        ensures
            final(self)@ == after_register(old(self)@, workspace_id@, daemon_peer@),
            is_revoked == old(self)@.revoked.contains(daemon_peer@),
    {
        let is_revoked = self.revoked.contains(&daemon_peer);
        self.id_map.insert(workspace_id, daemon_peer);
        assert(self@.members =~= after_register(old(self)@, workspace_id@, daemon_peer@).members);
        is_revoked
    }

    /// Follows one entry of the capability log; `None` is an entry that does
    /// not decode.
    pub fn apply_capability(&mut self, author: PeerId, action: Option<CapabilityAction>)
        ensures
            final(self)@ == after_capability(old(self)@, author@, action),
    {
        if !author.same(&self.host) {
            return;
        }
        match action {
            None => {},
            Some(CapabilityAction::Grant { peer, cap }) => {
                if !peer.same(&self.host) {
                    self.caps.insert(peer, cap);
                    self.revoked.remove(&peer);
                    assert(self@.revoked =~= after_capability(old(self)@, author@, action).revoked);
                }
            },
            Some(CapabilityAction::Revoke { peer }) => {
                if !peer.same(&self.host) {
                    if self.caps.remove(&peer).is_some() {
                        self.revoked.insert(peer, ());
                    }
                    assert(self@.revoked =~= after_capability(old(self)@, author@, action).revoked);
                }
            },
        }
    }

    /// The host.
    pub fn host_peer_id(&self) -> (host: PeerId)
        ensures
            host@ == self@.host,
    {
        self.host
    }

    /// Whether a member may write.
    pub fn has_rw(&self, peer: &PeerId) -> (res: bool)
        ensures
            res == may_write(self@, peer@),
    {
        match self.caps.get(peer) {
            Some(cap) => *cap == Capability::ReadWrite,
            None => false,
        }
    }

    /// Whether a member is revoked.
    pub fn is_revoked(&self, peer: &PeerId) -> (res: bool)
        ensures
            res == self@.revoked.contains(peer@),
    {
        self.revoked.contains(peer)
    }

    /// The members that may write, without the host, each once.
    pub fn rw_peers_except_host(&self) -> (list: Vec<PeerId>)
        ensures
            forall|i: int| 0 <= i < list@.len() ==> is_survivor(self@, (#[trigger] list@[i])@),
            forall|p: Seq<u8>| #[trigger] is_survivor(self@, p) ==> exists|i: int| 0 <= i < list@.len() && (#[trigger] list@[i])@ == p,
            forall|i: int, j: int| 0 <= i < j < list@.len() ==> (#[trigger] list@[i])@ != (#[trigger] list@[j])@,
    {
        let keys = self.caps.keys();
        let mut list: Vec<PeerId> = Vec::new();
        let mut i: usize = 0;
        while i < keys.len()
            invariant
                i <= keys@.len(),
                forall|k: int| 0 <= k < list@.len() ==> is_survivor(self@, (#[trigger] list@[k])@),
                forall|k: int| 0 <= k < list@.len() ==> exists|j: int| 0 <= j < i && (#[trigger] keys@[j])@ == (#[trigger] list@[k])@,
                forall|j: int| 0 <= j < i && is_survivor(self@, (#[trigger] keys@[j])@) ==> exists|k: int|
                    0 <= k < list@.len() && (#[trigger] list@[k])@ == keys@[j]@,
                forall|a: int, b: int| 0 <= a < b < list@.len() ==> (#[trigger] list@[a])@ != (#[trigger] list@[b])@,
                forall|a: int, b: int| 0 <= a < b < keys@.len() ==> (#[trigger] keys@[a])@ != (#[trigger] keys@[b])@,
            decreases keys@.len() - i,
        {
            let peer = keys[i];
            let ghost before = list@;
            if !peer.same(&self.host) && self.has_rw(&peer) {
                assert forall|k: int| 0 <= k < before.len() implies (#[trigger] before[k])@ != peer@ by {
                    let j = choose|j: int| 0 <= j < i && (#[trigger] keys@[j])@ == before[k]@;
                    assert(keys@[j]@ != keys@[i as int]@);
                }
                list.push(peer);
                assert forall|k: int| 0 <= k < list@.len() implies exists|j: int| 0 <= j < i + 1 && (#[trigger] keys@[j])@ == (#[trigger] list@[k])@ by {
                    if k < before.len() {
                        assert(list@[k] == before[k]);
                        let j = choose|j: int| 0 <= j < i && (#[trigger] keys@[j])@ == before[k]@;
                        assert(keys@[j]@ == list@[k]@);
                    } else {
                        assert(keys@[i as int]@ == list@[k]@);
                    }
                }
                assert forall|j: int| 0 <= j < i + 1 && is_survivor(self@, (#[trigger] keys@[j])@) implies exists|k: int|
                    0 <= k < list@.len() && (#[trigger] list@[k])@ == keys@[j]@ by {
                    if j < i {
                        let k = choose|k: int| 0 <= k < before.len() && (#[trigger] before[k])@ == keys@[j]@;
                        assert(list@[k] == before[k]);
                    } else {
                        assert(list@[before.len() as int]@ == keys@[j]@);
                    }
                }
            }
            i += 1;
        }
        assert forall|p: Seq<u8>| #[trigger] is_survivor(self@, p) implies exists|k: int| 0 <= k < list@.len() && (#[trigger] list@[k])@ == p by {
            assert(self.caps@.dom().contains(p));
            let j = choose|j: int| 0 <= j < keys@.len() && (#[trigger] keys@[j])@ == p;
            assert(is_survivor(self@, keys@[j]@));
        }
        list
    }

    /// What becomes of the entries of an author at a rotation.
    pub fn classify_author(&self, workspace_id: &EndpointId) -> (res: AuthorDisposition)
        ensures
            res == disposition(self@, workspace_id@),
    {
        match self.id_map.get(workspace_id) {
            None => AuthorDisposition::Unresolvable,
            Some(peer) => if self.has_rw(peer) {
                AuthorDisposition::Rw
            } else if self.revoked.contains(peer) {
                AuthorDisposition::Revoked
            } else {
                AuthorDisposition::NotRw
            },
        }
    }

    /// The revoked member behind an endpoint, if there is one.
    pub fn revoked_daemon_peer(&self, workspace_id: &EndpointId) -> (res: Option<PeerId>)
        ensures
            match res {
                Some(peer) => revoked_behind(self@, workspace_id@) == Some(peer@),
                None => revoked_behind(self@, workspace_id@) is None,
            },
    {
        match self.id_map.get(workspace_id) {
            None => None,
            Some(peer) => if self.revoked.contains(peer) {
                Some(*peer)
            } else {
                None
            },
        }
    }

    /// A replay of the capability log begins. A closed map stays closed.
    pub fn begin_replay(&mut self)
        ensures
            final(self)@ == (PeerMapView {
                readiness: if old(self)@.readiness == Readiness::Closed {
                    Readiness::Closed
                } else {
                    Readiness::Replaying
                },
                ..old(self)@
            }),
    {
        if self.readiness != Readiness::Closed {
            self.readiness = Readiness::Replaying;
        }
    }

    /// The replay has come to its end. A closed map stays closed.
    pub fn finish_replay(&mut self)
        ensures
            final(self)@ == (PeerMapView {
                readiness: if old(self)@.readiness == Readiness::Closed {
                    Readiness::Closed
                } else {
                    Readiness::Ready
                },
                ..old(self)@
            }),
    {
        if self.readiness != Readiness::Closed {
            self.readiness = Readiness::Ready;
        }
    }

    /// No replay will ever end: whoever waits is let go.
    pub fn close(&mut self)
        ensures
            final(self)@ == (PeerMapView { readiness: Readiness::Closed, ..old(self)@ }),
    {
        self.readiness = Readiness::Closed;
    }

    /// Whether the capability log has been read to its end.
    pub fn is_ready(&self) -> (res: bool)
        ensures
            res == (self@.readiness == Readiness::Ready),
    {
        self.readiness == Readiness::Ready
    }

    /// What a caller that waits for the end of the replay gets: nothing yet,
    /// or whether the end was reached.
    pub fn poll_ready(&self) -> (res: Option<bool>)
        ensures
            res == (match self@.readiness {
                Readiness::Ready => Some(true),
                Readiness::Replaying => None,
                Readiness::Closed => Some(false),
            }),
    {
        match self.readiness {
            Readiness::Ready => Some(true),
            Readiness::Replaying => None,
            Readiness::Closed => Some(false),
        }
    }
}

/// Entries that the host did not write change nothing.
pub proof fn law_only_the_host_changes_capabilities(map: PeerMapView, author: Seq<u8>, action: Option<CapabilityAction>)
    requires
        author != map.host,
    ensures
        after_capability(map, author, action) == map,
{
}

/// A member that the host revokes may not write, and is blocked behind each of
/// its endpoints, until the host grants it something again.
pub proof fn law_revoke_blocks(map: PeerMapView, peer: PeerId, endpoint: Seq<u8>, cap: Capability)
    requires
        map.members.dom().contains(endpoint),
        map.members[endpoint] == peer@,
        peer@ != map.host,
        map.caps.dom().contains(peer@) || map.revoked.contains(peer@),
    ensures
        ({
            let revoked = after_capability(map, map.host, Some(CapabilityAction::Revoke { peer }));
            let granted = after_capability(revoked, map.host, Some(CapabilityAction::Grant { peer, cap }));
            &&& !may_write(revoked, peer@)
            &&& revoked_behind(revoked, endpoint) == Some(peer@)
            &&& disposition(revoked, endpoint) == AuthorDisposition::Revoked
            &&& !is_survivor(revoked, peer@)
            &&& revoked_behind(granted, endpoint) is None
            &&& may_write(granted, peer@) == (cap == Capability::ReadWrite)
        }),
{
}

/// Somebody who never held a capability is not blocked, though the host
/// revokes it: the map stays as it was.
pub proof fn law_only_members_are_revoked(map: PeerMapView, peer: PeerId)
    requires
        !map.caps.dom().contains(peer@),
        !map.revoked.contains(peer@),
    ensures
        after_capability(map, map.host, Some(CapabilityAction::Revoke { peer })) == map,
{
    assert(map.caps.remove(peer@) =~= map.caps);
}

/// Nobody who may write is revoked: every step of the map keeps it so.
pub proof fn law_writers_are_not_revoked(map: PeerMapView, author: Seq<u8>, action: Option<CapabilityAction>)
    requires
        forall|p: Seq<u8>| #[trigger] map.revoked.contains(p) ==> !map.caps.dom().contains(p),
    ensures
        ({
            let next = after_capability(map, author, action);
            forall|p: Seq<u8>| #[trigger] next.revoked.contains(p) ==> !next.caps.dom().contains(p)
        }),
{
    let next = after_capability(map, author, action);
    assert forall|p: Seq<u8>| #[trigger] next.revoked.contains(p) implies !next.caps.dom().contains(p) by {
        if map.revoked.contains(p) {
            assert(!map.caps.dom().contains(p));
        }
    }
}

/// A new map knows nobody as revoked, and its host may write.
pub proof fn law_host_starts_as_writer(host: Seq<u8>, readiness: Readiness, endpoint: Seq<u8>)
    ensures
        may_write(map_of_host(host, readiness), host),
        revoked_behind(after_register(map_of_host(host, readiness), endpoint, host), endpoint) is None,
        forall|p: Seq<u8>| !#[trigger] map_of_host(host, readiness).revoked.contains(p),
{
}

/// An endpoint that was never announced, and a member that was never revoked,
/// are not blocked.
pub proof fn law_unknown_is_not_blocked(map: PeerMapView, endpoint: Seq<u8>)
    ensures
        !map.members.dom().contains(endpoint) ==> revoked_behind(map, endpoint) is None,
        map.members.dom().contains(endpoint) && !map.revoked.contains(map.members[endpoint])
            ==> revoked_behind(map, endpoint) is None,
{
}

/// The map after a stretch of the capability log: who wrote each entry, and
/// the entry.
pub open spec fn after_log(map: PeerMapView, log: Seq<(Seq<u8>, Option<CapabilityAction>)>) -> PeerMapView
    decreases log.len(),
{
    if log.len() == 0 {
        map
    } else {
        after_capability(after_log(map, log.drop_last()), log.last().0, log.last().1)
    }
}

/// Whether an entry of the log is a grant of the host to a member.
pub open spec fn is_grant(entry: (Seq<u8>, Option<CapabilityAction>), host: Seq<u8>, peer: Seq<u8>) -> bool {
    entry.0 == host && (entry.1 matches Some(CapabilityAction::Grant { peer: to, .. }) && to@ == peer)
}

/// What the host wrote last about a member in a stretch of the log, if
/// anything.
pub open spec fn last_word(log: Seq<(Seq<u8>, Option<CapabilityAction>)>, host: Seq<u8>, peer: Seq<u8>) -> Option<CapabilityAction>
    decreases log.len(),
{
    if log.len() == 0 {
        None
    } else if log.last().0 == host && subject(log.last().1) == Some(peer) {
        log.last().1
    } else {
        last_word(log.drop_last(), host, peer)
    }
}

/// Whether the host grants a member something in a stretch of the log.
pub open spec fn is_granted(log: Seq<(Seq<u8>, Option<CapabilityAction>)>, host: Seq<u8>, peer: Seq<u8>) -> bool {
    exists|i: int| 0 <= i < log.len() && is_grant(#[trigger] log[i], host, peer)
}

proof fn lemma_is_granted(log: Seq<(Seq<u8>, Option<CapabilityAction>)>, host: Seq<u8>, peer: Seq<u8>)
    requires
        log.len() > 0,
    ensures
        is_granted(log, host, peer) == (is_granted(log.drop_last(), host, peer) || is_grant(log.last(), host, peer)),
{
    let head = log.drop_last();
    if is_granted(head, host, peer) {
        let i = choose|i: int| 0 <= i < head.len() && is_grant(#[trigger] head[i], host, peer);
        assert(log[i] == head[i]);
    }
    if is_granted(log, host, peer) {
        let i = choose|i: int| 0 <= i < log.len() && is_grant(#[trigger] log[i], host, peer);
        if i < head.len() {
            assert(head[i] == log[i]);
        }
    }
    assert(log[log.len() - 1] == log.last());
}

/// Whether two maps say the same of what a member may do.
pub open spec fn agree(a: PeerMapView, b: PeerMapView, peer: Seq<u8>) -> bool {
    &&& a.revoked.contains(peer) == b.revoked.contains(peer)
    &&& a.caps.dom().contains(peer) == b.caps.dom().contains(peer)
    &&& a.caps.dom().contains(peer) ==> a.caps[peer] == b.caps[peer]
}

/// What a map says of a member after a stretch of the log.
pub open spec fn decided_by(after: PeerMapView, map: PeerMapView, log: Seq<(Seq<u8>, Option<CapabilityAction>)>, peer: Seq<u8>) -> bool {
    if peer == map.host {
        agree(after, map, peer)
    } else {
        match last_word(log, map.host, peer) {
            None => agree(after, map, peer),
            Some(CapabilityAction::Grant { cap, .. }) => {
                &&& after.caps.dom().contains(peer)
                &&& after.caps[peer] == cap
                &&& !after.revoked.contains(peer)
            },
            Some(CapabilityAction::Revoke { .. }) => {
                &&& !after.caps.dom().contains(peer)
                &&& after.revoked.contains(peer) == (was_member(map, peer) || is_granted(log, map.host, peer))
            },
        }
    }
}

proof fn lemma_after_log(map: PeerMapView, log: Seq<(Seq<u8>, Option<CapabilityAction>)>, peer: Seq<u8>)
    ensures
        after_log(map, log).host == map.host,
        after_log(map, log).members == map.members,
        after_log(map, log).readiness == map.readiness,
        decided_by(after_log(map, log), map, log, peer),
        peer != map.host ==> was_member(after_log(map, log), peer) == (was_member(map, peer) || is_granted(
            log,
            map.host,
            peer,
        )),
    decreases log.len(),
{
    if log.len() > 0 {
        lemma_after_log(map, log.drop_last(), peer);
        lemma_is_granted(log, map.host, peer);
    }
}

/// The host's last entry about a member decides what the member may do: with a
/// grant it is what was granted, with a revoke nothing. Where the host wrote
/// nothing about the member, all stays as it was. An author's entries are
/// judged by what its member may do then.
pub proof fn law_last_word_decides(map: PeerMapView, log: Seq<(Seq<u8>, Option<CapabilityAction>)>, endpoint: Seq<u8>, peer: Seq<u8>)
    requires
        map.members.dom().contains(endpoint),
        map.members[endpoint] == peer,
        peer != map.host,
    ensures
        ({
            let after = after_log(map, log);
            match last_word(log, map.host, peer) {
                None => {
                    &&& may_write(after, peer) == may_write(map, peer)
                    &&& disposition(after, endpoint) == disposition(map, endpoint)
                    &&& revoked_behind(after, endpoint) == revoked_behind(map, endpoint)
                },
                Some(CapabilityAction::Grant { cap, .. }) => {
                    &&& may_write(after, peer) == (cap == Capability::ReadWrite)
                    &&& disposition(after, endpoint) == (if cap == Capability::ReadWrite {
                        AuthorDisposition::Rw
                    } else {
                        AuthorDisposition::NotRw
                    })
                    &&& revoked_behind(after, endpoint) is None
                },
                Some(CapabilityAction::Revoke { .. }) => {
                    let held = was_member(map, peer) || is_granted(log, map.host, peer);
                    &&& !may_write(after, peer)
                    &&& disposition(after, endpoint) == (if held {
                        AuthorDisposition::Revoked
                    } else {
                        AuthorDisposition::NotRw
                    })
                    &&& revoked_behind(after, endpoint) == (if held {
                        Some(peer)
                    } else {
                        None
                    })
                },
            }
        }),
{
    lemma_after_log(map, log, peer);
}

/// The host may write after any log, and its own endpoint is never blocked.
pub proof fn law_host_always_writes(host: Seq<u8>, readiness: Readiness, log: Seq<(Seq<u8>, Option<CapabilityAction>)>, endpoint: Seq<u8>)
    ensures
        may_write(after_log(map_of_host(host, readiness), log), host),
        revoked_behind(after_register(after_log(map_of_host(host, readiness), log), endpoint, host), endpoint) is None,
        disposition(after_register(after_log(map_of_host(host, readiness), log), endpoint, host), endpoint)
            == AuthorDisposition::Rw,
{
    lemma_after_log(map_of_host(host, readiness), log, host);
}

/// Reading a stretch of the log again changes nothing, whatever came before
/// it: following the log is safe across replays.
pub proof fn law_replay_changes_nothing(map: PeerMapView, log: Seq<(Seq<u8>, Option<CapabilityAction>)>)
    ensures
        after_log(after_log(map, log), log) == after_log(map, log),
{
    let once = after_log(map, log);
    let twice = after_log(once, log);
    lemma_after_log(map, log, map.host);
    lemma_after_log(once, log, map.host);
    assert forall|peer: Seq<u8>| #[trigger] agree(twice, once, peer) by {
        lemma_after_log(map, log, peer);
        lemma_after_log(once, log, peer);
    }
    assert forall|peer: Seq<u8>| twice.caps.dom().contains(peer) == once.caps.dom().contains(peer) by {
        assert(agree(twice, once, peer));
    }
    assert forall|peer: Seq<u8>| twice.caps.dom().contains(peer) implies twice.caps[peer] == once.caps[peer] by {
        assert(agree(twice, once, peer));
    }
    assert forall|peer: Seq<u8>| twice.revoked.contains(peer) == once.revoked.contains(peer) by {
        assert(agree(twice, once, peer));
    }
    assert(twice.caps =~= once.caps);
    assert(twice.revoked =~= once.revoked);
}

/// A revoked member stays revoked through any stretch of the log in which the
/// host grants it nothing, and an endpoint of it stays blocked.
pub proof fn law_revoked_until_granted(map: PeerMapView, log: Seq<(Seq<u8>, Option<CapabilityAction>)>, endpoint: Seq<u8>, peer: Seq<u8>)
    requires
        revoked_behind(map, endpoint) == Some(peer),
        forall|i: int| 0 <= i < log.len() ==> !is_grant(#[trigger] log[i], map.host, peer),
    ensures
        revoked_behind(after_log(map, log), endpoint) == Some(peer),
        after_log(map, log).host == map.host,
    decreases log.len(),
{
    if log.len() > 0 {
        let head = log.drop_last();
        assert forall|i: int| 0 <= i < head.len() implies !is_grant(#[trigger] head[i], map.host, peer) by {
            assert(head[i] == log[i]);
        }
        law_revoked_until_granted(map, head, endpoint, peer);
        assert(!is_grant(log[log.len() - 1], map.host, peer));
    }
}

/// Linking an endpoint to a member links that endpoint, whatever it was linked
/// to before, and changes nothing else.
pub proof fn law_register_links_one_endpoint(map: PeerMapView, endpoint: Seq<u8>, peer: Seq<u8>, other: Seq<u8>)
    ensures
        ({
            let after = after_register(map, endpoint, peer);
            &&& after.members.dom().contains(endpoint)
            &&& after.members[endpoint] == peer
            &&& other != endpoint ==> {
                &&& after.members.dom().contains(other) == map.members.dom().contains(other)
                &&& map.members.dom().contains(other) ==> after.members[other] == map.members[other]
            }
            &&& after.caps == map.caps
            &&& after.revoked == map.revoked
            &&& after.host == map.host
            &&& after.readiness == map.readiness
        }),
{
}

/// The latest link of an endpoint holds.
pub proof fn law_latest_link_holds(map: PeerMapView, endpoint: Seq<u8>, first: Seq<u8>, second: Seq<u8>)
    ensures
        after_register(after_register(map, endpoint, first), endpoint, second) == after_register(map, endpoint, second),
{
    assert(map.members.insert(endpoint, first).insert(endpoint, second) =~= map.members.insert(endpoint, second));
}

/// What becomes of the entries of an author, by what the map holds of the
/// member behind it: an author without a member is nobody's; a member with the
/// capability to write keeps its entries, though it may have been revoked
/// before; of the others, those that are revoked are told apart.
pub proof fn law_authors_are_judged_by_their_member(map: PeerMapView, author: Seq<u8>)
    ensures
        ({
            let known = map.members.dom().contains(author);
            let member = map.members[author];
            let writes = map.caps.dom().contains(member) && map.caps[member] == Capability::ReadWrite;
            let judged = disposition(map, author);
            &&& judged == AuthorDisposition::Unresolvable <==> !known
            &&& judged == AuthorDisposition::Rw <==> known && writes
            &&& judged == AuthorDisposition::Revoked <==> known && !writes && map.revoked.contains(member)
            &&& judged == AuthorDisposition::NotRw <==> known && !writes && !map.revoked.contains(member)
        }),
{
}

/// Those who are told of a rotation are all who hold the capability to write,
/// but for the host.
pub proof fn law_survivors_are_the_other_writers(map: PeerMapView, peer: Seq<u8>)
    ensures
        is_survivor(map, peer) <==> peer != map.host && map.caps.dom().contains(peer) && map.caps[peer] == Capability::ReadWrite,
        may_write(map, peer) <==> map.caps.dom().contains(peer) && map.caps[peer] == Capability::ReadWrite,
{
}

/// An endpoint is blocked exactly where the member that it is linked to is
/// revoked, and it is that member that is named.
pub proof fn law_blocked_endpoints_are_those_of_revoked_members(map: PeerMapView, endpoint: Seq<u8>, peer: Seq<u8>)
    ensures
        revoked_behind(map, endpoint) == Some(peer) <==> map.members.dom().contains(endpoint) && map.members[endpoint] == peer
            && map.revoked.contains(peer),
{
}

/// A grant of the host gives the member what it says and lifts a revoke; a
/// revoke of the host takes what the member holds, and blocks it where it held
/// something or was blocked already. About the host itself neither does
/// anything.
pub proof fn law_host_entries_take_effect(map: PeerMapView, peer: PeerId, cap: Capability)
    ensures
        ({
            let granted = after_capability(map, map.host, Some(CapabilityAction::Grant { peer, cap }));
            let revoked = after_capability(map, map.host, Some(CapabilityAction::Revoke { peer }));
            if peer@ == map.host {
                granted == map && revoked == map
            } else {
                &&& granted.caps.dom().contains(peer@)
                &&& granted.caps[peer@] == cap
                &&& !granted.revoked.contains(peer@)
                &&& !revoked.caps.dom().contains(peer@)
                &&& revoked.revoked.contains(peer@) <==> map.caps.dom().contains(peer@) || map.revoked.contains(peer@)
            }
        }),
{
}

/// An entry of the log leaves everybody as they were whom it is not about, and
/// the links, the host and the state of the log too.
pub proof fn law_entries_change_only_whom_they_name(map: PeerMapView, author: Seq<u8>, action: Option<CapabilityAction>, other: Seq<u8>)
    requires
        match action {
            None => true,
            Some(CapabilityAction::Grant { peer, .. }) => peer@ != other,
            Some(CapabilityAction::Revoke { peer }) => peer@ != other,
        },
    ensures
        ({
            let after = after_capability(map, author, action);
            &&& after.caps.dom().contains(other) == map.caps.dom().contains(other)
            &&& map.caps.dom().contains(other) ==> after.caps[other] == map.caps[other]
            &&& after.revoked.contains(other) == map.revoked.contains(other)
            &&& after.members == map.members
            &&& after.host == map.host
            &&& after.readiness == map.readiness
        }),
{
}

/// A new map links no endpoint, and holds one capability: that of the host, to
/// write.
pub proof fn law_new_maps_know_the_host_alone(host: Seq<u8>, readiness: Readiness, peer: Seq<u8>)
    ensures
        !map_of_host(host, readiness).members.dom().contains(peer),
        map_of_host(host, readiness).caps.dom().contains(peer) <==> peer == host,
        map_of_host(host, readiness).caps[host] == Capability::ReadWrite,
        map_of_host(host, readiness).host == host,
        map_of_host(host, readiness).readiness == readiness,
{
}

/// Whoever waits for the end of the log gets nothing while it is replayed, and
/// then whether the end was reached. A map that is closed stays closed, whatever
/// is replayed.
pub proof fn law_waiting_for_the_log(map: &PeerMap, begun: &mut PeerMap, finished: &mut PeerMap, closed: &mut PeerMap, polled: Option<bool>)
    requires
        call_ensures(PeerMap::poll_ready, (map,), polled),
        call_ensures(PeerMap::begin_replay, (begun,), ()),
        call_ensures(PeerMap::finish_replay, (finished,), ()),
        call_ensures(PeerMap::close, (closed,), ()),
    ensures
        polled is None <==> map@.readiness == Readiness::Replaying,
        polled == Some(true) <==> map@.readiness == Readiness::Ready,
        polled == Some(false) <==> map@.readiness == Readiness::Closed,
        old(begun)@.readiness == Readiness::Closed <==> final(begun)@.readiness == Readiness::Closed,
        old(begun)@.readiness != Readiness::Closed <==> final(begun)@.readiness == Readiness::Replaying,
        old(finished)@.readiness == Readiness::Closed <==> final(finished)@.readiness == Readiness::Closed,
        old(finished)@.readiness != Readiness::Closed <==> final(finished)@.readiness == Readiness::Ready,
        final(closed)@.readiness == Readiness::Closed,
        final(begun)@.caps == old(begun)@.caps,
        final(finished)@.caps == old(finished)@.caps,
        final(closed)@.caps == old(closed)@.caps,
{
}

/// Linking an endpoint says whether its member is revoked, and those who are
/// told of a rotation are all the other writers, each once.
pub proof fn law_links_and_survivors(linked: &mut PeerMap, endpoint: EndpointId, peer: PeerId, is_revoked: bool, map: &PeerMap, list: Vec<PeerId>, who: Seq<u8>)
    requires
        call_ensures(PeerMap::register, (linked, endpoint, peer), is_revoked),
        call_ensures(PeerMap::rw_peers_except_host, (map,), list),
    ensures
        is_revoked <==> old(linked)@.revoked.contains(peer@),
        is_revoked <==> revoked_behind(final(linked)@, endpoint@) == Some(peer@),
        who != map@.host && map@.caps.dom().contains(who) && map@.caps[who] == Capability::ReadWrite <==> exists|i: int|
            0 <= i < list@.len() && (#[trigger] list@[i])@ == who,
        forall|i: int, j: int| 0 <= i < j < list@.len() ==> (#[trigger] list@[i])@ != (#[trigger] list@[j])@,
{
    if exists|i: int| 0 <= i < list@.len() && (#[trigger] list@[i])@ == who {
        let i = choose|i: int| 0 <= i < list@.len() && (#[trigger] list@[i])@ == who;
        assert(is_survivor(map@, list@[i]@));
    }
    if is_survivor(map@, who) {
        assert(exists|i: int| 0 <= i < list@.len() && (#[trigger] list@[i])@ == who);
    }
}

/// What the map says of a member and of an author is what the log has left
/// there.
pub proof fn law_what_the_map_says(map: &PeerMap, peer: &PeerId, endpoint: &EndpointId, writes: bool, revoked: bool, judged: AuthorDisposition, found: Option<PeerId>)
    requires
        call_ensures(PeerMap::has_rw, (map, peer), writes),
        call_ensures(PeerMap::is_revoked, (map, peer), revoked),
        call_ensures(PeerMap::classify_author, (map, endpoint), judged),
        call_ensures(PeerMap::revoked_daemon_peer, (map, endpoint), found),
        map@.members.dom().contains(endpoint@),
        map@.members[endpoint@] == peer@,
    ensures
        writes <==> map@.caps.dom().contains(peer@) && map@.caps[peer@] == Capability::ReadWrite,
        revoked <==> map@.revoked.contains(peer@),
        judged == AuthorDisposition::Rw <==> writes,
        judged == AuthorDisposition::Revoked <==> !writes && revoked,
        judged == AuthorDisposition::NotRw <==> !writes && !revoked,
        found is Some <==> revoked,
        found matches Some(named) ==> named@ == peer@,
{
}

} // verus!
