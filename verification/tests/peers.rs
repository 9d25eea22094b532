//! Who is who, who may write, and who is let in.
use artel_fs::endpoint::{endpoint_of, read_announcement};
use artel_fs::events::{Direction, WorkspaceEvent};
use artel_fs::ids::{EndpointId, PeerId};
use artel_fs::peer_filter::{accept_docs, after_handshake, before_connect, Gate, Side, REVOKED_CODE, REVOKED_REASON};
use artel_fs::peer_map::{AuthorDisposition, Capability, CapabilityAction, PeerMap};

fn test_host() -> PeerId {
    PeerId([1; 32])
}

fn test_peer() -> PeerId {
    PeerId([2; 32])
}

fn test_workspace_id() -> EndpointId {
    endpoint_of(&[3; 32]).unwrap()
}

fn grant(peer: PeerId, cap: Capability) -> Option<CapabilityAction> {
    Some(CapabilityAction::Grant { peer, cap })
}

fn revoke(peer: PeerId) -> Option<CapabilityAction> {
    Some(CapabilityAction::Revoke { peer })
}

#[test]
fn unknown_endpoint_id_is_allowed() {
    let map = PeerMap::new(test_host());
    assert!(map.revoked_daemon_peer(&test_workspace_id()).is_none());
}

#[test]
fn registered_rw_peer_is_allowed() {
    let mut map = PeerMap::new(test_host());
    let host = test_host();
    let peer = test_peer();
    let wid = test_workspace_id();
    map.apply_capability(host, grant(peer, Capability::ReadWrite));
    map.register(wid, peer);
    assert!(map.revoked_daemon_peer(&wid).is_none());
}

#[test]
fn registered_revoked_peer_is_rejected() {
    let mut map = PeerMap::new(test_host());
    let host = test_host();
    let peer = test_peer();
    let wid = test_workspace_id();
    map.apply_capability(host, grant(peer, Capability::ReadWrite));
    map.register(wid, peer);
    map.apply_capability(host, revoke(peer));
    assert_eq!(map.revoked_daemon_peer(&wid), Some(peer));
}

#[test]
fn grant_then_revoke_transitions() {
    let mut map = PeerMap::new(test_host());
    let host = test_host();
    let peer = test_peer();
    let wid = test_workspace_id();
    map.register(wid, peer);
    assert!(map.revoked_daemon_peer(&wid).is_none());
    map.apply_capability(host, grant(peer, Capability::ReadWrite));
    assert!(map.revoked_daemon_peer(&wid).is_none());
    map.apply_capability(host, revoke(peer));
    assert_eq!(map.revoked_daemon_peer(&wid), Some(peer));
}

#[test]
fn non_host_authored_grant_is_ignored() {
    let mut map = PeerMap::new(test_host());
    let host = test_host();
    let peer = test_peer();
    let wid = test_workspace_id();
    let impostor = PeerId([99; 32]);
    map.register(wid, peer);
    map.apply_capability(host, grant(peer, Capability::ReadWrite));
    map.apply_capability(host, revoke(peer));
    assert_eq!(map.revoked_daemon_peer(&wid), Some(peer));
    map.apply_capability(impostor, grant(peer, Capability::ReadWrite));
    assert_eq!(map.revoked_daemon_peer(&wid), Some(peer));
}

#[test]
fn non_host_authored_revoke_is_ignored() {
    let mut map = PeerMap::new(test_host());
    let host = test_host();
    let peer = test_peer();
    let wid = test_workspace_id();
    let impostor = PeerId([99; 32]);
    map.register(wid, peer);
    map.apply_capability(host, grant(peer, Capability::ReadWrite));
    map.apply_capability(impostor, revoke(peer));
    assert!(map.revoked_daemon_peer(&wid).is_none());
}

#[test]
fn read_only_cap_is_allowed() {
    let mut map = PeerMap::new(test_host());
    let host = test_host();
    let peer = test_peer();
    let wid = test_workspace_id();
    map.register(wid, peer);
    map.apply_capability(host, grant(peer, Capability::Read));
    assert!(map.revoked_daemon_peer(&wid).is_none());
}

#[test]
fn re_grant_after_revoke_clears_revoked_status() {
    let mut map = PeerMap::new(test_host());
    let host = test_host();
    let peer = test_peer();
    let wid = test_workspace_id();
    map.register(wid, peer);
    map.apply_capability(host, grant(peer, Capability::ReadWrite));
    map.apply_capability(host, revoke(peer));
    assert_eq!(map.revoked_daemon_peer(&wid), Some(peer));
    map.apply_capability(host, grant(peer, Capability::Read));
    assert!(map.revoked_daemon_peer(&wid).is_none());
}

#[test]
fn host_always_has_rw() {
    let host = test_host();
    let mut map = PeerMap::new(host);
    let host_wid = endpoint_of(&[10; 32]).unwrap();
    map.register(host_wid, host);
    assert!(map.revoked_daemon_peer(&host_wid).is_none());
    assert!(map.has_rw(&host));
}

#[test]
fn register_returns_true_for_already_revoked_peer() {
    let mut map = PeerMap::new(test_host());
    let host = test_host();
    let peer = test_peer();
    let wid = test_workspace_id();
    map.apply_capability(host, grant(peer, Capability::ReadWrite));
    map.apply_capability(host, revoke(peer));
    assert!(map.register(wid, peer));
}

#[test]
fn register_returns_false_for_non_revoked_peer() {
    let mut map = PeerMap::new(test_host());
    let host = test_host();
    let peer = test_peer();
    let wid = test_workspace_id();
    map.apply_capability(host, grant(peer, Capability::ReadWrite));
    assert!(!map.register(wid, peer));
}

#[test]
fn classify_author_unresolvable_when_no_mapping() {
    let map = PeerMap::new(test_host());
    assert_eq!(map.classify_author(&test_workspace_id()), AuthorDisposition::Unresolvable);
}

#[test]
fn classify_author_rw_for_granted_peer() {
    let mut map = PeerMap::new(test_host());
    let host = test_host();
    let peer = test_peer();
    let wid = test_workspace_id();
    map.register(wid, peer);
    map.apply_capability(host, grant(peer, Capability::ReadWrite));
    assert_eq!(map.classify_author(&wid), AuthorDisposition::Rw);
}

#[test]
fn classify_author_revoked_after_evict() {
    let mut map = PeerMap::new(test_host());
    let host = test_host();
    let peer = test_peer();
    let wid = test_workspace_id();
    map.register(wid, peer);
    map.apply_capability(host, grant(peer, Capability::ReadWrite));
    map.apply_capability(host, revoke(peer));
    assert_eq!(map.classify_author(&wid), AuthorDisposition::Revoked);
}

#[test]
fn classify_author_not_rw_for_read_peer() {
    let mut map = PeerMap::new(test_host());
    let host = test_host();
    let peer = test_peer();
    let wid = test_workspace_id();
    map.register(wid, peer);
    map.apply_capability(host, grant(peer, Capability::Read));
    assert_eq!(map.classify_author(&wid), AuthorDisposition::NotRw);
}

#[test]
fn classify_author_distinguishes_revoked_from_unresolvable() {
    let mut map = PeerMap::new(test_host());
    let host = test_host();
    let peer = test_peer();
    let wid = test_workspace_id();
    map.register(wid, peer);
    map.apply_capability(host, grant(peer, Capability::ReadWrite));
    map.apply_capability(host, revoke(peer));
    let unmapped = endpoint_of(&[10; 32]).unwrap();
    assert_eq!(map.classify_author(&wid), AuthorDisposition::Revoked);
    assert_eq!(map.classify_author(&unmapped), AuthorDisposition::Unresolvable);
    assert_ne!(
        map.classify_author(&wid),
        map.classify_author(&unmapped),
        "revoked and unresolvable must be distinguishable",
    );
}

fn blocked_map() -> PeerMap {
    let mut map = PeerMap::new(test_host());
    map.apply_capability(test_host(), grant(test_peer(), Capability::ReadWrite));
    map.register(test_workspace_id(), test_peer());
    map.apply_capability(test_host(), revoke(test_peer()));
    map
}

fn blocked(direction: Direction) -> Gate {
    Gate::Reject { event: WorkspaceEvent::RevokedPeerBlocked { peer: test_peer(), direction } }
}

#[test]
fn unknown_endpoint_is_accepted_outbound() {
    let map = PeerMap::new(test_host());
    assert_eq!(before_connect(&map, &test_workspace_id()), Gate::Accept);
}

#[test]
fn active_rw_peer_is_accepted_outbound() {
    let mut map = PeerMap::new(test_host());
    map.apply_capability(test_host(), grant(test_peer(), Capability::ReadWrite));
    map.register(test_workspace_id(), test_peer());
    assert_eq!(before_connect(&map, &test_workspace_id()), Gate::Accept);
}

#[test]
fn revoked_peer_is_rejected_outbound() {
    assert_eq!(before_connect(&blocked_map(), &test_workspace_id()), blocked(Direction::Outgoing));
}

#[test]
fn revoked_peer_connection_is_rejected() {
    let map = blocked_map();
    assert_eq!(accept_docs(&map, &test_workspace_id()), blocked(Direction::Incoming));
    assert_eq!(
        after_handshake(&map, Side::Server, &test_workspace_id()),
        blocked(Direction::Incoming)
    );
    assert_eq!(accept_docs(&map, &EndpointId([10; 32])), Gate::Accept);
    assert_eq!(REVOKED_CODE, 1);
    assert_eq!(REVOKED_REASON, "revoked");
}

#[test]
fn handshakes_that_this_side_began_were_judged_before() {
    assert_eq!(after_handshake(&blocked_map(), Side::Client, &test_workspace_id()), Gate::Accept);
}

#[test]
fn writers_without_the_host_are_listed_once() {
    let mut map = PeerMap::new(test_host());
    let a = PeerId([4; 32]);
    let b = PeerId([5; 32]);
    map.apply_capability(test_host(), grant(a, Capability::ReadWrite));
    map.apply_capability(test_host(), grant(a, Capability::ReadWrite));
    map.apply_capability(test_host(), grant(b, Capability::ReadWrite));
    map.apply_capability(test_host(), grant(test_peer(), Capability::Read));
    let mut list = map.rw_peers_except_host();
    list.sort_by_key(|p| p.0);
    assert_eq!(list, vec![a, b]);
    map.apply_capability(test_host(), revoke(a));
    assert_eq!(map.rw_peers_except_host(), vec![b]);
    assert_eq!(map.host_peer_id(), test_host());
}

#[test]
fn an_entry_that_does_not_decode_changes_nothing() {
    let mut map = PeerMap::new(test_host());
    map.apply_capability(test_host(), None);
    assert!(map.has_rw(&test_host()));
    assert!(map.rw_peers_except_host().is_empty());
}

#[test]
fn replaying_the_log_changes_nothing() {
    let log = [
        (test_host(), grant(PeerId([4; 32]), Capability::ReadWrite)),
        (test_host(), grant(test_peer(), Capability::ReadWrite)),
        (PeerId([4; 32]), revoke(test_peer())),
        (test_host(), revoke(test_peer())),
        (test_host(), grant(PeerId([4; 32]), Capability::Read)),
    ];
    let mut map = PeerMap::new(test_host());
    for round in 0..2 {
        for (author, action) in log {
            map.apply_capability(author, action);
        }
        assert!(!map.has_rw(&test_peer()), "round {round}");
        assert!(!map.has_rw(&PeerId([4; 32])), "round {round}");
        assert!(map.register(EndpointId([11; 32]), test_peer()), "round {round}");
        assert!(!map.register(EndpointId([12; 32]), PeerId([4; 32])), "round {round}");
    }
}

#[test]
fn readiness_follows_the_replay() {
    let mut map = PeerMap::replaying(test_host());
    assert_eq!(map.poll_ready(), None);
    assert!(!map.is_ready());
    map.finish_replay();
    assert_eq!(map.poll_ready(), Some(true));
    map.begin_replay();
    assert_eq!(map.poll_ready(), None);
    map.close();
    assert_eq!(map.poll_ready(), Some(false));
    map.finish_replay();
    map.begin_replay();
    assert_eq!(map.poll_ready(), Some(false));
    assert!(PeerMap::new(test_host()).is_ready());
}

#[test]
fn endpoints_are_points_of_the_curve() {
    assert_eq!(endpoint_of(&[10; 32]), Ok(EndpointId([10; 32])));
    assert_eq!(endpoint_of(&[7; 32]), Err("data is not a valid public key".to_string()));
    assert_eq!(
        iroh_base::EndpointId::from_bytes(&[7; 32]).unwrap_err().to_string(),
        "data is not a valid public key",
    );
    assert_eq!(read_announcement(&vec![10; 32]), Some(EndpointId([10; 32])));
    assert_eq!(read_announcement(&vec![10; 31]), None);
    assert_eq!(read_announcement(&vec![10; 33]), None);
    assert_eq!(read_announcement(&vec![7; 32]), None);
}

#[test]
fn a_revoked_member_stays_blocked_until_the_host_grants_again() {
    let mut map = blocked_map();
    let wid = test_workspace_id();
    let (other, impostor) = (PeerId([7; 32]), PeerId([99; 32]));
    map.apply_capability(test_host(), grant(other, Capability::ReadWrite));
    map.apply_capability(test_host(), revoke(other));
    map.apply_capability(impostor, grant(test_peer(), Capability::ReadWrite));
    map.apply_capability(test_host(), None);
    map.apply_capability(test_host(), revoke(test_peer()));
    assert_eq!(before_connect(&map, &wid), blocked(Direction::Outgoing));
    assert_eq!(accept_docs(&map, &wid), blocked(Direction::Incoming));
    map.apply_capability(test_host(), grant(test_peer(), Capability::Read));
    assert_eq!(before_connect(&map, &wid), Gate::Accept);
    assert!(!map.has_rw(&test_peer()));
}

#[test]
fn a_revoke_without_a_grant_blocks_nobody() {
    let mut map = PeerMap::new(test_host());
    let wid = test_workspace_id();
    map.register(wid, test_peer());
    map.apply_capability(test_host(), revoke(test_peer()));
    assert_eq!(map.revoked_daemon_peer(&wid), None);
    assert_eq!(map.classify_author(&wid), AuthorDisposition::NotRw);
    assert_eq!(before_connect(&map, &wid), Gate::Accept);
    map.apply_capability(test_host(), grant(test_peer(), Capability::Read));
    map.apply_capability(test_host(), revoke(test_peer()));
    assert_eq!(map.revoked_daemon_peer(&wid), Some(test_peer()));
    map.apply_capability(test_host(), revoke(test_peer()));
    assert_eq!(map.revoked_daemon_peer(&wid), Some(test_peer()));
}

#[test]
fn the_host_always_writes() {
    let mut map = PeerMap::new(test_host());
    let wid = test_workspace_id();
    map.register(wid, test_host());
    for action in [grant(test_host(), Capability::Read), revoke(test_host()), revoke(test_host())] {
        map.apply_capability(test_host(), action);
        assert!(map.has_rw(&test_host()));
        assert_eq!(map.classify_author(&wid), AuthorDisposition::Rw);
        assert_eq!(map.revoked_daemon_peer(&wid), None);
    }
}

#[test]
fn the_last_word_of_the_host_decides() {
    let wid = test_workspace_id();
    let rw = grant(test_peer(), Capability::ReadWrite);
    let read = grant(test_peer(), Capability::Read);
    let cases = [
        (vec![rw, read], AuthorDisposition::NotRw),
        (vec![read, rw], AuthorDisposition::Rw),
        (vec![rw, revoke(test_peer())], AuthorDisposition::Revoked),
        (vec![rw, revoke(test_peer()), rw], AuthorDisposition::Rw),
        (vec![revoke(test_peer())], AuthorDisposition::NotRw),
        (vec![], AuthorDisposition::NotRw),
    ];
    for (log, want) in cases {
        let mut map = PeerMap::new(test_host());
        map.register(wid, test_peer());
        for action in log {
            map.apply_capability(test_host(), action);
            map.apply_capability(PeerId([99; 32]), rw);
            map.apply_capability(test_host(), None);
        }
        assert_eq!(map.classify_author(&wid), want);
        assert_eq!(map.has_rw(&test_peer()), want == AuthorDisposition::Rw);
    }
}
