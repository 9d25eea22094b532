//! Following the session's log.
use artel_fs::cap_listener::{
    cap_reconnect_backoff, max_seq, CapListener, ListenerNext, CAP_RECONNECT_MAX_ATTEMPTS, CAP_RECONNECT_MAX_DELAY,
};
use artel_fs::capability_log::{
    handle_announcement, handle_cap_event, handle_capability_message, handle_node_id_message, CapAction, CapOutcome,
    DowngradePayload, HostContext, JoinerContext, MessageBody, Role, RotatePayload, SessionEvent, SessionMessage,
    UpgradePayload, NODE_ID_ACTION, TICKET_ACTION,
};
use artel_fs::endpoint::endpoint_of;
use artel_fs::events::WorkspaceEvent;
use artel_fs::eviction::RotationSignal;
use artel_fs::ids::{PeerId, SessionId};
use artel_fs::peer_map::{AuthorDisposition, Capability, CapabilityAction, PeerMap};
use artel_fs::redelivery::{claim_redelivery_epoch, rollback_redelivery_epoch, Redelivery};
use artel_fs::table::Table;

fn host() -> PeerId {
    PeerId([0xa0; 32])
}

fn peer() -> PeerId {
    PeerId([0xb0; 32])
}

fn session() -> SessionId {
    SessionId([1; 16])
}

fn grant_rw(peer: PeerId) -> Option<CapabilityAction> {
    Some(CapabilityAction::Grant { peer, cap: Capability::ReadWrite })
}

fn host_role(epoch: u64) -> Role {
    Role::Host(HostContext { epoch, redelivery: Redelivery::new() })
}

fn joiner_role(me: PeerId) -> Role {
    Role::Joiner(JoinerContext { me, write_halted: false })
}

fn message(seq: u64, author: PeerId, body: MessageBody) -> SessionEvent {
    SessionEvent::Message { session: session(), message: SessionMessage { seq, author, body } }
}

#[test]
fn max_seq_tracks_highest_and_ignores_synthetic_zero() {
    assert_eq!(max_seq(None, 5), 5);
    assert_eq!(max_seq(Some(5), 9), 9);
    assert_eq!(max_seq(Some(9), 3), 9);
    assert_eq!(max_seq(Some(9), 0), 9);
}

#[test]
fn cap_reconnect_backoff_grows_then_caps_then_gives_up() {
    let mut prev: u64 = 0;
    let mut saw_cap = false;
    for attempt in 0..CAP_RECONNECT_MAX_ATTEMPTS {
        let d: u64 = cap_reconnect_backoff(attempt).expect("under ceiling => Some");
        assert!(
            d >= prev,
            "backoff must be monotonic non-decreasing: attempt {attempt} gave {d:?} < {prev:?}",
        );
        assert!(d <= CAP_RECONNECT_MAX_DELAY, "backoff must never exceed the cap: {d:?}");
        if d == CAP_RECONNECT_MAX_DELAY {
            saw_cap = true;
        }
        prev = d;
    }
    assert!(saw_cap, "backoff should saturate at the cap before the ceiling");
    assert_eq!(cap_reconnect_backoff(CAP_RECONNECT_MAX_ATTEMPTS), None);
    assert_eq!(cap_reconnect_backoff(CAP_RECONNECT_MAX_ATTEMPTS + 7), None);
}

#[test]
fn backoff_doubles_from_a_tenth_of_a_second() {
    let delays: Vec<u64> = (0..8).map(|a| cap_reconnect_backoff(a).unwrap()).collect();
    assert_eq!(delays, vec![100, 200, 400, 800, 1600, 3200, 5000, 5000]);
}

#[test]
fn handle_cap_event_classifies_gap() {
    let other = SessionId([2; 16]);
    let mut map = PeerMap::new(PeerId([0; 32]));
    let mut role = Role::Bystander;
    let (out, actions) = handle_cap_event(&SessionEvent::Gap { session: session() }, &session(), &mut map, &mut role);
    assert_eq!(out, CapOutcome::Gap);
    assert!(actions.is_empty());
    let (out, _) = handle_cap_event(&SessionEvent::Gap { session: other }, &session(), &mut map, &mut role);
    assert_eq!(out, CapOutcome::Ignored);
    let (out, _) = handle_cap_event(&SessionEvent::Other, &session(), &mut map, &mut role);
    assert_eq!(out, CapOutcome::Ignored);
}

#[test]
fn node_id_message_registers_mapping() {
    let mut map = PeerMap::new(host());
    let peer_daemon = peer();
    let key = iroh_base::SecretKey::from_bytes(&[0xc0; 32]);
    let workspace_id = endpoint_of(key.public().as_bytes()).unwrap();
    assert_eq!(map.classify_author(&workspace_id), AuthorDisposition::Unresolvable);
    let mut role = Role::Bystander;
    let payload = workspace_id.0.to_vec();
    let actions = handle_node_id_message(&mut map, &mut role, peer_daemon, 1, &payload);
    assert!(actions.is_empty());
    assert_eq!(map.classify_author(&workspace_id), AuthorDisposition::NotRw);
    map.apply_capability(host(), grant_rw(peer_daemon));
    handle_node_id_message(&mut map, &mut role, peer_daemon, 1, &payload);
    assert_eq!(map.classify_author(&workspace_id), AuthorDisposition::Rw);
    assert!(map.has_rw(&peer_daemon));
}

#[test]
fn host_revoke_emits_peer_revoked_event() {
    let mut map = PeerMap::new(host());
    map.apply_capability(host(), grant_rw(peer()));
    let revoke = Some(CapabilityAction::Revoke { peer: peer() });
    let actions = handle_capability_message(&mut map, false, host(), revoke, 1);
    assert_eq!(actions, vec![CapAction::Emit(WorkspaceEvent::PeerRevoked { peer: peer() })]);
    assert!(!map.has_rw(&peer()));
}

#[test]
fn non_host_revoke_emits_nothing() {
    let impostor = PeerId([0x99; 32]);
    let mut map = PeerMap::new(host());
    map.apply_capability(host(), grant_rw(peer()));
    let revoke = Some(CapabilityAction::Revoke { peer: peer() });
    let actions = handle_capability_message(&mut map, false, impostor, revoke, 1);
    assert!(actions.is_empty());
    assert!(map.has_rw(&peer()));
}

#[test]
fn what_others_write_into_the_capability_log_calls_for_nothing() {
    let impostor = PeerId([0x99; 32]);
    let mut map = PeerMap::new(host());
    map.apply_capability(host(), grant_rw(peer()));
    for action in [
        Some(CapabilityAction::Revoke { peer: peer() }),
        Some(CapabilityAction::Grant { peer: peer(), cap: Capability::Read }),
        grant_rw(peer()),
        grant_rw(impostor),
        None,
    ] {
        let actions = handle_capability_message(&mut map, true, impostor, action, 9);
        assert!(actions.is_empty(), "{action:?} called for {actions:?}");
    }
    assert!(map.has_rw(&peer()));
    assert!(!map.has_rw(&impostor));
}

#[test]
fn nothing_takes_the_host_out() {
    let mut map = PeerMap::new(host());
    let read = Some(CapabilityAction::Grant { peer: host(), cap: Capability::Read });
    assert!(handle_capability_message(&mut map, true, host(), read, 1).is_empty());
    let revoke = Some(CapabilityAction::Revoke { peer: host() });
    assert!(handle_capability_message(&mut map, true, host(), revoke, 2).is_empty());
    assert!(map.has_rw(&host()));
}

#[test]
fn a_revoke_without_a_grant_blocks_nobody_and_still_rotates() {
    let mut map = PeerMap::new(host());
    let revoke = Some(CapabilityAction::Revoke { peer: peer() });
    assert!(handle_capability_message(&mut map, false, host(), revoke, 4).is_empty());
    assert_eq!(
        handle_capability_message(&mut map, true, host(), revoke, 4),
        vec![
            CapAction::Signal(RotationSignal::HostEvict { revoked_peer: peer(), revoke_seq: 4 }),
            CapAction::RemoveMember(peer()),
        ]
    );
    assert!(!map.is_revoked(&peer()));
}

#[test]
fn host_grant_emits_no_peer_revoked_event() {
    let mut map = PeerMap::new(host());
    let actions = handle_capability_message(&mut map, false, host(), grant_rw(peer()), 1);
    assert!(actions.is_empty());
    assert!(map.has_rw(&peer()));
}

#[test]
fn claim_redelivery_first_time_proceeds_then_dedups() {
    let mut map: Table<PeerId, u64> = Table::new();
    let peer = PeerId([0xd0; 32]);
    assert!(claim_redelivery_epoch(&mut map, peer, 2));
    assert!(!claim_redelivery_epoch(&mut map, peer, 2));
    assert!(!claim_redelivery_epoch(&mut map, peer, 1));
}

#[test]
fn claim_redelivery_proceeds_on_higher_epoch() {
    let mut map: Table<PeerId, u64> = Table::new();
    let peer = PeerId([0xd1; 32]);
    assert!(claim_redelivery_epoch(&mut map, peer, 1));
    assert!(claim_redelivery_epoch(&mut map, peer, 2));
    assert!(!claim_redelivery_epoch(&mut map, peer, 2));
}

#[test]
fn rollback_redelivery_restores_retry_after_failure() {
    let mut map: Table<PeerId, u64> = Table::new();
    let peer = PeerId([0xd2; 32]);
    assert!(claim_redelivery_epoch(&mut map, peer, 3));
    rollback_redelivery_epoch(&mut map, peer, 3);
    assert!(claim_redelivery_epoch(&mut map, peer, 3));
}

#[test]
fn rollback_redelivery_does_not_clobber_a_newer_delivery() {
    let mut map: Table<PeerId, u64> = Table::new();
    let peer = PeerId([0xd3; 32]);
    assert!(claim_redelivery_epoch(&mut map, peer, 1));
    assert!(claim_redelivery_epoch(&mut map, peer, 2));
    rollback_redelivery_epoch(&mut map, peer, 1);
    assert!(!claim_redelivery_epoch(&mut map, peer, 2));
}

#[test]
fn fresh_announce_redelivers_after_replay_before_listener() {
    let mut map = PeerMap::new(host());
    map.apply_capability(host(), grant_rw(peer()));
    let mut role = host_role(1);
    let endpoint = endpoint_of(&[10; 32]).unwrap();
    let first = handle_announcement(&mut map, &mut role, peer(), 10, Some(endpoint));
    assert_eq!(first, vec![CapAction::Redeliver(peer(), 1)]);
    let replay = handle_announcement(&mut map, &mut role, peer(), 10, Some(endpoint));
    assert!(replay.is_empty(), "the same announce again is a replay");
    let second = handle_announcement(&mut map, &mut role, peer(), 11, Some(endpoint));
    assert_eq!(second, first, "a fresh announce at the same epoch is answered");
}

#[test]
fn announces_of_readers_and_of_nobody_are_not_answered() {
    let mut map = PeerMap::new(host());
    let mut role = host_role(0);
    let endpoint = endpoint_of(&[10; 32]).unwrap();
    assert!(handle_announcement(&mut map, &mut role, peer(), 1, Some(endpoint)).is_empty());
    map.apply_capability(host(), grant_rw(peer()));
    assert!(handle_announcement(&mut map, &mut role, peer(), 2, None).is_empty());
    assert!(handle_node_id_message(&mut map, &mut role, peer(), 2, &vec![7; 32]).is_empty());
    assert_eq!(
        handle_node_id_message(&mut map, &mut role, peer(), 2, &vec![10; 32]),
        vec![CapAction::Redeliver(peer(), 0)]
    );
}

#[test]
fn failed_deliveries_are_tried_again() {
    let mut redelivery = Redelivery::new();
    assert!(redelivery.on_announce(peer(), 5, 2));
    assert!(!redelivery.on_announce(peer(), 5, 2));
    redelivery.on_delivered(peer(), 2, true, false);
    assert!(redelivery.on_announce(peer(), 5, 2));
    redelivery.on_delivered(peer(), 2, true, true);
    assert!(!redelivery.on_announce(peer(), 5, 2));
    assert!(redelivery.on_announce(peer(), 5, 3));
    redelivery.on_delivered(peer(), 2, false, false);
    assert!(!redelivery.on_announce(peer(), 4, 3));
}

#[test]
fn host_acts_on_the_capability_log() {
    let mut map = PeerMap::new(host());
    let grant = handle_capability_message(&mut map, true, host(), grant_rw(peer()), 3);
    assert_eq!(grant, vec![CapAction::DeliverUpgrade(peer())]);
    let read = Some(CapabilityAction::Grant { peer: peer(), cap: Capability::Read });
    let demote = handle_capability_message(&mut map, true, host(), read, 4);
    assert_eq!(demote, vec![CapAction::DeliverDowngrade(peer())]);
    assert!(handle_capability_message(&mut map, true, host(), read, 5).is_empty());
    let revoke = Some(CapabilityAction::Revoke { peer: peer() });
    let evict = handle_capability_message(&mut map, true, host(), revoke, 6);
    assert_eq!(
        evict,
        vec![
            CapAction::Emit(WorkspaceEvent::PeerRevoked { peer: peer() }),
            CapAction::Signal(RotationSignal::HostEvict { revoked_peer: peer(), revoke_seq: 6 }),
            CapAction::RemoveMember(peer()),
        ]
    );
    assert!(handle_capability_message(&mut map, true, host(), None, 7).is_empty());
}

#[test]
fn a_grant_of_somebody_else_brings_no_secret() {
    let mut map = PeerMap::new(host());
    let actions = handle_capability_message(&mut map, true, peer(), grant_rw(peer()), 3);
    assert!(actions.is_empty());
    assert!(!map.has_rw(&peer()));
}

#[test]
fn joiners_take_in_what_the_host_sends_them() {
    let me = peer();
    let mut map = PeerMap::new(host());
    let mut role = joiner_role(me);
    let upgrade = MessageBody::Upgrade(Some(UpgradePayload { target_peer: me, namespace_secret: [9; 32] }));
    let (out, actions) = handle_cap_event(&message(4, host(), upgrade.clone()), &session(), &mut map, &mut role);
    assert_eq!(out, CapOutcome::Advanced(4));
    assert_eq!(actions, vec![CapAction::ImportSecret([9; 32])]);

    let rotate = MessageBody::Rotate(Some(RotatePayload {
        target_peer: me,
        namespace_epoch: 3,
        doc_ticket: "doc".to_string(),
    }));
    let (_, actions) = handle_cap_event(&message(0, host(), rotate), &session(), &mut map, &mut role);
    assert_eq!(
        actions,
        vec![CapAction::Signal(RotationSignal::SurvivorRotate {
            namespace_epoch: 3,
            doc_ticket: "doc".to_string(),
        })]
    );

    let downgrade = MessageBody::Downgrade(Some(DowngradePayload { target_peer: me }));
    let (_, actions) = handle_cap_event(&message(0, peer(), downgrade.clone()), &session(), &mut map, &mut role);
    assert!(actions.is_empty(), "only the host can demote");
    let (_, actions) = handle_cap_event(&message(0, host(), downgrade), &session(), &mut map, &mut role);
    assert_eq!(actions, vec![CapAction::Emit(WorkspaceEvent::Demoted)]);
    assert!(matches!(&role, Role::Joiner(ctx) if ctx.write_halted));

    let mut other = joiner_role(PeerId([1; 32]));
    let (_, actions) = handle_cap_event(&message(4, host(), upgrade.clone()), &session(), &mut map, &mut other);
    assert!(actions.is_empty(), "meant for somebody else");
    let mut as_host = host_role(0);
    let (_, actions) = handle_cap_event(&message(4, host(), upgrade), &session(), &mut map, &mut as_host);
    assert!(actions.is_empty(), "a host imports nothing");
    let (out, actions) = handle_cap_event(
        &message(8, host(), MessageBody::Upgrade(None)),
        &session(),
        &mut map,
        &mut role,
    );
    assert_eq!(out, CapOutcome::Advanced(8));
    assert!(actions.is_empty());
}

#[test]
fn a_writer_that_comes_back_gets_the_secret() {
    let mut map = PeerMap::new(host());
    let mut role = host_role(0);
    let joined = SessionEvent::PeerJoined { session: session(), peer: peer() };
    let (out, actions) = handle_cap_event(&joined, &session(), &mut map, &mut role);
    assert_eq!(out, CapOutcome::Ignored);
    assert!(actions.is_empty());
    map.apply_capability(host(), grant_rw(peer()));
    let (_, actions) = handle_cap_event(&joined, &session(), &mut map, &mut role);
    assert_eq!(actions, vec![CapAction::DeliverUpgrade(peer())]);
    let mut bystander = Role::Bystander;
    let (_, actions) = handle_cap_event(&joined, &session(), &mut map, &mut bystander);
    assert!(actions.is_empty());
}

#[test]
fn events_of_other_sessions_are_ignored() {
    let mut map = PeerMap::replaying(host());
    let mut role = host_role(0);
    let other = SessionId([2; 16]);
    let (out, actions) = handle_cap_event(
        &message(3, host(), MessageBody::Capability(grant_rw(peer()))),
        &other,
        &mut map,
        &mut role,
    );
    assert_eq!(out, CapOutcome::Ignored);
    assert!(actions.is_empty());
    assert!(!map.has_rw(&peer()));
    handle_cap_event(&SessionEvent::ReplayComplete { session: session() }, &other, &mut map, &mut role);
    assert!(!map.is_ready());
    handle_cap_event(&SessionEvent::ReplayComplete { session: session() }, &session(), &mut map, &mut role);
    assert!(map.is_ready());
}

#[test]
fn announcements_come_as_system_messages() {
    assert_eq!(NODE_ID_ACTION, "workspace.node_id");
    assert_eq!(TICKET_ACTION, "workspace.ticket");
    let mut map = PeerMap::new(host());
    map.apply_capability(host(), grant_rw(peer()));
    let mut role = host_role(2);
    let body = MessageBody::System { action: NODE_ID_ACTION.to_string(), payload: vec![10; 32] };
    let (out, actions) = handle_cap_event(&message(6, peer(), body), &session(), &mut map, &mut role);
    assert_eq!(out, CapOutcome::Advanced(6));
    assert_eq!(actions, vec![CapAction::Redeliver(peer(), 2)]);
    let body = MessageBody::System { action: "something.else".to_string(), payload: vec![10; 32] };
    let (out, actions) = handle_cap_event(&message(7, peer(), body), &session(), &mut map, &mut role);
    assert_eq!(out, CapOutcome::Advanced(7));
    assert!(actions.is_empty());
}

#[test]
fn cap_listener_recovers_from_the_last_message_seen() {
    let mut map = PeerMap::new(host());
    let mut listener = CapListener::new();
    assert_eq!(listener.on_outcome(CapOutcome::Advanced(4), &mut map), ListenerNext::Drain);
    assert_eq!(listener.on_outcome(CapOutcome::Advanced(0), &mut map), ListenerNext::Drain);
    assert_eq!(listener.on_outcome(CapOutcome::Ignored, &mut map), ListenerNext::Drain);
    assert!(map.is_ready());
    assert_eq!(listener.on_outcome(CapOutcome::Gap, &mut map), ListenerNext::Resubscribe { since: Some(4) });
    assert!(!map.is_ready(), "the log is replayed after a gap");
    assert_eq!(listener.on_closed(&mut map), ListenerNext::Reconnect { delay: 100, since: Some(4) });
    assert_eq!(
        listener.on_reconnect(false, &mut map),
        ListenerNext::Reconnect { delay: 200, since: Some(4) }
    );
    assert_eq!(listener.on_reconnect(true, &mut map), ListenerNext::Drain);
    assert_eq!(listener.on_closed(&mut map), ListenerNext::Reconnect { delay: 100, since: Some(4) });
}

#[test]
fn cap_listener_gives_up_in_the_end() {
    let mut map = PeerMap::new(host());
    let mut listener = CapListener::new();
    let mut next = listener.on_closed(&mut map);
    let mut attempts: u32 = 0;
    while let ListenerNext::Reconnect { .. } = next {
        attempts += 1;
        next = listener.on_reconnect(false, &mut map);
    }
    assert_eq!(attempts, CAP_RECONNECT_MAX_ATTEMPTS);
    assert_eq!(
        next,
        ListenerNext::GiveUp(WorkspaceEvent::Error(
            "cap-listener: giving up after 16 reconnect attempts; peer/capability-change events \
             will no longer be observed"
                .to_string()
        ))
    );
    assert_eq!(map.poll_ready(), Some(false), "nobody waits for a replay that never ends");
}
