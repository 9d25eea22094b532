//! Moving to a fresh namespace.
use artel_fs::endpoint::endpoint_of;
use artel_fs::error::WorkspaceError;
use artel_fs::events::WorkspaceEvent;
use artel_fs::eviction::{
    plan_reimport, reimport_failed, republished, rotated_envelope, EvictStep, ReimportFailure, ReimportSource,
    ReimportStep, RotationAction, RotationSignal, RotationState,
};
use artel_fs::ids::{ContentHash, EndpointId, NamespaceId, PeerId};
use artel_fs::path::FsPath;
use artel_fs::peer_map::{Capability, CapabilityAction, PeerMap};
use artel_fs::rotation::{
    collect_rotation_survivors, plan_rotation, rotate_failed, DocEntry, RotateStep, RotationDropCounts, Snapshot,
};
use artel_fs::rules::{Mode, PathRule, PathRules};
use artel_fs::ticket::{decode, WorkspaceTicketEnvelope};

fn host() -> PeerId {
    PeerId([1; 32])
}

/// Seeds of the keys behind endpoints.
const HOST: u8 = 3;
const WRITER: u8 = 10;
const STRANGER: u8 = 2;

fn endpoint(seed: u8) -> EndpointId {
    endpoint_of(iroh_base::SecretKey::from_bytes(&[seed; 32]).public().as_bytes()).unwrap()
}

fn entry(key: &str, author: u8, len: u64) -> DocEntry {
    DocEntry { key: key.as_bytes().to_vec(), author: endpoint(author).0, hash: ContentHash([len as u8; 32]), len }
}

fn writer() -> PeerId {
    PeerId([8; 32])
}

fn map() -> PeerMap {
    let mut map = PeerMap::new(host());
    map.register(endpoint(HOST), host());
    map.register(endpoint(WRITER), writer());
    map.apply_capability(
        host(),
        Some(CapabilityAction::Grant { peer: writer(), cap: Capability::ReadWrite }),
    );
    map
}

fn items() -> Vec<Result<DocEntry, String>> {
    vec![
        Ok(entry("path/a", HOST, 5)),
        Ok(entry("path/b", WRITER, 6)),
        Ok(entry("path/c", STRANGER, 7)),
        Ok(entry("path/d", WRITER, 0)),
    ]
}

#[test]
fn survivors_are_those_of_the_host_and_of_writers() {
    let (kept, counts) = collect_rotation_survivors(&items(), &endpoint(HOST), &map()).unwrap();
    assert_eq!(
        kept,
        vec![
            entry("path/a", HOST, 5),
            entry("path/b", WRITER, 6),
            entry("path/d", WRITER, 0),
        ]
    );
    assert_eq!(counts, RotationDropCounts { revoked: 0, not_rw: 0, unresolvable: 1 });
    assert_eq!(counts.total(), 1);
}

#[test]
fn evicted_and_demoted_authors_are_told_apart() {
    let mut revoked = map();
    revoked.apply_capability(host(), Some(CapabilityAction::Revoke { peer: writer() }));
    let (kept, counts) = collect_rotation_survivors(&items(), &endpoint(HOST), &revoked).unwrap();
    assert_eq!(kept, vec![entry("path/a", HOST, 5)]);
    assert_eq!(counts, RotationDropCounts { revoked: 2, not_rw: 0, unresolvable: 1 });
    let mut reader = map();
    reader.apply_capability(
        host(),
        Some(CapabilityAction::Grant { peer: writer(), cap: Capability::Read }),
    );
    let (_, counts) = collect_rotation_survivors(&items(), &endpoint(HOST), &reader).unwrap();
    assert_eq!(counts, RotationDropCounts { revoked: 0, not_rw: 2, unresolvable: 1 });
    assert_eq!(RotationDropCounts::default().total(), 0);
}

#[test]
fn the_first_fault_of_a_snapshot_counts() {
    let mut bad = items();
    bad.insert(1, Ok(DocEntry { author: [7; 32], ..entry("path/x", WRITER, 1) }));
    bad.insert(3, Err("broken".to_string()));
    assert_eq!(
        collect_rotation_survivors(&bad, &endpoint(HOST), &map()).unwrap_err(),
        WorkspaceError::Doc("rotate: author not an endpoint: data is not a valid public key".to_string()),
    );
    bad.insert(0, Err("gone".to_string()));
    assert_eq!(
        collect_rotation_survivors(&bad, &endpoint(HOST), &map()).unwrap_err(),
        WorkspaceError::Doc("rotate: snapshot entry: gone".to_string()),
    );
}

#[test]
fn a_rotation_writes_deletes_as_deletes_and_records_the_epoch_last() {
    let plan = plan_rotation(&Snapshot::Items(items()), &endpoint(HOST), &map(), 4).unwrap();
    assert_eq!(plan.epoch, 5);
    assert_eq!(plan.survivor_entries, 3);
    assert_eq!(plan.dropped_entries, 1);
    assert_eq!(
        plan.event,
        Some(WorkspaceEvent::Error(
            "rotation dropped 1 entry with an unresolvable author (possible survivor data loss from \
             a NODE_ID mapping race)"
                .to_string()
        ))
    );
    assert_eq!(
        plan.steps,
        vec![
            RotateStep::Create,
            RotateStep::SetHash { key: b"path/a".to_vec(), hash: ContentHash([5; 32]), len: 5 },
            RotateStep::SetHash { key: b"path/b".to_vec(), hash: ContentHash([6; 32]), len: 6 },
            RotateStep::Delete { key: b"path/d".to_vec() },
            RotateStep::ShareWrite,
            RotateStep::ShareRead,
            RotateStep::PersistNamespace,
            RotateStep::PersistEpoch { epoch: 5 },
        ]
    );
}

#[test]
fn several_lost_entries_are_entries() {
    let lost = vec![Ok(entry("path/a", STRANGER, 1)), Ok(entry("path/b", STRANGER, 2))];
    let plan = plan_rotation(&Snapshot::Items(lost), &endpoint(HOST), &map(), 0).unwrap();
    assert_eq!(
        plan.event,
        Some(WorkspaceEvent::Error(
            "rotation dropped 2 entries with an unresolvable author (possible survivor data loss from \
             a NODE_ID mapping race)"
                .to_string()
        ))
    );
    let plan = plan_rotation(&Snapshot::Items(vec![]), &endpoint(HOST), &map(), 0).unwrap();
    assert_eq!(plan.event, None);
    assert_eq!(plan.epoch, 1);
}

#[test]
fn rotation_failures_say_what_failed() {
    assert_eq!(
        plan_rotation(&Snapshot::NodeGone, &endpoint(HOST), &map(), 0).unwrap_err(),
        WorkspaceError::Doc("rotate: node already torn down".to_string()),
    );
    assert_eq!(
        plan_rotation(&Snapshot::Failed("x".to_string()), &endpoint(HOST), &map(), 0).unwrap_err(),
        WorkspaceError::Doc("rotate: snapshot get_many: x".to_string()),
    );
    let path = FsPath::new("/s/f");
    let text = |step: &RotateStep| rotate_failed(step, &path, "x").message();
    assert_eq!(text(&RotateStep::Create), "doc: rotate: create namespace: x");
    assert_eq!(text(&RotateStep::Delete { key: vec![] }), "doc: rotate: carry-forward del: x");
    assert_eq!(
        text(&RotateStep::SetHash { key: vec![], hash: ContentHash([0; 32]), len: 1 }),
        "doc: rotate: set_hash: x"
    );
    assert_eq!(text(&RotateStep::ShareWrite), "doc: rotate: share new doc: x");
    assert_eq!(text(&RotateStep::ShareRead), "doc: rotate: share new doc (read): x");
    assert_eq!(
        text(&RotateStep::PersistNamespace),
        "doc: rotate: persist current-namespace at /s/f: x"
    );
    assert_eq!(text(&RotateStep::PersistEpoch { epoch: 1 }), "doc: persist namespace-epoch at /s/f: x");
}

fn evict(revoke_seq: u64) -> RotationSignal {
    RotationSignal::HostEvict { revoked_peer: writer(), revoke_seq }
}

#[test]
fn a_replayed_revoke_does_not_rotate_again() {
    let map = map();
    let mut state = RotationState::recovered(2, 7);
    assert_eq!(state.on_signal(&evict(7), &map), RotationAction::Ignore);
    assert_eq!(state.on_signal(&evict(8), &map), RotationAction::Rotate { prev_epoch: 2 });
    let next = state.on_minted(8, Ok(3));
    assert_eq!(next.event, None);
    assert_eq!(
        next.steps,
        vec![
            EvictStep::PersistRevokeSeq(8),
            EvictStep::ReimportHost(3),
            EvictStep::RefreshDistribution(3),
            EvictStep::DeliverToSurvivors(3),
        ]
    );
    assert_eq!(state, RotationState { epoch: 3, rotated_revoke_seq: 8 });
    assert_eq!(state.on_signal(&evict(8), &map), RotationAction::Ignore);
}

#[test]
fn recovery_rotation_waits_for_final_replay_projection() {
    let first_peer = PeerId([0x71; 32]);
    let second_peer = PeerId([0x72; 32]);
    let mut map = PeerMap::new(host());
    for peer in [first_peer, second_peer] {
        map.apply_capability(host(), Some(CapabilityAction::Grant { peer, cap: Capability::ReadWrite }));
    }
    map.register(endpoint(WRITER), second_peer);
    let snapshot = Snapshot::Items(vec![Ok(entry("path/revoked.txt", WRITER, 11))]);
    let mut state = RotationState::recovered(0, 0);
    let signal = RotationSignal::HostEvict { revoked_peer: first_peer, revoke_seq: 1 };

    map.begin_replay();
    map.apply_capability(host(), Some(CapabilityAction::Revoke { peer: first_peer }));
    assert_eq!(state.on_signal(&signal, &map), RotationAction::Wait, "rotation did not wait");
    assert_eq!(state.epoch, 0);

    map.apply_capability(host(), Some(CapabilityAction::Revoke { peer: second_peer }));
    map.finish_replay();
    assert_eq!(state.on_signal(&signal, &map), RotationAction::Rotate { prev_epoch: 0 });
    let plan = plan_rotation(&snapshot, &endpoint(HOST), &map, 0).unwrap();
    assert_eq!(plan.survivor_entries, 0, "rotation carried the second peer's entry forward");
    state.on_minted(1, Ok(plan.epoch));
    assert_eq!(state.epoch, 1, "rotation must complete after replay");
    assert!(map.rw_peers_except_host().is_empty());
}

#[test]
fn a_workspace_that_goes_down_does_not_rotate() {
    let mut map = map();
    map.close();
    let state = RotationState::recovered(0, 0);
    assert_eq!(state.on_signal(&evict(1), &map), RotationAction::Abandon);
}

#[test]
fn a_rotation_that_failed_is_reported_and_can_be_tried_again() {
    let map = map();
    let mut state = RotationState::recovered(2, 7);
    let next = state.on_minted(8, Err(WorkspaceError::Doc("x".to_string())));
    assert_eq!(next.event, Some(WorkspaceEvent::Error("rotation failed: doc: x".to_string())));
    assert!(next.steps.is_empty());
    assert_eq!(state.on_signal(&evict(8), &map), RotationAction::Rotate { prev_epoch: 2 });
    assert_eq!(
        state.on_host_reimport(3, Err(WorkspaceError::Doc("y".to_string()))),
        Some(WorkspaceEvent::Error("host reimport failed: doc: y".to_string()))
    );
    assert_eq!(state.epoch, 2);
    assert_eq!(state.on_host_reimport(3, Ok(())), None);
    assert_eq!(state.epoch, 3);
}

#[test]
fn a_member_moves_to_later_epochs_only() {
    let map = map();
    let mut state = RotationState::recovered(2, 0);
    let signal = |namespace_epoch| RotationSignal::SurvivorRotate {
        namespace_epoch,
        doc_ticket: "t".to_string(),
    };
    assert_eq!(state.on_signal(&signal(2), &map), RotationAction::Ignore);
    assert_eq!(
        state.on_signal(&signal(3), &map),
        RotationAction::Reimport { doc_ticket: "t".to_string(), epoch: 3 }
    );
    assert_eq!(
        state.on_survivor_reimport(3, Err(WorkspaceError::Doc("z".to_string()))),
        Some(WorkspaceEvent::Error("survivor reimport failed: doc: z".to_string()))
    );
    assert_eq!(state.epoch, 2);
    assert_eq!(state.on_survivor_reimport(3, Ok(())), None);
    assert_eq!(state.on_signal(&signal(3), &map), RotationAction::Ignore);
}

#[test]
fn only_a_host_scans_after_its_move() {
    let local = ReimportSource::HostLocal {
        new_secret: [1; 32],
        new_namespace: NamespaceId([2; 32]),
        epoch: 6,
    };
    let steps = plan_reimport(&local);
    assert_eq!(
        steps,
        vec![
            ReimportStep::Import,
            ReimportStep::Open,
            ReimportStep::StartSync,
            ReimportStep::PersistNamespace,
            ReimportStep::PersistEpoch(6),
            ReimportStep::SwapDoc,
            ReimportStep::ResetTasks,
            ReimportStep::ForgetPublished,
            ReimportStep::Respawn,
            ReimportStep::Scan,
            ReimportStep::SetEpoch(6),
        ]
    );
    let ticket = ReimportSource::SurvivorTicket { doc_ticket: "t".to_string(), epoch: 6 };
    let steps = plan_reimport(&ticket);
    assert_eq!(steps[0], ReimportStep::ParseTicket);
    assert!(!steps.contains(&ReimportStep::Scan));
    assert_eq!(steps.last(), Some(&ReimportStep::SetEpoch(6)));
}

#[test]
fn reimport_failures_say_what_failed() {
    let text = |failure: ReimportFailure| reimport_failed(&failure).message();
    let x = || "x".to_string();
    assert_eq!(text(ReimportFailure::Ticket(x())), "doc: reimport: parse rotation ticket: x");
    assert_eq!(text(ReimportFailure::NodeGone), "doc: reimport: node torn down");
    assert_eq!(text(ReimportFailure::Import(x())), "doc: reimport import_namespace: x");
    assert_eq!(text(ReimportFailure::Open(x())), "doc: reimport open: x");
    assert_eq!(text(ReimportFailure::Absent), "doc: reimport: namespace absent after import");
    assert_eq!(text(ReimportFailure::Sync(x())), "doc: reimport start_sync: x");
    assert_eq!(
        text(ReimportFailure::Namespace(FsPath::new("/s/f"), x())),
        "doc: reimport: persist current-namespace at /s/f: x"
    );
}

#[test]
fn the_ticket_is_published_again_after_a_rotation() {
    let bytes = rotated_envelope("read".to_string(), PathRules::read_only()).unwrap();
    assert_eq!(
        decode(&bytes).unwrap(),
        WorkspaceTicketEnvelope::new("read".to_string(), PathRules::read_only())
    );
    let bad = PathRules {
        default: Mode::ReadWrite,
        rules: vec![PathRule { glob: String::new(), mode: Mode::ReadOnly }],
    };
    assert_eq!(
        rotated_envelope("read".to_string(), bad).unwrap_err(),
        WorkspaceEvent::Error(
            "rotation: encode rotated envelope failed: workspace ticket envelope: invalid rules: \
             empty glob is not allowed"
                .to_string()
        )
    );
    assert_eq!(republished(Ok(())), None);
    assert_eq!(
        republished(Err("x".to_string())),
        Some(WorkspaceEvent::Error("rotation: re-publish ticket failed: x".to_string()))
    );
}
