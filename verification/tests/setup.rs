//! Coming up and going down.
use artel_fs::capability_log::{MessageBody, SessionEvent, SessionMessage, TICKET_ACTION};
use artel_fs::config::{host_rules, AttachPolicy, EndpointSetup, WorkspaceConfig, DEFAULT_STATE_SUBDIR};
use artel_fs::daemon::{
    answered, listener_failed, on_ticket_wait, ticket_payload, DaemonReply, DaemonRequest, InitialSync,
    ListenerFailure, LiveStep, RequestFailure, TicketWait, INITIAL_SYNC_TIMEOUT,
};
use artel_fs::error::{PolicyViolation, WorkspaceError};
use artel_fs::ids::{EndpointId, PeerId, SessionId};
use artel_fs::node::{check_author_binding, node_failed, NodeFailure, Teardown, LEAK_MESSAGE};
use artel_fs::path::FsPath;
use artel_fs::policy::{enforce_attach_policy, AttachSide, Listing, POLICY_OFFENDING_LIMIT};
use artel_fs::rules::{Mode, PathRule, PathRules, PathRulesError};
use artel_fs::setup::{
    host_peer_map, joiner_peer_map, plan_host, plan_join, prepare_host, prepare_join, setup_failed, Acquired, HostStep,
    JoinStep, RollbackStep, SetupFailure, WorkspaceRollback,
};
use artel_fs::ticket::{decode, TicketEnvelopeError, WorkspaceTicketEnvelope};

#[test]
fn workspace_config_with_join_ticket_timeout_sets_field() {
    let cfg = WorkspaceConfig::default().with_join_ticket_timeout(Some(7000));
    assert_eq!(cfg.join_ticket_timeout, Some(7000));
    let cfg = WorkspaceConfig::default().with_join_ticket_timeout(None);
    assert_eq!(cfg.join_ticket_timeout, None);
}

#[test]
fn workspace_config_default_has_no_join_ticket_timeout() {
    assert_eq!(WorkspaceConfig::default().join_ticket_timeout, None);
}

#[test]
fn workspace_config_default_has_no_rules() {
    assert!(WorkspaceConfig::default().rules.is_none());
}

#[test]
fn workspace_config_with_rules_sets_field() {
    let rules = PathRules {
        default: Mode::ReadOnly,
        rules: vec![PathRule { glob: "shared/**".into(), mode: Mode::ReadWrite }],
    };
    let cfg = WorkspaceConfig::default().with_rules(rules.clone());
    assert_eq!(cfg.rules, Some(rules));
}

#[test]
fn the_other_fields_can_be_set_too() {
    let cfg = WorkspaceConfig::default()
        .with_state_dir(FsPath::new("/state"))
        .with_endpoint_setup(EndpointSetup::Testing)
        .with_daemon_socket(FsPath::new("/run/s"))
        .with_exclude(Some(vec!["a".to_string()]));
    assert_eq!(cfg.state_dir, Some(FsPath::new("/state")));
    assert_eq!(cfg.endpoint_setup, EndpointSetup::Testing);
    assert!(!cfg.endpoint_setup.awaits_relay());
    assert!(EndpointSetup::default().awaits_relay());
    assert_eq!(cfg.daemon_socket, Some(FsPath::new("/run/s")));
    assert_eq!(cfg.exclude, Some(vec!["a".to_string()]));
    assert_eq!(cfg.resolve(&FsPath::new("/ws")), FsPath::new("/state"));
    assert_eq!(
        WorkspaceConfig::default().resolve(&FsPath::new("/ws")),
        FsPath::new("/ws/.artel-fs")
    );
    assert_eq!(host_rules(None), PathRules::read_write());
    assert_eq!(host_rules(Some(PathRules::read_only())), PathRules::read_only());
}

fn root() -> FsPath {
    FsPath::new("/tmp/ws")
}

fn state_dir() -> FsPath {
    root().join(DEFAULT_STATE_SUBDIR.as_bytes())
}

fn listing(names: &[&str]) -> Listing {
    Listing::Entries(names.iter().map(|n| Ok(n.as_bytes().to_vec())).collect())
}

fn require_empty(state_dir: &FsPath, side: AttachSide, names: &[&str]) -> Result<(), WorkspaceError> {
    enforce_attach_policy(&root(), state_dir, AttachPolicy::RequireEmpty, side, &listing(names))
}

#[test]
fn enforce_attach_policy_require_empty_accepts_truly_empty_dir() {
    let res = require_empty(&state_dir(), AttachSide::Host, &[]);
    assert!(res.is_ok(), "{res:?}");
}

#[test]
fn enforce_attach_policy_require_empty_accepts_dir_with_only_artel_fs() {
    let res = require_empty(&state_dir(), AttachSide::Host, &[".artel-fs"]);
    assert!(res.is_ok(), "{res:?}");
}

#[test]
fn enforce_attach_policy_require_empty_accepts_dir_with_only_filtered_paths() {
    let res = require_empty(
        &state_dir(),
        AttachSide::Host,
        &[".git", "target", "node_modules", ".DS_Store", "foo.swp", "scratch.tmp"],
    );
    assert!(res.is_ok(), "{res:?}");
}

#[test]
fn enforce_attach_policy_require_empty_accepts_dir_with_overridden_state_dir() {
    let custom = root().join(b"custom-state");
    let res = require_empty(&custom, AttachSide::Host, &["custom-state"]);
    assert!(res.is_ok(), "{res:?}");
}

#[test]
fn enforce_attach_policy_require_empty_rejects_dir_with_user_file() {
    let err = require_empty(&state_dir(), AttachSide::Host, &["a.txt"]).expect_err("should reject non-empty dir");
    match err {
        WorkspaceError::Policy(PolicyViolation::DirNotEmpty { offending_entries, .. }) => {
            assert_eq!(offending_entries.len(), 1);
            assert!(offending_entries[0].raw.ends_with(b"a.txt"));
        }
        other => panic!("unexpected error: {other:?}"),
    }
}

#[test]
fn enforce_attach_policy_require_empty_rejects_dir_with_subdirectory() {
    let err = require_empty(&state_dir(), AttachSide::Join, &["src"]).expect_err("should reject");
    assert!(matches!(err, WorkspaceError::Policy(PolicyViolation::DirNotEmpty { .. })));
}

#[test]
fn enforce_attach_policy_require_empty_rejects_top_level_symlink() {
    let err = require_empty(&state_dir(), AttachSide::Host, &["link"]).expect_err("symlink should reject");
    assert!(matches!(err, WorkspaceError::Policy(PolicyViolation::DirNotEmpty { .. })));
}

#[test]
fn enforce_attach_policy_allow_existing_passes_anything() {
    for side in [AttachSide::Host, AttachSide::Join] {
        let res = enforce_attach_policy(
            &root(),
            &state_dir(),
            AttachPolicy::AllowExisting,
            side,
            &listing(&["a.txt", "nested"]),
        );
        assert!(res.is_ok(), "AllowExisting {side:?} should pass: {res:?}");
    }
}

#[test]
fn enforce_attach_policy_init_from_existing_passes_on_host() {
    let res = enforce_attach_policy(
        &root(),
        &state_dir(),
        AttachPolicy::InitFromExisting,
        AttachSide::Host,
        &listing(&["a.txt"]),
    );
    assert!(res.is_ok(), "{res:?}");
}

#[test]
fn enforce_attach_policy_init_from_existing_rejected_on_join() {
    let err = enforce_attach_policy(
        &root(),
        &state_dir(),
        AttachPolicy::InitFromExisting,
        AttachSide::Join,
        &listing(&[]),
    )
    .expect_err("InitFromExisting must reject on join");
    assert!(matches!(
        err,
        WorkspaceError::Policy(PolicyViolation::InitFromExistingNotMeaningfulOnJoin)
    ));
    assert_eq!(
        err.message(),
        "attach policy: InitFromExisting is only meaningful when hosting; on join, use AllowExisting"
    );
}

#[test]
fn offending_entries_are_truncated() {
    let names = ["a", "b", "c", "d", "e", "f", "g"];
    let err = require_empty(&state_dir(), AttachSide::Host, &names).unwrap_err();
    assert_eq!(
        err.message(),
        "attach policy: refused to attach to non-empty workspace root /tmp/ws: contains /tmp/ws/a, \
         /tmp/ws/b, /tmp/ws/c, /tmp/ws/d, /tmp/ws/e (truncated to first 5 entries)"
    );
    assert_eq!(POLICY_OFFENDING_LIMIT, 5);
}

#[test]
fn listings_that_fail_are_io_errors() {
    let failed = Listing::Failed("denied".to_string());
    assert_eq!(
        enforce_attach_policy(&root(), &state_dir(), AttachPolicy::RequireEmpty, AttachSide::Host, &failed),
        Err(WorkspaceError::Io("denied".to_string()))
    );
    let broken = Listing::Entries(vec![Ok(b".git".to_vec()), Err("gone".to_string())]);
    assert_eq!(
        enforce_attach_policy(&root(), &state_dir(), AttachPolicy::RequireEmpty, AttachSide::Host, &broken),
        Err(WorkspaceError::Io("gone".to_string()))
    );
    assert_eq!(
        enforce_attach_policy(&root(), &state_dir(), AttachPolicy::RequireEmpty, AttachSide::Host, &Listing::Missing),
        Ok(())
    );
}

fn bad_rules() -> PathRules {
    PathRules {
        default: Mode::ReadWrite,
        rules: vec![PathRule { glob: "/abs".into(), mode: Mode::ReadOnly }],
    }
}

#[test]
fn a_host_is_refused_for_its_root_first() {
    let config = || {
        WorkspaceConfig::default().with_rules(bad_rules()).with_exclude(Some(vec![String::new()]))
    };
    let res = prepare_host(&root(), AttachPolicy::RequireEmpty, config(), &listing(&["x"]));
    assert!(matches!(res.err(), Some(WorkspaceError::Policy(_))));
    let res = prepare_host(&root(), AttachPolicy::RequireEmpty, config(), &listing(&[]));
    assert!(matches!(
        res.err(),
        Some(WorkspaceError::PathRules(PathRulesError::AbsoluteGlob(_)))
    ));
    let config = WorkspaceConfig::default().with_exclude(Some(vec![String::new()]));
    let res = prepare_host(&root(), AttachPolicy::AllowExisting, config, &listing(&["x"]));
    assert_eq!(res.err(), Some(WorkspaceError::PathRules(PathRulesError::EmptyGlob)));
}

#[test]
fn a_host_that_is_accepted_has_its_rules() {
    let prep = prepare_host(
        &root(),
        AttachPolicy::AllowExisting,
        WorkspaceConfig::default().with_rules(PathRules::read_only()),
        &listing(&["x"]),
    )
    .ok()
    .expect("accepted");
    assert_eq!(prep.state_dir, state_dir());
    assert_eq!(prep.site.rules, PathRules::read_only());
    assert_eq!(prep.site.mode_for(&root().join(b"a")), Mode::ReadOnly);
    assert!(prep.site.filter.exclude.matches(&FsPath::new(".hidden")));
}

#[test]
fn the_rules_of_a_joiner_do_not_matter() {
    let config = WorkspaceConfig::default().with_rules(bad_rules()).with_exclude(Some(vec!["*.log".to_string()]));
    let prep = prepare_join(&root(), AttachPolicy::RequireEmpty, &config, &listing(&[])).ok().expect("accepted");
    assert_eq!(prep.state_dir, state_dir());
    assert!(prep.exclude.matches(&FsPath::new("x.log")));
    assert!(!prep.exclude.matches(&FsPath::new(".hidden")));
    let res = prepare_join(&root(), AttachPolicy::InitFromExisting, &config, &listing(&[]));
    assert!(res.is_err());
}

#[test]
fn a_host_that_comes_back_prunes_before_it_scans() {
    let steps = plan_host(true, true);
    assert_eq!(
        steps,
        vec![
            HostStep::Check,
            HostStep::MakeRoot,
            HostStep::MakeStateDir,
            HostStep::SpawnNode,
            HostStep::OpenDoc,
            HostStep::RecoverRevokeSeq,
            HostStep::StartSync,
            HostStep::RegisterHost,
            HostStep::RegisterAttachment,
            HostStep::Reconcile,
            HostStep::Scan,
            HostStep::ShareWrite,
            HostStep::ShareRead,
            HostStep::PublishTicket,
            HostStep::ConnectUpgrade,
            HostStep::HostUpgrade,
            HostStep::StartListener,
        ]
    );
    let steps = plan_host(false, false);
    assert!(!steps.contains(&HostStep::Reconcile));
    assert!(!steps.contains(&HostStep::ConnectUpgrade));
    assert!(!steps.contains(&HostStep::HostUpgrade));
    assert_eq!(steps.last(), Some(&HostStep::StartListener), "without a socket the listener idles");
}

#[test]
fn a_joiner_announces_itself_last() {
    let steps = plan_join();
    assert_eq!(steps.len(), 14);
    assert_eq!(steps[..4], [JoinStep::Check, JoinStep::MakeRoot, JoinStep::MakeStateDir, JoinStep::Subscribe]);
    assert_eq!(steps[12], JoinStep::StartListener);
    assert_eq!(steps[13], JoinStep::Announce);
}

#[test]
fn a_refused_root_is_not_made() {
    let policy = AttachPolicy::InitFromExisting;
    let refused = prepare_join(&root(), policy, &WorkspaceConfig::default(), &Listing::Missing);
    assert!(refused.is_err());
    let accepted = prepare_join(&root(), AttachPolicy::RequireEmpty, &WorkspaceConfig::default(), &Listing::Missing);
    assert!(accepted.is_ok(), "a root that is not there yet is empty");
    for steps in [plan_host(true, true), plan_host(false, false)] {
        let check = steps.iter().position(|s| *s == HostStep::Check).unwrap();
        let make = steps.iter().position(|s| *s == HostStep::MakeRoot).unwrap();
        assert_eq!((check, make), (0, 1));
    }
}

#[test]
fn peer_maps_know_the_host() {
    let host = PeerId([1; 32]);
    let map = host_peer_map(host, EndpointId([3; 32]), true);
    assert!(!map.is_ready());
    assert!(map.revoked_daemon_peer(&EndpointId([3; 32])).is_none());
    assert!(host_peer_map(host, EndpointId([3; 32]), false).is_ready());
    let map = joiner_peer_map(host, Some(EndpointId([3; 32])));
    assert_eq!(map.host_peer_id(), host);
    assert_eq!(
        map.classify_author(&EndpointId([3; 32])),
        artel_fs::peer_map::AuthorDisposition::Rw
    );
    assert_eq!(
        joiner_peer_map(host, None).classify_author(&EndpointId([3; 32])),
        artel_fs::peer_map::AuthorDisposition::Unresolvable
    );
}

#[test]
fn setup_failures_say_what_failed() {
    let x = || "x".to_string();
    let text = |failure: SetupFailure| setup_failed(&failure).message();
    assert_eq!(text(SetupFailure::StartSync(x())), "doc: start_sync: x");
    assert_eq!(text(SetupFailure::ShareWrite(x())), "doc: share doc (write): x");
    assert_eq!(text(SetupFailure::ShareRead(x())), "doc: share doc: x");
    assert_eq!(text(SetupFailure::ConnectUpgrade(x())), "iroh: upgrade-client connect: x");
    assert_eq!(text(SetupFailure::HostUpgrade(x())), "iroh: upgrade-client host: x");
    assert_eq!(text(SetupFailure::EventsTaken), "iroh: client events already taken");
    assert_eq!(text(SetupFailure::ParseTicket(x())), "doc: ticket parse: x");
    assert_eq!(text(SetupFailure::Import(x())), "doc: doc import: x");
    assert_eq!(text(SetupFailure::DocCreate(x())), "doc: doc create: x");
    assert_eq!(
        text(SetupFailure::PersistDocId(FsPath::new("/s/doc-id"), x())),
        "doc: persist doc-id at /s/doc-id: x"
    );
    assert_eq!(text(SetupFailure::Export(x())), "doc: get_many: x");
    assert_eq!(text(SetupFailure::Reconcile(x())), "doc: reconcile get_many: x");
}

#[test]
fn a_host_that_fails_gives_everything_back() {
    let session = SessionId([5; 16]);
    let mut rollback = WorkspaceRollback::default();
    rollback.acquire(Acquired::Node);
    rollback.acquire(Acquired::HostedSession(session));
    rollback.acquire(Acquired::Listener);
    assert_eq!(
        rollback.rollback(),
        vec![
            RollbackStep::StopListener,
            RollbackStep::LeaveSession(session),
            RollbackStep::CloseGate,
            RollbackStep::ShutdownNode,
        ]
    );
    assert!(rollback.rollback().is_empty());
}

#[test]
fn a_joiner_that_fails_stays_a_member() {
    let session = SessionId([5; 16]);
    let mut rollback = WorkspaceRollback::default();
    rollback.acquire(Acquired::Node);
    rollback.acquire(Acquired::JoinerAttachment(session));
    assert_eq!(
        rollback.rollback(),
        vec![
            RollbackStep::ForgetAttachment(session),
            RollbackStep::CloseGate,
            RollbackStep::ShutdownNode,
        ]
    );
    rollback.acquire(Acquired::Node);
    assert!(rollback.disarm());
    assert!(!rollback.disarm());
    assert!(rollback.rollback().is_empty());
}

#[test]
fn dropping_rollback_closes_gate_and_shuts_down_node() {
    let mut map = joiner_peer_map(PeerId([0x77; 32]), None);
    assert_eq!(map.poll_ready(), None);
    let mut rollback = WorkspaceRollback::default();
    rollback.acquire(Acquired::Node);
    let mut down = false;
    for step in rollback.rollback() {
        match step {
            RollbackStep::CloseGate => map.close(),
            RollbackStep::ShutdownNode => down = true,
            other => panic!("unexpected step {other:?}"),
        }
    }
    assert_eq!(map.poll_ready(), Some(false), "rollback left readiness waiters parked");
    assert!(down);
}

#[test]
fn answers_of_the_daemon() {
    let id = SessionId([6; 16]);
    let conflict = || DaemonReply::<u8>::Failed(RequestFailure::Conflict(id, "c".to_string()));
    let unknown = || DaemonReply::<u8>::Failed(RequestFailure::Unknown(id, "u".to_string()));
    assert_eq!(answered(DaemonRequest::HostSession, DaemonReply::Expected(3u8)), Ok(3));
    assert_eq!(
        answered(DaemonRequest::HostSession, conflict()),
        Err(WorkspaceError::SessionConflict(id))
    );
    assert_eq!(
        answered(DaemonRequest::RegisterAttachment, conflict()),
        Err(WorkspaceError::Client("c".to_string()))
    );
    assert_eq!(
        answered(DaemonRequest::RegisterAttachment, unknown()),
        Err(WorkspaceError::SessionVanished(id))
    );
    assert_eq!(
        answered(DaemonRequest::Subscribe, unknown()),
        Err(WorkspaceError::Client("u".to_string()))
    );
    assert_eq!(
        answered::<u8>(
            DaemonRequest::ListAttachments,
            DaemonReply::Failed(RequestFailure::Other("o".to_string()))
        ),
        Err(WorkspaceError::Client("o".to_string()))
    );
    let unexpected = |request| {
        answered::<u8>(request, DaemonReply::Unexpected("Pong".to_string())).unwrap_err().message()
    };
    assert_eq!(unexpected(DaemonRequest::HostSession), "iroh: unexpected response to HostSession: Pong");
    assert_eq!(
        unexpected(DaemonRequest::RegisterAttachment),
        "iroh: unexpected response to RegisterAttachment: Pong"
    );
    assert_eq!(
        unexpected(DaemonRequest::PublishWorkspaceTicket),
        "iroh: unexpected response to PublishWorkspaceTicket: Pong"
    );
    assert_eq!(unexpected(DaemonRequest::Subscribe), "iroh: unexpected response to Subscribe: Pong");
    assert_eq!(
        unexpected(DaemonRequest::ListAttachments),
        "iroh: unexpected response to ListAttachments: Pong"
    );
}

#[test]
fn listener_failures_say_what_failed() {
    assert_eq!(
        listener_failed(ListenerFailure::Connect("x".to_string())).message(),
        "iroh: cap-listener reconnect: x"
    );
    assert_eq!(listener_failed(ListenerFailure::Request("x".to_string())).message(), "x");
    assert_eq!(
        listener_failed(ListenerFailure::Unexpected("Pong".to_string())).message(),
        "iroh: cap-listener resubscribe: unexpected response: Pong"
    );
    assert_eq!(
        listener_failed(ListenerFailure::EventsTaken).message(),
        "iroh: cap-listener: events already taken"
    );
}

fn ticket_event(session: SessionId, action: &str, payload: Vec<u8>) -> TicketWait {
    TicketWait::Event(SessionEvent::Message {
        session,
        message: SessionMessage {
            seq: 0,
            author: PeerId([9; 32]),
            body: MessageBody::System { action: action.to_string(), payload },
        },
    })
}

#[test]
fn a_joiner_waits_for_the_ticket_of_its_session() {
    let session = SessionId([1; 16]);
    let payload = ticket_payload("doc".to_string(), PathRules::read_write()).unwrap();
    assert_eq!(
        decode(&payload).unwrap(),
        WorkspaceTicketEnvelope::new("doc".to_string(), PathRules::read_write())
    );
    let other = ticket_event(SessionId([2; 16]), TICKET_ACTION, payload.clone());
    assert_eq!(on_ticket_wait(&other, &session), None);
    assert_eq!(on_ticket_wait(&ticket_event(session, "other", payload.clone()), &session), None);
    assert_eq!(on_ticket_wait(&TicketWait::Event(SessionEvent::Gap { session }), &session), None);
    let got = on_ticket_wait(&ticket_event(session, TICKET_ACTION, payload), &session).unwrap().unwrap();
    assert_eq!(got.envelope.doc_ticket, "doc");
    assert_eq!(got.host_daemon_peer_id, PeerId([9; 32]));
    let bad = on_ticket_wait(&ticket_event(session, TICKET_ACTION, vec![]), &session).unwrap();
    assert!(matches!(
        bad,
        Err(WorkspaceError::TicketEnvelope(TicketEnvelopeError::Malformed(_)))
    ));
    assert_eq!(
        on_ticket_wait(&TicketWait::Closed, &session),
        Some(Err(WorkspaceError::Iroh("event stream closed before ticket arrived".to_string())))
    );
    assert_eq!(
        on_ticket_wait(&TicketWait::TimedOut, &session),
        Some(Err(WorkspaceError::Iroh("timed out waiting for workspace.ticket".to_string())))
    );
    assert!(matches!(
        ticket_payload("doc".to_string(), bad_rules()),
        Err(WorkspaceError::TicketEnvelope(TicketEnvelopeError::PathRules(_)))
    ));
}

#[test]
fn the_first_sync_is_over_when_contents_follow_a_round() {
    let mut sync = InitialSync::new();
    assert_eq!(sync.on_live(LiveStep::PendingContentReady), None);
    assert_eq!(sync.on_live(LiveStep::Other), None);
    assert_eq!(sync.on_live(LiveStep::SyncFinished), None);
    assert_eq!(sync.on_live(LiveStep::Other), None);
    assert_eq!(sync.on_live(LiveStep::PendingContentReady), Some(Ok(())));
    assert_eq!(
        sync.on_live(LiveStep::Ended),
        Some(Err(WorkspaceError::Doc("live event stream ended before initial sync".to_string())))
    );
    assert_eq!(
        sync.on_live(LiveStep::TimedOut),
        Some(Err(WorkspaceError::Doc("initial sync did not complete in 30s".to_string())))
    );
    assert_eq!(INITIAL_SYNC_TIMEOUT, 30000);
}

#[test]
fn node_failures_say_what_failed() {
    let x = || "x".to_string();
    let text = |failure: NodeFailure| node_failed(failure).message();
    assert_eq!(text(NodeFailure::Key(x())), "iroh: workspace key: x");
    assert_eq!(text(NodeFailure::Bind(x())), "iroh: bind endpoint: x");
    assert_eq!(text(NodeFailure::BlobsDir(FsPath::new("/b"), x())), "iroh: create blobs dir /b: x");
    assert_eq!(text(NodeFailure::DocsDir(FsPath::new("/d"), x())), "iroh: create docs dir /d: x");
    assert_eq!(text(NodeFailure::BlobStore(x())), "iroh: load blob store: x");
    assert_eq!(text(NodeFailure::Docs(x())), "iroh: spawn docs: x");
    assert_eq!(text(NodeFailure::Author(x())), "doc: author_import: x");
    assert_eq!(node_failed(NodeFailure::Relay(x())), WorkspaceError::RelayUnreachable(x()));
    assert_eq!(text(NodeFailure::Shutdown(x())), "iroh: router shutdown: x");
}

#[test]
fn the_author_of_a_node_is_its_endpoint() {
    assert_eq!(check_author_binding(&[1; 32], &[1; 32], "a", "a"), Ok(()));
    assert_eq!(
        check_author_binding(&[1; 32], &[2; 32], "a", "b").unwrap_err().message(),
        "iroh: same-seed author binding broken: author id a != endpoint id b; \
         namespace-rotation author-filter would fail closed"
    );
}

#[test]
fn a_shutdown_that_failed_leaves_the_alarm_on() {
    let mut teardown = Teardown::running();
    assert!(teardown.is_leak());
    assert!(teardown.take_node());
    let failure = Err(WorkspaceError::Iroh("x".to_string()));
    assert_eq!(teardown.finish(failure.clone()), failure);
    assert!(teardown.is_leak());
    assert!(!teardown.take_node(), "the second to ask has nothing to do");
    let mut teardown = Teardown::running();
    assert!(teardown.take_node());
    assert_eq!(teardown.finish(Ok(())), Ok(()));
    assert!(!teardown.is_leak());
    assert!(LEAK_MESSAGE.ends_with("Call workspace.shutdown().await before dropping."));
}
