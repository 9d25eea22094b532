//! Bringing a workspace up: what is checked first, in which order the rest
//! follows, and what is undone when something fails on the way.
use vstd::prelude::*;

use crate::config::{host_rules, AttachPolicy, WorkspaceConfig};
use crate::error::{concat, WorkspaceError, WorkspaceFault};
use crate::filter::{exclude_fault, exclude_patterns, normalised_globs, ExcludeRules, WorkspaceFilter};
use crate::ids::{EndpointId, Key, PeerId, SessionId};
use crate::path::FsPath;
use crate::peer_map::{after_register, map_of_host, PeerMap, Readiness};
use crate::policy::{attach_fault, enforce_attach_policy, AttachSide, Listing};
use crate::rules::{compile_fault, Mode, PathRule, PathRules};
use crate::site::Site;
use crate::text::lossy_text;

verus! {

/// What a host has once its configuration was accepted.
pub struct HostPreparation {
    /// Where the state goes.
    pub state_dir: FsPath,
    /// The root with its rules.
    pub site: Site,
}

/// What a joiner has once its configuration was accepted.
pub struct JoinPreparation {
    /// Where the state goes.
    pub state_dir: FsPath,
    /// What is left out of the sync.
    pub exclude: ExcludeRules,
}

/// The rules that a host configures.
pub open spec fn configured_rules(config: WorkspaceConfig) -> Seq<PathRule> {
    match config.rules {
        Some(rules) => rules.rules@,
        None => Seq::empty(),
    }
}

/// What is wrong with the configured list of what is left out.
pub open spec fn config_exclude_fault(config: WorkspaceConfig) -> Option<WorkspaceFault> {
    match config.exclude {
        None => None,
        Some(globs) => match exclude_fault(globs@) {
            None => None,
            Some(fault) => Some(WorkspaceFault::PathRules(fault)),
        },
    }
}

/// Why a host does not start: the root, then the rules, then the list of what
/// is left out.
pub open spec fn host_fault(root: Seq<u8>, policy: AttachPolicy, config: WorkspaceConfig, listing: Listing) -> Option<WorkspaceFault> {
    match attach_fault(root, config.state_dir_in(root), policy, AttachSide::Host, listing) {
        Some(fault) => Some(fault),
        None => match compile_fault(configured_rules(config)) {
            Some(fault) => Some(WorkspaceFault::PathRules(fault)),
            None => config_exclude_fault(config),
        },
    }
}

/// Why a joiner does not start. Its rules are not looked at: those of the host
/// hold.
pub open spec fn join_fault(root: Seq<u8>, policy: AttachPolicy, config: WorkspaceConfig, listing: Listing) -> Option<WorkspaceFault> {
    match attach_fault(root, config.state_dir_in(root), policy, AttachSide::Join, listing) {
        Some(fault) => Some(fault),
        None => config_exclude_fault(config),
    }
}

/// Whether compiled exclude rules are those of a configuration.
pub open spec fn excludes_as(exclude: ExcludeRules, config: WorkspaceConfig) -> bool {
    match config.exclude {
        None => exclude == ExcludeRules::Dotfiles,
        Some(globs) => exclude_patterns(exclude) == Some(normalised_globs(globs@)),
    }
}

/// Checks what a host was given, before anything is created.
pub fn prepare_host(root: &FsPath, policy: AttachPolicy, config: WorkspaceConfig, listing: &Listing) -> (res: Result<
    HostPreparation,
    WorkspaceError,
>)
    ensures
        match res {
            Err(err) => host_fault(root@, policy, config, *listing) == Some(err@),
            Ok(prep) => {
                &&& host_fault(root@, policy, config, *listing) is None
                &&& prep.state_dir@ == config.state_dir_in(root@)
                &&& prep.site.wf()
                &&& prep.site.root() == root@
                &&& match config.rules {
                    Some(rules) => prep.site.rules == rules,
                    None => prep.site.rules.default == Mode::ReadWrite && prep.site.rules.rules@ == Seq::<PathRule>::empty(),
                }
                &&& excludes_as(prep.site.filter.exclude, config)
            },
        },
{
    let state_dir = config.resolve(root);
    match enforce_attach_policy(root, &state_dir, policy, AttachSide::Host, listing) {
        Err(err) => {
            return Err(err);
        },
        Ok(()) => {},
    }
    let exclude_globs = config.exclude;
    let rules = host_rules(config.rules);
    let compiled_rules = match rules.compile() {
        Err(err) => {
            return Err(WorkspaceError::PathRules(err));
        },
        Ok(compiled) => compiled,
    };
    let exclude = match ExcludeRules::compile(exclude_globs.as_ref()) {
        Err(err) => {
            return Err(WorkspaceError::PathRules(err));
        },
        Ok(exclude) => exclude,
    };
    let filter = WorkspaceFilter::new(root.duplicate(), exclude);
    Ok(HostPreparation { state_dir, site: Site { filter, rules, compiled_rules } })
}

/// Checks what a joiner was given, before anything is created.
pub fn prepare_join(root: &FsPath, policy: AttachPolicy, config: &WorkspaceConfig, listing: &Listing) -> (res: Result<
    JoinPreparation,
    WorkspaceError,
>)
    ensures
        match res {
            Err(err) => join_fault(root@, policy, *config, *listing) == Some(err@),
            Ok(prep) => {
                &&& join_fault(root@, policy, *config, *listing) is None
                &&& prep.state_dir@ == config.state_dir_in(root@)
                &&& excludes_as(prep.exclude, *config)
            },
        },
{
    let state_dir = config.resolve(root);
    match enforce_attach_policy(root, &state_dir, policy, AttachSide::Join, listing) {
        Err(err) => {
            return Err(err);
        },
        Ok(()) => {},
    }
    let exclude = match ExcludeRules::compile(config.exclude.as_ref()) {
        Err(err) => {
            return Err(WorkspaceError::PathRules(err));
        },
        Ok(exclude) => exclude,
    };
    Ok(JoinPreparation { state_dir, exclude })
}

/// The peer map of a host: it knows its own endpoint, so that it never blocks
/// itself. Where the log will be followed, the map waits for its end.
pub fn host_peer_map(host: PeerId, endpoint: EndpointId, follows_log: bool) -> (map: PeerMap)
    ensures
        map@ == after_register(
            map_of_host(
                host@,
                if follows_log {
                    Readiness::Replaying
                } else {
                    Readiness::Ready
                },
            ),
            endpoint@,
            host@,
        ),
{
    let mut map = if follows_log {
        PeerMap::replaying(host)
    } else {
        PeerMap::new(host)
    };
    map.register(endpoint, host);
    map
}

/// The peer map of a joiner: it knows the endpoint that the host's ticket
/// names first, and waits for the end of the log.
pub fn joiner_peer_map(host: PeerId, first_node: Option<EndpointId>) -> (map: PeerMap)
    ensures
        map@ == match first_node {
            Some(endpoint) => after_register(map_of_host(host@, Readiness::Replaying), endpoint@, host@),
            None => map_of_host(host@, Readiness::Replaying),
        },
{
    let mut map = PeerMap::replaying(host);
    if let Some(endpoint) = first_node {
        map.register(endpoint, host);
    }
    map
}

/// One step of bringing a host up.
#[derive(Clone, Copy, Debug, PartialEq, Eq, Structural)]
pub enum HostStep {
    /// Check what the host was given, with [`prepare_host`].
    Check,
    /// Make the root, where it is not there.
    MakeRoot,
    /// Make the state directory, where it is not there.
    MakeStateDir,
    /// Start the network node.
    SpawnNode,
    /// Open the document, or create it.
    OpenDoc,
    /// Find out up to which revoke this host has rotated.
    RecoverRevokeSeq,
    /// Start to sync the document.
    StartSync,
    /// Host the session that belongs to the document.
    RegisterHost,
    /// Make the workspace known to the daemon.
    RegisterAttachment,
    /// Delete from the document what is gone from the root.
    Reconcile,
    /// Publish what the root holds.
    Scan,
    /// Make the ticket that lets its holder write, for its secret.
    ShareWrite,
    /// Make the ticket that lets its holder read.
    ShareRead,
    /// Hand the ticket for reading to the daemon.
    PublishTicket,
    /// Connect for the deliveries.
    ConnectUpgrade,
    /// Host the session on that connection too.
    HostUpgrade,
    /// Follow the log. Without a socket of the daemon there is none to follow,
    /// and the listener idles until the workspace goes down.
    StartListener,
}

/// The steps of a host, in order. A host that comes back deletes first what is
/// gone, and then publishes what is there.
pub open spec fn host_steps(returning: bool, has_socket: bool) -> Seq<HostStep> {
    seq![
        HostStep::Check,
        HostStep::MakeRoot,
        HostStep::MakeStateDir,
        HostStep::SpawnNode,
        HostStep::OpenDoc,
        HostStep::RecoverRevokeSeq,
        HostStep::StartSync,
        HostStep::RegisterHost,
        HostStep::RegisterAttachment,
    ] + (if returning {
        seq![HostStep::Reconcile]
    } else {
        Seq::empty()
    }) + seq![HostStep::Scan, HostStep::ShareWrite, HostStep::ShareRead, HostStep::PublishTicket] + (if has_socket {
        seq![HostStep::ConnectUpgrade, HostStep::HostUpgrade]
    } else {
        Seq::empty()
    }) + seq![HostStep::StartListener]
}

/// What to do, in order, to bring a host up; the first failure ends it. The
/// steps up to the document are the same in every plan, and tell whether the
/// host comes back.
pub fn plan_host(returning: bool, has_socket: bool) -> (steps: Vec<HostStep>)
    ensures
        steps@ == host_steps(returning, has_socket),
{
    let mut steps: Vec<HostStep> = Vec::new();
    steps.push(HostStep::Check);
    steps.push(HostStep::MakeRoot);
    steps.push(HostStep::MakeStateDir);
    steps.push(HostStep::SpawnNode);
    steps.push(HostStep::OpenDoc);
    steps.push(HostStep::RecoverRevokeSeq);
    steps.push(HostStep::StartSync);
    steps.push(HostStep::RegisterHost);
    steps.push(HostStep::RegisterAttachment);
    if returning {
        steps.push(HostStep::Reconcile);
    }
    steps.push(HostStep::Scan);
    steps.push(HostStep::ShareWrite);
    steps.push(HostStep::ShareRead);
    steps.push(HostStep::PublishTicket);
    if has_socket {
        steps.push(HostStep::ConnectUpgrade);
        steps.push(HostStep::HostUpgrade);
    }
    steps.push(HostStep::StartListener);
    assert(steps@ =~= host_steps(returning, has_socket));
    steps
}

/// One step of bringing a joiner up.
#[derive(Clone, Copy, Debug, PartialEq, Eq, Structural)]
pub enum JoinStep {
    /// Check what the joiner was given, with [`prepare_join`].
    Check,
    /// Make the root, where it is not there.
    MakeRoot,
    /// Make the state directory, where it is not there.
    MakeStateDir,
    /// Subscribe to the session.
    Subscribe,
    /// Wait for the host's ticket.
    WaitForTicket,
    /// Compile the host's rules.
    CompileRules,
    /// Read the document ticket.
    ParseTicket,
    /// Start the network node.
    SpawnNode,
    /// Import the document.
    Import,
    /// Make the workspace known to the daemon.
    RegisterAttachment,
    /// Wait until the document was synced once.
    InitialSync,
    /// Write what the document holds into the root.
    Export,
    /// Follow the log.
    StartListener,
    /// Announce this endpoint to the host; a failure is not fatal.
    Announce,
}

/// The steps of a joiner, in order. It announces itself when it can take in
/// what the host answers, and not before.
pub open spec fn join_steps() -> Seq<JoinStep> {
    seq![
        JoinStep::Check,
        JoinStep::MakeRoot,
        JoinStep::MakeStateDir,
        JoinStep::Subscribe,
        JoinStep::WaitForTicket,
        JoinStep::CompileRules,
        JoinStep::ParseTicket,
        JoinStep::SpawnNode,
        JoinStep::Import,
        JoinStep::RegisterAttachment,
        JoinStep::InitialSync,
        JoinStep::Export,
        JoinStep::StartListener,
        JoinStep::Announce,
    ]
}

/// What to do, in order, to bring a joiner up; the first failure ends it.
pub fn plan_join() -> (steps: Vec<JoinStep>)
    ensures
        steps@ == join_steps(),
{
    let mut steps: Vec<JoinStep> = Vec::new();
    steps.push(JoinStep::Check);
    steps.push(JoinStep::MakeRoot);
    steps.push(JoinStep::MakeStateDir);
    steps.push(JoinStep::Subscribe);
    steps.push(JoinStep::WaitForTicket);
    steps.push(JoinStep::CompileRules);
    steps.push(JoinStep::ParseTicket);
    steps.push(JoinStep::SpawnNode);
    steps.push(JoinStep::Import);
    steps.push(JoinStep::RegisterAttachment);
    steps.push(JoinStep::InitialSync);
    steps.push(JoinStep::Export);
    steps.push(JoinStep::StartListener);
    steps.push(JoinStep::Announce);
    assert(steps@ =~= join_steps());
    steps
}

/// A failure of the document, of the daemon or of a ticket while a workspace
/// comes up.
#[derive(Clone, Debug, PartialEq, Eq)]
pub enum SetupFailure {
    /// The document does not sync.
    StartSync(String),
    /// There is no ticket for writing.
    ShareWrite(String),
    /// There is no ticket for reading.
    ShareRead(String),
    /// There is no connection for the deliveries.
    ConnectUpgrade(String),
    /// The session is not hosted on that connection.
    HostUpgrade(String),
    /// Somebody else reads the events of the client.
    EventsTaken,
    /// The document ticket does not parse.
    ParseTicket(String),
    /// The document was not imported.
    Import(String),
    /// No document was created.
    DocCreate(String),
    /// A document that was created was not recorded in this file.
    PersistDocId(FsPath, String),
    /// What the document holds could not be read for the root.
    Export(String),
    /// What the document holds could not be held against the root.
    Reconcile(String),
}

/// The error for a failure.
pub open spec fn setup_fault(failure: SetupFailure) -> WorkspaceFault {
    match failure {
        SetupFailure::StartSync(why) => WorkspaceFault::Doc("start_sync: "@ + why@),
        SetupFailure::ShareWrite(why) => WorkspaceFault::Doc("share doc (write): "@ + why@),
        SetupFailure::ShareRead(why) => WorkspaceFault::Doc("share doc: "@ + why@),
        SetupFailure::ConnectUpgrade(why) => WorkspaceFault::Iroh("upgrade-client connect: "@ + why@),
        SetupFailure::HostUpgrade(why) => WorkspaceFault::Iroh("upgrade-client host: "@ + why@),
        SetupFailure::EventsTaken => WorkspaceFault::Iroh("client events already taken"@),
        SetupFailure::ParseTicket(why) => WorkspaceFault::Doc("ticket parse: "@ + why@),
        SetupFailure::Import(why) => WorkspaceFault::Doc("doc import: "@ + why@),
        SetupFailure::DocCreate(why) => WorkspaceFault::Doc("doc create: "@ + why@),
        SetupFailure::PersistDocId(path, why) => WorkspaceFault::Doc(
            "persist doc-id at "@ + lossy_text(path@) + ": "@ + why@,
        ),
        SetupFailure::Export(why) => WorkspaceFault::Doc("get_many: "@ + why@),
        SetupFailure::Reconcile(why) => WorkspaceFault::Doc("reconcile get_many: "@ + why@),
    }
}

/// The error for a failure.
pub fn setup_failed(failure: &SetupFailure) -> (err: WorkspaceError)
    ensures
        err@ == setup_fault(*failure),
{
    match failure {
        SetupFailure::StartSync(why) => WorkspaceError::Doc(concat("start_sync: ", why.as_str())),
        SetupFailure::ShareWrite(why) => WorkspaceError::Doc(concat("share doc (write): ", why.as_str())),
        SetupFailure::ShareRead(why) => WorkspaceError::Doc(concat("share doc: ", why.as_str())),
        SetupFailure::ConnectUpgrade(why) => WorkspaceError::Iroh(concat("upgrade-client connect: ", why.as_str())),
        SetupFailure::HostUpgrade(why) => WorkspaceError::Iroh(concat("upgrade-client host: ", why.as_str())),
        SetupFailure::EventsTaken => WorkspaceError::Iroh("client events already taken".to_owned()),
        SetupFailure::ParseTicket(why) => WorkspaceError::Doc(concat("ticket parse: ", why.as_str())),
        SetupFailure::Import(why) => WorkspaceError::Doc(concat("doc import: ", why.as_str())),
        SetupFailure::DocCreate(why) => WorkspaceError::Doc(concat("doc create: ", why.as_str())),
        SetupFailure::PersistDocId(path, why) => {
            let mut text = concat("persist doc-id at ", path.display().as_str());
            text.append(": ");
            text.append(why.as_str());
            WorkspaceError::Doc(text)
        },
        SetupFailure::Export(why) => WorkspaceError::Doc(concat("get_many: ", why.as_str())),
        SetupFailure::Reconcile(why) => WorkspaceError::Doc(concat("reconcile get_many: ", why.as_str())),
    }
}

/// Something that has to be given back when bringing a workspace up fails.
#[derive(Clone, Copy, Debug, PartialEq, Eq)]
pub enum Acquired {
    /// The network node.
    Node,
    /// A session that this host hosts, with its attachment.
    HostedSession(SessionId),
    /// The attachment of a joiner, who was a member before.
    JoinerAttachment(SessionId),
    /// The task that follows the log.
    Listener,
}

/// How to give back what was acquired.
#[derive(Clone, Copy, Debug, PartialEq, Eq)]
pub enum RollbackStep {
    /// Stop to follow the log.
    StopListener,
    /// Leave the session, which takes its attachment with it.
    LeaveSession(SessionId),
    /// Have the daemon forget the attachment.
    ForgetAttachment(SessionId),
    /// Let go whoever waits for the end of the log.
    CloseGate,
    /// Shut the network node down.
    ShutdownNode,
}

/// What has to be given back. It is best effort: a failure on the way does not
/// take the place of the error that made it necessary.
#[derive(Clone, Copy, Debug, PartialEq, Eq)]
pub struct WorkspaceRollback {
    /// The session to leave.
    pub leave_on_rollback: Option<SessionId>,
    /// The session whose attachment to forget.
    pub forget_attachment: Option<SessionId>,
    /// Whether the log is followed.
    pub listener: bool,
    /// Whether there is a network node.
    pub node: bool,
}

impl Default for WorkspaceRollback {
    /// Nothing was acquired.
    fn default() -> (rollback: WorkspaceRollback)
        ensures
            rollback == nothing_acquired(),
    {
        WorkspaceRollback { leave_on_rollback: None, forget_attachment: None, listener: false, node: false }
    }
}

/// Nothing was acquired.
pub open spec fn nothing_acquired() -> WorkspaceRollback {
    WorkspaceRollback { leave_on_rollback: None, forget_attachment: None, listener: false, node: false }
}

/// What has to be given back after one thing more was acquired.
pub open spec fn with_acquired(rollback: WorkspaceRollback, what: Acquired) -> WorkspaceRollback {
    match what {
        Acquired::Node => WorkspaceRollback { node: true, ..rollback },
        Acquired::HostedSession(session) => WorkspaceRollback { leave_on_rollback: Some(session), ..rollback },
        Acquired::JoinerAttachment(session) => WorkspaceRollback { forget_attachment: Some(session), ..rollback },
        Acquired::Listener => WorkspaceRollback { listener: true, ..rollback },
    }
}

/// How to give everything back, in order.
pub open spec fn rollback_steps(rollback: WorkspaceRollback) -> Seq<RollbackStep> {
    (if rollback.listener {
        seq![RollbackStep::StopListener]
    } else {
        Seq::empty()
    }) + (match rollback.leave_on_rollback {
        Some(session) => seq![RollbackStep::LeaveSession(session)],
        None => Seq::empty(),
    }) + (match rollback.forget_attachment {
        Some(session) => seq![RollbackStep::ForgetAttachment(session)],
        None => Seq::empty(),
    }) + (if rollback.node {
        seq![RollbackStep::CloseGate, RollbackStep::ShutdownNode]
    } else {
        Seq::empty()
    })
}

impl WorkspaceRollback {
    /// Takes note of something that was acquired.
    pub fn acquire(&mut self, what: Acquired)
        ensures
            *final(self) == with_acquired(*old(self), what),
    {
        match what {
            Acquired::Node => {
                self.node = true;
            },
            Acquired::HostedSession(session) => {
                self.leave_on_rollback = Some(session);
            },
            Acquired::JoinerAttachment(session) => {
                self.forget_attachment = Some(session);
            },
            Acquired::Listener => {
                self.listener = true;
            },
        }
    }

    /// The workspace is up: nothing is given back. Says whether there is a
    /// network node to hand over.
    pub fn disarm(&mut self) -> (node: bool)
        ensures
            *final(self) == nothing_acquired(),
            node == old(self).node,
    {
        let node = self.node;
        self.leave_on_rollback = None;
        self.forget_attachment = None;
        self.listener = false;
        self.node = false;
        node
    }

    /// What to do, in order, to give everything back; after that nothing is
    /// left.
    pub fn rollback(&mut self) -> (steps: Vec<RollbackStep>)
        ensures
            *final(self) == nothing_acquired(),
            steps@ == rollback_steps(*old(self)),
    {
        let ghost before = *self;
        let mut steps: Vec<RollbackStep> = Vec::new();
        if self.listener {
            steps.push(RollbackStep::StopListener);
        }
        if let Some(session) = self.leave_on_rollback {
            steps.push(RollbackStep::LeaveSession(session));
        }
        if let Some(session) = self.forget_attachment {
            steps.push(RollbackStep::ForgetAttachment(session));
        }
        if self.node {
            steps.push(RollbackStep::CloseGate);
            steps.push(RollbackStep::ShutdownNode);
        }
        assert(steps@ =~= rollback_steps(before));
        self.disarm();
        steps
    }
}

/// A configuration that is refused is refused for the root first: what the
/// rules and lists hold does not matter then.
pub proof fn law_policy_comes_first(root: Seq<u8>, policy: AttachPolicy, config: WorkspaceConfig, listing: Listing)
    ensures
        attach_fault(root, config.state_dir_in(root), policy, AttachSide::Host, listing) matches Some(fault) ==> host_fault(
            root,
            policy,
            config,
            listing,
        ) == Some(fault),
        attach_fault(root, config.state_dir_in(root), policy, AttachSide::Join, listing) matches Some(fault) ==> join_fault(
            root,
            policy,
            config,
            listing,
        ) == Some(fault),
{
}

/// The rules that a joiner configures never matter.
pub proof fn law_joiner_rules_do_not_matter(root: Seq<u8>, policy: AttachPolicy, config: WorkspaceConfig, rules: Option<PathRules>, listing: Listing)
    ensures
        join_fault(root, policy, (WorkspaceConfig { rules, ..config }), listing) == join_fault(root, policy, config, listing),
{
}

/// A host that comes back deletes what is gone before it publishes what is
/// there, and makes itself known before either; the ticket goes out after
/// both, and the log is followed last. Deliveries have a connection of their
/// own where there is a socket.
pub proof fn law_host_order(returning: bool, has_socket: bool, i: int, j: int)
    requires
        0 <= i < host_steps(returning, has_socket).len(),
        0 <= j < host_steps(returning, has_socket).len(),
    ensures
        host_steps(returning, has_socket)[i] == HostStep::Reconcile && host_steps(returning, has_socket)[j] == HostStep::Scan
            ==> i < j,
        host_steps(returning, has_socket)[i] == HostStep::RegisterAttachment && host_steps(returning, has_socket)[j]
            == HostStep::Scan ==> i < j,
        host_steps(returning, has_socket)[i] == HostStep::Scan && host_steps(returning, has_socket)[j]
            == HostStep::PublishTicket ==> i < j,
        host_steps(returning, has_socket)[i] == HostStep::StartListener <==> i == host_steps(returning, has_socket).len() - 1,
        host_steps(returning, has_socket).contains(HostStep::Reconcile) == returning,
        host_steps(returning, has_socket).contains(HostStep::ConnectUpgrade) == has_socket,
        host_steps(returning, has_socket).contains(HostStep::HostUpgrade) == has_socket,
{
    let steps = host_steps(returning, has_socket);
    if returning {
        assert(steps[9] == HostStep::Reconcile);
    }
    if has_socket {
        assert(steps[steps.len() - 3] == HostStep::ConnectUpgrade);
        assert(steps[steps.len() - 2] == HostStep::HostUpgrade);
    }
}

/// A joiner is known to the daemon before it waits for the host, and announces
/// itself after it follows the log.
pub proof fn law_join_order(i: int, j: int)
    requires
        0 <= i < join_steps().len(),
        0 <= j < join_steps().len(),
    ensures
        join_steps()[i] == JoinStep::RegisterAttachment && join_steps()[j] == JoinStep::InitialSync ==> i < j,
        join_steps()[i] == JoinStep::StartListener && join_steps()[j] == JoinStep::Announce ==> i < j,
        join_steps()[i] == JoinStep::Announce ==> i == join_steps().len() - 1,
{
}

/// On both sides the check comes before everything else, so that a refusal
/// leaves nothing behind. The root is made next, and then the state directory,
/// which may lie in it.
pub proof fn law_nothing_is_made_before_the_check(returning: bool, has_socket: bool, i: int)
    ensures
        0 <= i < host_steps(returning, has_socket).len() ==> {
            &&& host_steps(returning, has_socket)[i] == HostStep::Check <==> i == 0
            &&& host_steps(returning, has_socket)[i] == HostStep::MakeRoot <==> i == 1
            &&& host_steps(returning, has_socket)[i] == HostStep::MakeStateDir <==> i == 2
        },
        0 <= i < join_steps().len() ==> {
            &&& join_steps()[i] == JoinStep::Check <==> i == 0
            &&& join_steps()[i] == JoinStep::MakeRoot <==> i == 1
            &&& join_steps()[i] == JoinStep::MakeStateDir <==> i == 2
        },
{
}

/// A session is left exactly where this host hosted it; a joiner that fails
/// stays a member. A node that was started is shut down, after whoever waits
/// for the log was let go.
pub proof fn law_rollback_gives_back_what_was_acquired(rollback: WorkspaceRollback, session: SessionId)
    ensures
        rollback_steps(rollback).contains(RollbackStep::LeaveSession(session)) <==> rollback.leave_on_rollback == Some(
            session,
        ),
        rollback_steps(rollback).contains(RollbackStep::ForgetAttachment(session)) <==> rollback.forget_attachment == Some(
            session,
        ),
        rollback_steps(rollback).contains(RollbackStep::StopListener) <==> rollback.listener,
        rollback_steps(rollback).contains(RollbackStep::ShutdownNode) <==> rollback.node,
        rollback.node ==> {
            let steps = rollback_steps(rollback);
            &&& steps[steps.len() - 1] == RollbackStep::ShutdownNode
            &&& steps[steps.len() - 2] == RollbackStep::CloseGate
        },
        rollback_steps(nothing_acquired()) == Seq::<RollbackStep>::empty(),
{
    let steps = rollback_steps(rollback);
    let n = steps.len() as int;
    let a: int = if rollback.listener {
        1
    } else {
        0
    };
    let b: int = a + (if rollback.leave_on_rollback is Some {
        1int
    } else {
        0
    });
    if rollback.listener {
        assert(steps[0] == RollbackStep::StopListener);
    }
    if let Some(id) = rollback.leave_on_rollback {
        assert(steps[a] == RollbackStep::LeaveSession(id));
    }
    if let Some(id) = rollback.forget_attachment {
        assert(steps[b] == RollbackStep::ForgetAttachment(id));
    }
    if rollback.node {
        assert(steps[n - 1] == RollbackStep::ShutdownNode);
    }
    assert(rollback_steps(nothing_acquired()) =~= Seq::<RollbackStep>::empty());
}

/// A joiner that acquires what joiners acquire never leaves the session.
pub proof fn law_joiners_never_leave(rollback: WorkspaceRollback, what: Acquired, session: SessionId)
    requires
        rollback.leave_on_rollback is None,
        !(what is HostedSession),
    ensures
        with_acquired(rollback, what).leave_on_rollback is None,
        !rollback_steps(with_acquired(rollback, what)).contains(RollbackStep::LeaveSession(session)),
{
    law_rollback_gives_back_what_was_acquired(with_acquired(rollback, what), session);
}

/// A host starts exactly where the root, the rules and the list of what is left
/// out are all accepted; the first of them that is not is what is wrong.
pub proof fn law_when_a_host_starts(root: Seq<u8>, policy: AttachPolicy, config: WorkspaceConfig, listing: Listing)
    ensures
        ({
            let refused = attach_fault(root, config.state_dir_in(root), policy, AttachSide::Host, listing);
            let rules = match config.rules {
                Some(rules) => rules.rules@,
                None => Seq::<PathRule>::empty(),
            };
            let fault = host_fault(root, policy, config, listing);
            &&& fault is None <==> refused is None && compile_fault(rules) is None && (config.exclude matches Some(globs)
                ==> exclude_fault(globs@) is None)
            &&& refused is None ==> (compile_fault(rules) matches Some(why) ==> fault == Some(WorkspaceFault::PathRules(why)))
            &&& refused is None && compile_fault(rules) is None ==> (config.exclude matches Some(globs) ==> (exclude_fault(
                globs@,
            ) matches Some(why) ==> fault == Some(WorkspaceFault::PathRules(why))))
        }),
{
}

/// A joiner starts exactly where the root and the list of what is left out are
/// accepted; the first of them that is not is what is wrong.
pub proof fn law_when_a_joiner_starts(root: Seq<u8>, policy: AttachPolicy, config: WorkspaceConfig, listing: Listing)
    ensures
        ({
            let refused = attach_fault(root, config.state_dir_in(root), policy, AttachSide::Join, listing);
            let fault = join_fault(root, policy, config, listing);
            &&& fault is None <==> refused is None && (config.exclude matches Some(globs) ==> exclude_fault(globs@) is None)
            &&& refused is None ==> (config.exclude matches Some(globs) ==> (exclude_fault(globs@) matches Some(why)
                ==> fault == Some(WorkspaceFault::PathRules(why))))
        }),
{
}

/// The steps of a host that is new and has no socket; one that comes back has
/// one step more before it publishes, and one with a socket two more before it
/// follows the log.
pub proof fn law_host_steps_one_by_one(returning: bool, has_socket: bool)
    ensures
        host_steps(false, false) == seq![
            HostStep::Check,
            HostStep::MakeRoot,
            HostStep::MakeStateDir,
            HostStep::SpawnNode,
            HostStep::OpenDoc,
            HostStep::RecoverRevokeSeq,
            HostStep::StartSync,
            HostStep::RegisterHost,
            HostStep::RegisterAttachment,
            HostStep::Scan,
            HostStep::ShareWrite,
            HostStep::ShareRead,
            HostStep::PublishTicket,
            HostStep::StartListener,
        ],
        host_steps(true, has_socket) == host_steps(false, has_socket).insert(9, HostStep::Reconcile),
        host_steps(returning, true) == host_steps(returning, false).insert(
            host_steps(returning, false).len() - 1,
            HostStep::HostUpgrade,
        ).insert(host_steps(returning, false).len() - 1, HostStep::ConnectUpgrade),
{
    let plain = host_steps(returning, false);
    assert(host_steps(true, has_socket) =~= host_steps(false, has_socket).insert(9, HostStep::Reconcile));
    assert(host_steps(returning, true) =~= plain.insert(plain.len() - 1, HostStep::HostUpgrade).insert(
        plain.len() - 1,
        HostStep::ConnectUpgrade,
    ));
    assert(host_steps(false, false) =~= seq![
        HostStep::Check,
        HostStep::MakeRoot,
        HostStep::MakeStateDir,
        HostStep::SpawnNode,
        HostStep::OpenDoc,
        HostStep::RecoverRevokeSeq,
        HostStep::StartSync,
        HostStep::RegisterHost,
        HostStep::RegisterAttachment,
        HostStep::Scan,
        HostStep::ShareWrite,
        HostStep::ShareRead,
        HostStep::PublishTicket,
        HostStep::StartListener,
    ]);
}

/// A joiner has the host's ticket before it starts a network node, its rules
/// before the ticket is read, and the document before it waits for the first
/// sync; what the document holds is written before the log is followed. Each
/// step is done once.
pub proof fn law_join_steps_one_by_one(i: int)
    ensures
        join_steps().len() == 14,
        0 <= i < 14 ==> match join_steps()[i] {
            JoinStep::Check => i == 0,
            JoinStep::MakeRoot => i == 1,
            JoinStep::MakeStateDir => i == 2,
            JoinStep::Subscribe => i == 3,
            JoinStep::WaitForTicket => i == 4,
            JoinStep::CompileRules => i == 5,
            JoinStep::ParseTicket => i == 6,
            JoinStep::SpawnNode => i == 7,
            JoinStep::Import => i == 8,
            JoinStep::RegisterAttachment => i == 9,
            JoinStep::InitialSync => i == 10,
            JoinStep::Export => i == 11,
            JoinStep::StartListener => i == 12,
            JoinStep::Announce => i == 13,
        },
{
}

/// What is acquired is given back, and nothing that was acquired before is lost
/// for it.
pub proof fn law_acquired_things_are_kept(rollback: WorkspaceRollback, what: Acquired)
    ensures
        ({
            let after = with_acquired(rollback, what);
            &&& after.node == (rollback.node || what is Node)
            &&& after.listener == (rollback.listener || what is Listener)
            &&& after.leave_on_rollback == (match what {
                Acquired::HostedSession(session) => Some(session),
                _ => rollback.leave_on_rollback,
            })
            &&& after.forget_attachment == (match what {
                Acquired::JoinerAttachment(session) => Some(session),
                _ => rollback.forget_attachment,
            })
        }),
{
}

/// Things are given back in one order: nobody follows the log any more when a
/// session is left, that comes before an attachment is forgotten, and the node
/// goes last, when nobody waits for the log any more. Nothing is given back
/// twice.
pub proof fn law_rollback_order(rollback: WorkspaceRollback, i: int, j: int)
    requires
        0 <= i < j < rollback_steps(rollback).len(),
    ensures
        rollback_place(rollback_steps(rollback)[i]) < rollback_place(rollback_steps(rollback)[j]),
        rollback_steps(rollback).len() == (if rollback.listener {
            1int
        } else {
            0
        }) + (if rollback.leave_on_rollback is Some {
            1int
        } else {
            0
        }) + (if rollback.forget_attachment is Some {
            1int
        } else {
            0
        }) + (if rollback.node {
            2int
        } else {
            0
        }),
{
}

/// The place of a step among those that give things back.
pub open spec fn rollback_place(step: RollbackStep) -> int {
    match step {
        RollbackStep::StopListener => 0,
        RollbackStep::LeaveSession(_) => 1,
        RollbackStep::ForgetAttachment(_) => 2,
        RollbackStep::CloseGate => 3,
        RollbackStep::ShutdownNode => 4,
    }
}

/// What is left out is what was configured: dotfiles where nothing was, and
/// otherwise each glob in its normal form, at its place.
pub proof fn law_what_is_left_out(exclude: ExcludeRules, config: WorkspaceConfig, globs: Vec<String>, i: int)
    requires
        excludes_as(exclude, config),
    ensures
        config.exclude is None ==> exclude == ExcludeRules::Dotfiles,
        config.exclude == Some(globs) ==> {
            &&& exclude_patterns(exclude) matches Some(patterns)
            &&& patterns.len() == globs@.len()
            &&& 0 <= i < globs@.len() ==> patterns[i] == crate::relative::nfc(globs@[i]@)
        },
{
}

/// A failure on the way up is one of the document, but for those of the
/// connection for the deliveries and of the client's events.
pub proof fn law_kinds_of_setup_failures(failure: SetupFailure)
    ensures
        setup_fault(failure) is Iroh <==> failure is ConnectUpgrade || failure is HostUpgrade || failure is EventsTaken,
        !(setup_fault(failure) is Iroh) ==> setup_fault(failure) is Doc,
{
}

/// A host knows itself from the start: its endpoint is its own, it may write,
/// and nobody is blocked. Where there is a log to follow the map waits for it.
/// A joiner knows of the host what the ticket names, and always waits.
pub proof fn law_maps_at_the_start(
    host: PeerId,
    endpoint: EndpointId,
    follows_log: bool,
    mine: PeerMap,
    first_node: Option<EndpointId>,
    theirs: PeerMap,
    other: Seq<u8>,
)
    requires
        call_ensures(host_peer_map, (host, endpoint, follows_log), mine),
        call_ensures(joiner_peer_map, (host, first_node), theirs),
    ensures
        crate::peer_map::disposition(mine@, endpoint@) == crate::peer_map::AuthorDisposition::Rw,
        crate::peer_map::revoked_behind(mine@, other) is None,
        mine@.readiness == (if follows_log {
            Readiness::Replaying
        } else {
            Readiness::Ready
        }),
        mine@.host == host@,
        theirs@.host == host@,
        theirs@.readiness == Readiness::Replaying,
        crate::peer_map::revoked_behind(theirs@, other) is None,
        theirs@.members.dom().contains(other) <==> (first_node matches Some(node) && node@ == other),
        theirs@.members.dom().contains(other) ==> theirs@.members[other] == host@,
{
}

/// What was rolled back is not rolled back again, and what came up is not
/// rolled back at all; coming up hands over the node where there is one.
pub proof fn law_nothing_is_given_back_twice(failed: &mut WorkspaceRollback, up: &mut WorkspaceRollback, steps: Vec<RollbackStep>, node: bool)
    requires
        call_ensures(WorkspaceRollback::rollback, (failed,), steps),
        call_ensures(WorkspaceRollback::disarm, (up,), node),
    ensures
        steps@ == rollback_steps(*old(failed)),
        rollback_steps(*final(failed)) == Seq::<RollbackStep>::empty(),
        rollback_steps(*final(up)) == Seq::<RollbackStep>::empty(),
        node == old(up).node,
{
    assert(rollback_steps(nothing_acquired()) =~= Seq::<RollbackStep>::empty());
}

/// A host that is given no rules lets every path be written, and one that is
/// given rules has them; both work on the root that was given.
pub proof fn law_prepared_hosts(root: &FsPath, policy: AttachPolicy, config: WorkspaceConfig, listing: &Listing, prep: HostPreparation, path: Seq<u8>)
    requires
        call_ensures(prepare_host, (root, policy, config, listing), Ok::<HostPreparation, WorkspaceError>(prep)),
    ensures
        prep.site.wf(),
        prep.site.root() == root@,
        config.rules is None ==> prep.site.mode(path) == Mode::ReadWrite,
        config.rules matches Some(rules) ==> prep.site.rules == rules,
        config.state_dir matches Some(dir) ==> prep.state_dir@ == dir@,
        host_fault(root@, policy, config, *listing) is None,
{
    if config.rules is None {
        let steps = crate::path::steps_within(root@, path);
        if let Some(text) = crate::relative::relative_text(steps) {
            crate::rules::law_no_match_is_default(prep.site.rules.rules@, prep.site.rules.default, text);
        }
    }
}

} // verus!
