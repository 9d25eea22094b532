//! How a workspace is set up.
use vstd::prelude::*;
use vstd::utf8::encode_utf8;

use crate::path::{joined, FsPath};
use crate::ids::Key;
use crate::rules::{Mode, PathRule, PathRules};

verus! {

/// The name of the state directory inside the root, where none is configured.
pub const DEFAULT_STATE_SUBDIR: &'static str = ".artel-fs";

/// How a workspace may attach to its root. There is no default.
#[derive(Clone, Copy, Debug, PartialEq, Eq, Structural)]
pub enum AttachPolicy {
    /// The root has to be empty at its top level.
    RequireEmpty,
    /// The root may hold anything.
    AllowExisting,
    /// A host starts from what the root holds.
    InitFromExisting,
}

/// How the network endpoint of a workspace finds its peers.
#[derive(Clone, Copy, Debug, PartialEq, Eq, Structural)]
pub enum EndpointSetup {
    /// Over the public discovery servers and relays.
    Production,
    /// Over servers on this machine, without a relay.
    Testing,
}

impl Default for EndpointSetup {
    /// The public servers.
    fn default() -> (setup: EndpointSetup)
        ensures
            setup == EndpointSetup::Production,
    {
        EndpointSetup::Production
    }
}

impl EndpointSetup {
    /// Whether there is a relay to wait for.
    pub fn awaits_relay(&self) -> (res: bool)
        ensures
            res == (*self == EndpointSetup::Production),
    {
        match self {
            EndpointSetup::Production => true,
            EndpointSetup::Testing => false,
        }
    }
}

/// What can be configured.
#[derive(Clone, Debug, PartialEq, Eq)]
pub struct WorkspaceConfig {
    /// Where the workspace keeps its state; a directory in the root if unset.
    pub state_dir: Option<FsPath>,
    /// How many milliseconds a joiner waits for the host's ticket; for ever if
    /// unset.
    pub join_ticket_timeout: Option<u64>,
    /// How the endpoint finds its peers.
    pub endpoint_setup: EndpointSetup,
    /// The path rules of a host; a joiner has those of its host.
    pub rules: Option<PathRules>,
    /// The daemon's socket for the capability listener.
    pub daemon_socket: Option<FsPath>,
    /// What this node leaves out of the sync; dotfiles if unset.
    pub exclude: Option<Vec<String>>,
}

impl Default for WorkspaceConfig {
    /// Nothing is configured.
    fn default() -> (config: WorkspaceConfig)
        ensures
            config == (WorkspaceConfig {
                state_dir: None,
                join_ticket_timeout: None,
                endpoint_setup: EndpointSetup::Production,
                rules: None,
                daemon_socket: None,
                exclude: None,
            }),
    {
        WorkspaceConfig {
            state_dir: None,
            join_ticket_timeout: None,
            endpoint_setup: EndpointSetup::Production,
            rules: None,
            daemon_socket: None,
            exclude: None,
        }
    }
}

impl WorkspaceConfig {
    /// The state directory of a workspace with this root.
    pub open spec fn state_dir_in(&self, root: Seq<u8>) -> Seq<u8> {
        match self.state_dir {
            Some(dir) => dir@,
            None => joined(root, encode_utf8(DEFAULT_STATE_SUBDIR@)),
        }
    }

    /// Sets the state directory.
    pub fn with_state_dir(self, dir: FsPath) -> (config: WorkspaceConfig)
        ensures
            config == (WorkspaceConfig { state_dir: Some(dir), ..self }),
    {
        WorkspaceConfig { state_dir: Some(dir), ..self }
    }

    /// Sets how long a joiner waits for the host's ticket.
    pub fn with_join_ticket_timeout(self, timeout: Option<u64>) -> (config: WorkspaceConfig)
        ensures
            config == (WorkspaceConfig { join_ticket_timeout: timeout, ..self }),
    {
        WorkspaceConfig { join_ticket_timeout: timeout, ..self }
    }

    /// Sets how the endpoint finds its peers.
    pub fn with_endpoint_setup(self, setup: EndpointSetup) -> (config: WorkspaceConfig)
        ensures
            config == (WorkspaceConfig { endpoint_setup: setup, ..self }),
    {
        WorkspaceConfig { endpoint_setup: setup, ..self }
    }

    /// Sets the path rules.
    pub fn with_rules(self, rules: PathRules) -> (config: WorkspaceConfig)
        ensures
            config == (WorkspaceConfig { rules: Some(rules), ..self }),
    {
        WorkspaceConfig { rules: Some(rules), ..self }
    }

    /// Sets the daemon's socket.
    pub fn with_daemon_socket(self, path: FsPath) -> (config: WorkspaceConfig)
        ensures
            config == (WorkspaceConfig { daemon_socket: Some(path), ..self }),
    {
        WorkspaceConfig { daemon_socket: Some(path), ..self }
    }

    /// Sets what this node leaves out of the sync.
    pub fn with_exclude(self, exclude: Option<Vec<String>>) -> (config: WorkspaceConfig)
        ensures
            config == (WorkspaceConfig { exclude, ..self }),
    {
        WorkspaceConfig { exclude, ..self }
    }

    /// The state directory of a workspace with this root.
    pub fn resolve(&self, root: &FsPath) -> (dir: FsPath)
        ensures
            dir@ == self.state_dir_in(root@),
    {
        match &self.state_dir {
            Some(dir) => dir.duplicate(),
            None => root.join(DEFAULT_STATE_SUBDIR.as_bytes()),
        }
    }
}

/// The path rules of a host: those configured, or none that restrict.
pub fn host_rules(configured: Option<PathRules>) -> (rules: PathRules)
    ensures
        match configured {
            Some(given) => rules == given,
            None => rules.default == Mode::ReadWrite && rules.rules@ == Seq::<PathRule>::empty(),
        },
{
    match configured {
        Some(rules) => rules,
        None => PathRules::read_write(),
    }
}

/// The state of a workspace goes where it was configured to go, wherever the
/// root is, and otherwise into one directory below the root.
pub proof fn law_where_the_state_goes(config: WorkspaceConfig, root: Seq<u8>, dir: FsPath)
    ensures
        (WorkspaceConfig { state_dir: Some(dir), ..config }).state_dir_in(root) == dir@,
        root.len() > 0 && root.last() != crate::path::SEPARATOR ==> (WorkspaceConfig {
            state_dir: None,
            ..config
        }).state_dir_in(root) == root + seq![crate::path::SEPARATOR] + encode_utf8(".artel-fs"@),
{
    let name = encode_utf8(DEFAULT_STATE_SUBDIR@);
    reveal_strlit(".artel-fs");
    vstd::utf8::encode_utf8_first_scalar(DEFAULT_STATE_SUBDIR@);
    if root.len() > 0 && root.last() != crate::path::SEPARATOR {
        assert(vstd::utf8::is_ascii_chars(DEFAULT_STATE_SUBDIR@));
        vstd::utf8::is_ascii_chars_encode_utf8(DEFAULT_STATE_SUBDIR@);
        crate::path::law_joining_puts_behind(root, name);
    }
}

/// Each setting changes what it is for and nothing else, so that settings can
/// be made in any order.
pub proof fn law_settings_do_not_meet(config: WorkspaceConfig, dir: FsPath, timeout: Option<u64>, exclude: Option<Vec<String>>, a: WorkspaceConfig, b: WorkspaceConfig, c: WorkspaceConfig)
    requires
        call_ensures(WorkspaceConfig::with_state_dir, (config, dir), a),
        call_ensures(WorkspaceConfig::with_join_ticket_timeout, (config, timeout), b),
        call_ensures(WorkspaceConfig::with_exclude, (config, exclude), c),
    ensures
        a.state_dir == Some(dir),
        a.join_ticket_timeout == config.join_ticket_timeout && a.endpoint_setup == config.endpoint_setup && a.rules
            == config.rules && a.daemon_socket == config.daemon_socket && a.exclude == config.exclude,
        b.join_ticket_timeout == timeout,
        b.state_dir == config.state_dir && b.endpoint_setup == config.endpoint_setup && b.rules == config.rules
            && b.daemon_socket == config.daemon_socket && b.exclude == config.exclude,
        c.exclude == exclude,
        c.state_dir == config.state_dir && c.endpoint_setup == config.endpoint_setup && c.rules == config.rules
            && c.daemon_socket == config.daemon_socket && c.join_ticket_timeout == config.join_ticket_timeout,
{
}

/// A host has the rules that it was given, and without any everything may be
/// written; its state goes where it was told, and only the public servers have
/// a relay to wait for.
pub proof fn law_what_is_configured_holds(configured: Option<PathRules>, rules: PathRules, config: &WorkspaceConfig, root: &FsPath, dir: FsPath, servers: &EndpointSetup, waits: bool)
    requires
        call_ensures(host_rules, (configured,), rules),
        call_ensures(WorkspaceConfig::resolve, (config, root), dir),
        call_ensures(EndpointSetup::awaits_relay, (servers,), waits),
    ensures
        configured matches Some(given) ==> rules == given,
        configured is None ==> rules.default == Mode::ReadWrite && rules.rules@.len() == 0,
        config.state_dir matches Some(chosen) ==> dir@ == chosen@,
        config.state_dir is None ==> dir@ == joined(root@, encode_utf8(".artel-fs"@)),
        waits <==> *servers == EndpointSetup::Production,
{
}

} // verus!
