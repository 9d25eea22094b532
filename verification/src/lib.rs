//! The logic of a file system workspace that several machines share.
//!
//! A workspace keeps a directory tree in step with a replicated document: a
//! file is an entry whose key is made from its path. One machine hosts the
//! workspace in a session; others join it. This crate decides, and proves what
//! it decides; reading, writing, sending and waiting is left to the caller,
//! who hands in what was seen and does what comes back.
//!
//! - Paths, keys and rules: [`path`], [`path_order`], [`relative`], [`keys`], [`globs`],
//!   [`rules`], [`filter`], [`site`].
//! - Changes in both directions: [`watcher`], [`applier`], [`seeding`],
//!   [`echo_guard`], [`progress`].
//! - Who may do what: [`peer_map`], [`peer_filter`], [`endpoint`],
//!   [`capability_log`], [`cap_listener`], [`redelivery`], [`rotation`],
//!   [`eviction`].
//! - Coming up and going down: [`config`], [`policy`], [`setup`], [`daemon`],
//!   [`node`], [`keystore`], [`state_files`].
//! - What is written down or sent: [`ticket`], [`attachment`], [`session_id`],
//!   [`wire`], [`hashing`], [`events`], [`error`].
use vstd::prelude::*;

pub mod applier;
pub mod attachment;
pub mod cap_listener;
pub mod capability_log;
pub mod config;
pub mod daemon;
pub mod echo_guard;
pub mod endpoint;
pub mod error;
pub mod events;
pub mod eviction;
pub mod filter;
pub mod globs;
pub mod hashing;
pub mod ids;
pub mod keys;
pub mod keystore;
pub mod node;
pub mod path;
pub mod path_order;
pub mod peer_filter;
pub mod peer_map;
pub mod policy;
pub mod progress;
pub mod redelivery;
pub mod relative;
pub mod rotation;
pub mod rules;
pub mod seeding;
pub mod session_id;
pub mod setup;
pub mod site;
pub mod state_files;
pub mod table;
pub mod text;
pub mod ticket;
pub mod watcher;
pub mod wire;

pub use attachment::{list_known_workspaces, KnownWorkspace, WorkspaceAttachmentV1, WorkspaceRole, KIND_V1};
pub use capability_log::{NODE_ID_ACTION, TICKET_ACTION};
pub use config::{AttachPolicy, EndpointSetup, WorkspaceConfig};
pub use echo_guard::EchoGuard;
pub use error::{PolicyViolation, WorkspaceError};
pub use events::{Direction, WorkspaceEvent};
pub use filter::{ExcludeRules, FilterDecision, SkipReason, WorkspaceFilter};
pub use keys::{key_to_path, path_to_key, KEY_PREFIX};
pub use path::FsPath;
pub use rules::{CompiledPathRules, Mode, PathRule, PathRules, PathRulesError};
pub use session_id::session_id_for;
pub use ticket::{TicketEnvelopeError, WorkspaceTicketEnvelope};

verus! {

} // verus!
