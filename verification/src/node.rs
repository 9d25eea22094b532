//! The network node of a workspace: what is checked when it starts, and when
//! it counts as shut down.
use vstd::prelude::*;

use crate::error::{concat, WorkspaceError, WorkspaceFault};
use crate::path::FsPath;
use crate::text::{bytes_eq, lossy_text};

verus! {

/// The directory of the content store, inside the state directory.
pub const BLOBS_DIR: &'static str = "blobs";

/// The directory of the document store, inside the state directory.
pub const DOCS_DIR: &'static str = "docs";

/// Why a network node does not start or stop.
#[derive(Clone, Debug, PartialEq, Eq)]
pub enum NodeFailure {
    /// It has no key.
    Key(String),
    /// Its endpoint has no socket.
    Bind(String),
    /// The directory of its contents could not be created.
    BlobsDir(FsPath, String),
    /// The directory of its documents could not be created.
    DocsDir(FsPath, String),
    /// Its contents could not be loaded.
    BlobStore(String),
    /// Its documents could not be loaded.
    Docs(String),
    /// The author of its entries could not be imported.
    Author(String),
    /// No relay could be reached.
    Relay(String),
    /// It did not shut down.
    Shutdown(String),
}

/// The error for a failure.
pub open spec fn node_fault(failure: NodeFailure) -> WorkspaceFault {
    match failure {
        NodeFailure::Key(why) => WorkspaceFault::Iroh("workspace key: "@ + why@),
        NodeFailure::Bind(why) => WorkspaceFault::Iroh("bind endpoint: "@ + why@),
        NodeFailure::BlobsDir(dir, why) => WorkspaceFault::Iroh(
            "create blobs dir "@ + lossy_text(dir@) + ": "@ + why@,
        ),
        NodeFailure::DocsDir(dir, why) => WorkspaceFault::Iroh("create docs dir "@ + lossy_text(dir@) + ": "@ + why@),
        NodeFailure::BlobStore(why) => WorkspaceFault::Iroh("load blob store: "@ + why@),
        NodeFailure::Docs(why) => WorkspaceFault::Iroh("spawn docs: "@ + why@),
        NodeFailure::Author(why) => WorkspaceFault::Doc("author_import: "@ + why@),
        NodeFailure::Relay(why) => WorkspaceFault::RelayUnreachable(why@),
        NodeFailure::Shutdown(why) => WorkspaceFault::Iroh("router shutdown: "@ + why@),
    }
}

/// The error for a failure.
pub fn node_failed(failure: NodeFailure) -> (err: WorkspaceError)
    ensures
        err@ == node_fault(failure),
{
    match failure {
        NodeFailure::Key(why) => WorkspaceError::Iroh(concat("workspace key: ", why.as_str())),
        NodeFailure::Bind(why) => WorkspaceError::Iroh(concat("bind endpoint: ", why.as_str())),
        NodeFailure::BlobsDir(dir, why) => {
            let mut text = concat("create blobs dir ", dir.display().as_str());
            text.append(": ");
            text.append(why.as_str());
            WorkspaceError::Iroh(text)
        },
        NodeFailure::DocsDir(dir, why) => {
            let mut text = concat("create docs dir ", dir.display().as_str());
            text.append(": ");
            text.append(why.as_str());
            WorkspaceError::Iroh(text)
        },
        NodeFailure::BlobStore(why) => WorkspaceError::Iroh(concat("load blob store: ", why.as_str())),
        NodeFailure::Docs(why) => WorkspaceError::Iroh(concat("spawn docs: ", why.as_str())),
        NodeFailure::Author(why) => WorkspaceError::Doc(concat("author_import: ", why.as_str())),
        NodeFailure::Relay(why) => WorkspaceError::RelayUnreachable(why),
        NodeFailure::Shutdown(why) => WorkspaceError::Iroh(concat("router shutdown: ", why.as_str())),
    }
}

/// The message for an author that is not the endpoint, given how both are
/// written.
pub open spec fn binding_fault(author: Seq<char>, endpoint: Seq<char>) -> Seq<char> {
    "same-seed author binding broken: author id "@ + author + " != endpoint id "@ + endpoint
        + "; namespace-rotation author-filter would fail closed"@
}

/// Checks that the author of a node's entries is its endpoint: who wrote an
/// entry is told from nothing else.
pub fn check_author_binding(author: &[u8; 32], endpoint: &[u8; 32], author_text: &str, endpoint_text: &str) -> (res: Result<
    (),
    WorkspaceError,
>)
    ensures
        match res {
            Ok(()) => author@ == endpoint@,
            Err(err) => author@ != endpoint@ && err@ == WorkspaceFault::Iroh(
                binding_fault(author_text@, endpoint_text@),
            ),
        },
{
    if bytes_eq(author.as_slice(), endpoint.as_slice()) {
        return Ok(());
    }
    let mut text = concat("same-seed author binding broken: author id ", author_text);
    text.append(" != endpoint id ");
    text.append(endpoint_text);
    text.append("; namespace-rotation author-filter would fail closed");
    Err(WorkspaceError::Iroh(text))
}

/// What to say about a workspace that was dropped before it was shut down.
pub const LEAK_MESSAGE: &'static str = "Workspace dropped without calling shutdown(). The iroh Endpoint will not close cleanly; if iroh.key is persisted (the default), the next host of this state dir will be rejected by the n0 relay (\"Another endpoint connected with the same endpoint id\") until the relay's stale-session timeout fires. Call workspace.shutdown().await before dropping.";

/// How far a workspace has been shut down.
#[derive(Clone, Copy, Debug, PartialEq, Eq, Structural)]
pub struct Teardown {
    /// Whether the node is still there.
    pub has_node: bool,
    /// Whether the node was shut down as it should be.
    pub did_shutdown: bool,
}

impl Teardown {
    /// A workspace that is up.
    pub fn running() -> (teardown: Teardown)
        ensures
            teardown == (Teardown { has_node: true, did_shutdown: false }),
    {
        Teardown { has_node: true, did_shutdown: false }
    }

    /// Begins to shut down. The first to ask takes the node; everybody else
    /// has nothing to do.
    pub fn take_node(&mut self) -> (taken: bool)
        ensures
            taken == old(self).has_node,
            *final(self) == (Teardown { has_node: false, ..*old(self) }),
    {
        let taken = self.has_node;
        self.has_node = false;
        taken
    }

    /// Takes note of how shutting the node down went.
    pub fn finish(&mut self, outcome: Result<(), WorkspaceError>) -> (res: Result<(), WorkspaceError>)
        ensures
            res == outcome,
            *final(self) == (Teardown { did_shutdown: old(self).did_shutdown || outcome is Ok, ..*old(self) }),
    {
        match &outcome {
            Ok(()) => {
                self.did_shutdown = true;
            },
            Err(_) => {},
        }
        outcome
    }

    /// Whether dropping the workspace now would leave its endpoint open.
    pub fn is_leak(&self) -> (res: bool)
        ensures
            res == !self.did_shutdown,
    {
        !self.did_shutdown
    }
}

/// A failure of the network node is one of the network, but that an author that
/// cannot be imported is one of the document, and that a relay that cannot be
/// reached is told apart with the reason as it is.
pub proof fn law_kinds_of_node_failures(failure: NodeFailure)
    ensures
        node_fault(failure) is Doc <==> failure is Author,
        failure matches NodeFailure::Relay(why) ==> node_fault(failure) == WorkspaceFault::RelayUnreachable(why@),
        !(failure is Author) && !(failure is Relay) ==> node_fault(failure) is Iroh,
{
}

/// The first to ask takes the node, and nobody takes it again.
pub proof fn law_node_is_taken_once(teardown: &mut Teardown, taken: bool)
    requires
        call_ensures(Teardown::take_node, (teardown,), taken),
    ensures
        taken == old(teardown).has_node,
        !final(teardown).has_node,
        final(teardown).did_shutdown == old(teardown).did_shutdown,
{
}

/// A workspace leaks exactly where no shutdown of its node has succeeded; one
/// that failed may be followed by one that does, and a success is never undone.
pub proof fn law_when_a_workspace_leaks(teardown: &mut Teardown, outcome: Result<(), WorkspaceError>, res: Result<(), WorkspaceError>, seen: &Teardown, leaks: bool)
    requires
        call_ensures(Teardown::finish, (teardown, outcome), res),
        call_ensures(Teardown::is_leak, (seen,), leaks),
        *seen == *final(teardown),
    ensures
        leaks <==> !old(teardown).did_shutdown && outcome is Err,
        res == outcome,
        final(teardown).has_node == old(teardown).has_node,
{
}

/// The author of a node's entries is accepted exactly where it is the endpoint,
/// byte for byte, however the two are written.
pub proof fn law_authors_are_endpoints(author: &[u8; 32], endpoint: &[u8; 32], author_text: &str, endpoint_text: &str, res: Result<(), WorkspaceError>)
    requires
        call_ensures(check_author_binding, (author, endpoint, author_text, endpoint_text), res),
    ensures
        res is Ok <==> author@ == endpoint@,
{
}

} // verus!
