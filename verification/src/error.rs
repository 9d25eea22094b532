//! Errors of the workspace and its helpers.
use vstd::prelude::*;

use crate::ids::SessionId;
use crate::path::FsPath;
use crate::rules::{rules_fault_text, PathRulesError, RulesFault};
use crate::text::{decimal, decimal_text, lossy_text};
use crate::ticket::{envelope_fault_text, EnvelopeFault, TicketEnvelopeError};

verus! {

/// What can go wrong with a workspace. Failures of the file system, of the
/// network and of the daemon come with their own message.
#[derive(Clone, Debug, PartialEq, Eq)]
pub enum WorkspaceError {
    /// Reading or writing the workspace root failed.
    Io(String),
    /// A path has no key, or a key has no path.
    InvalidPath(String),
    /// The workspace's network node, document or blob store did not come up.
    Iroh(String),
    /// A document operation failed.
    Doc(String),
    /// The workspace root does not satisfy the attach policy.
    Policy(PolicyViolation),
    /// A ticket envelope could not be written or read.
    TicketEnvelope(TicketEnvelopeError),
    /// The path rules are refused.
    PathRules(PathRulesError),
    /// A request to the daemon failed.
    Client(String),
    /// The daemon holds a session of this id that is not the host's own.
    SessionConflict(SessionId),
    /// The session went away while the workspace was set up.
    SessionVanished(SessionId),
    /// No relay could be reached.
    RelayUnreachable(String),
}

/// Why an attach policy is not satisfied.
#[derive(Clone, Debug, PartialEq, Eq)]
pub enum PolicyViolation {
    /// The root holds entries of its own.
    DirNotEmpty {
        /// The workspace root.
        root: FsPath,
        /// The first of the entries that count.
        offending_entries: Vec<FsPath>,
    },
    /// Only a host can start from an existing tree.
    InitFromExistingNotMeaningfulOnJoin,
}

/// A [`PolicyViolation`] over sequences.
pub enum PolicyFault {
    /// [`PolicyViolation::DirNotEmpty`].
    DirNotEmpty(Seq<u8>, Seq<Seq<u8>>),
    /// [`PolicyViolation::InitFromExistingNotMeaningfulOnJoin`].
    InitOnJoin,
}

/// A [`WorkspaceError`] over sequences.
pub enum WorkspaceFault {
    /// [`WorkspaceError::Io`].
    Io(Seq<char>),
    /// [`WorkspaceError::InvalidPath`].
    InvalidPath(Seq<char>),
    /// [`WorkspaceError::Iroh`].
    Iroh(Seq<char>),
    /// [`WorkspaceError::Doc`].
    Doc(Seq<char>),
    /// [`WorkspaceError::Policy`].
    Policy(PolicyFault),
    /// [`WorkspaceError::TicketEnvelope`].
    TicketEnvelope(EnvelopeFault),
    /// [`WorkspaceError::PathRules`].
    PathRules(RulesFault),
    /// [`WorkspaceError::Client`].
    Client(Seq<char>),
    /// [`WorkspaceError::SessionConflict`].
    SessionConflict(Seq<u8>),
    /// [`WorkspaceError::SessionVanished`].
    SessionVanished(Seq<u8>),
    /// [`WorkspaceError::RelayUnreachable`].
    RelayUnreachable(Seq<char>),
}

impl View for PolicyViolation {
    type V = PolicyFault;

    open spec fn view(&self) -> PolicyFault {
        match *self {
            PolicyViolation::DirNotEmpty { root, offending_entries } => PolicyFault::DirNotEmpty(
                root@,
                paths_view(offending_entries@),
            ),
            PolicyViolation::InitFromExistingNotMeaningfulOnJoin => PolicyFault::InitOnJoin,
        }
    }
}

/// The bytes of each path of a list.
pub open spec fn paths_view(paths: Seq<FsPath>) -> Seq<Seq<u8>> {
    paths.map_values(|p: FsPath| p@)
}

impl View for WorkspaceError {
    type V = WorkspaceFault;

    open spec fn view(&self) -> WorkspaceFault {
        match *self {
            WorkspaceError::Io(text) => WorkspaceFault::Io(text@),
            WorkspaceError::InvalidPath(text) => WorkspaceFault::InvalidPath(text@),
            WorkspaceError::Iroh(text) => WorkspaceFault::Iroh(text@),
            WorkspaceError::Doc(text) => WorkspaceFault::Doc(text@),
            WorkspaceError::Policy(why) => WorkspaceFault::Policy(why@),
            WorkspaceError::TicketEnvelope(why) => WorkspaceFault::TicketEnvelope(why@),
            WorkspaceError::PathRules(why) => WorkspaceFault::PathRules(why@),
            WorkspaceError::Client(text) => WorkspaceFault::Client(text@),
            WorkspaceError::SessionConflict(id) => WorkspaceFault::SessionConflict(id@),
            WorkspaceError::SessionVanished(id) => WorkspaceFault::SessionVanished(id@),
            WorkspaceError::RelayUnreachable(text) => WorkspaceFault::RelayUnreachable(text@),
        }
    }
}

/// Paths written one after the other with `, ` between them.
pub open spec fn listed(paths: Seq<Seq<u8>>) -> Seq<char>
    decreases paths.len(),
{
    if paths.len() == 0 {
        Seq::empty()
    } else if paths.len() == 1 {
        lossy_text(paths[0])
    } else {
        listed(paths.drop_last()) + ", "@ + lossy_text(paths.last())
    }
}

/// The message for a policy that is not satisfied.
pub open spec fn policy_fault_text(fault: PolicyFault) -> Seq<char> {
    match fault {
        PolicyFault::DirNotEmpty(root, entries) => "refused to attach to non-empty workspace root "@
            + lossy_text(root) + ": contains "@ + listed(entries) + " (truncated to first "@
            + decimal(entries.len()) + " entries)"@,
        PolicyFault::InitOnJoin =>
            "InitFromExisting is only meaningful when hosting; on join, use AllowExisting"@,
    }
}

/// The message for a workspace error.
pub open spec fn workspace_fault_text(fault: WorkspaceFault) -> Seq<char> {
    match fault {
        WorkspaceFault::Io(text) => text,
        WorkspaceFault::InvalidPath(text) => "invalid path: "@ + text,
        WorkspaceFault::Iroh(text) => "iroh: "@ + text,
        WorkspaceFault::Doc(text) => "doc: "@ + text,
        WorkspaceFault::Policy(why) => "attach policy: "@ + policy_fault_text(why),
        WorkspaceFault::TicketEnvelope(why) => "ticket envelope: "@ + envelope_fault_text(why),
        WorkspaceFault::PathRules(why) => "path rules: "@ + rules_fault_text(why),
        WorkspaceFault::Client(text) => text,
        WorkspaceFault::SessionConflict(_) => "session conflict"@,
        WorkspaceFault::SessionVanished(_) => "session vanished"@,
        WorkspaceFault::RelayUnreachable(text) => text,
    }
}

/// One text behind another.
pub fn concat(a: &str, b: &str) -> (text: String)
    ensures
        text@ == a@ + b@,
{
    let mut text = a.to_owned();
    text.append(b);
    text
}

/// Writes paths one after the other.
fn list_text(paths: &Vec<FsPath>) -> (text: String)
    ensures
        text@ == listed(paths_view(paths@)),
{
    let ghost all = paths_view(paths@);
    let mut text = String::new();
    let mut i: usize = 0;
    assert(all.take(0) =~= Seq::empty());
    while i < paths.len()
        invariant
            i <= paths@.len(),
            all == paths_view(paths@),
            text@ == listed(all.take(i as int)),
        decreases paths@.len() - i,
    {
        assert(all.take(i + 1).drop_last() =~= all.take(i as int));
        assert(all.take(i + 1).last() == paths@[i as int]@);
        if i > 0 {
            text.append(", ");
        }
        let ghost before = text@;
        text.append(paths[i].display().as_str());
        proof {
            if i == 0 {
                assert(text@ =~= lossy_text(all.take(i + 1)[0]));
            }
        }
        i += 1;
    }
    assert(all.take(i as int) =~= all);
    text
}

impl PolicyViolation {
    /// The violation as a message.
    pub fn message(&self) -> (text: String)
        ensures
            text@ == policy_fault_text(self@),
    {
        match self {
            PolicyViolation::DirNotEmpty { root, offending_entries } => {
                let mut text = "refused to attach to non-empty workspace root ".to_owned();
                text.append(root.display().as_str());
                text.append(": contains ");
                text.append(list_text(offending_entries).as_str());
                text.append(" (truncated to first ");
                text.append(decimal_text(offending_entries.len() as u64).as_str());
                text.append(" entries)");
                text
            },
            PolicyViolation::InitFromExistingNotMeaningfulOnJoin => {
                "InitFromExisting is only meaningful when hosting; on join, use AllowExisting".to_owned()
            },
        }
    }
}

impl WorkspaceError {
    /// The error as a message.
    pub fn message(&self) -> (text: String)
        ensures
            text@ == workspace_fault_text(self@),
    {
        match self {
            WorkspaceError::Io(text) => text.clone(),
            WorkspaceError::InvalidPath(text) => concat("invalid path: ", text.as_str()),
            WorkspaceError::Iroh(text) => concat("iroh: ", text.as_str()),
            WorkspaceError::Doc(text) => concat("doc: ", text.as_str()),
            WorkspaceError::Policy(why) => concat("attach policy: ", why.message().as_str()),
            WorkspaceError::TicketEnvelope(why) => concat("ticket envelope: ", why.message().as_str()),
            WorkspaceError::PathRules(why) => concat("path rules: ", why.message().as_str()),
            WorkspaceError::Client(text) => text.clone(),
            WorkspaceError::SessionConflict(_) => "session conflict".to_owned(),
            WorkspaceError::SessionVanished(_) => "session vanished".to_owned(),
            WorkspaceError::RelayUnreachable(text) => text.clone(),
        }
    }
}

/// A text that is put behind another ends the whole.
pub proof fn lemma_ends_with(front: Seq<char>, cause: Seq<char>)
    ensures
        cause.is_suffix_of(front + cause),
{
    let whole = front + cause;
    assert(whole.subrange(front.len() as int, whole.len() as int) =~= cause);
}

/// A message keeps its cause whole: failures of the file system, of the daemon
/// and of the relay are told in their own words, and the other messages end
/// with the words of the cause, behind the name of the part that failed.
pub proof fn law_messages_keep_their_cause(text: Seq<char>, rules: RulesFault, envelope: EnvelopeFault, policy: PolicyFault, session: Seq<u8>)
    ensures
        workspace_fault_text(WorkspaceFault::Io(text)) == text,
        workspace_fault_text(WorkspaceFault::Client(text)) == text,
        workspace_fault_text(WorkspaceFault::RelayUnreachable(text)) == text,
        workspace_fault_text(WorkspaceFault::InvalidPath(text)) == "invalid path: "@ + text,
        text.is_suffix_of(workspace_fault_text(WorkspaceFault::Iroh(text))),
        text.is_suffix_of(workspace_fault_text(WorkspaceFault::Doc(text))),
        rules_fault_text(rules).is_suffix_of(workspace_fault_text(WorkspaceFault::PathRules(rules))),
        workspace_fault_text(WorkspaceFault::PathRules(rules)) == "path rules: "@ + rules_fault_text(rules),
        envelope_fault_text(envelope).is_suffix_of(workspace_fault_text(WorkspaceFault::TicketEnvelope(envelope))),
        policy_fault_text(policy).is_suffix_of(workspace_fault_text(WorkspaceFault::Policy(policy))),
        workspace_fault_text(WorkspaceFault::SessionConflict(session)) == "session conflict"@,
        workspace_fault_text(WorkspaceFault::SessionVanished(session)) == "session vanished"@,
{
    lemma_ends_with("iroh: "@, text);
    lemma_ends_with("doc: "@, text);
    lemma_ends_with("path rules: "@, rules_fault_text(rules));
    lemma_ends_with("ticket envelope: "@, envelope_fault_text(envelope));
    lemma_ends_with("attach policy: "@, policy_fault_text(policy));
}

/// A list of paths is written one after the other, with a comma and a blank
/// between two of them.
pub proof fn law_paths_are_written_in_a_row(paths: Seq<Seq<u8>>, path: Seq<u8>)
    ensures
        listed(Seq::empty()) == Seq::<char>::empty(),
        listed(seq![path]) == lossy_text(path),
        paths.len() > 0 ==> listed(paths.push(path)) == listed(paths) + ", "@ + lossy_text(path),
{
    assert(paths.push(path).drop_last() =~= paths);
}

} // verus!
