//! The record by which a daemon knows a workspace.
//!
//! The daemon stores the record without looking into it; this module writes
//! and reads it.
use vstd::prelude::*;
use vstd::utf8::{decode_utf8, encode_utf8, valid_utf8};

use crate::error::{concat, WorkspaceError, WorkspaceFault};
use crate::ids::SessionId;
use crate::path::FsPath;
use crate::text::{parse_utf8, text_eq};
use crate::wire::{
    attachment_bytes, attachment_of, read_attachment, write_attachment, AttachmentParts, Choice,
};

verus! {

/// The tag under which workspace records are kept.
pub const KIND_V1: &'static str = "artel-fs/workspace/v1";

/// Whether this side hosts a workspace or joined it.
#[derive(Clone, Copy, Debug, PartialEq, Eq, Structural)]
pub enum WorkspaceRole {
    /// This side hosts the workspace.
    Host,
    /// This side joined it.
    Joiner,
}

/// What is recorded of a workspace.
#[derive(Clone, Debug, PartialEq, Eq)]
pub struct WorkspaceAttachmentV1 {
    /// The workspace root.
    pub local_path: FsPath,
    /// The state directory.
    pub state_dir: FsPath,
    /// Which side this is.
    pub role: WorkspaceRole,
}

/// A [`WorkspaceAttachmentV1`] over sequences: root, state directory, role.
pub type AttachmentView = (Seq<u8>, Seq<u8>, WorkspaceRole);

impl View for WorkspaceAttachmentV1 {
    type V = AttachmentView;

    open spec fn view(&self) -> AttachmentView {
        (self.local_path@, self.state_dir@, self.role)
    }
}

/// One record as the daemon hands it out.
#[derive(Clone, Debug, PartialEq, Eq)]
pub struct AttachmentEntry {
    /// The session that the record belongs to.
    pub session: SessionId,
    /// The tag of the record.
    pub kind: String,
    /// The record itself.
    pub payload: Vec<u8>,
}

/// A workspace that the daemon knows.
#[derive(Clone, Debug, PartialEq, Eq)]
pub struct KnownWorkspace {
    /// Its session.
    pub session: SessionId,
    /// Its record.
    pub attachment: WorkspaceAttachmentV1,
}

/// The choice that stands for a role on the wire.
pub open spec fn role_choice(role: WorkspaceRole) -> Choice {
    match role {
        WorkspaceRole::Host => Ok(()),
        WorkspaceRole::Joiner => Err(()),
    }
}

/// The role that a choice stands for.
pub open spec fn choice_role(choice: Choice) -> WorkspaceRole {
    match choice {
        Ok(()) => WorkspaceRole::Host,
        Err(()) => WorkspaceRole::Joiner,
    }
}

/// What bytes decode to as a record, or why they do not.
pub open spec fn record_of(bytes: Seq<u8>) -> Result<AttachmentView, WorkspaceFault> {
    match attachment_of(bytes) {
        Ok(parts) => Ok((encode_utf8(parts.0), encode_utf8(parts.1), choice_role(parts.2))),
        Err(why) => Err(WorkspaceFault::Iroh("attachment decode: "@ + why)),
    }
}

/// What encoding a record gives. Paths go on the wire as text.
pub open spec fn record_bytes(record: AttachmentView) -> Result<Seq<u8>, WorkspaceFault> {
    if valid_utf8(record.0) && valid_utf8(record.1) {
        Ok(attachment_bytes(decode_utf8(record.0), decode_utf8(record.1), role_choice(record.2)))
    } else {
        Err(WorkspaceFault::Iroh("attachment encode: "@ + "Serde Serialization Error"@))
    }
}

impl WorkspaceAttachmentV1 {
    /// Writes the record.
    pub fn encode(&self) -> (res: Result<Vec<u8>, WorkspaceError>)
        ensures
            match res {
                Ok(bytes) => {
                    &&& record_bytes(self@) == Ok::<Seq<u8>, WorkspaceFault>(bytes@)
                    &&& record_of(bytes@) == Ok::<AttachmentView, WorkspaceFault>(self@)
                },
                Err(err) => record_bytes(self@) == Err::<Seq<u8>, WorkspaceFault>(err@),
            },
    {
        let local_path = parse_utf8(self.local_path.as_bytes());
        let state_dir = parse_utf8(self.state_dir.as_bytes());
        match (local_path, state_dir) {
            (Ok(local_path), Ok(state_dir)) => {
                proof {
                    vstd::utf8::encode_utf8_decode_utf8(local_path@);
                    vstd::utf8::encode_utf8_decode_utf8(state_dir@);
                }
                let role: Choice = match self.role {
                    WorkspaceRole::Host => Ok(()),
                    WorkspaceRole::Joiner => Err(()),
                };
                match write_attachment(local_path.as_str(), state_dir.as_str(), role) {
                    Ok(bytes) => Ok(bytes),
                    Err(why) => Err(WorkspaceError::Iroh(concat("attachment encode: ", why.as_str()))),
                }
            },
            _ => Err(WorkspaceError::Iroh(concat("attachment encode: ", "Serde Serialization Error"))),
        }
    }

    /// Reads a record.
    pub fn decode(bytes: &[u8]) -> (res: Result<WorkspaceAttachmentV1, WorkspaceError>)
        ensures
            match res {
                Ok(record) => record_of(bytes@) == Ok::<AttachmentView, WorkspaceFault>(record@),
                Err(err) => record_of(bytes@) == Err::<AttachmentView, WorkspaceFault>(err@),
            },
    {
        match read_attachment(bytes) {
            Ok((local_path, state_dir, role)) => Ok(
                WorkspaceAttachmentV1 {
                    local_path: FsPath::new(local_path.as_str()),
                    state_dir: FsPath::new(state_dir.as_str()),
                    role: match role {
                        Ok(()) => WorkspaceRole::Host,
                        Err(()) => WorkspaceRole::Joiner,
                    },
                },
            ),
            Err(why) => Err(WorkspaceError::Iroh(concat("attachment decode: ", why.as_str()))),
        }
    }
}

/// A known workspace over sequences.
pub open spec fn known_view(known: KnownWorkspace) -> (Seq<u8>, AttachmentView) {
    (known.session@, known.attachment@)
}

/// The workspaces among the records: those with the right tag that decode, in
/// order.
pub open spec fn known_of(entries: Seq<AttachmentEntry>) -> Seq<(Seq<u8>, AttachmentView)>
    decreases entries.len(),
{
    if entries.len() == 0 {
        Seq::empty()
    } else {
        let before = known_of(entries.drop_last());
        let entry = entries.last();
        match record_of(entry.payload@) {
            Ok(record) => if entry.kind@ == KIND_V1@ {
                before.push((entry.session@, record))
            } else {
                before
            },
            Err(_) => before,
        }
    }
}

/// The workspaces among the records that the daemon hands out. A record with
/// another tag, or that does not decode, is passed over.
pub fn list_known_workspaces(entries: &Vec<AttachmentEntry>) -> (list: Vec<KnownWorkspace>)
    ensures
        list@.map_values(|k: KnownWorkspace| known_view(k)) == known_of(entries@),
{
    let mut list: Vec<KnownWorkspace> = Vec::new();
    let mut i: usize = 0;
    assert(entries@.take(0) =~= Seq::empty());
    assert(list@.map_values(|k: KnownWorkspace| known_view(k)) =~= known_of(entries@.take(0)));
    while i < entries.len()
        invariant
            i <= entries@.len(),
            list@.map_values(|k: KnownWorkspace| known_view(k)) == known_of(entries@.take(i as int)),
        decreases entries@.len() - i,
    {
        let entry = &entries[i];
        let ghost done = list@.map_values(|k: KnownWorkspace| known_view(k));
        assert(entries@.take(i + 1).drop_last() =~= entries@.take(i as int));
        assert(entries@.take(i + 1).last() == *entry);
        if text_eq(entry.kind.as_str(), KIND_V1) {
            match WorkspaceAttachmentV1::decode(entry.payload.as_slice()) {
                Ok(attachment) => {
                    let known = KnownWorkspace { session: entry.session, attachment };
                    let ghost seen = known_view(known);
                    list.push(known);
                    assert(list@.map_values(|k: KnownWorkspace| known_view(k)) =~= done.push(seen));
                },
                Err(_) => {},
            }
        }
        i += 1;
    }
    assert(entries@.take(i as int) =~= entries@);
    list
}

/// A record that could be written is read back as it was.
pub proof fn law_decode_undoes_encode(record: AttachmentView, bytes: Seq<u8>)
    requires
        valid_utf8(record.0),
        valid_utf8(record.1),
        attachment_of(bytes) == Ok::<AttachmentParts, Seq<char>>(
            (decode_utf8(record.0), decode_utf8(record.1), role_choice(record.2)),
        ),
    ensures
        record_of(bytes) == Ok::<AttachmentView, WorkspaceFault>(record),
{
    vstd::utf8::decode_utf8_encode_utf8(record.0);
    vstd::utf8::decode_utf8_encode_utf8(record.1);
}

/// A role and what stands for it on the wire say the same: reading undoes
/// writing, and to host is the first choice.
pub proof fn law_roles_survive_the_wire(role: WorkspaceRole, choice: Choice)
    ensures
        choice_role(role_choice(role)) == role,
        role_choice(role) is Ok <==> role == WorkspaceRole::Host,
        choice_role(choice) == WorkspaceRole::Host <==> choice is Ok,
{
}

/// A record can be written exactly where both of its paths are UTF-8, and it is
/// then written as their texts, the root first, and the role.
pub proof fn law_what_can_be_recorded(record: AttachmentView)
    ensures
        record_bytes(record) is Ok <==> valid_utf8(record.0) && valid_utf8(record.1),
        record_bytes(record) matches Ok(bytes) ==> bytes == attachment_bytes(
            decode_utf8(record.0),
            decode_utf8(record.1),
            role_choice(record.2),
        ),
        record_bytes(record) matches Err(why) ==> why is Iroh,
{
}

/// Bytes are a record exactly where they decode, and what decodes is the
/// record: its root, its state directory and its role.
pub proof fn law_what_a_record_says(bytes: Seq<u8>)
    ensures
        match attachment_of(bytes) {
            Ok(parts) => record_of(bytes) matches Ok(record) && record.0 == encode_utf8(parts.0) && record.1 == encode_utf8(
                parts.1,
            ) && (record.2 == WorkspaceRole::Host <==> parts.2 is Ok),
            Err(why) => record_of(bytes) == Err::<AttachmentView, WorkspaceFault>(
                WorkspaceFault::Iroh("attachment decode: "@ + why),
            ),
        },
{
}

/// Each record that the daemon hands out is listed, at its place and with its
/// session, exactly where it has the right tag and decodes.
pub proof fn law_known_workspaces_are_listed(entries: Seq<AttachmentEntry>, entry: AttachmentEntry)
    ensures
        known_of(Seq::empty()) == Seq::<(Seq<u8>, AttachmentView)>::empty(),
        entry.kind@ == KIND_V1@ ==> (record_of(entry.payload@) matches Ok(record) ==> known_of(entries.push(entry))
            == known_of(entries).push((entry.session@, record))),
        entry.kind@ != KIND_V1@ || record_of(entry.payload@) is Err ==> known_of(entries.push(entry)) == known_of(entries),
{
    assert(entries.push(entry).drop_last() =~= entries);
    assert(entries.push(entry).last() == entry);
}

/// A record that was written is read back as it was, and can be written exactly
/// where its paths are UTF-8.
pub proof fn law_records_survive_the_way(record: &WorkspaceAttachmentV1, written: Result<Vec<u8>, WorkspaceError>, read: &[u8], res: Result<WorkspaceAttachmentV1, WorkspaceError>)
    requires
        call_ensures(WorkspaceAttachmentV1::encode, (record,), written),
        call_ensures(WorkspaceAttachmentV1::decode, (read,), res),
        written matches Ok(bytes) ==> read@ == bytes@,
    ensures
        written is Ok <==> valid_utf8(record.local_path@) && valid_utf8(record.state_dir@),
        written is Ok ==> (res matches Ok(back) && back.local_path@ == record.local_path@ && back.state_dir@
            == record.state_dir@ && back.role == record.role),
{
}

} // verus!
