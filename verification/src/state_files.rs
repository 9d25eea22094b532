//! The small files in the state directory, and what they mean for the
//! document that a host opens.
use vstd::bytes::{spec_u64_from_le_bytes, spec_u64_to_le_bytes, u64_from_le_bytes, u64_to_le_bytes};
use vstd::prelude::*;

use crate::error::{concat, WorkspaceError, WorkspaceFault};
use crate::ids::NamespaceId;
use crate::path::FsPath;
use crate::text::{decimal, decimal_text, lossy_text};

verus! {

/// Holds the first namespace of the session, and is written once.
pub const DOC_ID_FILE: &'static str = "doc-id";

/// Holds the namespace that is written to, once there was a rotation.
pub const CURRENT_NAMESPACE_FILE: &'static str = "current-namespace";

/// Holds the number of rotations.
pub const NAMESPACE_EPOCH_FILE: &'static str = "namespace-epoch";

/// Holds the place in the session log of the last revoke that was rotated for.
pub const ROTATED_REVOKE_SEQ_FILE: &'static str = "rotated-revoke-seq";

/// How reading a file went.
pub enum FileRead {
    /// Its content.
    Bytes(Vec<u8>),
    /// There is no such file.
    Missing,
    /// It could not be read.
    Failed(String),
}

/// The message that a file has the wrong length.
pub open spec fn corrupt_text(label: Seq<char>, path: Seq<u8>, want: nat, got: nat) -> Seq<char> {
    label + " file at "@ + lossy_text(path) + " is corrupt: expected "@ + decimal(want) + " bytes, got "@ + decimal(got)
}

/// The message that a file could not be read.
pub open spec fn unread_text(label: Seq<char>, path: Seq<u8>, why: Seq<char>) -> Seq<char> {
    "read "@ + label + " file at "@ + lossy_text(path) + ": "@ + why
}

/// The namespace in a file: none where there is no file.
pub open spec fn namespace_in(path: Seq<u8>, read: FileRead) -> Result<Option<Seq<u8>>, WorkspaceFault> {
    match read {
        FileRead::Missing => Ok(None),
        FileRead::Failed(why) => Err(WorkspaceFault::Doc(unread_text("namespace"@, path, why@))),
        FileRead::Bytes(bytes) => if bytes@.len() == 32 {
            Ok(Some(bytes@))
        } else {
            Err(WorkspaceFault::Doc(corrupt_text("namespace"@, path, 32, bytes@.len())))
        },
    }
}

/// The number in a file: zero where there is no file.
pub open spec fn number_in(path: Seq<u8>, label: Seq<char>, read: FileRead) -> Result<u64, WorkspaceFault> {
    match read {
        FileRead::Missing => Ok(0),
        FileRead::Failed(why) => Err(WorkspaceFault::Doc(unread_text(label, path, why@))),
        FileRead::Bytes(bytes) => if bytes@.len() == 8 {
            Ok(spec_u64_from_le_bytes(bytes@))
        } else {
            Err(WorkspaceFault::Doc(corrupt_text(label, path, 8, bytes@.len())))
        },
    }
}

fn corrupt(label: &str, path: &FsPath, want: u64, got: usize) -> (err: WorkspaceError)
    ensures
        err@ == WorkspaceFault::Doc(corrupt_text(label@, path@, want as nat, got as nat)),
{
    let mut text = concat(label, " file at ");
    text.append(path.display().as_str());
    text.append(" is corrupt: expected ");
    text.append(decimal_text(want).as_str());
    text.append(" bytes, got ");
    text.append(decimal_text(got as u64).as_str());
    WorkspaceError::Doc(text)
}

fn unread(label: &str, path: &FsPath, why: &str) -> (err: WorkspaceError)
    ensures
        err@ == WorkspaceFault::Doc(unread_text(label@, path@, why@)),
{
    let mut text = concat("read ", label);
    text.append(" file at ");
    text.append(path.display().as_str());
    text.append(": ");
    text.append(why);
    WorkspaceError::Doc(text)
}

/// Thirty-two bytes as an array.
pub fn to_array(bytes: &Vec<u8>) -> (array: [u8; 32])
    requires
        bytes@.len() == 32,
    ensures
        array@ == bytes@,
{
    let array: [u8; 32] = [
        bytes[0], bytes[1], bytes[2], bytes[3], bytes[4], bytes[5], bytes[6], bytes[7],
        bytes[8], bytes[9], bytes[10], bytes[11], bytes[12], bytes[13], bytes[14], bytes[15],
        bytes[16], bytes[17], bytes[18], bytes[19], bytes[20], bytes[21], bytes[22], bytes[23],
        bytes[24], bytes[25], bytes[26], bytes[27], bytes[28], bytes[29], bytes[30], bytes[31],
    ];
    assert(array@ =~= bytes@);
    array
}

/// The namespace in a file.
pub fn read_namespace_file(path: &FsPath, read: &FileRead) -> (res: Result<Option<NamespaceId>, WorkspaceError>)
    ensures
        match res {
            Ok(Some(ns)) => namespace_in(path@, *read) == Ok::<Option<Seq<u8>>, WorkspaceFault>(Some(ns@)),
            Ok(None) => namespace_in(path@, *read) == Ok::<Option<Seq<u8>>, WorkspaceFault>(None),
            Err(err) => namespace_in(path@, *read) == Err::<Option<Seq<u8>>, WorkspaceFault>(err@),
        },
{
    match read {
        FileRead::Missing => Ok(None),
        FileRead::Failed(why) => Err(unread("namespace", path, why.as_str())),
        FileRead::Bytes(bytes) => {
            if bytes.len() != 32 {
                return Err(corrupt("namespace", path, 32, bytes.len()));
            }
            Ok(Some(NamespaceId(to_array(bytes))))
        },
    }
}

/// The number in a file.
pub fn read_u64_file(path: &FsPath, label: &str, read: &FileRead) -> (res: Result<u64, WorkspaceError>)
    ensures
        match res {
            Ok(value) => number_in(path@, label@, *read) == Ok::<u64, WorkspaceFault>(value),
            Err(err) => number_in(path@, label@, *read) == Err::<u64, WorkspaceFault>(err@),
        },
{
    match read {
        FileRead::Missing => Ok(0),
        FileRead::Failed(why) => Err(unread(label, path, why.as_str())),
        FileRead::Bytes(bytes) => {
            if bytes.len() != 8 {
                return Err(corrupt(label, path, 8, bytes.len()));
            }
            Ok(u64_from_le_bytes(bytes.as_slice()))
        },
    }
}

/// The content of a file that holds a number.
pub fn u64_file_bytes(value: u64) -> (bytes: Vec<u8>)
    ensures
        bytes@ == spec_u64_to_le_bytes(value),
        bytes@.len() == 8,
{
    u64_to_le_bytes(value)
}

/// Says how writing a file that holds a number went.
pub fn persist_u64(path: &FsPath, label: &str, outcome: Result<(), String>) -> (res: Result<(), WorkspaceError>)
    ensures
        match outcome {
            Ok(()) => res is Ok,
            Err(why) => res matches Err(err) && err@ == WorkspaceFault::Doc(
                "persist "@ + label@ + " at "@ + lossy_text(path@) + ": "@ + why@,
            ),
        },
{
    match outcome {
        Ok(()) => Ok(()),
        Err(why) => Err(labelled("persist ", label, path, why.as_str())),
    }
}

fn labelled(verb: &str, label: &str, path: &FsPath, why: &str) -> (err: WorkspaceError)
    ensures
        err@ == WorkspaceFault::Doc(verb@ + label@ + " at "@ + lossy_text(path@) + ": "@ + why@),
{
    let mut text = concat(verb, label);
    text.append(" at ");
    text.append(path.display().as_str());
    text.append(": ");
    text.append(why);
    WorkspaceError::Doc(text)
}

/// What a host does for its document.
#[derive(Clone, Copy, Debug, PartialEq, Eq)]
pub enum DocPlan {
    /// It makes a new one.
    Create,
    /// It opens the one that is recorded, and asks [`opened_doc`] what that
    /// gave.
    Open {
        /// The first namespace of the session.
        genesis: NamespaceId,
        /// The namespace to open.
        current: NamespaceId,
    },
}

/// The document of a host: the first namespace of the session, whether the
/// host was here before, and the number of rotations.
#[derive(Clone, Copy, Debug, PartialEq, Eq)]
pub struct OpenedDoc {
    /// The first namespace of the session.
    pub genesis: NamespaceId,
    /// Whether the host was here before.
    pub returning: bool,
    /// The number of rotations.
    pub epoch: u64,
}

/// A [`DocPlan`] over sequences: nothing for a new document.
pub open spec fn plan_view(plan: DocPlan) -> Option<(Seq<u8>, Seq<u8>)> {
    match plan {
        DocPlan::Create => None,
        DocPlan::Open { genesis, current } => Some((genesis@, current@)),
    }
}

/// What a host does for its document, by what it recorded: without a first
/// namespace it makes a new one; otherwise it opens the current one, which is
/// the first where there was no rotation.
pub open spec fn doc_plan_of(genesis: Result<Option<Seq<u8>>, WorkspaceFault>, current: Result<Option<Seq<u8>>, WorkspaceFault>) -> Result<Option<(Seq<u8>, Seq<u8>)>, WorkspaceFault> {
    match genesis {
        Err(why) => Err(why),
        Ok(None) => Ok(None),
        Ok(Some(first)) => match current {
            Err(why) => Err(why),
            Ok(None) => Ok(Some((first, first))),
            Ok(Some(now)) => Ok(Some((first, now))),
        },
    }
}

/// Decides what a host does for its document.
pub fn doc_plan(doc_id_path: &FsPath, doc_id: &FileRead, current_path: &FsPath, current: &FileRead) -> (res: Result<DocPlan, WorkspaceError>)
    ensures
        match res {
            Ok(plan) => doc_plan_of(namespace_in(doc_id_path@, *doc_id), namespace_in(current_path@, *current))
                == Ok::<Option<(Seq<u8>, Seq<u8>)>, WorkspaceFault>(plan_view(plan)),
            Err(err) => doc_plan_of(namespace_in(doc_id_path@, *doc_id), namespace_in(current_path@, *current))
                == Err::<Option<(Seq<u8>, Seq<u8>)>, WorkspaceFault>(err@),
        },
{
    let genesis = match read_namespace_file(doc_id_path, doc_id) {
        Ok(Some(ns)) => ns,
        Ok(None) => {
            return Ok(DocPlan::Create);
        },
        Err(err) => {
            return Err(err);
        },
    };
    match read_namespace_file(current_path, current) {
        Ok(Some(ns)) => Ok(DocPlan::Open { genesis, current: ns }),
        Ok(None) => Ok(DocPlan::Open { genesis, current: genesis }),
        Err(err) => Err(err),
    }
}

/// What opening the recorded document gave: nothing where the store does not
/// have it, and a new one is made.
pub fn opened_doc(genesis: NamespaceId, in_store: bool, epoch_path: &FsPath, epoch: &FileRead) -> (res: Result<Option<OpenedDoc>, WorkspaceError>)
    ensures
        if !in_store {
            res == Ok::<Option<OpenedDoc>, WorkspaceError>(None)
        } else {
            match number_in(epoch_path@, "namespace-epoch"@, *epoch) {
                Ok(n) => res == Ok::<Option<OpenedDoc>, WorkspaceError>(Some(OpenedDoc { genesis, returning: true, epoch: n })),
                Err(why) => res matches Err(err) && err@ == why,
            }
        },
{
    if !in_store {
        return Ok(None);
    }
    match read_u64_file(epoch_path, "namespace-epoch", epoch) {
        Ok(n) => Ok(Some(OpenedDoc { genesis, returning: true, epoch: n })),
        Err(err) => Err(err),
    }
}

/// How deleting a file went.
pub enum FileRemove {
    /// It is gone, or was not there.
    Gone,
    /// It could not be deleted.
    Failed(String),
}

/// What is read of a file after it was to be deleted.
pub open spec fn left_after(before: FileRead, removal: FileRemove) -> FileRead {
    match removal {
        FileRemove::Gone => FileRead::Missing,
        FileRemove::Failed(_) => before,
    }
}

/// Why a host that made a new document cannot go on, if it cannot: what
/// another document left behind is still there.
pub open spec fn created_fault(current_path: Seq<u8>, current: FileRemove, epoch_path: Seq<u8>, epoch: FileRemove) -> Option<WorkspaceFault> {
    match current {
        FileRemove::Failed(why) => Some(
            WorkspaceFault::Doc("reset "@ + "current-namespace"@ + " at "@ + lossy_text(current_path) + ": "@ + why@),
        ),
        FileRemove::Gone => match epoch {
            FileRemove::Failed(why) => Some(
                WorkspaceFault::Doc("reset "@ + "namespace-epoch"@ + " at "@ + lossy_text(epoch_path) + ": "@ + why@),
            ),
            FileRemove::Gone => None,
        },
    }
}

/// The document of a host that made a new one: it is the current one, and it
/// has had no rotation. The namespace that another document had moved to and
/// the number of its rotations are gone.
pub fn created_doc(genesis: NamespaceId, current_path: &FsPath, current: &FileRemove, epoch_path: &FsPath, epoch: &FileRemove) -> (res: Result<
    OpenedDoc,
    WorkspaceError,
>)
    ensures
        match created_fault(current_path@, *current, epoch_path@, *epoch) {
            None => res == Ok::<OpenedDoc, WorkspaceError>(OpenedDoc { genesis, returning: false, epoch: 0 }),
            Some(fault) => res matches Err(err) && err@ == fault,
        },
{
    if let FileRemove::Failed(why) = current {
        return Err(labelled("reset ", "current-namespace", current_path, why.as_str()));
    }
    if let FileRemove::Failed(why) = epoch {
        return Err(labelled("reset ", "namespace-epoch", epoch_path, why.as_str()));
    }
    Ok(OpenedDoc { genesis, returning: false, epoch: 0 })
}

/// Up to which revoke a host has rotated: as recorded where it was here
/// before. A new document starts a new log; what another one left behind is
/// gone.
pub fn rotated_up_to(returning: bool, path: &FsPath, read: &FileRead, reset: &FileRemove) -> (res: Result<u64, WorkspaceError>)
    ensures
        returning ==> match number_in(path@, "rotated-revoke-seq"@, *read) {
            Ok(n) => res == Ok::<u64, WorkspaceError>(n),
            Err(why) => res matches Err(err) && err@ == why,
        },
        !returning ==> match reset {
            FileRemove::Gone => res == Ok::<u64, WorkspaceError>(0),
            FileRemove::Failed(why) => res matches Err(err) && err@ == WorkspaceFault::Doc(
                "reset "@ + "rotated-revoke-seq"@ + " at "@ + lossy_text(path@) + ": "@ + why@,
            ),
        },
{
    if returning {
        return read_u64_file(path, "rotated-revoke-seq", read);
    }
    match reset {
        FileRemove::Gone => Ok(0),
        FileRemove::Failed(why) => Err(labelled("reset ", "rotated-revoke-seq", path, why.as_str())),
    }
}

/// A number that was written is read back.
pub proof fn law_number_round_trip(path: Seq<u8>, label: Seq<char>, value: u64, bytes: Vec<u8>)
    requires
        bytes@ == spec_u64_to_le_bytes(value),
    ensures
        number_in(path, label, FileRead::Bytes(bytes)) == Ok::<u64, WorkspaceFault>(value),
{
    vstd::bytes::lemma_auto_spec_u64_to_from_le_bytes();
}

/// A document that was made anew is the one that is opened next time, as the
/// first and the current one and without a rotation, whatever another document
/// had recorded: its namespace is read back, and what it replaces is gone.
pub proof fn law_recreated_document_is_current(
    genesis: NamespaceId,
    doc_id_path: Seq<u8>,
    written: Vec<u8>,
    current_path: Seq<u8>,
    current_before: FileRead,
    current: FileRemove,
    epoch_path: Seq<u8>,
    epoch_before: FileRead,
    epoch: FileRemove,
)
    requires
        written@ == genesis@,
        created_fault(current_path, current, epoch_path, epoch) is None,
    ensures
        doc_plan_of(
            namespace_in(doc_id_path, FileRead::Bytes(written)),
            namespace_in(current_path, left_after(current_before, current)),
        ) == Ok::<Option<(Seq<u8>, Seq<u8>)>, WorkspaceFault>(Some((genesis@, genesis@))),
        number_in(epoch_path, "namespace-epoch"@, left_after(epoch_before, epoch)) == Ok::<u64, WorkspaceFault>(0),
{
}

/// A namespace file holds a namespace exactly where it has thirty-two bytes,
/// which are the namespace. No file is no namespace; every other length, and a
/// file that cannot be read, is an error.
pub proof fn law_what_a_namespace_file_holds(path: Seq<u8>, read: FileRead)
    ensures
        read is Missing ==> namespace_in(path, read) == Ok::<Option<Seq<u8>>, WorkspaceFault>(None),
        read matches FileRead::Bytes(bytes) ==> (namespace_in(path, read) == Ok::<Option<Seq<u8>>, WorkspaceFault>(
            Some(bytes@),
        ) <==> bytes@.len() == 32),
        read matches FileRead::Bytes(bytes) ==> (namespace_in(path, read) is Err <==> bytes@.len() != 32),
        read is Failed ==> namespace_in(path, read) is Err,
        namespace_in(path, read) matches Err(why) ==> why is Doc,
{
}

/// A number file holds a number exactly where it has eight bytes. No file is
/// zero; every other length, and a file that cannot be read, is an error.
pub proof fn law_what_a_number_file_holds(path: Seq<u8>, label: Seq<char>, read: FileRead)
    ensures
        read is Missing ==> number_in(path, label, read) == Ok::<u64, WorkspaceFault>(0),
        read matches FileRead::Bytes(bytes) ==> (number_in(path, label, read) is Ok <==> bytes@.len() == 8),
        read is Failed ==> number_in(path, label, read) is Err,
        number_in(path, label, read) matches Err(why) ==> why is Doc,
{
}

/// A host without a first namespace makes a new document, whatever else is
/// recorded; one that has it opens the current namespace, or the first where no
/// other is recorded. An error in what is needed is an error.
pub proof fn law_which_document_is_opened(
    first: Seq<u8>,
    now: Seq<u8>,
    current: Result<Option<Seq<u8>>, WorkspaceFault>,
    genesis: Result<Option<Seq<u8>>, WorkspaceFault>,
    why: WorkspaceFault,
)
    ensures
        doc_plan_of(Ok(None), current) == Ok::<Option<(Seq<u8>, Seq<u8>)>, WorkspaceFault>(None),
        doc_plan_of(Ok(Some(first)), Ok(None)) == Ok::<Option<(Seq<u8>, Seq<u8>)>, WorkspaceFault>(Some((first, first))),
        doc_plan_of(Ok(Some(first)), Ok(Some(now))) == Ok::<Option<(Seq<u8>, Seq<u8>)>, WorkspaceFault>(
            Some((first, now)),
        ),
        doc_plan_of(Ok(Some(first)), Err(why)) == Err::<Option<(Seq<u8>, Seq<u8>)>, WorkspaceFault>(why),
        doc_plan_of(Err(why), current) == Err::<Option<(Seq<u8>, Seq<u8>)>, WorkspaceFault>(why),
{
}

/// A host that made a new document goes on exactly where both files of another
/// document are gone; the first that is not is named.
pub proof fn law_leftovers_stop_a_new_document(current_path: Seq<u8>, current: FileRemove, epoch_path: Seq<u8>, epoch: FileRemove)
    ensures
        created_fault(current_path, current, epoch_path, epoch) is None <==> current is Gone && epoch is Gone,
        current is Failed ==> created_fault(current_path, current, epoch_path, epoch) == created_fault(
            current_path,
            current,
            epoch_path,
            FileRemove::Gone,
        ),
        created_fault(current_path, current, epoch_path, epoch) matches Some(why) ==> why is Doc,
{
}

/// A file that was deleted is missing, and one that could not be is read as
/// before.
pub proof fn law_what_is_left_of_a_file(before: FileRead, removal: FileRemove)
    ensures
        removal is Gone ==> left_after(before, removal) is Missing,
        removal is Failed ==> left_after(before, removal) == before,
{
}

/// A document that the store has is opened with the epoch that is recorded, and
/// one that it does not have is made anew; a new one has had no rotation.
pub proof fn law_opened_documents(
    genesis: NamespaceId,
    in_store: bool,
    epoch_path: &FsPath,
    epoch: &FileRead,
    res: Result<Option<OpenedDoc>, WorkspaceError>,
    current_path: &FsPath,
    current: &FileRemove,
    reset: &FileRemove,
    made: Result<OpenedDoc, WorkspaceError>,
)
    requires
        call_ensures(opened_doc, (genesis, in_store, epoch_path, epoch), res),
        call_ensures(created_doc, (genesis, current_path, current, epoch_path, reset), made),
    ensures
        !in_store ==> res == Ok::<Option<OpenedDoc>, WorkspaceError>(None),
        in_store && *epoch is Missing ==> (res matches Ok(Some(doc)) && doc.epoch == 0 && doc.returning && doc.genesis == genesis),
        in_store ==> (*epoch matches FileRead::Bytes(bytes) ==> (res is Ok <==> bytes@.len() == 8)),
        in_store ==> (res matches Ok(Some(doc)) ==> doc.returning && doc.genesis == genesis),
        made is Ok <==> *current is Gone && *reset is Gone,
        made matches Ok(doc) ==> doc.epoch == 0 && !doc.returning && doc.genesis == genesis,
{
}

/// A host that was here before goes on from the revoke that is recorded, and a
/// new document starts before every revoke.
pub proof fn law_where_rotations_go_on(returning: bool, path: &FsPath, value: u64, bytes: Vec<u8>, reset: &FileRemove, res: Result<u64, WorkspaceError>)
    requires
        call_ensures(rotated_up_to, (returning, path, &FileRead::Bytes(bytes), reset), res),
        bytes@ == spec_u64_to_le_bytes(value),
    ensures
        returning ==> res == Ok::<u64, WorkspaceError>(value),
        !returning && *reset is Gone ==> res == Ok::<u64, WorkspaceError>(0),
        !returning && *reset is Failed ==> res is Err,
{
    vstd::bytes::lemma_auto_spec_u64_to_from_le_bytes();
}

/// A number that was written into its file is read from it.
pub proof fn law_numbers_survive_their_file(value: u64, bytes: Vec<u8>, path: &FsPath, label: &str, res: Result<u64, WorkspaceError>, outcome: Result<(), String>, kept: Result<(), WorkspaceError>)
    requires
        call_ensures(u64_file_bytes, (value,), bytes),
        call_ensures(read_u64_file, (path, label, &FileRead::Bytes(bytes)), res),
        call_ensures(persist_u64, (path, label, outcome), kept),
    ensures
        res == Ok::<u64, WorkspaceError>(value),
        kept is Ok <==> outcome is Ok,
{
    vstd::bytes::lemma_auto_spec_u64_to_from_le_bytes();
}

} // verus!
