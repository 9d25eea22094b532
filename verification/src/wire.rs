//! The `postcard` encoding of the records that leave this machine.
//!
//! A record is handed over as a tuple of plain values: a tuple is encoded as
//! its parts one after the other, which is how a struct of the same fields is.
//! A choice between two is a `Result<(), ()>`, whose encoding is the index of
//! the choice.
use vstd::prelude::*;

verus! {

/// One of two: `Ok` is the first choice, `Err` the second.
pub type Choice = Result<(), ()>;

/// The parts of a ticket envelope: version, document ticket, default mode and
/// rules.
pub type EnvelopeParts = (u8, Seq<char>, Choice, Seq<(Seq<char>, Choice)>);

/// The parts of a workspace attachment: local path, state directory and role.
pub type AttachmentParts = (Seq<char>, Seq<char>, Choice);

/// The encoding of a ticket envelope.
pub uninterp spec fn envelope_bytes(version: u8, doc_ticket: Seq<char>, default: Result<(), ()>, rules: Seq<(Seq<char>, Result<(), ()>)>) -> Seq<u8>;

/// What bytes decode to as a ticket envelope, or why they do not.
pub uninterp spec fn envelope_of(bytes: Seq<u8>) -> Result<(u8, Seq<char>, Result<(), ()>, Seq<(Seq<char>, Result<(), ()>)>), Seq<char>>;

/// The encoding of a workspace attachment.
pub uninterp spec fn attachment_bytes(local_path: Seq<char>, state_dir: Seq<char>, role: Result<(), ()>) -> Seq<u8>;

/// What bytes decode to as a workspace attachment, or why they do not.
pub uninterp spec fn attachment_of(bytes: Seq<u8>) -> Result<(Seq<char>, Seq<char>, Result<(), ()>), Seq<char>>;

/// The rules of an envelope with their globs as sequences.
pub open spec fn rule_parts(rules: Seq<(String, Choice)>) -> Seq<(Seq<char>, Choice)> {
    rules.map_values(|r: (String, Choice)| (r.0@, r.1))
}

/// Wraps `postcard::to_allocvec` on the parts of a ticket envelope.
///
/// Writing integers, strings and lists to a growing vector does not fail. The
/// bytes are named [`envelope_bytes`]; decoding gives the parts back. The
/// version comes first, as the one byte that it is.
#[verifier::external_body]
pub(crate) fn write_envelope(version: u8, doc_ticket: &str, default: Choice, rules: &Vec<(String, Choice)>) -> (res: Result<Vec<u8>, String>)
    ensures
        res is Ok,
        res matches Ok(bytes) ==> {
            &&& bytes@ == envelope_bytes(version, doc_ticket@, default, rule_parts(rules@))
            &&& envelope_of(bytes@) == Ok::<EnvelopeParts, Seq<char>>((version, doc_ticket@, default, rule_parts(rules@)))
            &&& bytes@.len() > 0
            &&& bytes@[0] == version
        },
{
    postcard::to_allocvec(&(version, doc_ticket, default, rules)).map_err(|err| err.to_string())
}

/// Wraps `postcard::from_bytes` at the parts of a ticket envelope; the result
/// is named [`envelope_of`].
#[verifier::external_body]
pub(crate) fn read_envelope(bytes: &[u8]) -> (res: Result<(u8, String, Choice, Vec<(String, Choice)>), String>)
    ensures
        match res {
            Ok(parts) => envelope_of(bytes@) == Ok::<EnvelopeParts, Seq<char>>((parts.0, parts.1@, parts.2, rule_parts(parts.3@))),
            Err(why) => envelope_of(bytes@) == Err::<EnvelopeParts, Seq<char>>(why@),
        },
{
    postcard::from_bytes(bytes).map_err(|err| err.to_string())
}

/// Wraps `postcard::to_allocvec` on the parts of an attachment.
///
/// Writing strings to a growing vector does not fail. The bytes are named
/// [`attachment_bytes`]; decoding gives the parts back.
#[verifier::external_body]
pub(crate) fn write_attachment(local_path: &str, state_dir: &str, role: Choice) -> (res: Result<Vec<u8>, String>)
    ensures
        res is Ok,
        res matches Ok(bytes) ==> {
            &&& bytes@ == attachment_bytes(local_path@, state_dir@, role)
            &&& attachment_of(bytes@) == Ok::<AttachmentParts, Seq<char>>((local_path@, state_dir@, role))
        },
{
    postcard::to_allocvec(&(local_path, state_dir, role)).map_err(|err| err.to_string())
}

/// Wraps `postcard::from_bytes` at the parts of an attachment; the result is
/// named [`attachment_of`].
#[verifier::external_body]
pub(crate) fn read_attachment(bytes: &[u8]) -> (res: Result<(String, String, Choice), String>)
    ensures
        match res {
            Ok(parts) => attachment_of(bytes@) == Ok::<AttachmentParts, Seq<char>>((parts.0@, parts.1@, parts.2)),
            Err(why) => attachment_of(bytes@) == Err::<AttachmentParts, Seq<char>>(why@),
        },
{
    postcard::from_bytes(bytes).map_err(|err| err.to_string())
}

} // verus!
