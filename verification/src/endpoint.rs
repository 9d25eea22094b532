//! Which thirty-two bytes name a network endpoint.
//!
//! An endpoint goes by its public key, so not every array of bytes is one.
use vstd::prelude::*;

use crate::ids::EndpointId;
use crate::state_files::to_array;

verus! {

/// Whether bytes are the public key of an endpoint, as
/// `iroh_base::EndpointId::from_bytes` decides it.
pub uninterp spec fn is_endpoint(bytes: Seq<u8>) -> bool;

/// The message for bytes that are no endpoint.
pub open spec fn endpoint_fault() -> Seq<char> {
    "data is not a valid public key"@
}

/// Calls `iroh_base::EndpointId::from_bytes` and keeps whether it accepts the
/// bytes. Whether it does depends on the bytes alone: they have to decompress
/// to a point of the curve. It has one message for those that do not.
#[verifier::external_body]
fn check_endpoint(bytes: &[u8; 32]) -> (res: Result<(), String>)
    ensures
        res is Ok == is_endpoint(bytes@),
        res matches Err(why) ==> why@ == endpoint_fault(),
{
    match iroh_base::EndpointId::from_bytes(bytes) {
        Ok(_) => Ok(()),
        Err(e) => Err(e.to_string()),
    }
}

/// The endpoint that bytes name.
pub fn endpoint_of(bytes: &[u8; 32]) -> (res: Result<EndpointId, String>)
    ensures
        match res {
            Ok(endpoint) => is_endpoint(bytes@) && endpoint@ == bytes@,
            Err(why) => !is_endpoint(bytes@) && why@ == endpoint_fault(),
        },
{
    match check_endpoint(bytes) {
        Ok(()) => Ok(EndpointId(*bytes)),
        Err(why) => Err(why),
    }
}

/// The endpoint that the bytes of an announcement name, if they do.
pub open spec fn announced(payload: Seq<u8>) -> Option<Seq<u8>> {
    if payload.len() == 32 && is_endpoint(payload) {
        Some(payload)
    } else {
        None
    }
}

/// Reads an announcement: exactly thirty-two bytes that name an endpoint.
pub fn read_announcement(payload: &Vec<u8>) -> (res: Option<EndpointId>)
    ensures
        match res {
            Some(endpoint) => announced(payload@) == Some(endpoint@),
            None => announced(payload@) is None,
        },
{
    if payload.len() != 32 {
        return None;
    }
    match endpoint_of(&to_array(payload)) {
        Ok(endpoint) => Some(endpoint),
        Err(_) => None,
    }
}

/// An announcement names an endpoint exactly where its bytes are thirty-two and
/// an endpoint, and then it names those bytes.
pub proof fn law_what_an_announcement_names(payload: Seq<u8>, endpoint: Seq<u8>)
    ensures
        announced(payload) == Some(endpoint) <==> payload == endpoint && payload.len() == 32 && is_endpoint(payload),
        announced(payload) is None <==> payload.len() != 32 || !is_endpoint(payload),
{
}

} // verus!
