//! The session id of a workspace, derived from its document namespace.
//!
//! The same namespace always has the same session, so that a host that comes
//! back is found where it was.
use vstd::prelude::*;

use crate::hashing::{blake3_keyed_hash, keyed_hash};
use crate::ids::{NamespaceId, SessionId};

verus! {

/// The key of the derivation: `artel-fs/session-id/v1`, filled up with NULs.
pub const DOMAIN_TAG: [u8; 32] = [
    0x61, 0x72, 0x74, 0x65, 0x6c, 0x2d, 0x66, 0x73, 0x2f, 0x73, 0x65, 0x73, 0x73, 0x69, 0x6f, 0x6e,
    0x2d, 0x69, 0x64, 0x2f, 0x76, 0x31, 0, 0, 0, 0, 0, 0, 0, 0, 0, 0,
];

/// The first sixteen bytes of a hash, with the version and the variant of a
/// UUID of version 8 in their places.
pub open spec fn stamped(hash: Seq<u8>) -> Seq<u8> {
    hash.take(16).update(6, (hash[6] & 0x0f) | 0x80).update(8, (hash[8] & 0x3f) | 0x80)
}

/// The session id of a namespace.
pub open spec fn session_of(ns: Seq<u8>) -> Seq<u8> {
    stamped(blake3_keyed_hash(DOMAIN_TAG@, ns))
}

/// Stamps the first sixteen bytes of a hash.
pub fn stamp(hash: &[u8; 32]) -> (id: SessionId)
    ensures
        id@ == stamped(hash@),
{
    let id = SessionId(
        [
            hash[0],
            hash[1],
            hash[2],
            hash[3],
            hash[4],
            hash[5],
            (hash[6] & 0x0f) | 0x80,
            hash[7],
            (hash[8] & 0x3f) | 0x80,
            hash[9],
            hash[10],
            hash[11],
            hash[12],
            hash[13],
            hash[14],
            hash[15],
        ],
    );
    assert(id@ =~= stamped(hash@));
    id
}

/// The session id of a namespace, which is a UUID of version 8.
pub fn session_id_for(ns: NamespaceId) -> (id: SessionId)
    ensures
        id@ == session_of(ns@),
        blake3_keyed_hash(DOMAIN_TAG@, ns@).len() == 32,
        id@[6] & 0xf0 == 0x80,
        id@[8] & 0xc0 == 0x80,
{
    let tag: [u8; 32] = DOMAIN_TAG;
    let hash: [u8; 32] = keyed_hash(&tag, ns.0.as_slice());
    proof {
        law_session_ids_are_uuid_v8(hash@);
    }
    stamp(&hash)
}

/// Every session id has the version and the variant bits of a UUID of
/// version 8.
pub proof fn law_session_ids_are_uuid_v8(hash: Seq<u8>)
    requires
        hash.len() == 32,
    ensures
        stamped(hash).len() == 16,
        stamped(hash)[6] & 0xf0 == 0x80,
        stamped(hash)[8] & 0xc0 == 0x80,
{
    let a = hash[6];
    let b = hash[8];
    assert(((a & 0x0f) | 0x80) & 0xf0 == 0x80) by (bit_vector);
    assert(((b & 0x3f) | 0x80) & 0xc0 == 0x80) by (bit_vector);
}

/// A session id keeps the bits of the hash that it does not stamp: fourteen
/// bytes whole, and the low bits of the other two.
pub proof fn law_stamping_keeps_the_hash(hash: Seq<u8>, i: int)
    requires
        hash.len() == 32,
        0 <= i < 16,
    ensures
        i != 6 && i != 8 ==> stamped(hash)[i] == hash[i],
        stamped(hash)[6] & 0x0f == hash[6] & 0x0f,
        stamped(hash)[8] & 0x3f == hash[8] & 0x3f,
{
    let a = hash[6];
    let b = hash[8];
    assert(((a & 0x0f) | 0x80) & 0x0f == a & 0x0f) by (bit_vector);
    assert(((b & 0x3f) | 0x80) & 0x3f == b & 0x3f) by (bit_vector);
}

/// Namespaces with the same keyed hash, and only those, share a session, as far
/// as the bits that a session id keeps tell them apart. The key of the hash is
/// the name of the derivation, filled up with NULs.
pub proof fn law_sessions_come_from_the_namespace(ns: Seq<u8>, other: Seq<u8>)
    ensures
        blake3_keyed_hash(DOMAIN_TAG@, ns) == blake3_keyed_hash(DOMAIN_TAG@, other) ==> session_of(ns) == session_of(other),
        session_of(ns) == stamped(blake3_keyed_hash(DOMAIN_TAG@, ns)),
        DOMAIN_TAG@.take(22) == vstd::utf8::encode_utf8("artel-fs/session-id/v1"@),
        forall|i: int| 22 <= i < 32 ==> #[trigger] DOMAIN_TAG@[i] == 0,
{
    reveal_strlit("artel-fs/session-id/v1");
    let text = "artel-fs/session-id/v1"@;
    assert(vstd::utf8::is_ascii_chars(text));
    vstd::utf8::is_ascii_chars_encode_utf8(text);
    assert(DOMAIN_TAG@.take(22) =~= vstd::utf8::encode_utf8(text));
}

/// A host that comes back on its namespace comes back to its session.
pub proof fn law_sessions_stay(ns: NamespaceId, first: SessionId, second: SessionId)
    requires
        call_ensures(session_id_for, (ns,), first),
        call_ensures(session_id_for, (ns,), second),
    ensures
        first@ == second@,
        first@ == stamped(blake3_keyed_hash(DOMAIN_TAG@, ns@)),
{
}

} // verus!
