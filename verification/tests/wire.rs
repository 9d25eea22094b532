//! What is written down and sent: tickets, records, session ids.
use artel_fs::attachment::{
    list_known_workspaces, AttachmentEntry, KnownWorkspace, WorkspaceAttachmentV1, WorkspaceRole, KIND_V1,
};
use artel_fs::error::WorkspaceError;
use artel_fs::ids::{NamespaceId, SessionId};
use artel_fs::path::FsPath;
use artel_fs::rules::{Mode, PathRule, PathRules, PathRulesError};
use artel_fs::session_id::{session_id_for, stamp, DOMAIN_TAG};
use artel_fs::ticket::{decode, encode, TicketEnvelopeError, WorkspaceTicketEnvelope, ENVELOPE_VERSION};

fn rules_empty() -> PathRules {
    PathRules::read_write()
}

fn rules_dozen() -> PathRules {
    let mut rules = Vec::new();
    for i in 0..12 {
        rules.push(PathRule {
            glob: format!("dir{i}/**/*.rs"),
            mode: if i % 2 == 0 { Mode::ReadWrite } else { Mode::ReadOnly },
        });
    }
    PathRules { default: Mode::ReadOnly, rules }
}

#[test]
fn envelope_round_trips_with_empty_rules() {
    let env = WorkspaceTicketEnvelope::new("docticket-string".into(), rules_empty());
    let bytes = encode(&env).unwrap();
    let back = decode(&bytes).unwrap();
    assert_eq!(env, back);
}

#[test]
fn envelope_round_trips_with_dozen_rules() {
    let env = WorkspaceTicketEnvelope::new("docticket-string".into(), rules_dozen());
    let bytes = encode(&env).unwrap();
    let back = decode(&bytes).unwrap();
    assert_eq!(env, back);
}

#[test]
fn envelope_decode_rejects_malformed_bytes() {
    let err = decode(b"not a postcard envelope").expect_err("should fail");
    assert!(matches!(err, TicketEnvelopeError::Malformed(_)), "got {err:?}");
}

#[test]
fn envelope_decode_rejects_wrong_version_byte() {
    let env = WorkspaceTicketEnvelope::new("docticket".into(), rules_empty());
    let mut bytes = encode(&env).unwrap();
    assert_eq!(bytes[0], ENVELOPE_VERSION);
    bytes[0] = 99;
    let err = decode(&bytes).expect_err("should fail");
    assert!(matches!(err, TicketEnvelopeError::UnsupportedVersion(99)), "got {err:?}");
}

#[test]
fn envelope_decode_rejects_raw_doc_ticket_string() {
    let raw_doc_ticket = b"docaaa\
        cbbcaa3aacaaaaaaaaaaiiabaaaaaiabarbjzgaaaaaaaaaaaaaaaaaaaaaa";
    let err = decode(raw_doc_ticket).expect_err("should fail");
    assert!(matches!(err, TicketEnvelopeError::Malformed(_)), "got {err:?}");
}

#[test]
fn envelope_bytes_are_pinned() {
    let env = WorkspaceTicketEnvelope::new(
        "doc".into(),
        PathRules {
            default: Mode::ReadOnly,
            rules: vec![PathRule { glob: "a/**".into(), mode: Mode::ReadWrite }],
        },
    );
    assert_eq!(
        encode(&env).unwrap(),
        vec![1, 3, b'd', b'o', b'c', 1, 1, 4, b'a', b'/', b'*', b'*', 0],
    );
}

#[test]
fn envelope_with_bad_rules_is_neither_written_nor_read() {
    let bad = PathRules {
        default: Mode::ReadWrite,
        rules: vec![PathRule { glob: "/abs".into(), mode: Mode::ReadOnly }],
    };
    let err = encode(&WorkspaceTicketEnvelope::new("t".into(), bad)).expect_err("refused");
    assert!(matches!(
        err,
        TicketEnvelopeError::PathRules(PathRulesError::AbsoluteGlob(_))
    ));
    // The same envelope as another writer could have made it.
    let bytes = vec![1, 1, b't', 0, 1, 4, b'/', b'a', b'b', b's', 1];
    let err = decode(&bytes).expect_err("refused");
    assert!(matches!(
        err,
        TicketEnvelopeError::PathRules(PathRulesError::AbsoluteGlob(_))
    ));
}

#[test]
fn envelope_errors_have_messages() {
    assert_eq!(
        TicketEnvelopeError::UnsupportedVersion(7).message(),
        "workspace ticket envelope: unsupported version 7",
    );
    assert_eq!(
        TicketEnvelopeError::Malformed("why".into()).message(),
        "workspace ticket envelope: malformed bytes (why)",
    );
    assert_eq!(
        TicketEnvelopeError::PathRules(PathRulesError::EmptyGlob).message(),
        format!("workspace ticket envelope: invalid rules: {}", PathRulesError::EmptyGlob.message()),
    );
}

#[test]
fn malformed_envelopes_say_why() {
    let err = decode(&[]).expect_err("empty");
    assert_eq!(
        err,
        TicketEnvelopeError::Malformed(postcard::Error::DeserializeUnexpectedEnd.to_string()),
    );
}

fn sample() -> WorkspaceAttachmentV1 {
    WorkspaceAttachmentV1 {
        local_path: FsPath::new("/home/alice/projects/notes"),
        state_dir: FsPath::new("/home/alice/projects/notes/.artel-fs"),
        role: WorkspaceRole::Host,
    }
}

#[test]
fn workspace_attachment_v1_round_trips_postcard() {
    let original = sample();
    let bytes = original.encode().expect("encode");
    let back = WorkspaceAttachmentV1::decode(&bytes).expect("decode");
    assert_eq!(original, back);
}

#[test]
fn workspace_attachment_v1_round_trips_with_joiner_role() {
    let original = WorkspaceAttachmentV1 { role: WorkspaceRole::Joiner, ..sample() };
    let bytes = original.encode().unwrap();
    assert_eq!(WorkspaceAttachmentV1::decode(&bytes).unwrap(), original);
}

#[test]
fn workspace_attachment_v1_decode_rejects_garbage_bytes() {
    let err = WorkspaceAttachmentV1::decode(b"not a postcard payload").expect_err("decode should fail");
    assert!(matches!(err, WorkspaceError::Iroh(_)), "got {err:?}");
}

#[test]
fn workspace_attachment_v1_decode_rejects_truncated_bytes() {
    let original = sample();
    let mut bytes = original.encode().unwrap();
    let drop: usize = bytes.len().saturating_sub(3);
    bytes.truncate(drop);
    let err = WorkspaceAttachmentV1::decode(&bytes).expect_err("decode should fail");
    assert!(matches!(err, WorkspaceError::Iroh(_)), "got {err:?}");
}

#[test]
fn kind_v1_string_is_pinned() {
    assert_eq!(KIND_V1, "artel-fs/workspace/v1");
}

#[test]
fn attachment_bytes_are_pinned() {
    let record = WorkspaceAttachmentV1 {
        local_path: FsPath::new("/r"),
        state_dir: FsPath::new("/s"),
        role: WorkspaceRole::Joiner,
    };
    assert_eq!(record.encode().unwrap(), vec![2, b'/', b'r', 2, b'/', b's', 1]);
}

#[test]
fn attachment_of_a_path_that_is_not_text_is_refused() {
    let record = WorkspaceAttachmentV1 { state_dir: FsPath::from_bytes(vec![0xff]), ..sample() };
    let err = record.encode().expect_err("not text");
    assert_eq!(
        err,
        WorkspaceError::Iroh(format!("attachment encode: {}", postcard::Error::SerdeSerCustom)),
    );
}

#[test]
fn known_workspaces_are_those_that_decode() {
    let session = SessionId([4; 16]);
    let entries = vec![
        AttachmentEntry { session, kind: KIND_V1.to_string(), payload: b"broken".to_vec() },
        AttachmentEntry { session, kind: "other/v1".to_string(), payload: sample().encode().unwrap() },
        AttachmentEntry { session, kind: KIND_V1.to_string(), payload: sample().encode().unwrap() },
    ];
    assert_eq!(
        list_known_workspaces(&entries),
        vec![KnownWorkspace { session, attachment: sample() }],
    );
}

#[test]
fn domain_tag_byte_sequence_is_pinned() {
    let expected: &[u8; 32] = b"artel-fs/session-id/v1\0\0\0\0\0\0\0\0\0\0";
    assert_eq!(&DOMAIN_TAG, expected);
    assert_eq!(DOMAIN_TAG.len(), 32);
    assert_eq!(&DOMAIN_TAG[..22], b"artel-fs/session-id/v1");
    assert!(DOMAIN_TAG[22..].iter().all(|b| *b == 0));
}

#[test]
fn session_id_is_stable_for_a_given_namespace_id() {
    let ns = NamespaceId([7u8; 32]);
    let a = session_id_for(ns);
    let b = session_id_for(ns);
    assert_eq!(a, b);
}

#[test]
fn session_id_differs_for_distinct_namespace_ids() {
    let a = session_id_for(NamespaceId([1u8; 32]));
    let b = session_id_for(NamespaceId([2u8; 32]));
    assert_ne!(a, b);
}

#[test]
fn session_id_has_uuid_v8_variant_bits() {
    for seed in [0u8, 1, 7, 42, 0xAB, 0xFF] {
        let id = session_id_for(NamespaceId([seed; 32]));
        let bytes = id.0;
        assert_eq!(bytes[6] & 0xF0, 0x80, "byte[6] high nibble for seed {seed}");
        assert_eq!(bytes[8] & 0xC0, 0x80, "byte[8] top two bits for seed {seed}");
    }
}

#[test]
fn session_id_is_the_stamped_keyed_hash() {
    let ns = NamespaceId([7u8; 32]);
    let hash = blake3::keyed_hash(&DOMAIN_TAG, &ns.0);
    let mut expected = [0u8; 16];
    expected.copy_from_slice(&hash.as_bytes()[..16]);
    expected[6] = (expected[6] & 0x0F) | 0x80;
    expected[8] = (expected[8] & 0x3F) | 0x80;
    assert_eq!(session_id_for(ns), SessionId(expected));
    assert_eq!(stamp(&[0xFF; 32]).0[6], 0x8F);
    assert_eq!(stamp(&[0xFF; 32]).0[8], 0xBF);
    assert_eq!(stamp(&[0xFF; 32]).0[0], 0xFF);
}
