//! What is kept in the state directory.
use artel_fs::error::WorkspaceError;
use artel_fs::ids::NamespaceId;
use artel_fs::keystore::{
    drawn, ensure_dir, ensure_state_dir, load_or_create_secret, parse_key, secret_written, DirState, DirStep, KeyError,
    KeyStep, DIR_MODE, KEY_MODE,
};
use artel_fs::path::FsPath;
use artel_fs::state_files::{
    created_doc, doc_plan, opened_doc, persist_u64, read_namespace_file, read_u64_file, rotated_up_to, u64_file_bytes,
    DocPlan, FileRead, FileRemove, OpenedDoc,
};

fn path() -> FsPath {
    FsPath::new("/s/iroh.key")
}

fn fresh_key() -> [u8; 32] {
    match load_or_create_secret(&path(), &FileRead::Missing) {
        KeyStep::Write { key, .. } => key,
        _ => panic!("expected a key to write"),
    }
}

#[test]
fn missing_file_generates_persists_and_returns_a_key() {
    let key = fresh_key();
    assert_ne!(key, [0; 32]);
    assert_ne!(key, fresh_key(), "two keys are never the same");
    assert_eq!(secret_written(&path(), key, Ok(())), Ok(key));
}

#[test]
fn second_call_reads_existing_key_unchanged() {
    let first = fresh_key();
    match load_or_create_secret(&path(), &FileRead::Bytes(first.to_vec())) {
        KeyStep::Use(second) => assert_eq!(first, second, "second load must reuse the persisted key"),
        _ => panic!("expected the key in the file"),
    }
}

#[test]
fn key_file_is_chmod_0600() {
    match load_or_create_secret(&path(), &FileRead::Missing) {
        KeyStep::Write { mode, .. } => {
            assert_eq!(mode, KEY_MODE, "key file mode should be {KEY_MODE:o}");
            assert_eq!(mode & 0o777, 0o600);
        }
        _ => panic!("expected a key to write"),
    }
    assert!(matches!(drawn(Ok([7; 32])), KeyStep::Write { key, mode } if key == [7; 32] && mode == 0o600));
}

#[test]
fn parent_dir_is_created_at_0700() {
    match ensure_dir(&FsPath::new("/s/a/b"), &DirState::Missing) {
        Ok(DirStep::Make { mode }) => {
            assert_eq!(mode & 0o777, 0o700);
            assert_eq!(mode, DIR_MODE);
        }
        other => panic!("expected a directory to make, got {other:?}"),
    }
    assert_eq!(ensure_dir(&FsPath::new("/s/a/b"), &DirState::Dir), Ok(DirStep::Keep));
}

fn corrupt(bytes: &[u8]) -> usize {
    match load_or_create_secret(&path(), &FileRead::Bytes(bytes.to_vec())) {
        KeyStep::Fail(KeyError::Corrupt { got, path: at }) => {
            assert_eq!(at, path());
            got
        }
        _ => panic!("expected Corrupt"),
    }
}

#[test]
fn corrupt_file_too_short_errors() {
    assert_eq!(corrupt(b"short"), 5);
}

#[test]
fn corrupt_file_too_long_errors() {
    assert_eq!(corrupt(&[0u8; 64]), 64);
}

#[test]
fn empty_file_errors_as_corrupt() {
    assert_eq!(corrupt(b""), 0);
}

#[test]
fn endpoint_id_stable_across_loads() {
    let first = fresh_key();
    let second = parse_key(&path(), &first.to_vec()).unwrap();
    assert_eq!(
        iroh_base::SecretKey::from_bytes(&first).public(),
        iroh_base::SecretKey::from_bytes(&second).public()
    );
}

#[test]
fn key_errors_have_messages() {
    assert_eq!(
        KeyError::Corrupt { path: path(), got: 5 }.message(),
        "workspace key /s/iroh.key is corrupt: expected 32 bytes, got 5"
    );
    assert!(matches!(
        drawn(Err("none".to_string())),
        KeyStep::Fail(KeyError::Rng(why)) if why == "none"
    ));
    assert_eq!(
        KeyError::Rng("none".to_string()).message(),
        "workspace key generation failed: none"
    );
    match load_or_create_secret(&path(), &FileRead::Failed("denied".to_string())) {
        KeyStep::Fail(err) => assert_eq!(err.message(), "workspace key /s/iroh.key: denied"),
        _ => panic!("expected a failure"),
    }
    assert_eq!(
        secret_written(&path(), [1; 32], Err("full".to_string())).unwrap_err().message(),
        "workspace key /s/iroh.key: full"
    );
}

#[test]
fn directories_that_are_none_are_refused() {
    assert_eq!(
        ensure_dir(&FsPath::new("/s"), &DirState::Other),
        Err("/s exists but is not a directory".to_string())
    );
    assert_eq!(
        ensure_dir(&FsPath::new("/s"), &DirState::Failed("denied".to_string())),
        Err("denied".to_string())
    );
    assert_eq!(ensure_state_dir(&FsPath::new("/s"), Ok(())), Ok(()));
    assert_eq!(
        ensure_state_dir(&FsPath::new("/s"), Err("denied".to_string())).unwrap_err().message(),
        "iroh: create state_dir /s: denied"
    );
}

#[test]
fn namespaces_are_thirty_two_bytes() {
    let at = FsPath::new("/s/doc-id");
    assert_eq!(read_namespace_file(&at, &FileRead::Missing), Ok(None));
    assert_eq!(
        read_namespace_file(&at, &FileRead::Bytes(vec![7; 32])),
        Ok(Some(NamespaceId([7; 32])))
    );
    assert_eq!(
        read_namespace_file(&at, &FileRead::Bytes(vec![7; 31])).unwrap_err().message(),
        "doc: namespace file at /s/doc-id is corrupt: expected 32 bytes, got 31"
    );
    assert_eq!(
        read_namespace_file(&at, &FileRead::Failed("denied".to_string())).unwrap_err().message(),
        "doc: read namespace file at /s/doc-id: denied"
    );
}

#[test]
fn numbers_are_little_endian() {
    let at = FsPath::new("/s/namespace-epoch");
    assert_eq!(u64_file_bytes(0x0102), vec![2, 1, 0, 0, 0, 0, 0, 0]);
    for n in [0u64, 1, 0x0102_0304_0506_0708, u64::MAX] {
        assert_eq!(read_u64_file(&at, "namespace-epoch", &FileRead::Bytes(u64_file_bytes(n))), Ok(n));
    }
    assert_eq!(read_u64_file(&at, "namespace-epoch", &FileRead::Missing), Ok(0));
    assert_eq!(
        read_u64_file(&at, "namespace-epoch", &FileRead::Bytes(vec![1; 7])).unwrap_err().message(),
        "doc: namespace-epoch file at /s/namespace-epoch is corrupt: expected 8 bytes, got 7"
    );
    assert_eq!(persist_u64(&at, "namespace-epoch", Ok(())), Ok(()));
    assert_eq!(
        persist_u64(&at, "namespace-epoch", Err("full".to_string())).unwrap_err().message(),
        "doc: persist namespace-epoch at /s/namespace-epoch: full"
    );
}

#[test]
fn a_host_opens_what_it_recorded() {
    let id = FsPath::new("/s/doc-id");
    let current = FsPath::new("/s/current-namespace");
    let a = || FileRead::Bytes(vec![1; 32]);
    let b = || FileRead::Bytes(vec![2; 32]);
    assert_eq!(doc_plan(&id, &FileRead::Missing, &current, &b()), Ok(DocPlan::Create));
    assert_eq!(
        doc_plan(&id, &a(), &current, &FileRead::Missing),
        Ok(DocPlan::Open { genesis: NamespaceId([1; 32]), current: NamespaceId([1; 32]) })
    );
    assert_eq!(
        doc_plan(&id, &a(), &current, &b()),
        Ok(DocPlan::Open { genesis: NamespaceId([1; 32]), current: NamespaceId([2; 32]) })
    );
    assert!(matches!(
        doc_plan(&id, &FileRead::Bytes(vec![]), &current, &b()),
        Err(WorkspaceError::Doc(_))
    ));
    let at = FsPath::new("/s/namespace-epoch");
    let genesis = NamespaceId([1; 32]);
    assert_eq!(
        opened_doc(genesis, true, &at, &FileRead::Bytes(u64_file_bytes(4))),
        Ok(Some(OpenedDoc { genesis, returning: true, epoch: 4 }))
    );
    assert_eq!(opened_doc(genesis, false, &at, &FileRead::Missing), Ok(None));
}

#[test]
fn a_recreated_document_becomes_current() {
    let id = FsPath::new("/s/doc-id");
    let current = FsPath::new("/s/current-namespace");
    let epoch = FsPath::new("/s/namespace-epoch");
    let stale = || FileRead::Bytes(vec![2; 32]);
    assert_eq!(
        doc_plan(&id, &FileRead::Bytes(vec![1; 32]), &current, &stale()),
        Ok(DocPlan::Open { genesis: NamespaceId([1; 32]), current: NamespaceId([2; 32]) })
    );
    assert_eq!(opened_doc(NamespaceId([1; 32]), false, &epoch, &FileRead::Missing), Ok(None));

    let genesis = NamespaceId([3; 32]);
    assert_eq!(
        created_doc(genesis, &current, &FileRemove::Gone, &epoch, &FileRemove::Gone),
        Ok(OpenedDoc { genesis, returning: false, epoch: 0 })
    );
    assert_eq!(
        doc_plan(&id, &FileRead::Bytes(genesis.0.to_vec()), &current, &FileRead::Missing),
        Ok(DocPlan::Open { genesis, current: genesis })
    );
    assert_eq!(
        opened_doc(genesis, true, &epoch, &FileRead::Missing),
        Ok(Some(OpenedDoc { genesis, returning: true, epoch: 0 }))
    );

    let failed = || FileRemove::Failed("x".to_string());
    assert_eq!(
        created_doc(genesis, &current, &FileRemove::Gone, &epoch, &failed()).unwrap_err().message(),
        "doc: reset namespace-epoch at /s/namespace-epoch: x"
    );
    assert_eq!(
        created_doc(genesis, &current, &failed(), &epoch, &FileRemove::Gone).unwrap_err().message(),
        "doc: reset current-namespace at /s/current-namespace: x"
    );
}

#[test]
fn the_mark_of_rotated_revokes_belongs_to_its_log() {
    let at = FsPath::new("/s/rotated-revoke-seq");
    let nine = FileRead::Bytes(u64_file_bytes(9));
    assert_eq!(rotated_up_to(true, &at, &nine, &FileRemove::Gone), Ok(9));
    assert_eq!(rotated_up_to(false, &at, &nine, &FileRemove::Gone), Ok(0));
    assert_eq!(
        rotated_up_to(false, &at, &nine, &FileRemove::Failed("x".to_string())).unwrap_err().message(),
        "doc: reset rotated-revoke-seq at /s/rotated-revoke-seq: x"
    );
}
