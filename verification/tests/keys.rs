//! Paths and the keys of their entries.
use artel_fs::error::WorkspaceError;
use artel_fs::keys::{has_windows_drive_prefix, key_to_path, path_to_key, KEY_PREFIX};
use artel_fs::path::{components_of, strip_prefix, Component, FsPath};
use artel_fs::rules::path_to_match_string;

fn root() -> FsPath {
    FsPath::new("/workspace")
}

fn below(names: &[&str]) -> FsPath {
    let mut path = root();
    for name in names {
        path = path.join(name.as_bytes());
    }
    path
}

#[test]
fn round_trip_simple_path() {
    let r = root();
    let p = below(&["src", "main.rs"]);
    let key = path_to_key(&r, &p).unwrap();
    assert_eq!(key, b"path/src/main.rs");
    let back = key_to_path(&r, &key).unwrap();
    assert_eq!(back, p);
}

#[test]
fn round_trip_root_level_file() {
    let r = root();
    let p = below(&["README.md"]);
    let key = path_to_key(&r, &p).unwrap();
    assert_eq!(key, b"path/README.md");
    let back = key_to_path(&r, &key).unwrap();
    assert_eq!(back, p);
}

#[test]
fn round_trip_nested_path() {
    let r = root();
    let p = below(&["a", "b", "c", "d.txt"]);
    let key = path_to_key(&r, &p).unwrap();
    assert_eq!(key, b"path/a/b/c/d.txt");
    let back = key_to_path(&r, &key).unwrap();
    assert_eq!(back, p);
}

#[test]
fn rejects_path_outside_root() {
    let r = root();
    let outside = FsPath::new("/elsewhere/foo.txt");
    assert!(path_to_key(&r, &outside).is_err());
}

#[test]
fn rejects_parent_traversal_in_key() {
    let r = root();
    let key = b"path/../etc/passwd";
    assert!(key_to_path(&r, key).is_err());
}

#[test]
fn rejects_key_without_prefix() {
    let r = root();
    assert!(key_to_path(&r, b"src/main.rs").is_err());
}

#[test]
fn rejects_absolute_key() {
    let r = root();
    let key = b"path//etc/passwd".to_vec();
    assert!(key_to_path(&r, &key).is_err());
}

#[test]
fn nfc_normalises_components() {
    let r = root();
    let composed = below(&["caf\u{00e9}", "x.txt"]);
    let decomposed = below(&["cafe\u{0301}", "x.txt"]);
    let k1 = path_to_key(&r, &composed).unwrap();
    let k2 = path_to_key(&r, &decomposed).unwrap();
    assert_eq!(k1, k2, "NFC normalisation should make composed and decomposed forms equal");
    assert_eq!(k1, "path/caf\u{00e9}/x.txt".as_bytes());
}

#[test]
fn rejects_non_utf8_key() {
    let r = root();
    let key = b"path/\xff\xfe".to_vec();
    assert!(key_to_path(&r, &key).is_err());
}

#[test]
fn drive_letter_is_rejected() {
    let r = root();
    assert!(key_to_path(&r, b"path/D:/leak").is_err());
}

#[test]
fn rejects_keys_that_resolve_to_the_root_itself() {
    let r = root();
    for key in [b"path/".as_slice(), b"path/.", b"path/./."] {
        assert!(
            key_to_path(&r, key).is_err(),
            "{:?} must be rejected: it names no entry under the root",
            String::from_utf8_lossy(key),
        );
    }
}

#[test]
fn key_prefix_is_pinned() {
    assert_eq!(KEY_PREFIX, "path/");
}

#[test]
fn a_path_that_is_not_text_has_no_key() {
    let r = root();
    let p = r.join(b"\xff\xfe");
    let err = path_to_key(&r, &p).expect_err("not text");
    assert!(matches!(err, WorkspaceError::InvalidPath(_)), "got {err:?}");
    assert!(err.message().starts_with("invalid path: "), "{}", err.message());
}

#[test]
fn dots_and_doubled_separators_do_not_count() {
    let r = root();
    let p = FsPath::new("/workspace//src/./main.rs");
    assert_eq!(path_to_key(&r, &p).unwrap(), b"path/src/main.rs");
}

#[test]
fn drive_prefixes_are_a_letter_and_a_colon() {
    assert!(has_windows_drive_prefix("C:/x"));
    assert!(has_windows_drive_prefix("z:"));
    assert!(!has_windows_drive_prefix("1:/x"));
    assert!(!has_windows_drive_prefix("CC/x"));
    assert!(!has_windows_drive_prefix("C"));
}

#[test]
fn a_key_never_leaves_its_root() {
    let r = root();
    for key in [
        b"path/a/../../b".as_slice(),
        b"path/..",
        b"path/a/..",
        b"path//a",
        b"path/a/b",
        b"path/a/./b",
        b"path/a//b",
    ] {
        if let Ok(path) = key_to_path(&r, key) {
            let inside = strip_prefix(&path, &r).expect("under the root");
            assert!(!inside.is_empty());
            assert!(inside.iter().all(|c| !matches!(c, Component::ParentDir)));
        }
    }
    assert!(key_to_path(&r, b"path/a/../../b").is_err());
    assert!(key_to_path(&r, b"path/a/b").is_ok());
}

#[test]
fn components_of_a_path() {
    let list = components_of(b"/a/./b/../c");
    assert_eq!(
        list,
        vec![
            Component::RootDir,
            Component::Normal(b"a".to_vec()),
            Component::Normal(b"b".to_vec()),
            Component::ParentDir,
            Component::Normal(b"c".to_vec()),
        ]
    );
}

#[test]
fn canonical_keys_lead_back_to_themselves() {
    for r in [root(), FsPath::new("/"), FsPath::new("rel"), FsPath::new("")] {
        for key in ["path/a", "path/a/b.txt", "path/caf\u{00e9}/x", "path/.env"] {
            let path = key_to_path(&r, key.as_bytes()).unwrap();
            assert_eq!(path_to_key(&r, &path).unwrap(), key.as_bytes(), "{key} in {r:?}");
        }
        for key in ["path/a//b", "path/./a", "path/cafe\u{0301}"] {
            let path = key_to_path(&r, key.as_bytes()).unwrap();
            assert_ne!(path_to_key(&r, &path).unwrap(), key.as_bytes(), "{key} in {r:?}");
        }
    }
}

#[test]
fn keys_and_globs_speak_of_one_text() {
    let r = root();
    for rel in ["a", "a/b", "cafe\u{0301}/./x", "a//b", "./a", "C:", "a:b", "C:/x", "", "."] {
        let text = path_to_match_string(&FsPath::new(rel)).unwrap();
        let key = path_to_key(&r, &r.join(rel.as_bytes())).unwrap();
        assert_eq!(key, [KEY_PREFIX.as_bytes(), text.as_bytes()].concat(), "{rel}");
    }
    for rel in [b"..".as_slice(), b"a/../b", b"a/\xff"] {
        assert_eq!(path_to_match_string(&FsPath::from_bytes(rel.to_vec())), None, "{rel:?}");
        assert!(path_to_key(&r, &r.join(rel)).is_err(), "{rel:?}");
    }
}
