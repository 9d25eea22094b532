//! Path rules.
use artel_fs::path::FsPath;
use artel_fs::rules::{path_to_match_string, Mode, PathRule, PathRules, PathRulesError};
use artel_fs::ticket::{decode, encode, WorkspaceTicketEnvelope};

fn rule(glob: &str, mode: Mode) -> PathRule {
    PathRule { glob: glob.to_string(), mode }
}

fn rules(default: Mode, list: Vec<PathRule>) -> PathRules {
    PathRules { default, rules: list }
}

#[test]
fn mode_for_no_rules_returns_default() {
    let r = PathRules::read_write();
    assert_eq!(r.mode_for(&FsPath::new("a.txt")), Mode::ReadWrite);
    let r = PathRules::read_only();
    assert_eq!(r.mode_for(&FsPath::new("a.txt")), Mode::ReadOnly);
}

#[test]
fn mode_for_first_match_wins() {
    let r = rules(
        Mode::ReadWrite,
        vec![rule("docs/**", Mode::ReadWrite), rule("docs/secret/**", Mode::ReadOnly)],
    );
    assert_eq!(r.mode_for(&FsPath::new("docs/secret/foo.txt")), Mode::ReadWrite);
    let r = rules(
        Mode::ReadWrite,
        vec![rule("docs/secret/**", Mode::ReadOnly), rule("docs/**", Mode::ReadWrite)],
    );
    assert_eq!(r.mode_for(&FsPath::new("docs/secret/foo.txt")), Mode::ReadOnly);
}

#[test]
fn mode_for_no_match_falls_through_to_default() {
    let r = rules(Mode::ReadOnly, vec![rule("docs/**", Mode::ReadWrite)]);
    assert_eq!(r.mode_for(&FsPath::new("src/main.rs")), Mode::ReadOnly);
}

#[test]
fn mode_for_glob_matches_relative_path() {
    let r = rules(
        Mode::ReadWrite,
        vec![rule("*.lock", Mode::ReadOnly), rule("src/**/*.rs", Mode::ReadWrite)],
    );
    assert_eq!(r.mode_for(&FsPath::new("Cargo.lock")), Mode::ReadOnly);
    assert_eq!(r.mode_for(&FsPath::new("src/lib.rs")), Mode::ReadWrite);
    assert_eq!(r.mode_for(&FsPath::new("src/a/b/c.rs")), Mode::ReadWrite);
}

#[test]
fn mode_for_glob_does_not_match_paths_outside_workspace() {
    let r = rules(Mode::ReadWrite, vec![rule("etc/**", Mode::ReadOnly)]);
    assert_eq!(
        r.mode_for(&FsPath::new("../etc/passwd")),
        Mode::ReadWrite,
        "parent-traversal path should not match glob",
    );
    assert_eq!(
        r.mode_for(&FsPath::new("/etc/passwd")),
        Mode::ReadWrite,
        "absolute path should not match relative glob",
    );
}

#[test]
fn mode_for_unicode_path_normalisation_consistent() {
    let r = rules(Mode::ReadWrite, vec![rule("caf\u{00e9}/**", Mode::ReadOnly)]);
    let composed = FsPath::new("caf\u{00e9}").join(b"x.txt");
    let decomposed = FsPath::new("cafe\u{0301}").join(b"x.txt");
    assert_eq!(r.mode_for(&composed), Mode::ReadOnly);
    assert_eq!(r.mode_for(&decomposed), Mode::ReadOnly);
}

#[test]
fn validate_rejects_empty_glob() {
    let r = rules(Mode::ReadWrite, vec![rule("", Mode::ReadOnly)]);
    assert!(matches!(r.validate(), Err(PathRulesError::EmptyGlob)));
}

#[test]
fn validate_rejects_absolute_glob() {
    let r = rules(Mode::ReadWrite, vec![rule("/etc/**", Mode::ReadOnly)]);
    assert!(matches!(r.validate(), Err(PathRulesError::AbsoluteGlob(_))));
}

#[test]
fn validate_rejects_parent_traversal_glob() {
    let r = rules(Mode::ReadWrite, vec![rule("../etc/**", Mode::ReadOnly)]);
    assert!(matches!(r.validate(), Err(PathRulesError::ParentTraversalGlob(_))));
}

#[test]
fn validate_accepts_typical_globs() {
    let r = rules(
        Mode::ReadWrite,
        vec![
            rule("docs/**", Mode::ReadOnly),
            rule("*.lock", Mode::ReadOnly),
            rule("src/**/*.rs", Mode::ReadWrite),
        ],
    );
    assert!(r.validate().is_ok());
}

#[test]
fn path_rules_round_trip_postcard() {
    let r = rules(
        Mode::ReadOnly,
        vec![rule("docs/**", Mode::ReadWrite), rule("*.lock", Mode::ReadOnly)],
    );
    let bytes = encode(&WorkspaceTicketEnvelope::new("t".to_string(), r.clone())).expect("encode");
    let back = decode(&bytes).expect("decode").rules;
    assert_eq!(r, back);
}

#[test]
fn validate_rejects_a_pattern_that_does_not_parse() {
    let r = rules(Mode::ReadWrite, vec![rule("docs/**", Mode::ReadOnly), rule("a[", Mode::ReadOnly)]);
    match r.validate() {
        Err(PathRulesError::InvalidGlob { glob, reason }) => {
            assert_eq!(glob, "a[");
            assert_eq!(reason, globset::Glob::new("a[").unwrap_err().to_string());
        }
        other => panic!("expected InvalidGlob, got {other:?}"),
    }
}

#[test]
fn compiled_rules_decide_as_the_rules_do() {
    let r = rules(
        Mode::ReadWrite,
        vec![
            rule("docs/secret/**", Mode::ReadOnly),
            rule("docs/**", Mode::ReadWrite),
            rule("*.lock", Mode::ReadOnly),
        ],
    );
    let compiled = r.compile().expect("compiles");
    for path in ["docs/a", "docs/secret/b", "Cargo.lock", "src/main.rs", "../docs/secret/x", "/Cargo.lock", ""] {
        let path = FsPath::new(path);
        assert_eq!(compiled.mode_for(&path), r.mode_for(&path), "{path:?}");
    }
    assert_eq!(compiled.mode_for(&FsPath::new("docs/secret/b")), Mode::ReadOnly);
    assert_eq!(compiled.mode_for(&FsPath::new("docs/a")), Mode::ReadWrite);
}

#[test]
fn compile_refuses_what_validate_refuses() {
    for bad in ["", "/etc/**", "../etc/**", "a["] {
        let r = rules(Mode::ReadWrite, vec![rule(bad, Mode::ReadOnly)]);
        assert_eq!(r.validate().err(), r.compile().err(), "{bad:?}");
        assert!(r.validate().is_err());
    }
}

#[test]
fn rules_errors_have_messages() {
    assert_eq!(PathRulesError::EmptyGlob.message(), "empty glob is not allowed");
    assert_eq!(
        PathRulesError::AbsoluteGlob("/x\t\"".to_string()).message(),
        "absolute glob \"/x\\t\\\"\" is not allowed (rules are workspace-relative)",
    );
    assert_eq!(
        PathRulesError::ParentTraversalGlob("../x".to_string()).message(),
        "glob \"../x\" contains parent traversal (..)",
    );
    assert_eq!(
        PathRulesError::InvalidGlob { glob: "a[".to_string(), reason: "why".to_string() }.message(),
        "invalid glob \"a[\": why",
    );
}

#[test]
fn match_text_joins_names_with_slashes() {
    assert_eq!(path_to_match_string(&FsPath::new("a//b/./c")), Some("a/b/c".to_string()));
    assert_eq!(path_to_match_string(&FsPath::new("a/../c")), None);
    assert_eq!(path_to_match_string(&FsPath::new("/a")), None);
    assert_eq!(path_to_match_string(&FsPath::from_bytes(b"a/\xff".to_vec())), None);
}

#[test]
fn drive_letters_get_the_default_mode() {
    let r = rules(Mode::ReadOnly, vec![rule("**", Mode::ReadWrite)]);
    let compiled = r.compile().unwrap();
    for path in ["C:/etc/passwd", "c:", "z:x", "./C:/x"] {
        assert_eq!(r.mode_for(&FsPath::new(path)), Mode::ReadOnly, "{path}");
        assert_eq!(compiled.mode_for(&FsPath::new(path)), Mode::ReadOnly, "{path}");
    }
    assert_eq!(path_to_match_string(&FsPath::new("C:")), Some("C:".to_string()), "it still has a text");
    for path in ["etc/passwd", "CC:/x", "1:/x", "sub/C:/x"] {
        assert_eq!(r.mode_for(&FsPath::new(path)), Mode::ReadWrite, "{path}");
        assert_eq!(compiled.mode_for(&FsPath::new(path)), Mode::ReadWrite, "{path}");
    }
}
