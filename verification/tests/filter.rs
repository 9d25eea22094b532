//! What syncs and what does not.
use artel_fs::filter::{
    is_hardcoded_name, ExcludeRules, FileFacts, FilterDecision, SkipReason, WorkspaceFilter, MAX_FILE_SIZE,
};
use artel_fs::path::FsPath;

fn root() -> FsPath {
    FsPath::new("/tmp/ws")
}

fn file(rel: &str) -> FsPath {
    root().join(rel.as_bytes())
}

fn facts(size: u64) -> FileFacts {
    FileFacts { is_symlink: false, file_size: Some(size) }
}

fn default_filter() -> WorkspaceFilter {
    WorkspaceFilter::new(root(), ExcludeRules::default())
}

fn sync_everything_filter() -> WorkspaceFilter {
    WorkspaceFilter::new(root(), ExcludeRules::compile(Some(&vec![])).unwrap())
}

#[test]
fn includes_normal_file() {
    let filter = default_filter();
    assert_eq!(filter.check(&file("src/main.rs"), &facts(5)), FilterDecision::Include);
}

#[test]
fn skips_dot_git() {
    let filter = default_filter();
    assert_eq!(
        filter.check(&file(".git/HEAD"), &facts(21)),
        FilterDecision::Skip(SkipReason::Hardcoded)
    );
}

#[test]
fn skips_target() {
    let filter = default_filter();
    assert_eq!(
        filter.check(&file("target/debug/foo"), &facts(1)),
        FilterDecision::Skip(SkipReason::Hardcoded)
    );
}

#[test]
fn skips_node_modules() {
    let filter = default_filter();
    assert_eq!(
        filter.check(&file("node_modules/foo/index.js"), &facts(1)),
        FilterDecision::Skip(SkipReason::Hardcoded)
    );
}

#[test]
fn skips_swp_and_tmp_and_ds_store() {
    let filter = default_filter();
    for rel in ["foo.swp", "foo.tmp", "sub/.DS_Store"] {
        assert_eq!(
            filter.check(&file(rel), &facts(1)),
            FilterDecision::Skip(SkipReason::Hardcoded),
            "{rel} should be hardcoded-skipped",
        );
    }
}

#[test]
fn skips_artel_fs_state_dir() {
    let filter = default_filter();
    for rel in [
        ".artel-fs/iroh.key",
        ".artel-fs/doc-id",
        ".artel-fs/docs/docs.redb",
        ".artel-fs/blobs/blobs.db",
    ] {
        assert_eq!(
            filter.check(&file(rel), &facts(1)),
            FilterDecision::Skip(SkipReason::Hardcoded),
            "{rel} should be hardcoded-skipped",
        );
    }
}

#[test]
fn default_excludes_dotfiles_at_any_depth() {
    let filter = default_filter();
    for rel in [".env", ".harness/log/peer.jsonl", "sub/.hidden", "sub/.state/db.sqlite"] {
        assert_eq!(
            filter.check(&file(rel), &facts(1)),
            FilterDecision::Skip(SkipReason::Excluded),
            "{rel} should be excluded by the dotfile default",
        );
    }
    assert_eq!(filter.check(&file("sub/visible.txt"), &facts(1)), FilterDecision::Include);
}

#[test]
fn empty_exclude_list_syncs_dotfiles() {
    let filter = sync_everything_filter();
    for rel in [".env", ".harness/log/peer.jsonl", "sub/.hidden"] {
        assert_eq!(
            filter.check(&file(rel), &facts(1)),
            FilterDecision::Include,
            "{rel} should sync under an empty exclude list",
        );
    }
}

#[test]
fn custom_exclude_replaces_default_not_merges() {
    let exclude =
        ExcludeRules::compile(Some(&vec!["**/*.secret".to_string(), "*.secret".to_string()])).unwrap();
    let filter = WorkspaceFilter::new(root(), exclude);
    assert_eq!(
        filter.check(&file("api.secret"), &facts(1)),
        FilterDecision::Skip(SkipReason::Excluded)
    );
    assert_eq!(
        filter.check(&file("sub/deep.secret"), &facts(1)),
        FilterDecision::Skip(SkipReason::Excluded)
    );
    assert_eq!(
        filter.check(&file(".env"), &facts(1)),
        FilterDecision::Include,
        "dotfiles sync once the default list is replaced",
    );
}

#[test]
fn exclude_does_not_override_hardcoded_skips() {
    let filter = sync_everything_filter();
    for rel in [".git/HEAD", ".artel-fs/iroh.key", "target/debug/foo"] {
        assert_eq!(
            filter.check(&file(rel), &facts(1)),
            FilterDecision::Skip(SkipReason::Hardcoded),
            "{rel} must stay hardcoded-skipped regardless of exclude config",
        );
    }
}

#[test]
fn exclude_does_not_override_size_cap() {
    let filter = sync_everything_filter();
    assert!(matches!(
        filter.check(&file("big.bin"), &facts(MAX_FILE_SIZE + 1)),
        FilterDecision::Skip(SkipReason::TooLarge { .. })
    ));
}

#[test]
fn gitignore_is_not_consulted_and_is_itself_just_a_dotfile() {
    let filter = default_filter();
    for rel in ["build/foo", "app.log", "state-adjacent.log"] {
        assert_eq!(
            filter.check(&file(rel), &facts(1)),
            FilterDecision::Include,
            "{rel} is gitignored but must sync anyway",
        );
    }
    assert_eq!(
        filter.check(&file(".gitignore"), &facts(21)),
        FilterDecision::Skip(SkipReason::Excluded),
        ".gitignore is an ordinary dotfile under the default",
    );
    let filter = sync_everything_filter();
    assert_eq!(
        filter.check(&file(".gitignore"), &facts(21)),
        FilterDecision::Include,
        ".gitignore syncs like any other file under an empty exclude list",
    );
}

#[test]
fn compile_rejects_malformed_globs() {
    for bad in ["", "/abs/**", "../up/**"] {
        assert!(
            ExcludeRules::compile(Some(&vec![bad.to_string()])).is_err(),
            "{bad:?} should be rejected",
        );
    }
}

#[test]
fn glob_exclude_ignores_paths_outside_workspace() {
    let exclude = ExcludeRules::compile(Some(&vec!["etc/**".to_string()])).unwrap();
    assert!(!exclude.matches(&FsPath::new("../etc/passwd")));
    assert!(!exclude.matches(&FsPath::new("/etc/passwd")));
    assert!(exclude.matches(&FsPath::new("etc/passwd")));
}

#[test]
fn rejects_oversize() {
    let big: u64 = MAX_FILE_SIZE + 1;
    let filter = default_filter();
    match filter.check(&file("big.bin"), &facts(big)) {
        FilterDecision::Skip(SkipReason::TooLarge { size }) => assert_eq!(size, big),
        other => panic!("expected TooLarge, got {other:?}"),
    }
}

#[test]
fn accepts_at_size_limit() {
    let filter = default_filter();
    assert_eq!(filter.check(&file("edge.bin"), &facts(MAX_FILE_SIZE)), FilterDecision::Include);
}

#[test]
fn rejects_symlink() {
    let filter = default_filter();
    let link = FileFacts { is_symlink: true, file_size: Some(1) };
    assert_eq!(
        filter.check(&file("link.txt"), &link),
        FilterDecision::Skip(SkipReason::Symlink)
    );
}

#[test]
fn size_limit_is_one_mebibyte() {
    assert_eq!(MAX_FILE_SIZE, 1048576);
}

#[test]
fn hardcoded_names() {
    for name in [".git", "target", "node_modules", ".artel-fs", ".DS_Store", "a.swp", "a.tmp"] {
        assert!(is_hardcoded_name(name.as_bytes()), "{name}");
    }
    for name in ["git", "targets", "a.swpx", "a.tmp2", ".gitignore"] {
        assert!(!is_hardcoded_name(name.as_bytes()), "{name}");
    }
    for name in [b"a\xff.swp".as_slice(), b"\xff.tmp"] {
        assert!(is_hardcoded_name(name), "{name:?}");
    }
    assert!(!is_hardcoded_name(b"\xfftarget"));
    assert!(WorkspaceFilter::is_hardcoded_skip(&FsPath::new("a/target/b")));
    assert!(!WorkspaceFilter::is_hardcoded_skip(&FsPath::new("a/b")));
}

#[test]
fn dotted_names_need_not_be_text() {
    let filter = default_filter();
    for rel in [b".env\xff".as_slice(), b"sub/.\xfe\xff/x"] {
        assert_eq!(
            filter.check(&root().join(rel), &facts(1)),
            FilterDecision::Skip(SkipReason::Excluded),
            "{rel:?}",
        );
    }
    assert_eq!(filter.check(&root().join(b"env\xff"), &facts(1)), FilterDecision::Include);
}

#[test]
fn exclude_globs_keep_names_with_a_colon_back() {
    let exclude = ExcludeRules::compile(Some(&vec!["*.txt".to_string(), "C:/**".to_string()])).unwrap();
    let filter = WorkspaceFilter::new(root(), exclude);
    for rel in ["a:notes.txt", "notes.txt", "C:/etc/passwd"] {
        assert_eq!(
            filter.check(&file(rel), &facts(1)),
            FilterDecision::Skip(SkipReason::Excluded),
            "{rel} should be excluded",
        );
    }
    assert_eq!(filter.check(&file("a:notes.md"), &facts(1)), FilterDecision::Include);
}

#[test]
fn what_is_not_there_is_included() {
    let filter = default_filter();
    let gone = FileFacts { is_symlink: false, file_size: None };
    assert_eq!(filter.check(&file("gone.txt"), &gone), FilterDecision::Include);
}

#[test]
fn exclude_globs_see_the_normalised_path() {
    let exclude = ExcludeRules::compile(Some(&vec!["cafe\u{0301}/**".to_string()])).unwrap();
    assert!(exclude.matches(&FsPath::new("caf\u{00e9}/x")));
    assert!(exclude.matches(&FsPath::new("cafe\u{0301}/x")));
}
