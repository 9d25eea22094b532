//! Which paths of a workspace are synced.
//!
//! Four layers decide, in this order: names that never sync, symbolic links,
//! the exclude rules of this node, and the size limit.
use globset::GlobSet;
use vstd::prelude::*;
use vstd::utf8::encode_utf8;

use crate::globs::{
    builder_add, builder_build, builder_new, builder_patterns, pattern_matches, set_complaint, set_is_match,
    set_patterns,
};
use crate::path::{components, steps_view, steps_within, within, Component, FsPath, Step, DOT};
use crate::relative::{ascii_names_kept, names_of, nfc, relative_text, to_nfc};
use crate::rules::{glob_fault, match_string, validate_glob, PathRulesError, RulesFault};
use crate::text::{bytes_eq, has_suffix};

verus! {

/// Files larger than this are skipped.
pub const MAX_FILE_SIZE: u64 = 0x10_0000;

/// What this node leaves out of the sync.
pub enum ExcludeRules {
    /// Paths with a name that begins with a dot.
    Dotfiles,
    /// Paths that one of these globs matches, and no others.
    Globs(GlobSet),
}

/// What the file system says of a path.
#[derive(Clone, Copy, Debug, PartialEq, Eq)]
pub struct FileFacts {
    /// Whether the path itself is a symbolic link.
    pub is_symlink: bool,
    /// The size of the file that the path leads to, where it leads to one.
    pub file_size: Option<u64>,
}

/// What the filter decides of a path.
#[derive(Clone, Copy, Debug, PartialEq, Eq)]
pub enum FilterDecision {
    /// The path is synced.
    Include,
    /// The path is skipped.
    Skip(SkipReason),
}

/// Why a path is skipped.
#[derive(Clone, Copy, Debug, PartialEq, Eq)]
pub enum SkipReason {
    /// It has a name that never syncs.
    Hardcoded,
    /// The exclude rules match it.
    Excluded,
    /// It is a symbolic link.
    Symlink,
    /// It is larger than [`MAX_FILE_SIZE`].
    TooLarge {
        /// The size in bytes.
        size: u64,
    },
}

/// The exclude rules over sequences: no list for the dotfile rule, or the
/// normalised globs of a list.
pub open spec fn exclude_patterns(rules: ExcludeRules) -> Option<Seq<Seq<char>>> {
    match rules {
        ExcludeRules::Dotfiles => None,
        ExcludeRules::Globs(set) => Some(set_patterns(set)),
    }
}

/// Whether a name never syncs.
pub open spec fn hardcoded_name(name: Seq<u8>) -> bool {
    ||| name == encode_utf8(".git"@)
    ||| name == encode_utf8("target"@)
    ||| name == encode_utf8("node_modules"@)
    ||| name == encode_utf8(".DS_Store"@)
    ||| name == encode_utf8(".artel-fs"@)
    ||| encode_utf8(".swp"@).is_suffix_of(name)
    ||| encode_utf8(".tmp"@).is_suffix_of(name)
}

/// Whether one of the components has a name that never syncs.
pub open spec fn hardcoded_steps(steps: Seq<Step>) -> bool {
    exists|i: int| 0 <= i < steps.len() && match #[trigger] steps[i] {
        Component::Normal(name) => hardcoded_name(name),
        _ => false,
    }
}

/// Whether a name begins with a dot, whatever bytes follow it.
pub open spec fn dotted_name(name: Seq<u8>) -> bool {
    name.len() > 0 && name[0] == DOT
}

/// Whether one of the components has a name that begins with a dot.
pub open spec fn dotted_steps(steps: Seq<Step>) -> bool {
    exists|i: int| 0 <= i < steps.len() && match #[trigger] steps[i] {
        Component::Normal(name) => dotted_name(name),
        _ => false,
    }
}

/// Whether exclude rules match a path with these components. Globs match
/// nothing that has no text form in the workspace.
pub open spec fn excluded(patterns: Option<Seq<Seq<char>>>, steps: Seq<Step>) -> bool {
    match patterns {
        None => dotted_steps(steps),
        Some(globs) => match relative_text(steps) {
            Some(text) => one_matches(globs, text),
            None => false,
        },
    }
}

/// Whether one of the globs matches a text.
pub open spec fn one_matches(globs: Seq<Seq<char>>, text: Seq<char>) -> bool {
    exists|i: int| 0 <= i < globs.len() && pattern_matches(#[trigger] globs[i], text)
}

/// What the filter decides of a path with these components.
pub open spec fn decision(patterns: Option<Seq<Seq<char>>>, steps: Seq<Step>, facts: FileFacts) -> FilterDecision {
    if hardcoded_steps(steps) {
        FilterDecision::Skip(SkipReason::Hardcoded)
    } else if facts.is_symlink {
        FilterDecision::Skip(SkipReason::Symlink)
    } else if excluded(patterns, steps) {
        FilterDecision::Skip(SkipReason::Excluded)
    } else {
        match facts.file_size {
            Some(size) => if size > MAX_FILE_SIZE {
                FilterDecision::Skip(SkipReason::TooLarge { size })
            } else {
                FilterDecision::Include
            },
            None => FilterDecision::Include,
        }
    }
}

/// The normalised forms of a list of globs.
pub open spec fn normalised_globs(globs: Seq<String>) -> Seq<Seq<char>> {
    globs.map_values(|g: String| nfc(g@))
}

/// Why a list of exclude globs is refused, if it is: the fault of its first
/// bad glob, or that the list as a whole does not compile.
pub open spec fn exclude_fault(globs: Seq<String>) -> Option<RulesFault> {
    match first_glob_fault(globs) {
        Some(fault) => Some(fault),
        None => match set_complaint(normalised_globs(globs)) {
            Some(reason) => Some(RulesFault::Invalid(Seq::empty(), reason)),
            None => None,
        },
    }
}

/// The fault of the first bad glob of a list.
pub open spec fn first_glob_fault(globs: Seq<String>) -> Option<RulesFault>
    decreases globs.len(),
{
    if globs.len() == 0 {
        None
    } else {
        match glob_fault(globs[0]@) {
            Some(fault) => Some(fault),
            None => first_glob_fault(globs.drop_first()),
        }
    }
}

/// Whether bytes spell a text.
fn spells(name: &[u8], text: &str) -> (res: bool)
    ensures
        res == (name@ == encode_utf8(text@)),
{
    bytes_eq(name, text.as_bytes())
}

/// Whether bytes end with a text.
fn ends_with(name: &[u8], text: &str) -> (res: bool)
    ensures
        res == encode_utf8(text@).is_suffix_of(name@),
{
    has_suffix(name, text.as_bytes())
}

/// Whether a name never syncs.
pub fn is_hardcoded_name(name: &[u8]) -> (res: bool)
    ensures
        res == hardcoded_name(name@),
{
    spells(name, ".git") || spells(name, "target") || spells(name, "node_modules") || spells(name, ".DS_Store") || spells(
        name,
        ".artel-fs",
    ) || ends_with(name, ".swp") || ends_with(name, ".tmp")
}

impl Default for ExcludeRules {
    /// The dotfile rule.
    fn default() -> (rules: ExcludeRules)
        ensures
            rules == ExcludeRules::Dotfiles,
    {
        ExcludeRules::Dotfiles
    }
}

impl ExcludeRules {
    /// The dotfile rule where no list is given, and otherwise the list alone.
    pub fn compile(exclude: Option<&Vec<String>>) -> (res: Result<ExcludeRules, PathRulesError>)
        ensures
            match exclude {
                None => res == Ok::<ExcludeRules, PathRulesError>(ExcludeRules::Dotfiles),
                Some(globs) => match exclude_fault(globs@) {
                    Some(fault) => res matches Err(err) && err@ == fault,
                    None => res matches Ok(rules) && exclude_patterns(rules) == Some(normalised_globs(globs@)),
                },
            },
    {
        let globs = match exclude {
            Some(globs) => globs,
            None => {
                return Ok(ExcludeRules::Dotfiles);
            },
        };
        let mut builder = builder_new();
        let mut i: usize = 0;
        assert(globs@.skip(0) =~= globs@);
        assert(normalised_globs(globs@).take(0) =~= Seq::empty());
        while i < globs.len()
            invariant
                i <= globs@.len(),
                exclude == Some(globs),
                first_glob_fault(globs@) == first_glob_fault(globs@.skip(i as int)),
                builder_patterns(builder) == normalised_globs(globs@).take(i as int),
            decreases globs@.len() - i,
        {
            assert(globs@.skip(i as int)[0] == globs@[i as int]);
            let glob = globs[i].as_str();
            match validate_glob(glob) {
                Ok(()) => {},
                Err(err) => {
                    return Err(err);
                },
            }
            let pattern = to_nfc(glob);
            match builder_add(&mut builder, pattern.as_str()) {
                Ok(()) => {},
                Err(reason) => {
                    return Err(PathRulesError::InvalidGlob { glob: glob.to_owned(), reason });
                },
            }
            assert(globs@.skip(i as int).drop_first() =~= globs@.skip(i + 1));
            assert(normalised_globs(globs@).take(i + 1) =~= normalised_globs(globs@).take(i as int).push(
                pattern@,
            ));
            i += 1;
        }
        assert(normalised_globs(globs@).take(i as int) =~= normalised_globs(globs@));
        match builder_build(&builder) {
            Ok(set) => Ok(ExcludeRules::Globs(set)),
            Err(reason) => {
                let glob = String::new();
                Err(PathRulesError::InvalidGlob { glob, reason })
            },
        }
    }

    /// Whether these rules match a workspace-relative path.
    pub fn matches(&self, rel: &FsPath) -> (res: bool)
        ensures
            res == excluded(exclude_patterns(*self), components(rel@)),
            *self is Globs && names_of(components(rel@)) is Ok ==> ascii_names_kept(components(rel@)),
    {
        self.matches_components(&rel.components())
    }

    /// Whether these rules match a path with these components.
    pub fn matches_components(&self, list: &Vec<Component<Vec<u8>>>) -> (res: bool)
        ensures
            res == excluded(exclude_patterns(*self), steps_view(list@)),
            *self is Globs && names_of(steps_view(list@)) is Ok ==> ascii_names_kept(steps_view(list@)),
    {
        match self {
            ExcludeRules::Dotfiles => has_dotted_name(list),
            ExcludeRules::Globs(set) => match match_string(list) {
                Some(text) => set_is_match(set, text.as_str()),
                None => false,
            },
        }
    }
}

fn has_dotted_name(list: &Vec<Component<Vec<u8>>>) -> (res: bool)
    ensures
        res == dotted_steps(steps_view(list@)),
{
    let ghost steps = steps_view(list@);
    let mut i: usize = 0;
    while i < list.len()
        invariant
            i <= list@.len(),
            steps == steps_view(list@),
            forall|k: int| 0 <= k < i ==> !(match #[trigger] steps[k] {
                Component::Normal(name) => dotted_name(name),
                _ => false,
            }),
        decreases list@.len() - i,
    {
        assert(steps[i as int] == crate::path::step_view(list@[i as int]));
        if let Component::Normal(name) = &list[i] {
            if name.len() > 0 && name[0] == DOT {
                return true;
            }
        }
        i += 1;
    }
    false
}

fn has_hardcoded_name(list: &Vec<Component<Vec<u8>>>) -> (res: bool)
    ensures
        res == hardcoded_steps(steps_view(list@)),
{
    let ghost steps = steps_view(list@);
    let mut i: usize = 0;
    while i < list.len()
        invariant
            i <= list@.len(),
            steps == steps_view(list@),
            forall|k: int| 0 <= k < i ==> !(match #[trigger] steps[k] {
                Component::Normal(name) => hardcoded_name(name),
                _ => false,
            }),
        decreases list@.len() - i,
    {
        assert(steps[i as int] == crate::path::step_view(list@[i as int]));
        if let Component::Normal(name) = &list[i] {
            if is_hardcoded_name(name.as_slice()) {
                return true;
            }
        }
        i += 1;
    }
    false
}

/// The filter of one workspace: its root and this node's exclude rules.
pub struct WorkspaceFilter {
    /// The workspace root.
    pub root: FsPath,
    /// The exclude rules.
    pub exclude: ExcludeRules,
}

impl WorkspaceFilter {
    /// What this filter decides of a path.
    pub open spec fn decides(&self, path: Seq<u8>, facts: FileFacts) -> FilterDecision {
        decision(exclude_patterns(self.exclude), steps_within(self.root@, path), facts)
    }

    /// A filter for a root.
    pub fn new(root: FsPath, exclude: ExcludeRules) -> (filter: WorkspaceFilter)
        ensures
            filter == (WorkspaceFilter { root, exclude }),
    {
        WorkspaceFilter { root, exclude }
    }

    /// Decides whether a path is synced, given what the file system says of
    /// it. A path outside the root is judged by all of its components.
    pub fn check(&self, abs_path: &FsPath, facts: &FileFacts) -> (res: FilterDecision)
        ensures
            res == self.decides(abs_path@, *facts),
    {
        let list = within(abs_path, &self.root);
        if has_hardcoded_name(&list) {
            return FilterDecision::Skip(SkipReason::Hardcoded);
        }
        if facts.is_symlink {
            return FilterDecision::Skip(SkipReason::Symlink);
        }
        if self.exclude.matches_components(&list) {
            return FilterDecision::Skip(SkipReason::Excluded);
        }
        if let Some(size) = facts.file_size {
            if size > MAX_FILE_SIZE {
                return FilterDecision::Skip(SkipReason::TooLarge { size });
            }
        }
        FilterDecision::Include
    }

    /// Whether a path has a name that never syncs.
    pub fn is_hardcoded_skip(rel: &FsPath) -> (res: bool)
        ensures
            res == hardcoded_steps(components(rel@)),
    {
        has_hardcoded_name(&rel.components())
    }
}

/// No exclude rules bring back a path with a name that never syncs, and no
/// property of the file does.
pub proof fn law_exclude_never_overrides_hardcoded(patterns: Option<Seq<Seq<char>>>, steps: Seq<Step>, facts: FileFacts)
    requires
        hardcoded_steps(steps),
    ensures
        decision(patterns, steps, facts) == FilterDecision::Skip(SkipReason::Hardcoded),
{
}

/// No exclude rules let a file over the limit through.
pub proof fn law_exclude_never_overrides_size_cap(patterns: Option<Seq<Seq<char>>>, steps: Seq<Step>, facts: FileFacts, size: u64)
    requires
        facts.file_size == Some(size),
        size > MAX_FILE_SIZE,
    ensures
        decision(patterns, steps, facts) != FilterDecision::Include,
{
}

/// A list of globs replaces the dotfile rule: under an empty list nothing is
/// excluded, whatever its name begins with.
pub proof fn law_empty_exclude_matches_nothing(steps: Seq<Step>)
    ensures
        !excluded(Some(Seq::empty()), steps),
{
}

/// Under a list of globs, what has no text form in the workspace is not
/// excluded.
pub proof fn law_globs_ignore_outside_paths(globs: Seq<Seq<char>>, steps: Seq<Step>)
    requires
        relative_text(steps) is None,
    ensures
        !excluded(Some(globs), steps),
{
}

/// A path is synced exactly where none of its names never syncs, it is no link,
/// the exclude rules do not match it, and it leads to no file over the limit.
pub proof fn law_what_is_synced(patterns: Option<Seq<Seq<char>>>, steps: Seq<Step>, facts: FileFacts)
    ensures
        decision(patterns, steps, facts) == FilterDecision::Include <==> {
            &&& !hardcoded_steps(steps)
            &&& !facts.is_symlink
            &&& !excluded(patterns, steps)
            &&& (facts.file_size matches Some(size) ==> size <= MAX_FILE_SIZE)
        },
{
}

/// The reason for which a path is skipped is the first that holds: its names,
/// that it is a link, the exclude rules, its size.
pub proof fn law_first_reason_is_given(patterns: Option<Seq<Seq<char>>>, steps: Seq<Step>, facts: FileFacts, size: u64)
    ensures
        ({
            let decided = decision(patterns, steps, facts);
            &&& decided == FilterDecision::Skip(SkipReason::Hardcoded) <==> hardcoded_steps(steps)
            &&& decided == FilterDecision::Skip(SkipReason::Symlink) <==> !hardcoded_steps(steps) && facts.is_symlink
            &&& decided == FilterDecision::Skip(SkipReason::Excluded) <==> !hardcoded_steps(steps) && !facts.is_symlink
                && excluded(patterns, steps)
            &&& decided == FilterDecision::Skip(SkipReason::TooLarge { size }) <==> !hardcoded_steps(steps)
                && !facts.is_symlink && !excluded(patterns, steps) && facts.file_size == Some(size) && size > MAX_FILE_SIZE
        }),
{
}

/// A name that never syncs, and one that begins with a dot, counts wherever it
/// stands in a path; `.` and `..` and the root are no names.
pub proof fn law_names_count_anywhere(before: Seq<Step>, name: Seq<u8>, after: Seq<Step>)
    ensures
        hardcoded_name(name) ==> hardcoded_steps(before.push(Component::Normal(name)) + after),
        dotted_name(name) ==> dotted_steps(before.push(Component::Normal(name)) + after),
        !hardcoded_name(name) ==> hardcoded_steps(before.push(Component::Normal(name))) == hardcoded_steps(before),
        !dotted_name(name) ==> dotted_steps(before.push(Component::Normal(name))) == dotted_steps(before),
        hardcoded_steps(before.push(Component::CurDir)) == hardcoded_steps(before),
        hardcoded_steps(before.push(Component::ParentDir)) == hardcoded_steps(before),
        hardcoded_steps(before.push(Component::RootDir)) == hardcoded_steps(before),
        dotted_steps(before.push(Component::CurDir)) == dotted_steps(before),
        dotted_steps(before.push(Component::ParentDir)) == dotted_steps(before),
        dotted_steps(before.push(Component::RootDir)) == dotted_steps(before),
        !hardcoded_steps(Seq::empty()),
        !dotted_steps(Seq::empty()),
{
    let whole = before.push(Component::Normal(name)) + after;
    assert(whole[before.len() as int] == Component::Normal(name));
    lemma_last_step(before, Component::Normal(name));
    lemma_last_step(before, Component::CurDir);
    lemma_last_step(before, Component::ParentDir);
    lemma_last_step(before, Component::RootDir);
}

/// A component more adds its own name to what a path is judged by.
proof fn lemma_last_step(before: Seq<Step>, step: Step)
    ensures
        hardcoded_steps(before.push(step)) == (hardcoded_steps(before) || (step matches Component::Normal(name)
            && hardcoded_name(name))),
        dotted_steps(before.push(step)) == (dotted_steps(before) || (step matches Component::Normal(name) && dotted_name(
            name,
        ))),
{
    let longer = before.push(step);
    let n = before.len() as int;
    assert(longer[n] == step);
    assert forall|i: int| 0 <= i < n implies longer[i] == #[trigger] before[i] by {}
    if hardcoded_steps(before) {
        let i = choose|i: int| 0 <= i < before.len() && match #[trigger] before[i] {
            Component::Normal(name) => hardcoded_name(name),
            _ => false,
        };
        assert(longer[i] == before[i]);
    }
    if hardcoded_steps(longer) {
        let i = choose|i: int| 0 <= i < longer.len() && match #[trigger] longer[i] {
            Component::Normal(name) => hardcoded_name(name),
            _ => false,
        };
        if i < n {
            assert(longer[i] == before[i]);
        }
    }
    if dotted_steps(before) {
        let i = choose|i: int| 0 <= i < before.len() && match #[trigger] before[i] {
            Component::Normal(name) => dotted_name(name),
            _ => false,
        };
        assert(longer[i] == before[i]);
    }
    if dotted_steps(longer) {
        let i = choose|i: int| 0 <= i < longer.len() && match #[trigger] longer[i] {
            Component::Normal(name) => dotted_name(name),
            _ => false,
        };
        if i < n {
            assert(longer[i] == before[i]);
        }
    }
}

/// Every name that ends in `.swp` or `.tmp` never syncs, whatever stands before
/// that, and five names do not; no other name is kept back.
pub proof fn law_names_that_never_sync(stem: Seq<u8>, name: Seq<u8>)
    ensures
        hardcoded_name(stem + encode_utf8(".swp"@)),
        hardcoded_name(stem + encode_utf8(".tmp"@)),
        hardcoded_name(encode_utf8(".git"@)),
        hardcoded_name(encode_utf8("target"@)),
        hardcoded_name(encode_utf8("node_modules"@)),
        hardcoded_name(encode_utf8(".DS_Store"@)),
        hardcoded_name(encode_utf8(".artel-fs"@)),
        hardcoded_name(name) ==> {
            ||| name == encode_utf8(".git"@)
            ||| name == encode_utf8("target"@)
            ||| name == encode_utf8("node_modules"@)
            ||| name == encode_utf8(".DS_Store"@)
            ||| name == encode_utf8(".artel-fs"@)
            ||| encode_utf8(".swp"@).is_suffix_of(name)
            ||| encode_utf8(".tmp"@).is_suffix_of(name)
        },
{
    let swp = encode_utf8(".swp"@);
    let tmp = encode_utf8(".tmp"@);
    assert((stem + swp).subrange(stem.len() as int, (stem + swp).len() as int) =~= swp);
    assert((stem + tmp).subrange(stem.len() as int, (stem + tmp).len() as int) =~= tmp);
}

/// A name is a dotfile by its first byte alone, whatever follows it.
pub proof fn law_first_byte_makes_a_dotfile(first: u8, rest: Seq<u8>)
    ensures
        dotted_name(seq![first] + rest) <==> first == DOT,
        !dotted_name(Seq::empty()),
{
}

/// A list of globs excludes a path exactly where the path has a text form that
/// one of them matches; so a glob more never brings a path back, and excludes
/// what it matches.
pub proof fn law_each_exclude_glob_counts(globs: Seq<Seq<char>>, glob: Seq<char>, steps: Seq<Step>)
    ensures
        excluded(Some(globs.push(glob)), steps) <==> {
            ||| excluded(Some(globs), steps)
            ||| relative_text(steps) matches Some(text) && pattern_matches(glob, text)
        },
        excluded(None, steps) == dotted_steps(steps),
{
    let longer = globs.push(glob);
    match relative_text(steps) {
        None => {},
        Some(text) => {
            if excluded(Some(globs), steps) {
                let i = choose|i: int| 0 <= i < globs.len() && pattern_matches(#[trigger] globs[i], text);
                assert(pattern_matches(longer[i], text));
                assert(one_matches(longer, text));
            }
            if pattern_matches(glob, text) {
                assert(pattern_matches(longer[globs.len() as int], text));
                assert(one_matches(longer, text));
            }
            if excluded(Some(longer), steps) {
                let i = choose|i: int| 0 <= i < longer.len() && pattern_matches(#[trigger] longer[i], text);
                if i < globs.len() {
                    assert(pattern_matches(globs[i], text));
                    assert(one_matches(globs, text));
                } else {
                    assert(longer[i] == glob);
                }
            }
        },
    }
}

/// A list of exclude globs is accepted exactly where each glob passes as a rule
/// would and the normalised list compiles as a whole. The first glob that does
/// not pass is the one that is named.
pub proof fn law_exclude_lists_are_checked(globs: Seq<String>, k: int)
    ensures
        exclude_fault(globs) is None <==> (forall|i: int| 0 <= i < globs.len() ==> glob_fault((#[trigger] globs[i])@) is None)
            && set_complaint(normalised_globs(globs)) is None,
        0 <= k < globs.len() && glob_fault(globs[k]@) is Some && (forall|i: int|
            0 <= i < k ==> glob_fault((#[trigger] globs[i])@) is None) ==> exclude_fault(globs) == glob_fault(globs[k]@),
        normalised_globs(globs).len() == globs.len(),
        0 <= k < globs.len() ==> normalised_globs(globs)[k] == nfc(globs[k]@),
{
    lemma_first_glob_fault(globs, k);
}

proof fn lemma_first_glob_fault(globs: Seq<String>, k: int)
    ensures
        first_glob_fault(globs) is None <==> forall|i: int| 0 <= i < globs.len() ==> glob_fault((#[trigger] globs[i])@) is None,
        0 <= k < globs.len() && glob_fault(globs[k]@) is Some && (forall|i: int|
            0 <= i < k ==> glob_fault((#[trigger] globs[i])@) is None) ==> first_glob_fault(globs) == glob_fault(globs[k]@),
    decreases globs.len(),
{
    if globs.len() > 0 {
        let rest = globs.drop_first();
        lemma_first_glob_fault(rest, k - 1);
        assert forall|i: int| 0 <= i < rest.len() implies rest[i] == #[trigger] globs[i + 1] by {}
        if first_glob_fault(globs) is None {
            assert forall|i: int| 0 <= i < globs.len() implies glob_fault((#[trigger] globs[i])@) is None by {
                if i > 0 {
                    assert(rest[i - 1] == globs[i]);
                }
            }
        }
        if forall|i: int| 0 <= i < globs.len() ==> glob_fault((#[trigger] globs[i])@) is None {
            assert(glob_fault(globs[0]@) is None);
            assert forall|i: int| 0 <= i < rest.len() implies glob_fault((#[trigger] rest[i])@) is None by {
                assert(rest[i] == globs[i + 1]);
            }
        }
        if 0 < k < globs.len() && glob_fault(globs[k]@) is Some && (forall|i: int|
            0 <= i < k ==> glob_fault((#[trigger] globs[i])@) is None) {
            assert(glob_fault(globs[0]@) is None);
            assert(rest[k - 1] == globs[k]);
            assert forall|i: int| 0 <= i < k - 1 implies glob_fault((#[trigger] rest[i])@) is None by {
                assert(rest[i] == globs[i + 1]);
            }
        }
    }
}

/// A path in the root is judged by what lies behind the root alone, whatever
/// the root itself is called; a path elsewhere by all of its names.
pub proof fn law_paths_are_judged_from_the_root(filter: WorkspaceFilter, path: Seq<u8>, rest: Seq<Step>, facts: FileFacts)
    ensures
        components(path) == components(filter.root@) + rest ==> filter.decides(path, facts) == decision(
            exclude_patterns(filter.exclude),
            rest,
            facts,
        ),
        !components(filter.root@).is_prefix_of(components(path)) ==> filter.decides(path, facts) == decision(
            exclude_patterns(filter.exclude),
            components(path),
            facts,
        ),
{
    crate::path::law_paths_are_seen_from_the_root(filter.root@, path, rest);
}

/// Without a list the dotfile rule holds, and with one its globs, all of them.
pub proof fn law_what_exclude_rules_hold(set: GlobSet)
    ensures
        exclude_patterns(ExcludeRules::Dotfiles) is None,
        exclude_patterns(ExcludeRules::Globs(set)) == Some(set_patterns(set)),
{
}

} // verus!
