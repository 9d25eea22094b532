//! Per-path read/write rules of a workspace.
//!
//! A rule is a glob over the text form of a workspace-relative path (see
//! [`crate::relative`]) with the mode of the paths that it matches. The first
//! rule that matches decides; where none does, the default mode holds.
use globset::GlobSet;
use vstd::prelude::*;
use vstd::utf8::{decode_utf8, encode_utf8, valid_utf8};

use crate::globs::{
    check_pattern, compile_one, compiles_alone, matches_alone, pattern_complaint, pattern_matches,
    set_complaint, set_is_match, set_patterns,
};
use crate::keys::{drive_prefixed, has_windows_drive_prefix};
use crate::path::{
    components, dot_dot, join_segments, split, split_bytes, steps_view, Component, FsPath, Step, DOT, SEPARATOR,
};
use crate::relative::{
    ascii_names_kept, lemma_encode_concat, names_of, nfc, relative_text, to_nfc, to_relative_text, Unnamed,
};
use crate::text::{quote, quoted};

verus! {

/// The byte `\`.
pub const BACKSLASH: u8 = 0x5c;

/// Whether peers may write the paths of a class, or only read them.
#[derive(Clone, Copy, Debug, PartialEq, Eq, Structural)]
pub enum Mode {
    /// This peer and remote peers may write.
    ReadWrite,
    /// This peer publishes no change, and changes of peers are dropped.
    ReadOnly,
}

/// One rule: the mode of the paths that a glob matches.
#[derive(Clone, Debug, PartialEq, Eq)]
pub struct PathRule {
    /// The glob, such as `docs/**`.
    pub glob: String,
    /// The mode of what it matches.
    pub mode: Mode,
}

/// An ordered list of rules with the mode of everything else.
#[derive(Clone, Debug, PartialEq, Eq)]
pub struct PathRules {
    /// The mode of paths that no rule matches.
    pub default: Mode,
    /// The rules; the first match decides.
    pub rules: Vec<PathRule>,
}

/// Why a rule set is refused.
#[derive(Clone, Debug, PartialEq, Eq)]
pub enum PathRulesError {
    /// An empty glob.
    EmptyGlob,
    /// A glob that begins with `/` or `\`.
    AbsoluteGlob(String),
    /// A glob with a `..` segment.
    ParentTraversalGlob(String),
    /// A glob that does not parse.
    InvalidGlob {
        /// The glob.
        glob: String,
        /// What the glob parser says.
        reason: String,
    },
}

/// A [`PathRulesError`] with its texts as sequences.
pub enum RulesFault {
    /// [`PathRulesError::EmptyGlob`].
    Empty,
    /// [`PathRulesError::AbsoluteGlob`].
    Absolute(Seq<char>),
    /// [`PathRulesError::ParentTraversalGlob`].
    ParentTraversal(Seq<char>),
    /// [`PathRulesError::InvalidGlob`].
    Invalid(Seq<char>, Seq<char>),
}

impl View for PathRulesError {
    type V = RulesFault;

    open spec fn view(&self) -> RulesFault {
        match *self {
            PathRulesError::EmptyGlob => RulesFault::Empty,
            PathRulesError::AbsoluteGlob(glob) => RulesFault::Absolute(glob@),
            PathRulesError::ParentTraversalGlob(glob) => RulesFault::ParentTraversal(glob@),
            PathRulesError::InvalidGlob { glob, reason } => RulesFault::Invalid(glob@, reason@),
        }
    }
}

/// The message for a refused rule set.
pub open spec fn rules_fault_text(fault: RulesFault) -> Seq<char> {
    match fault {
        RulesFault::Empty => "empty glob is not allowed"@,
        RulesFault::Absolute(glob) => "absolute glob "@ + quoted(glob)
            + " is not allowed (rules are workspace-relative)"@,
        RulesFault::ParentTraversal(glob) => "glob "@ + quoted(glob)
            + " contains parent traversal (..)"@,
        RulesFault::Invalid(glob, reason) => "invalid glob "@ + quoted(glob) + ": "@ + reason,
    }
}

impl PathRulesError {
    /// The error as a message.
    pub fn message(&self) -> (text: String)
        ensures
            text@ == rules_fault_text(self@),
    {
        match self {
            PathRulesError::EmptyGlob => "empty glob is not allowed".to_owned(),
            PathRulesError::AbsoluteGlob(glob) => {
                let mut text = "absolute glob ".to_owned();
                text.append(quote(glob.as_str()).as_str());
                text.append(" is not allowed (rules are workspace-relative)");
                text
            },
            PathRulesError::ParentTraversalGlob(glob) => {
                let mut text = "glob ".to_owned();
                text.append(quote(glob.as_str()).as_str());
                text.append(" contains parent traversal (..)");
                text
            },
            PathRulesError::InvalidGlob { glob, reason } => {
                let mut text = "invalid glob ".to_owned();
                text.append(quote(glob.as_str()).as_str());
                text.append(": ");
                text.append(reason.as_str());
                text
            },
        }
    }
}

/// Why a glob is refused, if it is.
pub open spec fn glob_fault(glob: Seq<char>) -> Option<RulesFault> {
    let bytes = encode_utf8(glob);
    if glob.len() == 0 {
        Some(RulesFault::Empty)
    } else if bytes[0] == SEPARATOR || bytes[0] == BACKSLASH {
        Some(RulesFault::Absolute(glob))
    } else if split(bytes, SEPARATOR).contains(dot_dot()) {
        Some(RulesFault::ParentTraversal(glob))
    } else {
        match pattern_complaint(nfc(glob)) {
            Some(reason) => Some(RulesFault::Invalid(glob, reason)),
            None => None,
        }
    }
}

/// Why a list of rules is refused: the fault of its first bad glob.
pub open spec fn rules_fault(rules: Seq<PathRule>) -> Option<RulesFault>
    decreases rules.len(),
{
    if rules.len() == 0 {
        None
    } else {
        match glob_fault(rules[0].glob@) {
            Some(fault) => Some(fault),
            None => rules_fault(rules.drop_first()),
        }
    }
}

/// Whether a glob matches a path text; both are normalised first.
pub open spec fn glob_accepts(glob: Seq<char>, text: Seq<char>) -> bool {
    compiles_alone(nfc(glob)) && pattern_matches(nfc(glob), nfc(text))
}

/// The mode that a list of rules gives to a path text: that of the first rule
/// that matches, and otherwise the default.
pub open spec fn first_match(rules: Seq<PathRule>, default: Mode, text: Seq<char>) -> Mode
    decreases rules.len(),
{
    if rules.len() == 0 {
        default
    } else if glob_accepts(rules[0].glob@, text) {
        rules[0].mode
    } else {
        first_match(rules.drop_first(), default, text)
    }
}

/// The mode that rules give to a path with these components. A path without a
/// text form (one that leaves the workspace, or is not UTF-8) matches no rule,
/// and neither does one that opens like a drive.
pub open spec fn mode_of(rules: PathRules, steps: Seq<Step>) -> Mode {
    match relative_text(steps) {
        Some(text) => if drive_prefixed(encode_utf8(text)) {
            rules.default
        } else {
            first_match(rules.rules@, rules.default, text)
        },
        None => rules.default,
    }
}

/// A UTF-8 text is empty exactly where it has no bytes.
proof fn lemma_encode_len(text: Seq<char>)
    ensures
        text.len() == 0 <==> encode_utf8(text).len() == 0,
{
    if text.len() > 0 {
        vstd::utf8::encode_utf8_first_scalar(text);
    }
}

/// Whether a list of segments holds `..`.
pub fn has_dot_dot(segments: &Vec<Vec<u8>>) -> (res: bool)
    ensures
        res == segments@.map_values(|v: Vec<u8>| v@).contains(dot_dot()),
{
    let ghost all = segments@.map_values(|v: Vec<u8>| v@);
    let mut i: usize = 0;
    while i < segments.len()
        invariant
            i <= segments@.len(),
            all == segments@.map_values(|v: Vec<u8>| v@),
            forall|k: int| 0 <= k < i ==> all[k] != dot_dot(),
        decreases segments@.len() - i,
    {
        let segment = &segments[i];
        assert(all[i as int] == segment@);
        if segment.len() == 2 && segment[0] == DOT && segment[1] == DOT {
            assert(segment@ =~= dot_dot());
            return true;
        }
        i += 1;
    }
    false
}

/// Refuses a glob that cannot be a rule.
pub fn validate_glob(glob: &str) -> (res: Result<(), PathRulesError>)
    ensures
        match res {
            Ok(()) => glob_fault(glob@) is None,
            Err(err) => glob_fault(glob@) == Some(err@),
        },
{
    proof {
        lemma_encode_len(glob@);
    }
    if glob.is_empty() {
        return Err(PathRulesError::EmptyGlob);
    }
    let bytes = glob.as_bytes();
    if bytes[0] == SEPARATOR || bytes[0] == BACKSLASH {
        return Err(PathRulesError::AbsoluteGlob(glob.to_owned()));
    }
    let segments = split_bytes(bytes, SEPARATOR);
    if has_dot_dot(&segments) {
        return Err(PathRulesError::ParentTraversalGlob(glob.to_owned()));
    }
    let normalised = to_nfc(glob);
    match check_pattern(normalised.as_str()) {
        Ok(()) => Ok(()),
        Err(reason) => Err(PathRulesError::InvalidGlob { glob: glob.to_owned(), reason }),
    }
}

/// Whether a glob matches a path text.
pub fn glob_matches(glob: &str, text: &str) -> (res: bool)
    ensures
        res == glob_accepts(glob@, text@),
{
    let pattern = to_nfc(glob);
    let path = to_nfc(text);
    matches_alone(pattern.as_str(), path.as_str())
}

/// The text form of a relative path, or nothing where the path has none.
pub fn path_to_match_string(rel: &FsPath) -> (res: Option<String>)
    ensures
        match res {
            Some(text) => relative_text(components(rel@)) == Some(text@),
            None => relative_text(components(rel@)) is None,
        },
        names_of(components(rel@)) is Ok ==> ascii_names_kept(components(rel@)),
{
    match_string(&rel.components())
}

/// The text form of a list of components, or nothing where it has none.
pub fn match_string(list: &Vec<Component<Vec<u8>>>) -> (res: Option<String>)
    ensures
        match res {
            Some(text) => relative_text(steps_view(list@)) == Some(text@),
            None => relative_text(steps_view(list@)) is None,
        },
        names_of(steps_view(list@)) is Ok ==> ascii_names_kept(steps_view(list@)),
{
    to_relative_text(list)
}

impl PathRules {
    /// No rules, and everything may be written.
    pub fn read_write() -> (rules: PathRules)
        ensures
            rules.default == Mode::ReadWrite,
            rules.rules@ == Seq::<PathRule>::empty(),
    {
        PathRules { default: Mode::ReadWrite, rules: Vec::new() }
    }

    /// No rules, and everything may only be read.
    pub fn read_only() -> (rules: PathRules)
        ensures
            rules.default == Mode::ReadOnly,
            rules.rules@ == Seq::<PathRule>::empty(),
    {
        PathRules { default: Mode::ReadOnly, rules: Vec::new() }
    }

    /// The mode of a workspace-relative path.
    pub fn mode_for(&self, rel: &FsPath) -> (mode: Mode)
        ensures
            mode == mode_of(*self, components(rel@)),
            names_of(components(rel@)) is Ok ==> ascii_names_kept(components(rel@)),
    {
        let text = match path_to_match_string(rel) {
            Some(text) => text,
            None => {
                return self.default;
            },
        };
        if has_windows_drive_prefix(text.as_str()) {
            return self.default;
        }
        let mut i: usize = 0;
        assert(self.rules@.skip(0) =~= self.rules@);
        while i < self.rules.len()
            invariant
                i <= self.rules@.len(),
                mode_of(*self, components(rel@)) == first_match(self.rules@, self.default, text@),
                ascii_names_kept(components(rel@)),
                first_match(self.rules@, self.default, text@) == first_match(
                    self.rules@.skip(i as int),
                    self.default,
                    text@,
                ),
            decreases self.rules@.len() - i,
        {
            let rule = &self.rules[i];
            assert(self.rules@.skip(i as int)[0] == *rule);
            if glob_matches(rule.glob.as_str(), text.as_str()) {
                return rule.mode;
            }
            assert(self.rules@.skip(i as int).drop_first() =~= self.rules@.skip(i + 1));
            i += 1;
        }
        self.default
    }

    /// Refuses a rule set with a glob that cannot be a rule.
    pub fn validate(&self) -> (res: Result<(), PathRulesError>)
        ensures
            match res {
                Ok(()) => rules_fault(self.rules@) is None,
                Err(err) => rules_fault(self.rules@) == Some(err@),
            },
    {
        let mut i: usize = 0;
        assert(self.rules@.skip(0) =~= self.rules@);
        while i < self.rules.len()
            invariant
                i <= self.rules@.len(),
                rules_fault(self.rules@) == rules_fault(self.rules@.skip(i as int)),
            decreases self.rules@.len() - i,
        {
            assert(self.rules@.skip(i as int)[0] == self.rules@[i as int]);
            match validate_glob(self.rules[i].glob.as_str()) {
                Ok(()) => {},
                Err(err) => {
                    return Err(err);
                },
            }
            assert(self.rules@.skip(i as int).drop_first() =~= self.rules@.skip(i + 1));
            i += 1;
        }
        Ok(())
    }

    /// The same rules again.
    pub fn duplicate(&self) -> (rules: PathRules)
        ensures
            same_rules(rules, *self),
    {
        let mut rules: Vec<PathRule> = Vec::new();
        let mut i: usize = 0;
        while i < self.rules.len()
            invariant
                i <= self.rules@.len(),
                rules@.len() == i,
                forall|k: int| 0 <= k < i ==> (#[trigger] rules@[k]).glob@ == self.rules@[k].glob@
                    && rules@[k].mode == self.rules@[k].mode,
            decreases self.rules@.len() - i,
        {
            rules.push(PathRule { glob: self.rules[i].glob.clone(), mode: self.rules[i].mode });
            i += 1;
        }
        PathRules { default: self.default, rules }
    }

    /// Checks the rules and compiles their globs once.
    pub fn compile(&self) -> (res: Result<CompiledPathRules, PathRulesError>)
        ensures
            match res {
                Ok(compiled) => {
                    &&& compile_fault(self.rules@) is None
                    &&& compiled.holds(*self)
                },
                Err(err) => compile_fault(self.rules@) == Some(err@),
            },
    {
        let mut matchers: Vec<(GlobSet, Mode)> = Vec::new();
        let mut i: usize = 0;
        assert(self.rules@.skip(0) =~= self.rules@);
        while i < self.rules.len()
            invariant
                i <= self.rules@.len(),
                matchers@.len() == i,
                compile_fault(self.rules@) == compile_fault(self.rules@.skip(i as int)),
                forall|k: int| 0 <= k < i ==> matcher_holds(#[trigger] matchers@[k], self.rules@[k]),
            decreases self.rules@.len() - i,
        {
            let glob = self.rules[i].glob.as_str();
            assert(self.rules@.skip(i as int)[0] == self.rules@[i as int]);
            match validate_glob(glob) {
                Ok(()) => {},
                Err(err) => {
                    return Err(err);
                },
            }
            let pattern = to_nfc(glob);
            match compile_one(pattern.as_str()) {
                Ok(set) => {
                    matchers.push((set, self.rules[i].mode));
                },
                Err(reason) => {
                    return Err(PathRulesError::InvalidGlob { glob: glob.to_owned(), reason });
                },
            }
            assert(self.rules@.skip(i as int).drop_first() =~= self.rules@.skip(i + 1));
            i += 1;
        }
        Ok(CompiledPathRules { default: self.default, matchers })
    }
}

/// Whether two rule sets say the same.
pub open spec fn same_rules(a: PathRules, b: PathRules) -> bool {
    &&& a.default == b.default
    &&& a.rules@.len() == b.rules@.len()
    &&& forall|k: int| 0 <= k < a.rules@.len() ==> (#[trigger] a.rules@[k]).glob@ == b.rules@[k].glob@
        && a.rules@[k].mode == b.rules@[k].mode
}

/// Why a list of rules does not compile: the fault of its first glob that is
/// refused, or that is too large for a matcher.
pub open spec fn compile_fault(rules: Seq<PathRule>) -> Option<RulesFault>
    decreases rules.len(),
{
    if rules.len() == 0 {
        None
    } else {
        let glob = rules[0].glob@;
        match glob_fault(glob) {
            Some(fault) => Some(fault),
            None => match set_complaint(seq![nfc(glob)]) {
                Some(reason) => Some(RulesFault::Invalid(glob, reason)),
                None => compile_fault(rules.drop_first()),
            },
        }
    }
}

/// Rules whose globs have been compiled.
pub struct CompiledPathRules {
    default: Mode,
    matchers: Vec<(GlobSet, Mode)>,
}

/// Whether a matcher is that of a rule.
pub open spec fn matcher_holds(matcher: (GlobSet, Mode), rule: PathRule) -> bool {
    &&& set_patterns(matcher.0) == seq![nfc(rule.glob@)]
    &&& compiles_alone(nfc(rule.glob@))
    &&& matcher.1 == rule.mode
}

impl CompiledPathRules {
    /// Whether these are the compiled form of `rules`.
    pub closed spec fn holds(&self, rules: PathRules) -> bool {
        &&& self.default == rules.default
        &&& self.matchers@.len() == rules.rules@.len()
        &&& forall|k: int| 0 <= k < rules.rules@.len() ==> matcher_holds(#[trigger] self.matchers@[k], rules.rules@[k])
    }

    /// The mode of a workspace-relative path.
    pub fn mode_for(&self, rel: &FsPath) -> (mode: Mode)
        ensures
            forall|rules: PathRules| #[trigger] self.holds(rules) ==> mode == mode_of(rules, components(rel@)),
            names_of(components(rel@)) is Ok ==> ascii_names_kept(components(rel@)),
    {
        self.mode_of_components(&rel.components())
    }

    /// The mode of a path with these components.
    pub fn mode_of_components(&self, list: &Vec<Component<Vec<u8>>>) -> (mode: Mode)
        ensures
            forall|rules: PathRules| #[trigger] self.holds(rules) ==> mode == mode_of(rules, steps_view(list@)),
            names_of(steps_view(list@)) is Ok ==> ascii_names_kept(steps_view(list@)),
    {
        let text = match match_string(list) {
            Some(text) => text,
            None => {
                return self.default;
            },
        };
        if has_windows_drive_prefix(text.as_str()) {
            return self.default;
        }
        let path = to_nfc(text.as_str());
        let mut i: usize = 0;
        assert forall|rules: PathRules| #[trigger] self.holds(rules) implies rules.rules@.skip(0) == rules.rules@ by {
            assert(rules.rules@.skip(0) =~= rules.rules@);
        }
        while i < self.matchers.len()
            invariant
                i <= self.matchers@.len(),
                path@ == nfc(text@),
                ascii_names_kept(steps_view(list@)),
                forall|rules: PathRules| #[trigger] self.holds(rules) ==> mode_of(rules, steps_view(list@)) == first_match(
                    rules.rules@.skip(i as int),
                    rules.default,
                    text@,
                ),
            decreases self.matchers@.len() - i,
        {
            let matcher = &self.matchers[i];
            let hit = set_is_match(&matcher.0, path.as_str());
            assert forall|rules: PathRules| #[trigger] self.holds(rules) implies {
                &&& hit == glob_accepts(rules.rules@[i as int].glob@, text@)
                &&& rules.rules@.skip(i as int)[0] == rules.rules@[i as int]
                &&& rules.rules@.skip(i as int).drop_first() == rules.rules@.skip(i + 1)
                &&& matcher.1 == rules.rules@[i as int].mode
            } by {
                assert(matcher_holds(self.matchers@[i as int], rules.rules@[i as int]));
                assert(set_patterns(matcher.0)[0] == nfc(rules.rules@[i as int].glob@));
                assert(rules.rules@.skip(i as int).drop_first() =~= rules.rules@.skip(i + 1));
            }
            if hit {
                return matcher.1;
            }
            i += 1;
        }
        self.default
    }
}

/// The first rule that matches decides, whatever stands behind it.
pub proof fn law_first_match_wins(rules: Seq<PathRule>, default: Mode, text: Seq<char>, k: int)
    requires
        0 <= k < rules.len(),
        glob_accepts(rules[k].glob@, text),
        forall|j: int| 0 <= j < k ==> !glob_accepts((#[trigger] rules[j]).glob@, text),
    ensures
        first_match(rules, default, text) == rules[k].mode,
    decreases k,
{
    if k > 0 {
        assert(!glob_accepts(rules[0].glob@, text));
        let rest = rules.drop_first();
        assert(rest[k - 1] == rules[k]);
        assert forall|j: int| 0 <= j < k - 1 implies !glob_accepts((#[trigger] rest[j]).glob@, text) by {
            assert(rest[j] == rules[j + 1]);
        }
        law_first_match_wins(rest, default, text, k - 1);
    }
}

/// Where no rule matches, the default mode holds.
pub proof fn law_no_match_is_default(rules: Seq<PathRule>, default: Mode, text: Seq<char>)
    requires
        forall|j: int| 0 <= j < rules.len() ==> !glob_accepts((#[trigger] rules[j]).glob@, text),
    ensures
        first_match(rules, default, text) == default,
    decreases rules.len(),
{
    if rules.len() > 0 {
        assert(!glob_accepts(rules[0].glob@, text));
        let rest = rules.drop_first();
        assert forall|j: int| 0 <= j < rest.len() implies !glob_accepts((#[trigger] rest[j]).glob@, text) by {
            assert(rest[j] == rules[j + 1]);
        }
        law_no_match_is_default(rest, default, text);
    }
}

/// A path that leaves the workspace, by `..` or by starting at the root, has
/// the default mode under every rule set.
pub proof fn law_outside_paths_get_default(rules: PathRules, steps: Seq<Step>)
    requires
        steps.contains(Component::ParentDir) || steps.contains(Component::RootDir),
    ensures
        mode_of(rules, steps) == rules.default,
{
    let k = if steps.contains(Component::ParentDir) {
        steps.index_of(Component::ParentDir)
    } else {
        steps.index_of(Component::RootDir)
    };
    lemma_names_stop(steps, k);
}

/// A path whose first name begins with a drive letter and a colon has the
/// default mode under every rule set, where that name is in normal form.
pub proof fn law_drive_paths_get_default(rules: PathRules, steps: Seq<Step>, name: Seq<u8>)
    requires
        steps.len() > 0,
        steps[0] == Component::Normal(name),
        drive_prefixed(name),
        nfc(decode_utf8(name)) == decode_utf8(name),
    ensures
        mode_of(rules, steps) == rules.default,
{
    if let Ok(names) = names_of(steps) {
        lemma_first_name(steps, name);
        vstd::utf8::decode_utf8_encode_utf8(name);
        lemma_join_begins(names);
        let rest = join_segments(names, '/').skip(names[0].len() as int);
        assert(join_segments(names, '/') =~= names[0] + rest);
        lemma_encode_concat(names[0], rest);
    }
}

/// The first name of a list of components that opens with one.
proof fn lemma_first_name(steps: Seq<Step>, name: Seq<u8>)
    requires
        steps.len() > 0,
        steps[0] == Component::Normal(name),
        names_of(steps) is Ok,
    ensures
        valid_utf8(name),
        names_of(steps)->Ok_0.len() > 0,
        names_of(steps)->Ok_0[0] == nfc(decode_utf8(name)),
    decreases steps.len(),
{
    if steps.len() > 1 {
        assert(steps.drop_last()[0] == steps[0]);
        lemma_first_name(steps.drop_last(), name);
    } else {
        assert(steps.last() == steps[0]);
        assert(steps.drop_last() =~= Seq::empty());
        assert(names_of(steps.drop_last()) == Ok::<Seq<Seq<char>>, Unnamed>(Seq::empty()));
    }
}

/// Joined texts begin with the first.
proof fn lemma_join_begins(names: Seq<Seq<char>>)
    requires
        names.len() > 0,
    ensures
        names[0].is_prefix_of(join_segments(names, '/')),
    decreases names.len(),
{
    if names.len() > 1 {
        let head = names.drop_last();
        lemma_join_begins(head);
        let front = join_segments(head, '/');
        let whole = join_segments(names, '/');
        assert(head[0] == names[0]);
        assert(whole.take(names[0].len() as int) =~= front.take(names[0].len() as int));
    } else {
        assert(names[0].take(names[0].len() as int) =~= names[0]);
    }
}

/// A `..` or a root component leaves no text form.
pub(crate) proof fn lemma_names_stop(steps: Seq<Step>, k: int)
    requires
        0 <= k < steps.len(),
        steps[k] is ParentDir || steps[k] is RootDir,
    ensures
        crate::relative::names_of(steps) is Err,
    decreases steps.len(),
{
    if k < steps.len() - 1 {
        assert(steps.drop_last()[k] == steps[k]);
        lemma_names_stop(steps.drop_last(), k);
    }
}

/// A rule set passes exactly where each of its globs does.
pub proof fn law_validate_checks_every_glob(rules: Seq<PathRule>)
    ensures
        rules_fault(rules) is None <==> forall|k: int| 0 <= k < rules.len() ==> glob_fault((#[trigger] rules[k]).glob@) is None,
    decreases rules.len(),
{
    if rules.len() > 0 {
        let rest = rules.drop_first();
        law_validate_checks_every_glob(rest);
        assert forall|k: int| 0 <= k < rest.len() implies rest[k] == #[trigger] rules[k + 1] by {}
        if rules_fault(rules) is None {
            assert forall|k: int| 0 <= k < rules.len() implies glob_fault((#[trigger] rules[k]).glob@) is None by {
                if k > 0 {
                    assert(rest[k - 1] == rules[k]);
                }
            }
        } else if forall|k: int| 0 <= k < rules.len() ==> glob_fault((#[trigger] rules[k]).glob@) is None {
            assert(glob_fault(rules[0].glob@) is None);
            assert forall|k: int| 0 <= k < rest.len() implies glob_fault((#[trigger] rest[k]).glob@) is None by {
                assert(rest[k] == rules[k + 1]);
            }
        }
    }
}

/// The mode of a path that has a text form is that of the first rule that
/// accepts the text, whatever the text looks like, and the default where none
/// does; only a text that opens with a drive letter and a colon is held against
/// no rule.
pub proof fn law_first_accepting_rule_decides(rules: PathRules, steps: Seq<Step>, text: Seq<char>, k: int)
    requires
        relative_text(steps) == Some(text),
        !drive_prefixed(encode_utf8(text)),
    ensures
        0 <= k < rules.rules@.len() && glob_accepts(rules.rules@[k].glob@, text) && (forall|j: int|
            0 <= j < k ==> !glob_accepts((#[trigger] rules.rules@[j]).glob@, text)) ==> mode_of(rules, steps)
            == rules.rules@[k].mode,
        (forall|j: int| 0 <= j < rules.rules@.len() ==> !glob_accepts((#[trigger] rules.rules@[j]).glob@, text)) ==> mode_of(
            rules,
            steps,
        ) == rules.default,
{
    if 0 <= k < rules.rules@.len() && glob_accepts(rules.rules@[k].glob@, text) && (forall|j: int|
        0 <= j < k ==> !glob_accepts((#[trigger] rules.rules@[j]).glob@, text)) {
        law_first_match_wins(rules.rules@, rules.default, text, k);
    }
    if forall|j: int| 0 <= j < rules.rules@.len() ==> !glob_accepts((#[trigger] rules.rules@[j]).glob@, text) {
        law_no_match_is_default(rules.rules@, rules.default, text);
    }
}

/// A glob is accepted exactly where it is not empty, does not begin at a root,
/// has no `..` segment and parses in its normal form; otherwise the first of
/// these that fails is named.
pub proof fn law_globs_are_checked_in_order(glob: Seq<char>)
    ensures
        ({
            let bytes = encode_utf8(glob);
            let rooted = glob.len() > 0 && (bytes[0] == SEPARATOR || bytes[0] == BACKSLASH);
            let climbs = split(bytes, SEPARATOR).contains(dot_dot());
            let fault = glob_fault(glob);
            &&& fault is None <==> glob.len() > 0 && !rooted && !climbs && pattern_complaint(nfc(glob)) is None
            &&& fault == Some(RulesFault::Empty) <==> glob.len() == 0
            &&& fault == Some(RulesFault::Absolute(glob)) <==> rooted
            &&& fault == Some(RulesFault::ParentTraversal(glob)) <==> glob.len() > 0 && !rooted && climbs
            &&& glob.len() > 0 && !rooted && !climbs ==> (pattern_complaint(nfc(glob)) matches Some(reason) ==> fault == Some(
                RulesFault::Invalid(glob, reason),
            ))
        }),
{
}

/// The first glob of a rule set that does not pass is the one that is named.
pub proof fn law_first_bad_glob_is_named(rules: Seq<PathRule>, k: int)
    requires
        0 <= k < rules.len(),
        glob_fault(rules[k].glob@) is Some,
        forall|j: int| 0 <= j < k ==> glob_fault((#[trigger] rules[j]).glob@) is None,
    ensures
        rules_fault(rules) == glob_fault(rules[k].glob@),
    decreases k,
{
    if k > 0 {
        assert(glob_fault(rules[0].glob@) is None);
        let rest = rules.drop_first();
        assert(rest[k - 1] == rules[k]);
        assert forall|j: int| 0 <= j < k - 1 implies glob_fault((#[trigger] rest[j]).glob@) is None by {
            assert(rest[j] == rules[j + 1]);
        }
        law_first_bad_glob_is_named(rest, k - 1);
    }
}

/// Whether a rule compiles.
pub open spec fn rule_compiles(rule: PathRule) -> bool {
    glob_fault(rule.glob@) is None && set_complaint(seq![nfc(rule.glob@)]) is None
}

/// Rules compile exactly where each glob passes and fits into a matcher of its
/// own; the first that does not is named, with what is wrong with it. So rules
/// that compile pass.
pub proof fn law_rules_compile_one_by_one(rules: Seq<PathRule>, k: int)
    ensures
        compile_fault(rules) is None <==> forall|j: int| 0 <= j < rules.len() ==> rule_compiles(#[trigger] rules[j]),
        0 <= k < rules.len() && !rule_compiles(rules[k]) && (forall|j: int| 0 <= j < k ==> rule_compiles(#[trigger] rules[j]))
            ==> compile_fault(rules) == (match glob_fault(rules[k].glob@) {
            Some(fault) => Some(fault),
            None => Some(RulesFault::Invalid(rules[k].glob@, set_complaint(seq![nfc(rules[k].glob@)])->0)),
        }),
        compile_fault(rules) is None ==> rules_fault(rules) is None,
    decreases rules.len(),
{
    if rules.len() > 0 {
        let rest = rules.drop_first();
        law_rules_compile_one_by_one(rest, k - 1);
        assert forall|j: int| 0 <= j < rest.len() implies rest[j] == #[trigger] rules[j + 1] by {}
        if compile_fault(rules) is None {
            assert forall|j: int| 0 <= j < rules.len() implies rule_compiles(#[trigger] rules[j]) by {
                if j > 0 {
                    assert(rest[j - 1] == rules[j]);
                }
            }
        }
        if forall|j: int| 0 <= j < rules.len() ==> rule_compiles(#[trigger] rules[j]) {
            assert(rule_compiles(rules[0]));
            assert forall|j: int| 0 <= j < rest.len() implies rule_compiles(#[trigger] rest[j]) by {
                assert(rest[j] == rules[j + 1]);
            }
        }
        if 0 < k < rules.len() && !rule_compiles(rules[k]) && (forall|j: int|
            0 <= j < k ==> rule_compiles(#[trigger] rules[j])) {
            assert(rule_compiles(rules[0]));
            assert(rest[k - 1] == rules[k]);
            assert forall|j: int| 0 <= j < k - 1 implies rule_compiles(#[trigger] rest[j]) by {
                assert(rest[j] == rules[j + 1]);
            }
        }
    }
}

/// A glob and a text are held against each other in their normal forms, so that
/// it does not matter in which form either was written.
pub proof fn law_matching_ignores_the_form(glob: Seq<char>, other_glob: Seq<char>, text: Seq<char>, other_text: Seq<char>)
    requires
        nfc(glob) == nfc(other_glob),
        nfc(text) == nfc(other_text),
    ensures
        glob_accepts(glob, text) == glob_accepts(other_glob, other_text),
        glob_accepts(glob, text) <==> pattern_complaint(nfc(glob)) is None && set_complaint(seq![nfc(glob)]) is None
            && pattern_matches(nfc(glob), nfc(text)),
{
}

/// Rule sets that say the same give every path the same mode.
pub proof fn law_same_rules_give_the_same_modes(a: PathRules, b: PathRules, steps: Seq<Step>)
    requires
        same_rules(a, b),
    ensures
        mode_of(a, steps) == mode_of(b, steps),
        rules_fault(a.rules@) == rules_fault(b.rules@),
{
    lemma_same_faults(a.rules@, b.rules@);
    if let Some(text) = relative_text(steps) {
        lemma_same_match(a.rules@, b.rules@, a.default, text);
    }
}

proof fn lemma_same_match(a: Seq<PathRule>, b: Seq<PathRule>, default: Mode, text: Seq<char>)
    requires
        a.len() == b.len(),
        forall|k: int| 0 <= k < a.len() ==> (#[trigger] a[k]).glob@ == b[k].glob@ && a[k].mode == b[k].mode,
    ensures
        first_match(a, default, text) == first_match(b, default, text),
    decreases a.len(),
{
    if a.len() > 0 {
        assert(a[0].glob@ == b[0].glob@);
        let x = a.drop_first();
        let y = b.drop_first();
        assert forall|k: int| 0 <= k < x.len() implies (#[trigger] x[k]).glob@ == y[k].glob@ && x[k].mode == y[k].mode by {
            assert(x[k] == a[k + 1]);
            assert(y[k] == b[k + 1]);
        }
        lemma_same_match(x, y, default, text);
    }
}

proof fn lemma_same_faults(a: Seq<PathRule>, b: Seq<PathRule>)
    requires
        a.len() == b.len(),
        forall|k: int| 0 <= k < a.len() ==> (#[trigger] a[k]).glob@ == b[k].glob@ && a[k].mode == b[k].mode,
    ensures
        rules_fault(a) == rules_fault(b),
    decreases a.len(),
{
    if a.len() > 0 {
        assert(a[0].glob@ == b[0].glob@);
        let x = a.drop_first();
        let y = b.drop_first();
        assert forall|k: int| 0 <= k < x.len() implies (#[trigger] x[k]).glob@ == y[k].glob@ && x[k].mode == y[k].mode by {
            assert(x[k] == a[k + 1]);
            assert(y[k] == b[k + 1]);
        }
        lemma_same_faults(x, y);
    }
}

/// Rules and their compiled form give a path the same mode: that of the first
/// rule that accepts its text, and the default where none does.
pub proof fn law_compiled_rules_agree(rules: &PathRules, compiled: &CompiledPathRules, rel: &FsPath, a: Mode, b: Mode, text: Seq<char>, k: int)
    requires
        call_ensures(PathRules::mode_for, (rules, rel), a),
        call_ensures(CompiledPathRules::mode_for, (compiled, rel), b),
        compiled.holds(*rules),
        relative_text(components(rel@)) == Some(text),
        !drive_prefixed(encode_utf8(text)),
    ensures
        a == b,
        0 <= k < rules.rules@.len() && glob_accepts(rules.rules@[k].glob@, text) && (forall|j: int|
            0 <= j < k ==> !glob_accepts((#[trigger] rules.rules@[j]).glob@, text)) ==> a == rules.rules@[k].mode,
        (forall|j: int| 0 <= j < rules.rules@.len() ==> !glob_accepts((#[trigger] rules.rules@[j]).glob@, text)) ==> a
            == rules.default,
{
    law_first_accepting_rule_decides(*rules, components(rel@), text, k);
}

} // verus!
