//! Glob patterns, as the `globset` crate parses and matches them.
use globset::{Glob, GlobSet, GlobSetBuilder};
use vstd::prelude::*;

verus! {

/// A compiled set of patterns.
#[verifier::external_type_specification]
#[verifier::external_body]
pub struct ExGlobSet(GlobSet);

/// A set of patterns that is still being filled.
#[verifier::external_type_specification]
#[verifier::external_body]
pub struct ExGlobSetBuilder(GlobSetBuilder);

/// The patterns of a compiled set, in the order in which they were added.
pub uninterp spec fn set_patterns(set: GlobSet) -> Seq<Seq<char>>;

/// The patterns of a set that is being filled.
pub uninterp spec fn builder_patterns(builder: GlobSetBuilder) -> Seq<Seq<char>>;

/// Why a pattern does not parse, in the words of `globset`, if it does not.
pub uninterp spec fn pattern_complaint(pattern: Seq<char>) -> Option<Seq<char>>;

/// Why patterns that parse do not compile into one set, if they do not (a set
/// has a size limit).
pub uninterp spec fn set_complaint(patterns: Seq<Seq<char>>) -> Option<Seq<char>>;

/// Whether a pattern matches a path that is written with `/`.
pub uninterp spec fn pattern_matches(pattern: Seq<char>, path: Seq<char>) -> bool;

/// Wraps `globset::GlobSetBuilder::new`: nothing has been added yet.
#[verifier::external_body]
pub(crate) fn builder_new() -> (builder: GlobSetBuilder)
    ensures
        builder_patterns(builder) == Seq::<Seq<char>>::empty(),
{
    GlobSetBuilder::new()
}

/// Wraps `globset::Glob::new` and `globset::GlobSetBuilder::add`: a pattern
/// that parses goes behind those that are there; of one that does not, only
/// the complaint comes back, which is named [`pattern_complaint`].
#[verifier::external_body]
pub(crate) fn builder_add(builder: &mut GlobSetBuilder, pattern: &str) -> (res: Result<(), String>)
    ensures
        match res {
            Ok(()) => {
                &&& pattern_complaint(pattern@) is None
                &&& builder_patterns(*final(builder)) == builder_patterns(*old(builder)).push(pattern@)
            },
            Err(why) => {
                &&& pattern_complaint(pattern@) == Some(why@)
                &&& builder_patterns(*final(builder)) == builder_patterns(*old(builder))
            },
        },
{
    match Glob::new(pattern) {
        Ok(glob) => {
            builder.add(glob);
            Ok(())
        }
        Err(err) => Err(err.to_string()),
    }
}

/// Wraps `globset::GlobSetBuilder::build`: the set holds the builder's
/// patterns. Where it does not compile, the complaint is named
/// [`set_complaint`].
#[verifier::external_body]
pub(crate) fn builder_build(builder: &GlobSetBuilder) -> (res: Result<GlobSet, String>)
    ensures
        match res {
            Ok(set) => {
                &&& set_complaint(builder_patterns(*builder)) is None
                &&& set_patterns(set) == builder_patterns(*builder)
            },
            Err(why) => set_complaint(builder_patterns(*builder)) == Some(why@),
        },
{
    builder.build().map_err(|err| err.to_string())
}

/// Wraps `globset::GlobSet::is_match`, which documents that it returns true
/// if any glob in the set matches the path; what one pattern matches is named
/// [`pattern_matches`].
#[verifier::external_body]
pub(crate) fn set_is_match(set: &GlobSet, path: &str) -> (res: bool)
    ensures
        res == (exists|i: int|
            #![trigger set_patterns(*set)[i]]
            0 <= i < set_patterns(*set).len() && pattern_matches(set_patterns(*set)[i], path@)),
{
    set.is_match(path)
}

/// Whether `pattern` parses and compiles alone.
pub open spec fn compiles_alone(pattern: Seq<char>) -> bool {
    pattern_complaint(pattern) is None && set_complaint(seq![pattern]) is None
}

/// Parses a pattern, for its complaint alone.
pub fn check_pattern(pattern: &str) -> (res: Result<(), String>)
    ensures
        match res {
            Ok(()) => pattern_complaint(pattern@) is None,
            Err(why) => pattern_complaint(pattern@) == Some(why@),
        },
{
    let mut builder = builder_new();
    builder_add(&mut builder, pattern)
}

/// Compiles one pattern into a set of its own.
pub fn compile_one(pattern: &str) -> (res: Result<GlobSet, String>)
    ensures
        match res {
            Ok(set) => compiles_alone(pattern@) && set_patterns(set) == seq![pattern@],
            Err(why) => {
                ||| pattern_complaint(pattern@) == Some(why@)
                ||| pattern_complaint(pattern@) is None && set_complaint(seq![pattern@]) == Some(why@)
            },
        },
{
    let mut builder = builder_new();
    match builder_add(&mut builder, pattern) {
        Ok(()) => {
            assert(builder_patterns(builder) =~= seq![pattern@]);
            builder_build(&builder)
        },
        Err(why) => Err(why),
    }
}

/// Whether a pattern compiles and matches a path.
pub fn matches_alone(pattern: &str, path: &str) -> (res: bool)
    ensures
        res == (compiles_alone(pattern@) && pattern_matches(pattern@, path@)),
{
    match compile_one(pattern) {
        Ok(set) => {
            assert(set_patterns(set)[0] == pattern@);
            set_is_match(&set, path)
        },
        Err(_) => false,
    }
}

} // verus!
