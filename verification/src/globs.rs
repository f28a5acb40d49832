//! Trusted interface to the `globset` crate.
//!
//! Glob compilation and glob matching are functions of the pattern and path
//! strings alone (paths here use `/` as the separator), so their results are
//! given names: `glob_valid` names whether a pattern compiles, and
//! `glob_matches` names whether one compiled pattern matches a path. The
//! wrappers below state, over those names, what the `globset` source shows:
//! a builder accumulates patterns in order, and a built set matches a path
//! exactly when at least one of its member patterns does.

use vstd::prelude::*;

verus! {

#[verifier::external_type_specification]
#[verifier::external_body]
pub struct ExGlob(globset::Glob);

#[verifier::external_type_specification]
#[verifier::external_body]
pub struct ExGlobSet(globset::GlobSet);

#[verifier::external_type_specification]
#[verifier::external_body]
pub struct ExGlobSetBuilder(globset::GlobSetBuilder);

#[verifier::external_type_specification]
#[verifier::external_body]
pub struct ExGlobsetError(globset::Error);

/// Whether `globset::Glob::new` accepts this pattern string.
pub uninterp spec fn glob_valid(pattern: Seq<char>) -> bool;

/// Whether the single glob `pattern` matches `path`.
pub uninterp spec fn glob_matches(pattern: Seq<char>, path: Seq<char>) -> bool;

/// The pattern string a compiled `globset::Glob` was built from.
pub uninterp spec fn glob_pattern(g: globset::Glob) -> Seq<char>;

/// The pattern strings added to a `globset::GlobSetBuilder` so far, in order.
pub uninterp spec fn builder_patterns(b: globset::GlobSetBuilder) -> Seq<Seq<char>>;

/// The pattern strings a `globset::GlobSet` was compiled from, in order.
pub uninterp spec fn set_patterns(s: globset::GlobSet) -> Seq<Seq<char>>;

/// Whether `globset::GlobSetBuilder::build` accepts a set compiled from
/// these glob strings.
pub uninterp spec fn set_buildable(pats: Seq<Seq<char>>) -> bool;

/// Whether a path matches a list of glob patterns: it does exactly when it
/// matches at least one member pattern. Order of the list is irrelevant to
/// the outcome.
pub open spec fn set_matches(pats: Seq<Seq<char>>, path: Seq<char>) -> bool {
    exists|i: int| 0 <= i < pats.len() && glob_matches(pats[i], path)
}

/// Relies on `globset::Glob::new`: compiling a glob depends on the pattern
/// string alone; it succeeds exactly on syntactically valid globs, and the
/// compiled glob keeps the pattern it was built from.
#[verifier::external_body]
pub(crate) fn glob_new(pattern: &str) -> (r: Result<globset::Glob, globset::Error>)
    ensures
        r is Ok <==> glob_valid(pattern@),
        r matches Ok(g) ==> glob_pattern(g) == pattern@,
{
    globset::Glob::new(pattern)
}

/// Relies on `globset::GlobSetBuilder::new`: a fresh builder holds no
/// patterns.
#[verifier::external_body]
pub(crate) fn glob_set_builder_new() -> (r: globset::GlobSetBuilder)
    ensures
        builder_patterns(r) == Seq::<Seq<char>>::empty(),
{
    globset::GlobSetBuilder::new()
}

/// Relies on `globset::GlobSetBuilder::add`: it appends the given glob to
/// the builder's pattern list and changes nothing else.
#[verifier::external_body]
pub(crate) fn glob_set_builder_add(b: &mut globset::GlobSetBuilder, g: globset::Glob)
    ensures
        builder_patterns(*final(b)) == builder_patterns(*old(b)).push(glob_pattern(g)),
{
    b.add(g);
}

/// Relies on `globset::GlobSetBuilder::build`: its outcome is a function
/// of the builder's glob strings alone — it refuses exactly the sets whose
/// compiled form exceeds the crate's internal regex size limits, which
/// `set_buildable` names — and on success the compiled set holds exactly
/// the builder's patterns, in order.
#[verifier::external_body]
pub(crate) fn glob_set_build(b: &globset::GlobSetBuilder) -> (r: Result<
    globset::GlobSet,
    globset::Error,
>)
    ensures
        r is Ok <==> set_buildable(builder_patterns(*b)),
        r matches Ok(s) ==> set_patterns(s) == builder_patterns(*b),
{
    b.build()
}

/// Relies on `globset::GlobSet::empty`: the empty set holds no globs.
#[verifier::external_body]
pub(crate) fn glob_set_empty() -> (r: globset::GlobSet)
    ensures
        set_patterns(r) == Seq::<Seq<char>>::empty(),
{
    globset::GlobSet::empty()
}

/// Relies on `globset::GlobSet::is_match`: per its documentation it returns
/// true exactly when at least one glob in the set matches the path.
#[verifier::external_body]
pub(crate) fn glob_set_is_match(s: &globset::GlobSet, path: &str) -> (r: bool)
    ensures
        r == (exists|i: int|
            0 <= i < set_patterns(*s).len() && glob_matches(#[trigger] set_patterns(*s)[i], path@)),
{
    s.is_match(path)
}

} // verus!
