//! Shell-style glob patterns, matched with the `globset` crate.
use vstd::prelude::*;
use globset::{Glob, GlobSet, GlobSetBuilder};

verus! {

#[verifier::external_type_specification]
#[verifier::external_body]
pub struct ExGlob(Glob);

#[verifier::external_type_specification]
#[verifier::external_body]
pub struct ExGlobSet(GlobSet);

#[verifier::external_type_specification]
#[verifier::external_body]
pub struct ExGlobSetBuilder(GlobSetBuilder);

#[verifier::external_type_specification]
#[verifier::external_body]
pub struct ExGlobError(globset::Error);

/// Whether `Glob::new` accepts the pattern (with the default options).
pub uninterp spec fn glob_parses(pattern: Seq<char>) -> bool;

/// The pattern a glob was built from (what `Glob::glob` gives).
pub uninterp spec fn glob_pattern(g: Glob) -> Seq<char>;

/// The patterns of the globs added to a builder, in order.
pub uninterp spec fn builder_patterns(b: GlobSetBuilder) -> Seq<Seq<char>>;

/// The patterns of the globs a set was built from, in order.
pub uninterp spec fn set_patterns(s: GlobSet) -> Seq<Seq<char>>;

/// Whether `GlobSetBuilder::build` succeeds for globs of these patterns.
pub uninterp spec fn glob_set_builds(patterns: Seq<Seq<char>>) -> bool;

/// Whether the glob of `pattern` (default options) matches `path`.
pub uninterp spec fn glob_matches(pattern: Seq<char>, path: Seq<char>) -> bool;

/// Whether some pattern of the set matches `path`.
pub open spec fn set_matches(patterns: Seq<Seq<char>>, path: Seq<char>) -> bool {
    exists|i: int| 0 <= i < patterns.len() && glob_matches(#[trigger] patterns[i], path)
}

/// Parses a glob pattern.
///
/// Trusted: `Glob::new` succeeds exactly when the pattern parses (named
/// [`glob_parses`]) and the glob keeps the pattern it was built from.
#[verifier::external_body]
pub(crate) fn new_glob(pattern: &str) -> (r: Result<Glob, globset::Error>)
    ensures
        r is Ok <==> glob_parses(pattern@),
        r matches Ok(g) ==> glob_pattern(g) == pattern@,
{
    Glob::new(pattern)
}

/// An empty builder.
///
/// Trusted: `GlobSetBuilder::new` holds no glob.
#[verifier::external_body]
pub(crate) fn new_builder() -> (r: GlobSetBuilder)
    ensures
        builder_patterns(r) == Seq::<Seq<char>>::empty(),
{
    GlobSetBuilder::new()
}

/// Adds a glob to a builder.
///
/// Trusted: `GlobSetBuilder::add` appends the glob.
#[verifier::external_body]
pub(crate) fn add_glob(builder: &mut GlobSetBuilder, glob: Glob)
    ensures
        builder_patterns(*final(builder)) == builder_patterns(*old(builder)).push(glob_pattern(glob)),
{
    builder.add(glob);
}

/// Builds the set of the globs added so far.
///
/// Trusted: `GlobSetBuilder::build` succeeds exactly when the patterns build
/// (named [`glob_set_builds`]; with no glob it succeeds), and the set holds
/// the builder's globs.
#[verifier::external_body]
pub(crate) fn build_set(builder: &GlobSetBuilder) -> (r: Result<GlobSet, globset::Error>)
    ensures
        r is Ok <==> glob_set_builds(builder_patterns(*builder)),
        builder_patterns(*builder).len() == 0 ==> r is Ok,
        r matches Ok(s) ==> set_patterns(s) == builder_patterns(*builder),
{
    builder.build()
}

/// Whether any glob of the set matches the path.
///
/// Trusted: `GlobSet::is_match` is true exactly when some glob of the set
/// matches (each glob's matching named [`glob_matches`]).
#[verifier::external_body]
pub(crate) fn set_is_match(set: &GlobSet, path: &str) -> (r: bool)
    ensures
        r == (exists|i: int|
            0 <= i < set_patterns(*set).len() && glob_matches(#[trigger] set_patterns(*set)[i], path@)),
{
    set.is_match(path)
}

} // verus!
