//! The glob sets of the `--branch`, `--exclude-branch`, `--include-path` and
//! `--exclude-path` filters, compiled and matched by the `globset` crate.
//!
//! What a glob matches is `globset`'s to decide: it is named here, not
//! restated.

use vstd::prelude::*;

verus! {

#[verifier::external_type_specification]
#[verifier::external_body]
pub struct ExGlob(globset::Glob);

#[verifier::external_type_specification]
#[verifier::external_body]
pub struct ExGlobSet(globset::GlobSet);

#[verifier::external_type_specification]
#[verifier::external_body]
pub struct ExGlobSetBuilder(globset::GlobSetBuilder);

#[verifier::external_type_specification]
#[verifier::external_body]
pub struct ExGlobError(globset::Error);

/// Whether `globset::Glob::new` accepts `pattern` (it parses with default
/// options).
pub uninterp spec fn glob_is_valid(pattern: Seq<char>) -> bool;

/// The pattern of a `globset::Glob` made with default options; `None` for a
/// glob made with any other options.
pub uninterp spec fn default_glob_pattern(glob: globset::Glob) -> Option<Seq<char>>;

/// The patterns of the globs added to a `globset::GlobSetBuilder`, in order,
/// when every one of them was made with default options; `None` otherwise.
pub uninterp spec fn builder_default_patterns(builder: globset::GlobSetBuilder) -> Option<
    Seq<Seq<char>>,
>;

/// The patterns of the globs that a `globset::GlobSet` was built from, when
/// every one of them was made with default options; `None` otherwise.
pub uninterp spec fn set_default_patterns(set: globset::GlobSet) -> Option<Seq<Seq<char>>>;

/// Whether `globset::GlobSetBuilder::build` succeeds on globs made with
/// default options from these patterns.
pub uninterp spec fn glob_set_builds(patterns: Seq<Seq<char>>) -> bool;

/// Whether `globset::GlobSet::is_match` accepts `text` for a set built from
/// globs made with default options from these patterns (true when any of
/// them matches).
pub uninterp spec fn glob_set_matches(patterns: Seq<Seq<char>>, text: Seq<char>) -> bool;

/// `globset::Glob::new`: parses a pattern with default options. Claimed: it
/// succeeds exactly when the pattern is valid (a fact of the pattern alone),
/// and the glob it makes has default options and keeps the pattern's text.
#[verifier::external_body]
pub(crate) fn new_glob(pattern: &str) -> (r: Result<globset::Glob, globset::Error>)
    ensures
        r is Ok <==> glob_is_valid(pattern@),
        r matches Ok(g) ==> default_glob_pattern(g) == Some(pattern@),
{
    globset::Glob::new(pattern)
}

/// `globset::GlobSetBuilder::new`. Claimed: the builder holds no glob.
#[verifier::external_body]
pub(crate) fn new_builder() -> (b: globset::GlobSetBuilder)
    ensures
        builder_default_patterns(b) == Some(Seq::<Seq<char>>::empty()),
{
    globset::GlobSetBuilder::new()
}

/// `globset::GlobSetBuilder::add`. Claimed: the glob is appended to the
/// builder's globs (so the builder still holds only globs with default
/// options exactly when it did and this glob has them).
#[verifier::external_body]
pub(crate) fn builder_add(builder: &mut globset::GlobSetBuilder, glob: globset::Glob)
    ensures
        builder_default_patterns(*final(builder)) == match (
            builder_default_patterns(*old(builder)),
            default_glob_pattern(glob),
        ) {
            (Some(patterns), Some(pattern)) => Some(patterns.push(pattern)),
            _ => None,
        },
{
    builder.add(glob);
}

/// `globset::GlobSetBuilder::build`. Claimed, for a builder that holds only
/// globs with default options: whether it succeeds depends on their patterns
/// alone, and the set is built from those globs. Nothing is claimed of a
/// builder holding other globs.
#[verifier::external_body]
pub(crate) fn builder_build(builder: &globset::GlobSetBuilder) -> (r: Result<
    globset::GlobSet,
    globset::Error,
>)
    ensures
        builder_default_patterns(*builder) matches Some(patterns) ==> (r is Ok <==> glob_set_builds(
            patterns,
        )),
        builder_default_patterns(*builder) matches Some(patterns) ==> (r matches Ok(s)
            ==> set_default_patterns(s) == Some(patterns)),
{
    builder.build()
}

/// `globset::GlobSet::is_match` on a text. Claimed, for a set built from
/// globs with default options: the answer depends on their patterns and the
/// text alone. Nothing is claimed of other sets.
#[verifier::external_body]
pub(crate) fn set_is_match(set: &globset::GlobSet, text: &str) -> (r: bool)
    ensures
        set_default_patterns(*set) matches Some(patterns) ==> r == glob_set_matches(
            patterns,
            text@,
        ),
{
    set.is_match(text)
}

/// The `Display` text of a `globset::Error`. Nothing is claimed of the
/// text.
#[verifier::external_body]
pub(crate) fn glob_error_text(error: &globset::Error) -> String {
    error.to_string()
}

/// A compiled filter: a glob set built from globs made with default options
/// (`compile_globset` is the only way to make one).
pub struct GlobFilter {
    set: globset::GlobSet,
}

impl GlobFilter {
    #[verifier::type_invariant]
    spec fn built_with_default_options(self) -> bool {
        set_default_patterns(self.set) is Some
    }

    /// The patterns that the filter was compiled from.
    pub closed spec fn patterns(self) -> Seq<Seq<char>> {
        set_default_patterns(self.set)->0
    }

    /// The filter of a set built from globs with default options.
    pub(crate) fn from_set(set: globset::GlobSet) -> (r: GlobFilter)
        requires
            set_default_patterns(set) is Some,
        ensures
            r.patterns() == set_default_patterns(set)->0,
    {
        GlobFilter { set }
    }

    /// Whether any of the filter's globs matches `text`.
    pub fn is_match(&self, text: &str) -> (r: bool)
        ensures
            r == glob_set_matches(self.patterns(), text@),
    {
        proof {
            use_type_invariant(self);
        }
        set_is_match(&self.set, text)
    }
}

} // verus!
