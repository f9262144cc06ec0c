//! Glob patterns and sets of them, as the `globset` crate reads and matches
//! them where a wildcard never matches a separator: `*` and `?` stay inside
//! one segment of a path, and only `**` crosses segments. Nothing else of the
//! pattern language is stated here: what is accepted and what matches goes by
//! name. The defaults of `globset` differ between Windows and other systems
//! in how a backslash is read; the names stand for what it does on the system
//! that the library was built for.

use vstd::prelude::*;

verus! {

/// `globset::GlobSetBuilder`, known by the patterns added to it.
#[verifier::external_type_specification]
#[verifier::external_body]
pub struct ExGlobSetBuilder(globset::GlobSetBuilder);

/// `globset::GlobSet`, known by the patterns of its globs.
#[verifier::external_type_specification]
#[verifier::external_body]
pub struct ExGlobSet(globset::GlobSet);

/// `globset::Error`, of which nothing is known but its message.
#[verifier::external_type_specification]
#[verifier::external_body]
pub struct ExGlobError(globset::Error);

/// Whether `globset::GlobBuilder::build` accepts `pattern`, with separators
/// taken literally.
pub uninterp spec fn glob_is_valid(pattern: Seq<char>) -> bool;

/// Whether the glob that `globset::GlobBuilder::build` makes of `pattern`,
/// with separators taken literally, matches `path`.
pub uninterp spec fn glob_matches(pattern: Seq<char>, path: Seq<char>) -> bool;

/// Whether `globset::GlobSetBuilder::build` makes a set of the globs of
/// `patterns`.
pub uninterp spec fn glob_set_builds(patterns: Seq<Seq<char>>) -> bool;

/// The patterns of the globs added to a builder, in the order they were added.
pub uninterp spec fn builder_patterns(builder: globset::GlobSetBuilder) -> Seq<Seq<char>>;

/// The patterns of the globs of a set, in the order they were added.
pub uninterp spec fn set_patterns(set: globset::GlobSet) -> Seq<Seq<char>>;

/// Whether one of `patterns` matches `path`.
pub open spec fn any_match(patterns: Seq<Seq<char>>, path: Seq<char>) -> bool {
    exists|i: int| 0 <= i < patterns.len() && glob_matches(#[trigger] patterns[i], path)
}

/// `globset::GlobSetBuilder::new`: a builder that holds no glob.
#[verifier::external_body]
pub(crate) fn new_builder() -> (builder: globset::GlobSetBuilder)
    ensures
        builder_patterns(builder) == Seq::<Seq<char>>::empty(),
{
    globset::GlobSetBuilder::new()
}

/// `globset::GlobBuilder` on `pattern` with `literal_separator(true)`, then
/// `globset::GlobSetBuilder::add` of the glob that it builds. A pattern that
/// the build refuses leaves the builder as it was and hands its error back;
/// any other is added behind those already there.
#[verifier::external_body]
pub(crate) fn add_pattern(builder: &mut globset::GlobSetBuilder, pattern: &str) -> (r: Result<
    (),
    globset::Error,
>)
    ensures
        r is Ok <==> glob_is_valid(pattern@),
        r is Ok ==> builder_patterns(*final(builder)) == builder_patterns(*old(builder)).push(
            pattern@,
        ),
        r is Err ==> builder_patterns(*final(builder)) == builder_patterns(*old(builder)),
{
    builder.add(globset::GlobBuilder::new(pattern).literal_separator(true).build()?);
    Ok(())
}

/// `globset::GlobSetBuilder::build`: a set of the globs added so far, or the
/// error of compiling them. A builder without globs always gives a set.
#[verifier::external_body]
pub(crate) fn build_set(builder: &globset::GlobSetBuilder) -> (r: Result<
    globset::GlobSet,
    globset::Error,
>)
    ensures
        r is Ok <==> glob_set_builds(builder_patterns(*builder)),
        builder_patterns(*builder).len() == 0 ==> r is Ok,
        r matches Ok(set) ==> set_patterns(set) == builder_patterns(*builder),
{
    builder.build()
}

/// `globset::GlobSet::is_match`: whether any glob of the set matches `path`.
#[verifier::external_body]
pub(crate) fn set_is_match(set: &globset::GlobSet, path: &str) -> (r: bool)
    ensures
        r == (exists|i: int|
            0 <= i < set_patterns(*set).len() && glob_matches(
                #[trigger] set_patterns(*set)[i],
                path@,
            )),
{
    set.is_match(path)
}

} // verus!
