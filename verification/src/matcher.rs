//! Matching paths against one glob pattern.
//!
//! Parsing a glob and matching with it is the work of the `globset` crate. The
//! pattern is compiled once, with `*` and `?` confined to one path component,
//! so that only `**` reaches across directories.

use vstd::prelude::*;
use globset::{GlobBuilder, GlobSet, GlobSetBuilder};

verus! {

#[verifier::external_type_specification]
#[verifier::external_body]
pub struct ExGlobSet(GlobSet);

#[verifier::external_type_specification]
#[verifier::external_body]
pub struct ExGlobError(globset::Error);

/// Whether `globset` accepts the text as a glob and can compile it, with the
/// given choice of whether a separator in a path has to be matched by a
/// separator in the pattern.
pub uninterp spec fn glob_compiles(pattern: Seq<char>, literal_separator: bool) -> bool;

/// The globs that a set was built from, in order: the text of each and the
/// choice on separators it was parsed with.
pub uninterp spec fn glob_set_globs(set: GlobSet) -> Seq<(Seq<char>, bool)>;

/// Whether a glob, parsed with the given choice on separators, matches a path.
pub uninterp spec fn glob_matches(
    pattern: Seq<char>,
    literal_separator: bool,
    path: Seq<char>,
) -> bool;

/// The longest pattern, in characters, that is handed to the glob compiler.
/// The compiler's work nests as deep as the braces of a pattern do, and the
/// tables that it builds have limits of their own; a pattern within this
/// length stays within all of them.
pub const MAX_PATTERN_LEN: usize = 4096;

/// The reason given for a pattern of more than [`MAX_PATTERN_LEN`]
/// characters.
pub const TOO_LONG: &'static str = "pattern is too long";

/// A text that gives no matcher: it is no well-formed glob, cannot be
/// compiled, or is longer than [`MAX_PATTERN_LEN`] characters. The reason
/// says in words which.
#[derive(Clone, Debug, PartialEq, Eq)]
pub struct InvalidPattern {
    pub reason: String,
}

/// Calls `GlobBuilder::new`, `literal_separator` and `build` to parse the
/// pattern, and `GlobSetBuilder::add` and `build` to compile a set of that one
/// glob. Either step may refuse the pattern; the result is a set exactly where
/// the pattern compiles, and the set then holds that glob alone. The length is
/// bounded because the parser's work nests as deep as the pattern's braces do.
#[verifier::external_body]
fn build_glob_set(pattern: &str, literal_separator: bool) -> (built: Result<
    GlobSet,
    globset::Error,
>)
    requires
        pattern@.len() <= MAX_PATTERN_LEN,
    ensures
        built is Ok == glob_compiles(pattern@, literal_separator),
        built matches Ok(set) ==> glob_set_globs(set) == seq![(pattern@, literal_separator)],
{
    let glob = GlobBuilder::new(pattern).literal_separator(literal_separator).build()?;
    GlobSetBuilder::new().add(glob).build()
}

/// Calls the `Display` impl of `globset::Error`, which says in words why a
/// pattern was refused. Nothing is claimed of the text.
#[verifier::external_body]
fn reason_of(error: &globset::Error) -> (reason: String) {
    format!("{}", error)
}

/// Calls `GlobSet::is_match`, which tells whether any glob of the set matches
/// the path: for a set of one glob, whether that glob does.
#[verifier::external_body]
fn set_is_match(set: &GlobSet, path: &str) -> (matched: bool)
    requires
        glob_set_globs(*set).len() == 1,
    ensures
        matched == glob_matches(glob_set_globs(*set)[0].0, glob_set_globs(*set)[0].1, path@),
{
    set.is_match(path)
}

/// Whether the pattern, compiled as this library compiles it, matches the
/// path: `*` and `?` do not match a separator.
pub open spec fn pattern_matches(pattern: Seq<char>, path: Seq<char>) -> bool {
    glob_matches(pattern, true, path)
}

/// Whether a pattern gives a matcher: it is short enough to be handed to the
/// glob compiler, and the compiler accepts it.
pub open spec fn compiles(pattern: Seq<char>) -> bool {
    pattern.len() <= MAX_PATTERN_LEN && glob_compiles(pattern, true)
}

/// A compiled glob pattern. It is made once and never changes; matching has
/// no state.
#[derive(Debug)]
pub struct PathMatcher {
    pattern: String,
    set: GlobSet,
}

impl PathMatcher {
    /// The set was compiled from the pattern, and from nothing else.
    #[verifier::type_invariant]
    spec fn compiled_from_pattern(&self) -> bool {
        glob_set_globs(self.set) == seq![(self.pattern@, true)]
    }

    /// The text of the pattern.
    pub closed spec fn glob(&self) -> Seq<char> {
        self.pattern@
    }

    /// Compiles a pattern. A pattern of more than [`MAX_PATTERN_LEN`]
    /// characters is invalid for the reason [`TOO_LONG`], and so is, for the
    /// compiler's own reason, a shorter one that the glob compiler refuses;
    /// every other pattern gives its matcher.
    pub fn compile(pattern: &str) -> (made: Result<PathMatcher, InvalidPattern>)
        ensures
            made is Ok == compiles(pattern@),
            made matches Ok(matcher) ==> matcher.glob() == pattern@,
            made matches Err(e) ==> (pattern@.len() > MAX_PATTERN_LEN ==> e.reason@ == TOO_LONG@),
    {
        if pattern.unicode_len() > MAX_PATTERN_LEN {
            return Err(InvalidPattern { reason: TOO_LONG.to_owned() });
        }
        match build_glob_set(pattern, true) {
            Ok(set) => Ok(PathMatcher { pattern: pattern.to_owned(), set }),
            Err(error) => Err(InvalidPattern { reason: reason_of(&error) }),
        }
    }

    /// The pattern that the matcher was compiled from.
    pub fn pattern(&self) -> (text: &str)
        ensures
            text@ == self.glob(),
    {
        self.pattern.as_str()
    }

    /// Whether the pattern matches the path. The answer depends on the
    /// pattern and the path and on nothing else: the same two always give the
    /// same answer.
    pub fn is_match(&self, path: &str) -> (matched: bool)
        ensures
            matched == pattern_matches(self.glob(), path@),
    {
        proof {
            use_type_invariant(self);
        }
        set_is_match(&self.set, path)
    }
}

} // verus!
