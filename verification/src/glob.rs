//! Matching paths against glob patterns, which is left to `globset`.
//!
//! Verus sees nothing of a `globset::Glob` or a `globset::GlobSet`. The
//! patterns that such a value was made from, and what the functions of
//! `globset` return, are given names here. Nothing in this file is proved:
//! each wrapper's contract only says that the wrapper returns what the
//! named function of `globset` returns.

use vstd::prelude::*;

verus! {

/// `globset::Glob`: one compiled pattern.
#[verifier::external_type_specification]
#[verifier::external_body]
pub struct ExGlob(globset::Glob);

/// `globset::GlobSet`: patterns compiled to be matched together.
#[verifier::external_type_specification]
#[verifier::external_body]
pub struct ExGlobSet(globset::GlobSet);

/// Whether `Glob::new` accepts `pattern` as a glob.
pub uninterp spec fn glob_accepted(pattern: Seq<char>) -> bool;

/// The pattern that `glob` was made from: what `Glob::glob` returns.
pub uninterp spec fn glob_pattern(glob: globset::Glob) -> Seq<char>;

/// Whether `GlobSet::new` builds a set from globs of the patterns
/// `patterns`.
pub uninterp spec fn globset_built(patterns: Seq<Seq<char>>) -> bool;

/// The patterns of the globs that `set` was built from, in order.
pub uninterp spec fn globset_patterns(set: globset::GlobSet) -> Seq<Seq<char>>;

/// What `GlobSet::is_match` returns for `path` and a set built from globs
/// of the patterns `patterns` with the default options: whether any of
/// them matches the path.
pub uninterp spec fn globset_matches(patterns: Seq<Seq<char>>, path: Seq<char>) -> bool;

/// The patterns of the globs of `globs`, in order.
pub open spec fn glob_patterns(globs: Seq<globset::Glob>) -> Seq<Seq<char>> {
    Seq::new(globs.len(), |i: int| glob_pattern(globs[i]))
}

/// Calls `Glob::new`, which makes a glob with the default options. An
/// error becomes `None`.
#[verifier::external_body]
pub(crate) fn new_glob(pattern: &str) -> (glob: Option<globset::Glob>)
    ensures
        glob is Some <==> glob_accepted(pattern@),
        glob is Some ==> glob_pattern(glob->0) == pattern@,
{
    match globset::Glob::new(pattern) {
        Ok(glob) => Some(glob),
        Err(_) => None,
    }
}

/// Calls `GlobSet::new` on the globs of `globs`. An error becomes `None`.
#[verifier::external_body]
pub(crate) fn new_globset(globs: &Vec<globset::Glob>) -> (set: Option<globset::GlobSet>)
    ensures
        set is Some <==> globset_built(glob_patterns(globs@)),
        set is Some ==> globset_patterns(set->0) == glob_patterns(globs@),
{
    match globset::GlobSet::new(globs.iter()) {
        Ok(set) => Some(set),
        Err(_) => None,
    }
}

/// Calls `GlobSet::is_match`.
#[verifier::external_body]
pub(crate) fn is_match(set: &globset::GlobSet, path: &str) -> (matched: bool)
    ensures
        matched == globset_matches(globset_patterns(*set), path@),
{
    set.is_match(path)
}

} // verus!
