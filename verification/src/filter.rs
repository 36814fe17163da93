//! The file-name pattern: a compiled glob that decides which files are
//! searched.
//!
//! Matching is case-sensitive on every platform. `*` and `?` do not cross a
//! `/`; only `**` does.

use vstd::prelude::*;
use vstd::string::*;
use crate::matcher::PatternError;

verus! {

/// `globset::Glob`, a parsed glob; nothing inside it is seen.
#[verifier::external_type_specification]
#[verifier::external_body]
pub struct ExGlob(globset::Glob);

/// `globset::GlobSet`, a compiled set of globs; nothing inside it is seen.
#[verifier::external_type_specification]
#[verifier::external_body]
pub struct ExGlobSet(globset::GlobSet);

/// `globset::Error`, which says why a glob was refused.
#[verifier::external_type_specification]
#[verifier::external_body]
pub struct ExGlobError(globset::Error);

/// Whether `globset::GlobBuilder::build` accepts this glob, with `/` matched
/// by a literal `/` or by `**` alone.
pub uninterp spec fn glob_parses(source: Seq<char>) -> bool;

/// The source text of a parsed glob, which `globset::Glob::glob` hands out.
pub uninterp spec fn glob_pattern(glob: &globset::Glob) -> Seq<char>;

/// Whether `globset::GlobSetBuilder::build` compiles a set of this one glob.
pub uninterp spec fn glob_compiles(pattern: Seq<char>) -> bool;

/// The source text of the one glob that a set was built from.
pub uninterp spec fn set_pattern(set: &globset::GlobSet) -> Seq<char>;

/// Whether `globset::GlobSet::is_match` finds that the glob `pattern` matches
/// `path`.
pub uninterp spec fn glob_matches(pattern: Seq<char>, path: Seq<char>) -> bool;

/// Calls `globset::GlobBuilder::build`, with `literal_separator` switched on.
/// Trusted: it succeeds exactly on the sources that `glob_parses` names, and
/// the glob remembers its source.
#[verifier::external_body]
fn glob_build(source: &str) -> (r: Result<globset::Glob, globset::Error>)
    ensures
        r.is_ok() == glob_parses(source@),
        r matches Ok(glob) ==> glob_pattern(&glob) == source@,
{
    globset::GlobBuilder::new(source).literal_separator(true).build()
}

/// Calls `globset::GlobSetBuilder::build` on a set of one glob. Trusted: it
/// succeeds exactly on the globs that `glob_compiles` names, and the set then
/// stands for that glob.
#[verifier::external_body]
fn glob_set_build(glob: globset::Glob) -> (r: Result<globset::GlobSet, globset::Error>)
    ensures
        r.is_ok() == glob_compiles(glob_pattern(&glob)),
        r matches Ok(set) ==> set_pattern(&set) == glob_pattern(&glob),
{
    let mut builder = globset::GlobSetBuilder::new();
    builder.add(glob);
    builder.build()
}

/// Calls `globset::GlobSet::is_match`. Trusted: the result is the named one for
/// a path without a backslash. A path with one is matched as given on Unix
/// and with `/` in its place elsewhere, so nothing is said of it.
#[verifier::external_body]
fn glob_set_is_match(set: &globset::GlobSet, path: &str) -> (r: bool)
    ensures
        portable_path(path@) ==> r == glob_matches(set_pattern(set), path@),
{
    set.is_match(path)
}

/// A path that every platform reads alike: it holds no backslash.
pub open spec fn portable_path(path: Seq<char>) -> bool {
    !path.contains('\\')
}

/// The glob for a file name below the search root: the name behind `./`.
pub open spec fn rooted(name_glob: Seq<char>) -> Seq<char> {
    seq!['.', '/'] + name_glob
}

/// A compiled file-name pattern. Its view is the glob it was compiled from.
pub struct NameFilter {
    set: globset::GlobSet,
}

impl View for NameFilter {
    type V = Seq<char>;

    closed spec fn view(&self) -> Seq<char> {
        set_pattern(&self.set)
    }
}

impl NameFilter {
    /// Compiles a glob as it stands, or says that it is none.
    pub fn compile(glob_source: &str) -> (r: Result<NameFilter, PatternError>)
        ensures
            r.is_ok() == (glob_parses(glob_source@) && glob_compiles(glob_source@)),
            r matches Ok(filter) ==> filter@ == glob_source@,
            r matches Err(e) ==> e matches PatternError::Glob(text) && text@ == glob_source@,
    {
        match glob_build(glob_source) {
            Ok(glob) => match glob_set_build(glob) {
                Ok(set) => Ok(NameFilter { set }),
                Err(_) => Err(PatternError::Glob(glob_source.to_owned())),
            },
            Err(_) => Err(PatternError::Glob(glob_source.to_owned())),
        }
    }

    /// Compiles the glob for a file name below the search root: paths are
    /// matched from `./` on.
    pub fn compile_rooted(name_glob: &str) -> (r: Result<NameFilter, PatternError>)
        ensures
            r.is_ok() == (glob_parses(rooted(name_glob@)) && glob_compiles(rooted(name_glob@))),
            r matches Ok(filter) ==> filter@ == rooted(name_glob@),
            r matches Err(e) ==> e matches PatternError::Glob(text) && text@ == rooted(name_glob@),
    {
        proof {
            reveal_strlit("./");
            assert("./"@ =~= seq!['.', '/']);
        }
        let full = "./".to_owned().concat(name_glob);
        NameFilter::compile(full.as_str())
    }

    /// Whether a path is selected. The filter is not changed.
    pub fn matches(&self, path: &str) -> (r: bool)
        ensures
            portable_path(path@) ==> r == glob_matches(self@, path@),
    {
        glob_set_is_match(&self.set, path)
    }
}

} // verus!
