//! The ignore-rule veto. The rules come from a version-control ignore file
//! that the surrounding binary loads; evaluating them may consult the file
//! system, so nothing pins the verdict down: callers treat it as an
//! arbitrary boolean and are verified for every value of it.

use vstd::prelude::*;

verus! {

#[verifier::external_type_specification]
#[verifier::external_body]
pub struct ExGitignoreFile<'a>(gitignore::File<'a>);

/// Relies on gitignore::File::is_excluded: whether the loaded rules exclude
/// `path`. The verdict depends on the rule file and on the file system, so
/// no clause states it; a failure to evaluate counts as "not excluded"
/// (fail-open), as does any error the call returns.
#[verifier::external_body]
pub(crate) fn is_excluded_fail_open(rules: &gitignore::File<'_>, path: &str) -> bool {
    rules.is_excluded(std::path::Path::new(path)).unwrap_or(false)
}

} // verus!
