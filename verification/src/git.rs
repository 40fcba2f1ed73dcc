//! Turning the output of `git branch --show-current` into a branch name.
use crate::errors::{error_of, Error, ErrorView};
use crate::text::{trim, trimmed};
use vstd::prelude::*;

verus! {

/// The branch that `git branch --show-current` reported, or why there is
/// none: a failed run reports its trimmed stderr, and an empty answer means
/// a detached HEAD.
pub open spec fn branch_of(exit_ok: bool, stdout: Seq<char>, stderr: Seq<char>) -> Result<
    Seq<char>,
    ErrorView,
> {
    if !exit_ok {
        Err(error_of("git"@, trimmed(stderr)))
    } else if trimmed(stdout).len() == 0 {
        Err(error_of("git"@, "not on a branch (detached HEAD)"@))
    } else {
        Ok(trimmed(stdout))
    }
}

/// The view of a text result.
pub open spec fn text_result(r: Result<String, Error>) -> Result<Seq<char>, ErrorView> {
    match r {
        Ok(s) => Ok(s@),
        Err(e) => Err(e@),
    }
}

/// Map the output of `git branch --show-current` to a branch or an error.
pub fn parse_branch_output(exit_ok: bool, stdout: &str, stderr: &str) -> (r: Result<String, Error>)
    ensures
        text_result(r) == branch_of(exit_ok, stdout@, stderr@),
{
    if !exit_ok {
        let message = trim(stderr);
        return Err(Error::new("git", message.as_str()));
    }
    let branch = trim(stdout);
    if branch.as_str().is_empty() {
        return Err(Error::new("git", "not on a branch (detached HEAD)"));
    }
    Ok(branch)
}

} // verus!
