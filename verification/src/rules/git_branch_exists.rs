//! `git checkout -b` of a branch that exists: check it out instead.
use vstd::prelude::*;

use super::utils::{index_of_token, remove_token};
use crate::matching::{regex_is_match, regex_matches_of};
use crate::text::{first_index, lemma_first_index};

verus! {

/// Recognizes git's report that the branch already exists.
pub const BRANCH_EXISTS: &'static str = r"a branch named '[^']+' already exists";

/// The command without its first `-b` token, where the error was recognized and there is one.
pub open spec fn drop_branch_flag(cmd: Seq<Seq<char>>, recognized: bool) -> Option<Seq<Seq<char>>> {
    if !recognized {
        None
    } else {
        match first_index(cmd, "-b"@) {
            Some(n) => Some(cmd.remove(n)),
            None => None,
        }
    }
}

/// The fix: when git reports that the branch already exists, `-b` is dropped.
pub open spec fn git_branch_exists_fix(cmd: Seq<Seq<char>>, error: Seq<char>) -> Option<
    Seq<Seq<char>>,
> {
    drop_branch_flag(cmd, regex_matches_of(BRANCH_EXISTS@, error))
}

/// Drops the first `-b` token, where the error was recognized.
pub fn drop_branch_flag_command(cmd: Vec<String>, recognized: bool) -> (res: Option<Vec<String>>)
    ensures
        res.deep_view() == drop_branch_flag(cmd.deep_view(), recognized),
{
    if !recognized {
        return None;
    }
    match index_of_token(&cmd, "-b") {
        Some(n) => {
            let mut cmd = cmd;
            remove_token(&mut cmd, n);
            Some(cmd)
        },
        None => None,
    }
}

/// Checks out an existing branch instead of creating it again.
pub fn git_branch_exists(cmd: Vec<String>, error: &str) -> (res: Option<Vec<String>>)
    ensures
        res.deep_view() == git_branch_exists_fix(cmd.deep_view(), error@),
{
    let recognized = regex_is_match(BRANCH_EXISTS, error);
    drop_branch_flag_command(cmd, recognized)
}

/// `-b` is dropped only when git reported that the branch already exists, and then exactly for a
/// command with a `-b` token: the command without its first `-b` token, everything else unchanged.
pub proof fn lemma_git_branch_exists_law(cmd: Seq<Seq<char>>, error: Seq<char>)
    ensures
        !regex_matches_of(BRANCH_EXISTS@, error) ==> git_branch_exists_fix(cmd, error) is None,
        git_branch_exists_fix(cmd, error) is Some <==> regex_matches_of(BRANCH_EXISTS@, error)
            && cmd.contains("-b"@),
        git_branch_exists_fix(cmd, error) matches Some(r) ==> exists|i: int|
            0 <= i < cmd.len() && cmd[i] == "-b"@ && (forall|j: int| 0 <= j < i ==> cmd[j] != "-b"@) && r
                == cmd.take(i) + cmd.skip(i + 1),
{
    lemma_first_index(cmd, "-b"@);
    if let Some(r) = git_branch_exists_fix(cmd, error) {
        let i = first_index(cmd, "-b"@)->0;
        assert(r =~= cmd.take(i) + cmd.skip(i + 1));
    }
}

} // verus!
