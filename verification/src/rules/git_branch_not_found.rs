//! Checking out a branch that does not exist: suggest existing branches, or creating it.
use vstd::prelude::*;

use super::utils::{
    find_incorrect_arg,
    incorrect_arg,
    insert_token,
    lemma_incorrect_arg,
    substitute_all,
    substitute_token_all,
};
use crate::matching::regex_group_of;

verus! {

/// Finds the path specification that git did not know.
pub const UNKNOWN_PATHSPEC: &'static str = r"pathspec '([^']+)' did not match any file\(s\) known to git";

/// The fixes: the unknown name replaced, in turn, by each local branch, and then the command with
/// `-b` before the name, which creates the branch. Without the list of branches there are none.
pub open spec fn git_branch_not_found_fixes(
    cmd: Seq<Seq<char>>,
    error: Seq<char>,
    branches: Option<Seq<Seq<char>>>,
) -> Seq<Seq<Seq<char>>> {
    match incorrect_arg(UNKNOWN_PATHSPEC@, cmd, error) {
        None => Seq::empty(),
        Some(n) => match branches {
            None => Seq::empty(),
            Some(bs) => substitute_all(cmd, n, bs).push(cmd.insert(n, "-b"@)),
        },
    }
}

/// Suggests local branches, or creating the branch, when git does not know a checked-out name.
/// `branches` are the names of the local branches (`git for-each-ref refs/heads`), or `None`
/// where they could not be listed.
pub fn git_branch_not_found(cmd: Vec<String>, error: &str, branches: Option<Vec<String>>) -> (res: Vec<
    Vec<String>,
>)
    ensures
        res.deep_view() == git_branch_not_found_fixes(
            cmd.deep_view(),
            error@,
            branches.deep_view(),
        ),
{
    let n = match find_incorrect_arg(UNKNOWN_PATHSPEC, &cmd, error) {
        Some(n) => n,
        None => {
            let empty: Vec<Vec<String>> = Vec::new();
            assert(empty.deep_view() =~= Seq::<Seq<Seq<char>>>::empty());
            return empty;
        },
    };
    let branches = match branches {
        Some(b) => b,
        None => {
            let empty: Vec<Vec<String>> = Vec::new();
            assert(empty.deep_view() =~= Seq::<Seq<Seq<char>>>::empty());
            return empty;
        },
    };
    let mut res = substitute_token_all(&cmd, n, branches);
    let mut cmd = cmd;
    insert_token(&mut cmd, n, String::from_str("-b"));
    let ghost before = res.deep_view();
    res.push(cmd);
    assert(res.deep_view() =~= before.push(cmd.deep_view()));
    res
}

/// Only where git reports an unknown pathspec that is a token of the command, and the local
/// branches are known, fixes are proposed: one per branch, in order, with that token (its first
/// occurrence) replaced by the branch, and last the command with `-b` put before that token.
pub proof fn lemma_git_branch_not_found_law(
    cmd: Seq<Seq<char>>,
    error: Seq<char>,
    branches: Option<Seq<Seq<char>>>,
)
    ensures
        !(regex_group_of(UNKNOWN_PATHSPEC@, error, 1) is Some && cmd.contains(
            regex_group_of(UNKNOWN_PATHSPEC@, error, 1)->0,
        )) ==> git_branch_not_found_fixes(cmd, error, branches).len() == 0,
        branches is None ==> git_branch_not_found_fixes(cmd, error, branches).len() == 0,
        git_branch_not_found_fixes(cmd, error, branches).len() > 0 ==> exists|i: int|
            0 <= i < cmd.len() && cmd[i] == regex_group_of(UNKNOWN_PATHSPEC@, error, 1)->0 && (forall|j: int|
                0 <= j < i ==> cmd[j] != regex_group_of(UNKNOWN_PATHSPEC@, error, 1)->0) && {
                let fixes = git_branch_not_found_fixes(cmd, error, branches);
                let bs = branches->0;
                &&& fixes.len() == bs.len() + 1
                &&& forall|k: int| 0 <= k < bs.len() ==> #[trigger] fixes[k] == cmd.update(i, bs[k])
                &&& fixes[bs.len() as int] == cmd.take(i) + seq!["-b"@] + cmd.skip(i)
            },
{
    lemma_incorrect_arg(UNKNOWN_PATHSPEC@, cmd, error);
    if let Some(i) = incorrect_arg(UNKNOWN_PATHSPEC@, cmd, error) {
        assert(cmd.insert(i, "-b"@) =~= cmd.take(i) + seq!["-b"@] + cmd.skip(i));
    }
}

} // verus!
