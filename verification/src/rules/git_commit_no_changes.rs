//! `git commit` with nothing staged: suggest `git commit -a`.
use vstd::prelude::*;

use super::utils::{index_of_token, insert_token, tokens_to_vec};
use crate::text::{first_index, has_substring, lemma_first_index, str_contains};

verus! {

/// The fix: when git reports no changes added to the commit, `-a` goes right after the first
/// `commit` token.
pub open spec fn git_commit_no_changes_fix(cmd: Seq<Seq<char>>, error: Seq<char>) -> Option<
    Seq<Seq<char>>,
> {
    if !has_substring(error, "no changes added to commit"@) {
        None
    } else {
        match first_index(cmd, "commit"@) {
            Some(i) => Some(cmd.insert(i + 1, "-a"@)),
            None => None,
        }
    }
}

/// Suggests using `git commit -a`.
pub fn git_commit_no_changes(cmd: &[String], error: &str) -> (res: Option<Vec<String>>)
    ensures
        res.deep_view() == git_commit_no_changes_fix(cmd.deep_view(), error@),
{
    if !str_contains(error, "no changes added to commit") {
        return None;
    }
    let mut res = tokens_to_vec(cmd);
    match index_of_token(&res, "commit") {
        Some(idx) => {
            insert_token(&mut res, idx + 1, String::from_str("-a"));
            Some(res)
        },
        None => None,
    }
}

/// `-a` is proposed only when git reported that no changes were added to the commit, and then
/// exactly for a command with a `commit` token: the command with `-a` right after its first
/// `commit` token, everything else unchanged.
pub proof fn lemma_git_commit_no_changes_law(cmd: Seq<Seq<char>>, error: Seq<char>)
    ensures
        !has_substring(error, "no changes added to commit"@) ==> git_commit_no_changes_fix(cmd, error)
            is None,
        git_commit_no_changes_fix(cmd, error) is Some <==> has_substring(
            error,
            "no changes added to commit"@,
        ) && cmd.contains("commit"@),
        git_commit_no_changes_fix(cmd, error) matches Some(r) ==> exists|i: int|
            0 <= i < cmd.len() && cmd[i] == "commit"@ && (forall|j: int| 0 <= j < i ==> cmd[j] != "commit"@)
                && r == cmd.take(i + 1) + seq!["-a"@] + cmd.skip(i + 1),
{
    lemma_first_index(cmd, "commit"@);
    if let Some(r) = git_commit_no_changes_fix(cmd, error) {
        let i = first_index(cmd, "commit"@)->0;
        assert(r =~= cmd.take(i + 1) + seq!["-a"@] + cmd.skip(i + 1));
    }
}

} // verus!
