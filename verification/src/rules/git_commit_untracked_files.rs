//! `git commit` with untracked or unstaged files: stage everything first.
use vstd::prelude::*;

use super::utils::prepend_tokens;
use crate::text::{has_substring, str_contains};

verus! {

/// The fix: when git reports unstaged changes or untracked files, the command is preceded by
/// `git add -A &&`.
pub open spec fn git_commit_untracked_files_fix(cmd: Seq<Seq<char>>, error: Seq<char>) -> Option<
    Seq<Seq<char>>,
> {
    if !(has_substring(error, "no changes added to commit"@) || has_substring(
        error,
        "untracked files present"@,
    )) {
        None
    } else {
        Some(seq!["git"@, "add"@, "-A"@, "&&"@] + cmd)
    }
}

/// Suggests staging all files with `git add -A` before committing.
pub fn git_commit_untracked_files(cmd: Vec<String>, error: &str) -> (res: Option<Vec<String>>)
    ensures
        res.deep_view() == git_commit_untracked_files_fix(cmd.deep_view(), error@),
{
    if !(str_contains(error, "no changes added to commit") || str_contains(
        error,
        "untracked files present",
    )) {
        return None;
    }
    let new_cmd = vec![
        String::from_str("git"),
        String::from_str("add"),
        String::from_str("-A"),
        String::from_str("&&"),
    ];
    assert(new_cmd.deep_view() =~= seq!["git"@, "add"@, "-A"@, "&&"@]);
    Some(prepend_tokens(new_cmd, cmd))
}

/// `git add -A &&` is put before the command exactly when git reports unstaged changes or
/// untracked files; the command itself is kept whole.
pub proof fn lemma_git_commit_untracked_files_law(cmd: Seq<Seq<char>>, error: Seq<char>)
    ensures
        git_commit_untracked_files_fix(cmd, error) is Some <==> has_substring(
            error,
            "no changes added to commit"@,
        ) || has_substring(error, "untracked files present"@),
        git_commit_untracked_files_fix(cmd, error) matches Some(r) ==> r.len() == cmd.len() + 4
            && r.take(4) == seq!["git"@, "add"@, "-A"@, "&&"@] && r.skip(4) == cmd,
{
    if let Some(r) = git_commit_untracked_files_fix(cmd, error) {
        assert(r.take(4) =~= seq!["git"@, "add"@, "-A"@, "&&"@]);
        assert(r.skip(4) =~= cmd);
    }
}

} // verus!
