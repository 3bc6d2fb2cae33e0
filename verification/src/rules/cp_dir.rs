//! `cp` of a directory needs `-R`.
use vstd::prelude::*;

use super::utils::{index_of_token, insert_token};
use crate::text::{first_index, has_substring, lemma_first_index, str_contains};

verus! {

/// The fix: when `cp` complains that a source is a directory, `-R` goes right after the first
/// `cp` token.
pub open spec fn cp_dir_fix(cmd: Seq<Seq<char>>, error: Seq<char>) -> Option<Seq<Seq<char>>> {
    if !has_substring(error, "cp"@) || !has_substring(error, "is a directory"@) {
        None
    } else {
        match first_index(cmd, "cp"@) {
            Some(i) => Some(cmd.insert(i + 1, "-R"@)),
            None => None,
        }
    }
}

/// Adds `-R` to `cp` when attempting to copy a directory.
pub fn cp_dir(cmd: Vec<String>, error: &str) -> (res: Option<Vec<String>>)
    ensures
        res.deep_view() == cp_dir_fix(cmd.deep_view(), error@),
{
    if !str_contains(error, "cp") || !str_contains(error, "is a directory") {
        return None;
    }
    match index_of_token(&cmd, "cp") {
        Some(idx) => {
            let mut cmd = cmd;
            insert_token(&mut cmd, idx + 1, String::from_str("-R"));
            Some(cmd)
        },
        None => None,
    }
}

/// `-R` is proposed only when the error names `cp` and reports a directory, and then exactly for a
/// command with a `cp` token: `-R` right after its first `cp` token.
pub proof fn lemma_cp_dir_law(cmd: Seq<Seq<char>>, error: Seq<char>)
    ensures
        !(has_substring(error, "cp"@) && has_substring(error, "is a directory"@)) ==> cp_dir_fix(cmd, error) is None,
        cp_dir_fix(cmd, error) is Some <==> (has_substring(error, "cp"@) && has_substring(error, "is a directory"@)) && cmd.contains("cp"@),
        cp_dir_fix(cmd, error) matches Some(r) ==> exists|i: int|
            0 <= i < cmd.len() && cmd[i] == "cp"@ && (forall|j: int| 0 <= j < i ==> cmd[j] != "cp"@)
                && r == cmd.take(i + 1) + seq!["-R"@] + cmd.skip(i + 1),
{
    lemma_first_index(cmd, "cp"@);
    if let Some(r) = cp_dir_fix(cmd, error) {
        let i = first_index(cmd, "cp"@)->0;
        assert(r =~= cmd.take(i + 1) + seq!["-R"@] + cmd.skip(i + 1));
    }
}

} // verus!
