//! `mkdir` of a path with missing parents needs `-p`.
use vstd::prelude::*;

use super::utils::{index_of_token, insert_token};
use crate::text::{first_index, has_substring, lemma_first_index, str_contains};

verus! {

/// The fix: for a `mkdir` command that failed on a missing directory, `-p` goes right after the
/// first `mkdir` token.
pub open spec fn mkdir_missing_parent_fix(cmd: Seq<Seq<char>>, error: Seq<char>) -> Option<
    Seq<Seq<char>>,
> {
    match first_index(cmd, "mkdir"@) {
        None => None,
        Some(i) => if !has_substring(error, "no such file or directory"@) {
            None
        } else {
            Some(cmd.insert(i + 1, "-p"@))
        },
    }
}

/// Suggests `mkdir -p` to create missing in-between directories.
pub fn mkdir_missing_parent(cmd: Vec<String>, error: &str) -> (res: Option<Vec<String>>)
    ensures
        res.deep_view() == mkdir_missing_parent_fix(cmd.deep_view(), error@),
{
    let idx = match index_of_token(&cmd, "mkdir") {
        Some(idx) => idx,
        None => return None,
    };
    if !str_contains(error, "no such file or directory") {
        return None;
    }
    let mut cmd = cmd;
    insert_token(&mut cmd, idx + 1, String::from_str("-p"));
    Some(cmd)
}

/// `-p` is proposed only when the error reports a missing file or directory, and then exactly
/// for a command with a `mkdir` token: the command with `-p` right after its first `mkdir` token,
/// everything else unchanged.
pub proof fn lemma_mkdir_missing_parent_law(cmd: Seq<Seq<char>>, error: Seq<char>)
    ensures
        !has_substring(error, "no such file or directory"@) ==> mkdir_missing_parent_fix(cmd, error)
            is None,
        mkdir_missing_parent_fix(cmd, error) is Some <==> has_substring(
            error,
            "no such file or directory"@,
        ) && cmd.contains("mkdir"@),
        mkdir_missing_parent_fix(cmd, error) matches Some(r) ==> exists|i: int|
            0 <= i < cmd.len() && cmd[i] == "mkdir"@ && (forall|j: int| 0 <= j < i ==> cmd[j] != "mkdir"@)
                && r == cmd.take(i + 1) + seq!["-p"@] + cmd.skip(i + 1),
{
    lemma_first_index(cmd, "mkdir"@);
    if let Some(r) = mkdir_missing_parent_fix(cmd, error) {
        let i = first_index(cmd, "mkdir"@)->0;
        assert(r =~= cmd.take(i + 1) + seq!["-p"@] + cmd.skip(i + 1));
    }
}

} // verus!
