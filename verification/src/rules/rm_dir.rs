//! `rm` of a directory needs `-r`.
use vstd::prelude::*;

use super::utils::{index_of_token, insert_token};
use crate::text::{first_index, has_substring, lemma_first_index, str_contains};

verus! {

/// The fix: for an `rm` command that refused a directory, `-r` goes right after the first `rm`
/// token.
pub open spec fn rm_dir_fix(cmd: Seq<Seq<char>>, error: Seq<char>) -> Option<Seq<Seq<char>>> {
    match first_index(cmd, "rm"@) {
        None => None,
        Some(i) => if !has_substring(error, "is a directory"@) {
            None
        } else {
            Some(cmd.insert(i + 1, "-r"@))
        },
    }
}

/// Adds `-r` to `rm` when trying to remove a directory.
pub fn rm_dir(cmd: Vec<String>, error: &str) -> (res: Option<Vec<String>>)
    ensures
        res.deep_view() == rm_dir_fix(cmd.deep_view(), error@),
{
    let idx = match index_of_token(&cmd, "rm") {
        Some(idx) => idx,
        None => return None,
    };
    if !str_contains(error, "is a directory") {
        return None;
    }
    let mut cmd = cmd;
    insert_token(&mut cmd, idx + 1, String::from_str("-r"));
    Some(cmd)
}

/// `-r` is proposed only when the error reports a directory, and then exactly for a command with
/// an `rm` token: `-r` right after its first `rm` token.
pub proof fn lemma_rm_dir_law(cmd: Seq<Seq<char>>, error: Seq<char>)
    ensures
        !(has_substring(error, "is a directory"@)) ==> rm_dir_fix(cmd, error) is None,
        rm_dir_fix(cmd, error) is Some <==> (has_substring(error, "is a directory"@)) && cmd.contains("rm"@),
        rm_dir_fix(cmd, error) matches Some(r) ==> exists|i: int|
            0 <= i < cmd.len() && cmd[i] == "rm"@ && (forall|j: int| 0 <= j < i ==> cmd[j] != "rm"@)
                && r == cmd.take(i + 1) + seq!["-r"@] + cmd.skip(i + 1),
{
    lemma_first_index(cmd, "rm"@);
    if let Some(r) = rm_dir_fix(cmd, error) {
        let i = first_index(cmd, "rm"@)->0;
        assert(r =~= cmd.take(i + 1) + seq!["-r"@] + cmd.skip(i + 1));
    }
}

} // verus!
