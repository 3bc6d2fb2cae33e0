//! `git add -a` should be `git add -A`.
use vstd::prelude::*;

use super::utils::{has_token, index_of_token, set_token};
use crate::text::{first_index, has_substring, lemma_first_index, str_contains};

verus! {

/// The fix: in a `git add` command that git refused for an unknown switch, the first `-a` token
/// becomes `-A`.
pub open spec fn git_add_all_lowercase_fix(cmd: Seq<Seq<char>>, error: Seq<char>) -> Option<
    Seq<Seq<char>>,
> {
    if !cmd.contains("git"@) || !cmd.contains("add"@) || !has_substring(error, "unknown switch"@) {
        None
    } else {
        match first_index(cmd, "-a"@) {
            Some(i) => Some(cmd.update(i, "-A"@)),
            None => None,
        }
    }
}

/// Corrects `git add -a` to `git add -A`.
pub fn git_add_all_lowercase(cmd: Vec<String>, error: &str) -> (res: Option<Vec<String>>)
    ensures
        res.deep_view() == git_add_all_lowercase_fix(cmd.deep_view(), error@),
{
    if !has_token(&cmd, "git") || !has_token(&cmd, "add") || !str_contains(error, "unknown switch") {
        return None;
    }
    match index_of_token(&cmd, "-a") {
        Some(idx) => {
            let mut cmd = cmd;
            set_token(&mut cmd, idx, String::from_str("-A"));
            Some(cmd)
        },
        None => None,
    }
}

/// `-A` is proposed only for a `git add` command that git refused for an unknown switch, and then
/// exactly where the command has a `-a` token: its first `-a` token becomes `-A`.
pub proof fn lemma_git_add_all_lowercase_law(cmd: Seq<Seq<char>>, error: Seq<char>)
    ensures
        !(cmd.contains("git"@) && cmd.contains("add"@) && has_substring(error, "unknown switch"@)) ==> git_add_all_lowercase_fix(cmd, error) is None,
        git_add_all_lowercase_fix(cmd, error) is Some <==> (cmd.contains("git"@) && cmd.contains("add"@) && has_substring(error, "unknown switch"@)) && cmd.contains("-a"@),
        git_add_all_lowercase_fix(cmd, error) matches Some(r) ==> exists|i: int|
            0 <= i < cmd.len() && cmd[i] == "-a"@ && (forall|j: int| 0 <= j < i ==> cmd[j] != "-a"@)
                && r == cmd.take(i) + seq!["-A"@] + cmd.skip(i + 1),
{
    lemma_first_index(cmd, "-a"@);
    if let Some(r) = git_add_all_lowercase_fix(cmd, error) {
        let i = first_index(cmd, "-a"@)->0;
        assert(r =~= cmd.take(i) + seq!["-A"@] + cmd.skip(i + 1));
    }
}

} // verus!
