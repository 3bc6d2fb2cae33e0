//! `cp` with a single argument: copy to the current directory.
use vstd::prelude::*;

use super::utils::{has_token, push_token};
use crate::text::{has_substring, str_contains};

verus! {

/// The fix: a `cp` command whose error shows the usage or names a missing operand gets `.`
/// appended.
pub open spec fn cp_cwd_fix(cmd: Seq<Seq<char>>, error: Seq<char>) -> Option<Seq<Seq<char>>> {
    if !cmd.contains("cp"@) || !(has_substring(error, "usage"@) || has_substring(error, "operand"@)) {
        None
    } else {
        Some(cmd.push("."@))
    }
}

/// `cp` came with only one argument: maybe the target is the current directory.
pub fn cp_cwd(cmd: Vec<String>, error: &str) -> (res: Option<Vec<String>>)
    ensures
        res.deep_view() == cp_cwd_fix(cmd.deep_view(), error@),
{
    if !has_token(&cmd, "cp") || !(str_contains(error, "usage") || str_contains(error, "operand")) {
        return None;
    }
    let mut cmd = cmd;
    push_token(&mut cmd, String::from_str("."));
    Some(cmd)
}

/// `.` is appended exactly to a `cp` command whose error shows the usage or names an operand.
pub proof fn lemma_cp_cwd_law(cmd: Seq<Seq<char>>, error: Seq<char>)
    ensures
        cp_cwd_fix(cmd, error) is Some <==> cmd.contains("cp"@) && (has_substring(error, "usage"@)
            || has_substring(error, "operand"@)),
        cp_cwd_fix(cmd, error) matches Some(r) ==> r == cmd + seq!["."@],
{
    assert(cmd.push("."@) =~= cmd + seq!["."@]);
}

} // verus!
