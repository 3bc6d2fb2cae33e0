//! Commands refused for lack of permission: prepend `sudo`.
use vstd::prelude::*;

use super::utils::insert_token;
use crate::text::{has_substring, str_contains};

verus! {

/// The error reports that permission was missing.
pub open spec fn permission_denied(error: Seq<char>) -> bool {
    has_substring(error, "permission denied"@) || has_substring(error, "operation not permitted"@)
}

/// The fix: `sudo` is put in front of a command that was refused for lack of permission. An empty
/// command gets no fix.
pub open spec fn sudo_fix(cmd: Seq<Seq<char>>, error: Seq<char>) -> Option<Seq<Seq<char>>> {
    if cmd.len() > 0 && permission_denied(error) {
        Some(cmd.insert(0, "sudo"@))
    } else {
        None
    }
}

/// Prepends `sudo` when permission to execute a command was denied.
pub fn sudo(cmd: Vec<String>, error: &str) -> (res: Option<Vec<String>>)
    ensures
        res.deep_view() == sudo_fix(cmd.deep_view(), error@),
{
    if cmd.len() == 0 {
        return None;
    }
    if !(str_contains(error, "permission denied") || str_contains(error, "operation not permitted")) {
        return None;
    }
    let mut cmd = cmd;
    insert_token(&mut cmd, 0, String::from_str("sudo"));
    Some(cmd)
}

/// `sudo` is put before a command exactly when the command has a token and the error reports
/// missing permission; the command itself is kept whole.
pub proof fn lemma_sudo_law(cmd: Seq<Seq<char>>, error: Seq<char>)
    ensures
        !(has_substring(error, "permission denied"@) || has_substring(error, "operation not permitted"@))
            ==> sudo_fix(cmd, error) is None,
        sudo_fix(cmd, error) is Some <==> cmd.len() > 0 && (has_substring(error, "permission denied"@)
            || has_substring(error, "operation not permitted"@)),
        sudo_fix(cmd, error) matches Some(r) ==> r == seq!["sudo"@] + cmd,
{
    if let Some(r) = sudo_fix(cmd, error) {
        assert(r =~= seq!["sudo"@] + cmd);
    }
}

} // verus!
