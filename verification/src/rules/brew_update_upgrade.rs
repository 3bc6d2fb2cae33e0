//! `brew update <formula>` should be `brew upgrade <formula>`.
use vstd::prelude::*;

use super::utils::{index_of_token, set_token};
use crate::text::{first_index, has_substring, lemma_first_index, str_contains};

verus! {

/// The fix: on Homebrew's complaint that `update` takes no formula names, the first `update`
/// token becomes `upgrade`.
pub open spec fn brew_update_upgrade_fix(cmd: Seq<Seq<char>>, error: Seq<char>) -> Option<
    Seq<Seq<char>>,
> {
    if !has_substring(error, "this command updates brew itself"@) {
        None
    } else {
        match first_index(cmd, "update"@) {
            Some(i) => Some(cmd.update(i, "upgrade"@)),
            None => None,
        }
    }
}

/// Replaces `brew update` with `brew upgrade` when trying to update a Homebrew package.
pub fn brew_update_upgrade(cmd: Vec<String>, error: &str) -> (res: Option<Vec<String>>)
    ensures
        res.deep_view() == brew_update_upgrade_fix(cmd.deep_view(), error@),
{
    if !str_contains(error, "this command updates brew itself") {
        return None;
    }
    match index_of_token(&cmd, "update") {
        Some(idx) => {
            let mut cmd = cmd;
            set_token(&mut cmd, idx, String::from_str("upgrade"));
            Some(cmd)
        },
        None => None,
    }
}

/// `upgrade` is proposed only on Homebrew's report that `update` updates brew itself, and then
/// exactly for a command with an `update` token: its first `update` token becomes `upgrade`.
pub proof fn lemma_brew_update_upgrade_law(cmd: Seq<Seq<char>>, error: Seq<char>)
    ensures
        !(has_substring(error, "this command updates brew itself"@)) ==> brew_update_upgrade_fix(cmd, error) is None,
        brew_update_upgrade_fix(cmd, error) is Some <==> (has_substring(error, "this command updates brew itself"@)) && cmd.contains("update"@),
        brew_update_upgrade_fix(cmd, error) matches Some(r) ==> exists|i: int|
            0 <= i < cmd.len() && cmd[i] == "update"@ && (forall|j: int| 0 <= j < i ==> cmd[j] != "update"@)
                && r == cmd.take(i) + seq!["upgrade"@] + cmd.skip(i + 1),
{
    lemma_first_index(cmd, "update"@);
    if let Some(r) = brew_update_upgrade_fix(cmd, error) {
        let i = first_index(cmd, "update"@)->0;
        assert(r =~= cmd.take(i) + seq!["upgrade"@] + cmd.skip(i + 1));
    }
}

} // verus!
