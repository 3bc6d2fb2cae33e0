//! Misspelled git subcommands.
use vstd::prelude::*;

use super::utils::{lemma_replace_named, replace_named, replace_named_token};
use crate::matching::{regex_group, regex_group_of};
use crate::text::{has_substring, str_contains};

verus! {

/// Finds the subcommand that git does not know.
pub const NOT_A_GIT_COMMAND: &'static str = r"'([a-zA-Z0-9-]+)'\sis\snot\sa\sgit\scommand";

/// Finds the subcommand that git suggests instead.
pub const SIMILAR_COMMAND: &'static str = r"similar\scommand\sis\s*([a-zA-Z0-9-]+)";

/// The fix: when git reports an unknown subcommand, it is replaced by the most similar one git
/// names.
pub open spec fn git_wrong_command_fix(cmd: Seq<Seq<char>>, error: Seq<char>) -> Option<
    Seq<Seq<char>>,
> {
    if !has_substring(error, "not a git command"@) {
        None
    } else {
        replace_named(
            cmd,
            regex_group_of(NOT_A_GIT_COMMAND@, error, 1),
            regex_group_of(SIMILAR_COMMAND@, error, 1),
        )
    }
}

/// Fixes misspelled git commands.
pub fn git_wrong_command(cmd: Vec<String>, error: &str) -> (res: Option<Vec<String>>)
    ensures
        res.deep_view() == git_wrong_command_fix(cmd.deep_view(), error@),
{
    if !str_contains(error, "not a git command") {
        return None;
    }
    let old_cmd = regex_group(NOT_A_GIT_COMMAND, error, 1);
    let new_cmd = regex_group(SIMILAR_COMMAND, error, 1);
    replace_named_token(cmd, old_cmd, new_cmd)
}

/// Only where git reports that something is not a git command, the first token equal to the
/// unknown subcommand is replaced by the similar one git names; nothing is proposed unless both
/// were found and that token is there.
pub proof fn lemma_git_wrong_command_law(cmd: Seq<Seq<char>>, error: Seq<char>)
    ensures
        !(has_substring(error, "not a git command"@)) ==> git_wrong_command_fix(cmd, error) is None,
        git_wrong_command_fix(cmd, error) is Some <==> (has_substring(error, "not a git command"@)) && regex_group_of(NOT_A_GIT_COMMAND@, error, 1) is Some && regex_group_of(SIMILAR_COMMAND@, error, 1) is Some && cmd.contains(
            regex_group_of(NOT_A_GIT_COMMAND@, error, 1)->0,
        ),
        git_wrong_command_fix(cmd, error) matches Some(r) ==> exists|i: int|
            0 <= i < cmd.len() && cmd[i] == regex_group_of(NOT_A_GIT_COMMAND@, error, 1)->0 && (forall|j: int| 0 <= j < i ==> cmd[j] != regex_group_of(NOT_A_GIT_COMMAND@, error, 1)->0)
                && r == cmd.take(i) + seq![regex_group_of(SIMILAR_COMMAND@, error, 1)->0] + cmd.skip(i + 1),
{
    lemma_replace_named(cmd, regex_group_of(NOT_A_GIT_COMMAND@, error, 1), regex_group_of(SIMILAR_COMMAND@, error, 1));
}

} // verus!
