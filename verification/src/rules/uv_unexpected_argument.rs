//! Misspelled arguments of the `uv` Python package manager.
use vstd::prelude::*;

use super::utils::{has_token, lemma_replace_named, replace_named, replace_named_token};
use crate::matching::{regex_group, regex_group_of};

verus! {

/// Finds the argument that `uv` does not know.
pub const UNEXPECTED_ARGUMENT: &'static str = r"unexpected\sargument\s'([a-zA-Z-]+)'\sfound";

/// Finds the argument that `uv` suggests instead.
pub const SIMILAR_ARGUMENT: &'static str = r"similar\sargument\sexists:\s'([a-zA-Z-]+)'";

/// The fix: in a `uv` command, the unexpected argument is replaced by the similar one `uv`
/// suggests.
pub open spec fn uv_unexpected_argument_fix(cmd: Seq<Seq<char>>, err: Seq<char>) -> Option<
    Seq<Seq<char>>,
> {
    if !cmd.contains("uv"@) {
        None
    } else {
        replace_named(
            cmd,
            regex_group_of(UNEXPECTED_ARGUMENT@, err, 1),
            regex_group_of(SIMILAR_ARGUMENT@, err, 1),
        )
    }
}

/// Fixes typos in arguments for the `uv` Python package manager.
pub fn uv_unexpected_argument(cmd: Vec<String>, err: &str) -> (res: Option<Vec<String>>)
    ensures
        res.deep_view() == uv_unexpected_argument_fix(cmd.deep_view(), err@),
{
    if !has_token(&cmd, "uv") {
        return None;
    }
    let old_argument = regex_group(UNEXPECTED_ARGUMENT, err, 1);
    let new_argument = regex_group(SIMILAR_ARGUMENT, err, 1);
    replace_named_token(cmd, old_argument, new_argument)
}

/// In a `uv` command, the first token equal to the argument `uv` did not expect is replaced by
/// the similar one it suggests; nothing is proposed unless both were found and that token is
/// there.
pub proof fn lemma_uv_unexpected_argument_law(cmd: Seq<Seq<char>>, error: Seq<char>)
    ensures
        !(cmd.contains("uv"@)) ==> uv_unexpected_argument_fix(cmd, error) is None,
        uv_unexpected_argument_fix(cmd, error) is Some <==> (cmd.contains("uv"@)) && regex_group_of(UNEXPECTED_ARGUMENT@, error, 1) is Some && regex_group_of(SIMILAR_ARGUMENT@, error, 1) is Some && cmd.contains(
            regex_group_of(UNEXPECTED_ARGUMENT@, error, 1)->0,
        ),
        uv_unexpected_argument_fix(cmd, error) matches Some(r) ==> exists|i: int|
            0 <= i < cmd.len() && cmd[i] == regex_group_of(UNEXPECTED_ARGUMENT@, error, 1)->0 && (forall|j: int| 0 <= j < i ==> cmd[j] != regex_group_of(UNEXPECTED_ARGUMENT@, error, 1)->0)
                && r == cmd.take(i) + seq![regex_group_of(SIMILAR_ARGUMENT@, error, 1)->0] + cmd.skip(i + 1),
{
    lemma_replace_named(cmd, regex_group_of(UNEXPECTED_ARGUMENT@, error, 1), regex_group_of(SIMILAR_ARGUMENT@, error, 1));
}

} // verus!
