//! Misspelled cargo subcommands.
use vstd::prelude::*;

use super::utils::{has_token, lemma_replace_named, replace_named, replace_named_token};
use crate::matching::{regex_group, regex_group_of};

verus! {

/// Finds the subcommand that cargo does not know.
pub const NO_SUCH_COMMAND: &'static str = r"no\ssuch\scommand:\s`([a-zA-Z-]+)`";

/// Finds the subcommand that cargo suggests instead.
pub const DID_YOU_MEAN: &'static str = r"did\syou\smean\s`([a-zA-Z-]+)`";

/// The fix: in a `cargo` command, the subcommand cargo does not know is replaced by the one it
/// suggests.
pub open spec fn cargo_wrong_command_fix(cmd: Seq<Seq<char>>, error: Seq<char>) -> Option<
    Seq<Seq<char>>,
> {
    if !cmd.contains("cargo"@) {
        None
    } else {
        replace_named(
            cmd,
            regex_group_of(NO_SUCH_COMMAND@, error, 1),
            regex_group_of(DID_YOU_MEAN@, error, 1),
        )
    }
}

/// Fixes misspelled cargo commands.
pub fn cargo_wrong_command(cmd: Vec<String>, error: &str) -> (res: Option<Vec<String>>)
    ensures
        res.deep_view() == cargo_wrong_command_fix(cmd.deep_view(), error@),
{
    if !has_token(&cmd, "cargo") {
        return None;
    }
    let old_cmd = regex_group(NO_SUCH_COMMAND, error, 1);
    let new_cmd = regex_group(DID_YOU_MEAN, error, 1);
    replace_named_token(cmd, old_cmd, new_cmd)
}

/// In a `cargo` command, the first token equal to the subcommand that cargo does not know is
/// replaced by the one it suggests; nothing is proposed unless both were found and that token is
/// there.
pub proof fn lemma_cargo_wrong_command_law(cmd: Seq<Seq<char>>, error: Seq<char>)
    ensures
        !(cmd.contains("cargo"@)) ==> cargo_wrong_command_fix(cmd, error) is None,
        cargo_wrong_command_fix(cmd, error) is Some <==> (cmd.contains("cargo"@)) && regex_group_of(NO_SUCH_COMMAND@, error, 1) is Some && regex_group_of(DID_YOU_MEAN@, error, 1) is Some && cmd.contains(
            regex_group_of(NO_SUCH_COMMAND@, error, 1)->0,
        ),
        cargo_wrong_command_fix(cmd, error) matches Some(r) ==> exists|i: int|
            0 <= i < cmd.len() && cmd[i] == regex_group_of(NO_SUCH_COMMAND@, error, 1)->0 && (forall|j: int| 0 <= j < i ==> cmd[j] != regex_group_of(NO_SUCH_COMMAND@, error, 1)->0)
                && r == cmd.take(i) + seq![regex_group_of(DID_YOU_MEAN@, error, 1)->0] + cmd.skip(i + 1),
{
    lemma_replace_named(cmd, regex_group_of(NO_SUCH_COMMAND@, error, 1), regex_group_of(DID_YOU_MEAN@, error, 1));
}

} // verus!
