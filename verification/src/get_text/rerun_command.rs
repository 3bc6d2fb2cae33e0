//! Running the failed command again to see its output.
use vstd::prelude::*;
use vstd::utf8::{decode_utf8, valid_utf8};

use super::{stdout_to_string, Error};

verus! {

/// The shell to run the command with: PowerShell where asked for, else `$SHELL`, else the
/// platform's default shell.
pub open spec fn shell_choice(powershell: bool, shell_var: Option<Seq<char>>, windows: bool) -> Seq<
    char,
> {
    if powershell {
        "pwsh"@
    } else {
        match shell_var {
            Some(s) => s,
            None => if windows {
                "cmd.exe"@
            } else {
                "/bin/sh"@
            },
        }
    }
}

/// Chooses the shell; `shell_var` is the `$SHELL` variable, where set, and `windows` tells whether
/// this is Windows.
pub fn select_shell(powershell: bool, shell_var: Option<String>, windows: bool) -> (res: String)
    ensures
        res@ == shell_choice(powershell, shell_var.deep_view(), windows),
{
    if powershell {
        return String::from_str("pwsh");
    }
    match shell_var {
        Some(s) => s,
        None => if windows {
            String::from_str("cmd.exe")
        } else {
            String::from_str("/bin/sh")
        },
    }
}

/// What running the command again tells: nothing to fix where it succeeded; otherwise its error
/// output and its standard output, in this order, as text. Either not being UTF-8 is an error,
/// the error output's first.
pub fn command_outcome(success: bool, stderr: Vec<u8>, stdout: Vec<u8>) -> (res: Result<
    Option<Vec<String>>,
    Error,
>)
    ensures
        success ==> res matches Ok(None),
        !success && valid_utf8(stderr@) && valid_utf8(stdout@) ==> (res matches Ok(Some(v))
            && v.deep_view() == seq![decode_utf8(stderr@), decode_utf8(stdout@)]),
        !success && !(valid_utf8(stderr@) && valid_utf8(stdout@)) ==> (res matches Err(e)
            && e is CmdOutput),
{
    if success {
        return Ok(None);
    }
    let err = match stdout_to_string(stderr) {
        Ok(s) => s,
        Err(e) => return Err(e),
    };
    let out = match stdout_to_string(stdout) {
        Ok(s) => s,
        Err(e) => return Err(e),
    };
    let ghost ev = err@;
    let ghost ov = out@;
    let v = vec![err, out];
    assert(v.deep_view() =~= seq![ev, ov]);
    Ok(Some(v))
}

} // verus!
