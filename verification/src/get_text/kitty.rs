//! The scrollback of kitty, through its remote control.
use vstd::prelude::*;

use super::{command_output, find_command_output, stdout_to_string, utf8_text};

verus! {

/// The arguments of `kitty`: with shell integration kitty knows the last command's output,
/// otherwise the whole scrollback is read.
pub fn args(shell_integration: bool) -> (res: Vec<String>)
    ensures
        res.deep_view() == seq![
            "@"@,
            "get-text"@,
            "--extent"@,
            if shell_integration {
                "last_cmd_output"@
            } else {
                "all"@
            },
        ],
{
    let extent = if shell_integration {
        String::from_str("last_cmd_output")
    } else {
        String::from_str("all")
    };
    let ghost ev = extent@;
    let res = vec![
        String::from_str("@"),
        String::from_str("get-text"),
        String::from_str("--extent"),
        extent,
    ];
    assert(res.deep_view() =~= seq!["@"@, "get-text"@, "--extent"@, ev]);
    res
}

/// The command's output from what kitty printed: all of it with shell integration, otherwise
/// what follows the command in the scrollback.
pub fn output_text(shell_integration: bool, cmd: &str, stdout: Vec<u8>, depth: usize) -> (res:
    Option<String>)
    ensures
        res.deep_view() == if shell_integration {
            utf8_text(stdout@)
        } else {
            command_output(cmd@, stdout@, depth as nat)
        },
{
    if shell_integration {
        match stdout_to_string(stdout) {
            Ok(s) => Some(s),
            Err(_) => None,
        }
    } else {
        find_command_output(cmd, stdout, depth)
    }
}

} // verus!
