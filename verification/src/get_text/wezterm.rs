//! The scrollback of WezTerm.
use vstd::prelude::*;

use super::QuickQuery;
use crate::text::{decimal, decimal_string};

verus! {

/// The query: `wezterm cli get-text --start-line -<depth>` prints the last `depth` lines.
pub fn query(depth: usize) -> (res: QuickQuery)
    ensures
        res.term_program@ == "WezTerm"@,
        res.args.deep_view() == seq![
            "wezterm"@,
            "cli"@,
            "get-text"@,
            "--start-line"@,
            "-"@ + decimal(depth as nat),
        ],
{
    let mut start = String::from_str("-");
    start.append(decimal_string(depth).as_str());
    let args = vec![
        String::from_str("wezterm"),
        String::from_str("cli"),
        String::from_str("get-text"),
        String::from_str("--start-line"),
        start,
    ];
    assert(args.deep_view() =~= seq![
        "wezterm"@,
        "cli"@,
        "get-text"@,
        "--start-line"@,
        "-"@ + decimal(depth as nat),
    ]);
    QuickQuery { term_program: String::from_str("WezTerm"), args }
}

} // verus!
