//! The scrollback of tmux.
use vstd::prelude::*;

use super::QuickQuery;
use crate::text::{decimal, decimal_string};

verus! {

/// The query: `tmux capture-pane -p -S -<depth>` prints the last `depth` lines of the pane.
pub fn query(depth: usize) -> (res: QuickQuery)
    ensures
        res.term_program@ == "tmux"@,
        res.args.deep_view() == seq!["tmux"@, "capture-pane"@, "-p"@, "-S"@, "-"@ + decimal(depth as nat)],
{
    let mut start = String::from_str("-");
    start.append(decimal_string(depth).as_str());
    let args = vec![
        String::from_str("tmux"),
        String::from_str("capture-pane"),
        String::from_str("-p"),
        String::from_str("-S"),
        start,
    ];
    assert(args.deep_view() =~= seq!["tmux"@, "capture-pane"@, "-p"@, "-S"@, "-"@ + decimal(depth as nat)]);
    QuickQuery { term_program: String::from_str("tmux"), args }
}

} // verus!
