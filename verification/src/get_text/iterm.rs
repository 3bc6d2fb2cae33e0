//! The contents of the current iTerm2 session.
use vstd::prelude::*;

use super::QuickQuery;

verus! {

/// The AppleScript that reads the current session of iTerm2.
pub const ITERM_SCRIPT: &'static str = r#"tell application "iTerm2" to get contents of current session of current window"#;

/// The query: `osascript` asks iTerm2 for the contents of its current session.
pub fn query() -> (res: QuickQuery)
    ensures
        res.term_program@ == "iTerm.app"@,
        res.args.deep_view() == seq!["osascript"@, "-e"@, ITERM_SCRIPT@],
{
    let args = vec![
        String::from_str("osascript"),
        String::from_str("-e"),
        String::from_str(ITERM_SCRIPT),
    ];
    assert(args.deep_view() =~= seq!["osascript"@, "-e"@, ITERM_SCRIPT@]);
    QuickQuery { term_program: String::from_str("iTerm.app"), args }
}

} // verus!
