//! The history of the front window of Terminal.app.
use vstd::prelude::*;

use super::QuickQuery;

verus! {

/// The AppleScript that reads the history of Terminal's selected tab.
pub const TERMINAL_SCRIPT: &'static str = r#"tell application "Terminal" to get history of selected tab of front window"#;

/// The query: `osascript` asks Terminal for the history of its selected tab.
pub fn query() -> (res: QuickQuery)
    ensures
        res.term_program@ == "Apple_Terminal"@,
        res.args.deep_view() == seq!["osascript"@, "-e"@, TERMINAL_SCRIPT@],
{
    let args = vec![
        String::from_str("osascript"),
        String::from_str("-e"),
        String::from_str(TERMINAL_SCRIPT),
    ];
    assert(args.deep_view() =~= seq!["osascript"@, "-e"@, TERMINAL_SCRIPT@]);
    QuickQuery { term_program: String::from_str("Apple_Terminal"), args }
}

} // verus!
