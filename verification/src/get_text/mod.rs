//! Getting the output of the failed command: from a terminal's scrollback, or by running the
//! command again.
use vstd::prelude::*;
use vstd::utf8::{decode_utf8, valid_utf8};

pub mod iterm;
pub mod kitty;
pub mod macos_terminal;
pub mod rerun_command;
pub mod tmux;
pub mod wezterm;
pub mod zellij;

use crate::matching::{regex_is_match, regex_matches_of};
use crate::text::{
    chars_of,
    ends_with,
    ends_with_chars,
    has_substring,
    contains_chars,
    join,
    join_chars,
    lemma_chars_deep_view,
    lines,
    lines_chars,
    string_of,
    trim,
    trim_chars,
    trim_end,
    trim_end_chars,
};

verus! {

/// Declares `std::string::FromUtf8Error` for use in signatures.
#[verifier::external_type_specification]
#[verifier::external_body]
pub struct ExFromUtf8Error(std::string::FromUtf8Error);

/// Declares `std::io::Error` for use in signatures.
#[verifier::external_type_specification]
#[verifier::external_body]
pub struct ExIoError(std::io::Error);

/// How the output of the failed command is looked for.
pub struct Config {
    /// Look in the scrollback of the terminal or multiplexer first.
    pub quick: bool,
    /// The number of lines to scan from the scrollback buffer.
    pub depth: usize,
    /// The shell is PowerShell.
    pub powershell: bool,
}

/// Why the output of the failed command could not be had.
pub enum Error {
    /// There is no `$SHELL` variable.
    Shell,
    /// The failing command could not be run again (the `$SHELL` variable may be wrong).
    ReRun(std::io::Error),
    /// The output of the command is not valid UTF-8 text.
    CmdOutput(std::string::FromUtf8Error),
}

/// A terminal or multiplexer whose scrollback can be read.
#[derive(Clone, Copy, Debug, PartialEq, Eq, Structural)]
pub enum TextSource {
    Tmux,
    Zellij,
    Kitty,
    WezTerm,
    ITerm,
    MacosTerminal,
}

/// A generic scrollback query: it applies where the `TERM_PROGRAM` variable is `term_program`,
/// and runs `args` (the program first) to print the scrollback.
pub struct QuickQuery {
    pub term_program: String,
    pub args: Vec<String>,
}

/// The sources to try, in order: the terminal multiplexers (tmux, zellij) first, then the terminal
/// emulators, each group in alphanumeric order; none where quick search is disabled.
pub open spec fn source_order(quick: bool) -> Seq<TextSource> {
    if quick {
        seq![
            TextSource::Tmux,
            TextSource::Zellij,
            TextSource::Kitty,
            TextSource::WezTerm,
            TextSource::ITerm,
            TextSource::MacosTerminal,
        ]
    } else {
        Seq::empty()
    }
}

/// The scrollback sources to try, in order, before running the command again.
pub fn quick_sources(config: &Config) -> (res: Vec<TextSource>)
    ensures
        res@ == source_order(config.quick),
{
    if config.quick {
        let res = vec![
            TextSource::Tmux,
            TextSource::Zellij,
            TextSource::Kitty,
            TextSource::WezTerm,
            TextSource::ITerm,
            TextSource::MacosTerminal,
        ];
        assert(res@ =~= source_order(true));
        res
    } else {
        let res: Vec<TextSource> = Vec::new();
        assert(res@ =~= source_order(false));
        res
    }
}

/// The next step of the quick search for the output of a failed command.
pub enum QuickStep {
    /// Ask this source for the output.
    Query(TextSource),
    /// A source answered with this output: the search is over.
    Found(String),
    /// No source answered: run the command again.
    Rerun,
}

/// Decides the next step of the quick search over `sources`, of which the first `tried` were
/// asked, the last of them answering `answer` (`None` before the first one is asked): the first
/// answer wins; otherwise the next source is asked, and when none is left the command is run
/// again.
pub fn next_quick_step(sources: &Vec<TextSource>, tried: usize, answer: Option<String>) -> (res:
    QuickStep)
    requires
        tried <= sources.len(),
    ensures
        answer matches Some(o) ==> res == QuickStep::Found(o),
        answer is None && tried < sources.len() ==> res == QuickStep::Query(sources@[tried as int]),
        answer is None && tried == sources.len() ==> res is Rerun,
{
    match answer {
        Some(o) => QuickStep::Found(o),
        None => if tried < sources.len() {
            QuickStep::Query(sources[tried])
        } else {
            QuickStep::Rerun
        },
    }
}

/// The text of `bytes` where they are valid UTF-8.
pub open spec fn utf8_text(bytes: Seq<u8>) -> Option<Seq<char>> {
    if valid_utf8(bytes) {
        Some(decode_utf8(bytes))
    } else {
        None
    }
}

/// Decodes `bytes` with `String::from_utf8`, which, as its documentation says, succeeds exactly
/// on valid UTF-8 and then holds the characters that the bytes encode.
#[verifier::external_body]
fn from_utf8(bytes: Vec<u8>) -> (res: Result<String, std::string::FromUtf8Error>)
    ensures
        res is Ok <==> valid_utf8(bytes@),
        res matches Ok(s) ==> s@ == decode_utf8(bytes@),
{
    String::from_utf8(bytes)
}

/// The output of a command as text; an error where it is not valid UTF-8.
pub fn stdout_to_string(stdout: Vec<u8>) -> (res: Result<String, Error>)
    ensures
        res is Ok <==> valid_utf8(stdout@),
        res matches Ok(s) ==> s@ == decode_utf8(stdout@),
        res matches Err(e) ==> e is CmdOutput,
{
    match from_utf8(stdout) {
        Ok(s) => Ok(s),
        Err(e) => Err(Error::CmdOutput(e)),
    }
}

/// Recognizes the line under a command that fish underlines in an error report.
pub const FISH_ERROR_HIGHLIGHT: &'static str = r"\^~+\^";

/// Line `i` of the scrollback `ls` shows the command `c` being typed: it ends with the command,
/// it is not a report about it (`...: <c>`), and the next line is not `underlined` (an underline
/// that fish draws below a command in an error report).
pub open spec fn is_command_line(ls: Seq<Seq<char>>, c: Seq<char>, underlined: Seq<bool>, i: int) -> bool {
    &&& ends_with(ls[i], c)
    &&& !ends_with(ls[i], ": "@ + c)
    &&& !(i + 1 < ls.len() && underlined[i + 1])
}

/// The last command line among lines `lo .. hi`.
pub open spec fn last_command_line(
    ls: Seq<Seq<char>>,
    c: Seq<char>,
    underlined: Seq<bool>,
    lo: int,
    hi: int,
) -> Option<int>
    decreases hi - lo,
{
    if hi <= lo {
        None
    } else if is_command_line(ls, c, underlined, hi - 1) {
        Some(hi - 1)
    } else {
        last_command_line(ls, c, underlined, lo, hi - 1)
    }
}

/// The output of the command `c` in the scrollback lines `ls`: the lines after the last line,
/// among the `depth` last ones, that shows `c` being typed. Where that line is the very last one,
/// the whole scrollback is taken.
pub open spec fn output_after(
    ls: Seq<Seq<char>>,
    c: Seq<char>,
    underlined: Seq<bool>,
    depth: nat,
) -> Option<Seq<char>> {
    let lo = if depth < ls.len() {
        ls.len() - depth
    } else {
        0
    };
    match last_command_line(ls, c, underlined, lo, ls.len() as int) {
        Some(i) => {
            let first = if i == ls.len() - 1 {
                0
            } else {
                i + 1
            };
            Some(join(ls.skip(first), "\n"@))
        },
        None => None,
    }
}

/// `last_command_line` finds the last command line among lines `lo .. hi`, and finds none only
/// where there is none.
proof fn lemma_last_command_line(ls: Seq<Seq<char>>, c: Seq<char>, underlined: Seq<bool>, lo: int, hi: int)
    ensures
        match last_command_line(ls, c, underlined, lo, hi) {
            Some(i) => lo <= i < hi && is_command_line(ls, c, underlined, i) && forall|j: int|
                i < j < hi ==> !#[trigger] is_command_line(ls, c, underlined, j),
            None => forall|j: int| lo <= j < hi ==> !#[trigger] is_command_line(ls, c, underlined, j),
        },
    decreases hi - lo,
{
    if hi > lo && !is_command_line(ls, c, underlined, hi - 1) {
        lemma_last_command_line(ls, c, underlined, lo, hi - 1);
    }
}

/// The output is taken after the last line, among the `depth` last ones, that shows the command
/// `c` being typed (the whole scrollback where that line is the very last one), and there is none
/// where no scanned line shows it.
pub proof fn lemma_output_after_last_command(
    ls: Seq<Seq<char>>,
    c: Seq<char>,
    underlined: Seq<bool>,
    depth: nat,
    i: int,
)
    ensures
        (forall|j: int|
            (if depth < ls.len() { ls.len() - depth } else { 0 }) <= j < ls.len()
                ==> !#[trigger] is_command_line(ls, c, underlined, j)) ==> output_after(
            ls,
            c,
            underlined,
            depth,
        ) is None,
        (if depth < ls.len() { ls.len() - depth } else { 0 }) <= i < ls.len() && is_command_line(
            ls,
            c,
            underlined,
            i,
        ) && (forall|j: int| i < j < ls.len() ==> !#[trigger] is_command_line(ls, c, underlined, j))
            ==> output_after(ls, c, underlined, depth) == Some(
            join(ls.skip(if i == ls.len() - 1 { 0 } else { i + 1 }), "\n"@),
        ),
{
    let lo = if depth < ls.len() {
        ls.len() - depth
    } else {
        0
    };
    lemma_last_command_line(ls, c, underlined, lo, ls.len() as int);
    if let Some(k) = last_command_line(ls, c, underlined, lo, ls.len() as int) {
        if lo <= i < ls.len() && is_command_line(ls, c, underlined, i) && (forall|j: int|
            i < j < ls.len() ==> !#[trigger] is_command_line(ls, c, underlined, j)) {
            if k < i {
                assert(is_command_line(ls, c, underlined, i));
            } else if i < k {
                assert(is_command_line(ls, c, underlined, k));
            }
            assert(k == i);
        }
    }
}

/// A depth of zero scans nothing, and any depth that reaches the top of the scrollback scans all
/// of it: all such depths give the same output.
pub proof fn lemma_output_after_depth(
    ls: Seq<Seq<char>>,
    c: Seq<char>,
    underlined: Seq<bool>,
    d1: nat,
    d2: nat,
)
    ensures
        output_after(ls, c, underlined, 0) is None,
        d1 >= ls.len() && d2 >= ls.len() ==> output_after(ls, c, underlined, d1) == output_after(
            ls,
            c,
            underlined,
            d2,
        ),
{
    if ls.len() > 0 {
        lemma_last_command_line(ls, c, underlined, ls.len() as int, ls.len() as int);
    }
}

/// The lines of the scrollback text, without trailing white space.
pub open spec fn scrollback_lines(text: Seq<char>) -> Seq<Seq<char>> {
    lines(text).map_values(|l: Seq<char>| trim_end(l))
}

/// Which lines are a fish underline.
pub open spec fn underlines(ls: Seq<Seq<char>>) -> Seq<bool> {
    ls.map_values(|l: Seq<char>| regex_matches_of(FISH_ERROR_HIGHLIGHT@, l))
}

/// The output of the last command `cmd` found in the scrollback bytes `stdout`: nothing for an
/// empty or undecodable scrollback, or one in which the (trimmed) command does not occur.
pub open spec fn command_output(cmd: Seq<char>, stdout: Seq<u8>, depth: nat) -> Option<Seq<char>> {
    if stdout.len() == 0 {
        None
    } else {
        match utf8_text(stdout) {
            None => None,
            Some(text) => if !has_substring(text, trim(cmd)) {
                None
            } else {
                let ls = scrollback_lines(text);
                output_after(ls, trim(cmd), underlines(ls), depth)
            },
        }
    }
}

/// Nothing is found in an empty scrollback, in one that is not UTF-8 text, or in one in which the
/// command, without its surrounding white space, does not occur.
pub proof fn lemma_command_output_needs_command(cmd: Seq<char>, stdout: Seq<u8>, depth: nat)
    ensures
        stdout.len() == 0 ==> command_output(cmd, stdout, depth) is None,
        !valid_utf8(stdout) ==> command_output(cmd, stdout, depth) is None,
        valid_utf8(stdout) && !has_substring(decode_utf8(stdout), trim(cmd)) ==> command_output(
            cmd,
            stdout,
            depth,
        ) is None,
{
}

/// Finds, in the scrollback bytes `stdout`, the output of the last command `cmd`, scanning at most
/// `depth` lines from the bottom.
pub fn find_command_output(cmd: &str, stdout: Vec<u8>, depth: usize) -> (res: Option<String>)
    ensures
        res.deep_view() == command_output(cmd@, stdout@, depth as nat),
{
    if stdout.len() == 0 {
        return None;
    }
    let text = match stdout_to_string(stdout) {
        Ok(s) => s,
        Err(_) => return None,
    };
    let text_chars = chars_of(text.as_str());
    let cmd_chars = chars_of(cmd);
    let c = trim_chars(&cmd_chars);
    if !contains_chars(&text_chars, &c) {
        return None;
    }
    let raw = lines_chars(&text_chars);
    let ghost ls = scrollback_lines(text@);
    let mut trimmed: Vec<Vec<char>> = Vec::new();
    let mut underlined: Vec<bool> = Vec::new();
    let mut k: usize = 0;
    while k < raw.len()
        invariant
            k <= raw.len(),
            raw.deep_view() == lines(text@),
            ls == scrollback_lines(text@),
            trimmed.deep_view() == ls.take(k as int),
            underlined@ == underlines(ls).take(k as int),
        decreases raw.len() - k,
    {
        proof {
            lemma_chars_deep_view(raw[k as int]);
        }
        let t = trim_end_chars(&raw[k]);
        proof {
            lemma_chars_deep_view(t);
        }
        let line = string_of(&t);
        underlined.push(regex_is_match(FISH_ERROR_HIGHLIGHT, line.as_str()));
        let ghost before = trimmed.deep_view();
        trimmed.push(t);
        assert(trimmed.deep_view() =~= before.push(t@));
        assert(ls.take(k + 1) =~= ls.take(k as int).push(ls[k as int]));
        assert(underlines(ls).take(k + 1) =~= underlines(ls).take(k as int).push(
            underlines(ls)[k as int],
        ));
        k = k + 1;
    }
    assert(ls.take(raw.len() as int) =~= ls);
    assert(underlines(ls).take(raw.len() as int) =~= underlines(ls));
    match locate_output(&trimmed, &c, &underlined, depth) {
        Some(out) => Some(string_of(&out)),
        None => None,
    }
}

/// The output of the command `c` in the scrollback lines `ls`, of which those marked in
/// `underlined` are fish underlines; at most `depth` lines from the bottom are scanned.
pub fn locate_output(ls: &Vec<Vec<char>>, c: &Vec<char>, underlined: &Vec<bool>, depth: usize) -> (res:
    Option<Vec<char>>)
    requires
        underlined.len() == ls.len(),
    ensures
        res.deep_view() == output_after(ls.deep_view(), c@, underlined@, depth as nat),
{
    let ghost lv = ls.deep_view();
    let n = ls.len();
    let lo: usize = if depth < n {
        n - depth
    } else {
        0
    };
    let mut marker: Vec<char> = Vec::new();
    marker.push(':');
    marker.push(' ');
    proof {
        reveal_strlit(": ");
        assert(c@.take(0) =~= Seq::<char>::empty());
        assert(marker@ =~= ": "@ + c@.take(0));
    }
    let mut k: usize = 0;
    while k < c.len()
        invariant
            k <= c.len(),
            marker@ == ": "@ + c@.take(k as int),
        decreases c.len() - k,
    {
        marker.push(c[k]);
        assert(c@.take(k + 1) =~= c@.take(k as int).push(c@[k as int]));
        assert(marker@ =~= ": "@ + c@.take(k + 1));
        k = k + 1;
    }
    assert(c@.take(c.len() as int) =~= c@);
    let mut i: usize = n;
    while i > lo
        invariant
            lo <= i <= n,
            n == ls.len(),
            n == underlined.len(),
            lv == ls.deep_view(),
            marker@ == ": "@ + c@,
            lo as int == (if (depth as nat) < lv.len() { lv.len() - depth } else { 0 }),
            last_command_line(lv, c@, underlined@, lo as int, n as int) == last_command_line(
                lv,
                c@,
                underlined@,
                lo as int,
                i as int,
            ),
        decreases i,
    {
        let j = i - 1;
        proof {
            lemma_chars_deep_view(ls[j as int]);
        }
        let ends = ends_with_chars(&ls[j], &c);
        let reported = ends_with_chars(&ls[j], &marker);
        let below = j + 1 < n && underlined[j + 1];
        if ends && !reported && !below {
            assert(is_command_line(lv, c@, underlined@, j as int));
            let first: usize = if j == n - 1 {
                0
            } else {
                j + 1
            };
            let rest = slice_output(ls, first);
            let mut nl: Vec<char> = Vec::new();
            nl.push('\n');
            let joined = join_chars(&rest, &nl);
            proof {
                assert(nl@ =~= "\n"@) by {
                    reveal_strlit("\n");
                }
            }
            return Some(joined);
        }
        assert(!is_command_line(lv, c@, underlined@, j as int));
        i = j;
    }
    None
}

/// The lines `first ..` of `ls`.
fn slice_output(ls: &Vec<Vec<char>>, first: usize) -> (res: Vec<Vec<char>>)
    requires
        first <= ls.len(),
    ensures
        res.deep_view() == ls.deep_view().skip(first as int),
{
    let mut res: Vec<Vec<char>> = Vec::new();
    let mut k: usize = first;
    while k < ls.len()
        invariant
            first <= k <= ls.len(),
            res.deep_view() == ls.deep_view().subrange(first as int, k as int),
        decreases ls.len() - k,
    {
        let line = ls[k].clone();
        assert(line@ =~= ls[k as int]@);
        proof {
            lemma_chars_deep_view(line);
            lemma_chars_deep_view(ls[k as int]);
        }
        let ghost before = res.deep_view();
        res.push(line);
        assert(res.deep_view() =~= before.push(line@));
        assert(ls.deep_view().subrange(first as int, k + 1) =~= ls.deep_view().subrange(
            first as int,
            k as int,
        ).push(ls.deep_view()[k as int]));
        k = k + 1;
    }
    assert(ls.deep_view().subrange(first as int, ls.len() as int) =~= ls.deep_view().skip(
        first as int,
    ));
    res
}

} // verus!
