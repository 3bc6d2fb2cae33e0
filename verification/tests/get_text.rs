use fixit::get_text::kitty;
use fixit::get_text::rerun_command::{command_outcome, select_shell};
use fixit::get_text::{find_command_output, locate_output, next_quick_step, quick_sources, QuickStep, stdout_to_string, Config, Error, TextSource};
use fixit::get_text::{iterm, macos_terminal, tmux, wezterm, zellij};

#[test]
fn command_output_empty() {
    let cmd = "ls";
    assert_eq!(None, find_command_output(cmd, vec![], usize::MAX));
}

#[test]
fn command_output_finder() {
    let output = "
fixit on ? master [$?!?] is ?? v0.1.0-alpha via ?? v1.78.0
? gti
fish: Unknown command: gti";
    let expected = "fish: Unknown command: gti".to_string();
    let cmd = "gti";
    assert_eq!(
        expected,
        find_command_output(cmd, output.as_bytes().to_vec(), usize::MAX).unwrap()
    );
}

#[test]
fn command_output_clipped() {
    let output = "fish: Unknown command: gti";
    let cmd = "gti";
    assert_eq!(None, find_command_output(cmd, output.as_bytes().to_vec(), usize::MAX));
}

#[test]
fn command_output_fish() {
    let output = "
fixit on ? master [$?!?] is ?? v0.1.0-alpha via ?? v1.78.0
? time gti push
fish: Unknown command: gti
fish:
time gti push
     ^~^";
    let expected = "fish: Unknown command: gti
fish:
time gti push
     ^~^";
    let cmd = "time gti push";
    assert_eq!(
        expected,
        find_command_output(cmd, output.as_bytes().to_vec(), usize::MAX).unwrap()
    );
}

#[test]
fn no_relevant_command() {
    let output = "
fixit on ? master [??] is ?? v0.3.1-beta via ?? v1.78.0
? thefuck
Traceback (most recent call last):
  File \"/Users/eugene/Library/Python/3.8/bin/thefuck\", line 5, in <module>
    from thefuck.entrypoints.main import main
ModuleNotFoundError: No module named 'thefuck'

fixit on ? master [??] is ?? v0.3.1-beta via ?? v1.78.0
? help

fixit on ? master [??] is ?? v0.3.1-beta via ?? v1.78.0
? yay
fish: Unknown command: yay
            ";
    let cmd = "time gti push";
    assert_eq!(None, find_command_output(cmd, output.as_bytes().to_vec(), usize::MAX))
}

#[test]
fn similar_commands() {
    let output = "fixit on  master [!?] is 📦 v0.4.0 via 🦀 v1.78.0 took 8s
❯ cp ./target/debug/fixit /bin
cp: /bin/fixit: Operation not permitted

fixit on  master [!?] is 📦 v0.4.0 via 🦀 v1.78.0
❯ cp ./target/debug/fixit
usage: cp [-R [-H | -L | -P]] [-fi | -n] [-aclpSsvXx] source_file target_file
       cp [-R [-H | -L | -P]] [-fi | -n] [-aclpSsvXx] source_file ... target_directory";
    let cmd = "cp ./target/debug/fixit";
    let expected = "usage: cp [-R [-H | -L | -P]] [-fi | -n] [-aclpSsvXx] source_file target_file
       cp [-R [-H | -L | -P]] [-fi | -n] [-aclpSsvXx] source_file ... target_directory";
    assert_eq!(
        Some(expected.to_string()),
        find_command_output(cmd, output.as_bytes().to_vec(), usize::MAX)
    );
}

#[test]
fn command_output_depth_limits_the_scan() {
    let output = "$ ls\nout1\nout2";
    assert_eq!(Some("out1\nout2".to_string()), find_command_output("ls", output.as_bytes().to_vec(), 3));
    assert_eq!(None, find_command_output("ls", output.as_bytes().to_vec(), 2));
    assert_eq!(None, find_command_output("ls", output.as_bytes().to_vec(), 0));
}

#[test]
fn command_output_command_on_last_line_takes_everything() {
    let output = "first\n$ ls";
    assert_eq!(Some("first\n$ ls".to_string()), find_command_output("ls", output.as_bytes().to_vec(), 10));
}

#[test]
fn command_output_trims_command_and_crlf() {
    let output = "$ ls  \r\nerr\r\n";
    assert_eq!(Some("err".to_string()), find_command_output("  ls ", output.as_bytes().to_vec(), 10));
}

#[test]
fn command_output_invalid_utf8() {
    assert_eq!(None, find_command_output("ls", vec![0xff, 0xfe], 10));
}

#[test]
fn stdout_to_string_test() {
    assert_eq!("héllo", stdout_to_string("héllo".as_bytes().to_vec()).ok().unwrap());
    assert!(matches!(stdout_to_string(vec![0xc3]), Err(Error::CmdOutput(_))));
}

#[test]
fn success() {
    let r = command_outcome(false, b"world\n".to_vec(), b"hello\n".to_vec());
    assert_eq!(Some(vec!["world\n".to_string(), "hello\n".to_string()]), r.ok().unwrap());
}

#[test]
fn command_ran_successfully() {
    let r = command_outcome(true, b"world\n".to_vec(), b"hello\n".to_vec());
    assert_eq!(None, r.ok().unwrap());
}

#[test]
fn command_outcome_invalid_output() {
    assert!(matches!(command_outcome(false, vec![0xff], b"ok".to_vec()), Err(Error::CmdOutput(_))));
    assert!(matches!(command_outcome(false, b"ok".to_vec(), vec![0xff]), Err(Error::CmdOutput(_))));
}

#[test]
fn select_shell_test() {
    assert_eq!("pwsh", select_shell(true, Some("bash".to_string()), false));
    assert_eq!("bash", select_shell(false, Some("bash".to_string()), false));
    assert_eq!("/bin/sh", select_shell(false, None, false));
    assert_eq!("cmd.exe", select_shell(false, None, true));
}

#[test]
fn quick_sources_test() {
    let enabled = Config { quick: true, depth: 1000, powershell: false };
    assert_eq!(
        vec![
            TextSource::Tmux,
            TextSource::Zellij,
            TextSource::Kitty,
            TextSource::WezTerm,
            TextSource::ITerm,
            TextSource::MacosTerminal
        ],
        quick_sources(&enabled)
    );
    let disabled = Config { quick: false, depth: 1000, powershell: false };
    assert!(quick_sources(&disabled).is_empty());
}

#[test]
fn terminal_queries() {
    let q = tmux::query(1000);
    assert_eq!("tmux", q.term_program);
    assert_eq!(vec!["tmux", "capture-pane", "-p", "-S", "-1000"], q.args);
    let q = wezterm::query(0);
    assert_eq!("WezTerm", q.term_program);
    assert_eq!(vec!["wezterm", "cli", "get-text", "--start-line", "-0"], q.args);
    let q = iterm::query();
    assert_eq!("iTerm.app", q.term_program);
    assert_eq!(
        vec![
            "osascript",
            "-e",
            r#"tell application "iTerm2" to get contents of current session of current window"#
        ],
        q.args
    );
    let q = macos_terminal::query();
    assert_eq!("Apple_Terminal", q.term_program);
    assert_eq!("osascript", q.args[0]);
    assert_eq!(vec!["action", "dump-screen", "--full", "/tmp/x"], zellij::args("/tmp/x"));
    assert_eq!(vec!["@", "get-text", "--extent", "all"], kitty::args(false));
    assert_eq!(vec!["@", "get-text", "--extent", "last_cmd_output"], kitty::args(true));
}

#[test]
fn kitty_output_text() {
    let bytes = b"$ gti\nerror".to_vec();
    assert_eq!(Some("$ gti\nerror".to_string()), kitty::output_text(true, "gti", bytes.clone(), 10));
    assert_eq!(Some("error".to_string()), kitty::output_text(false, "gti", bytes, 10));
}

#[test]
fn command_output_skips_reports_naming_the_command() {
    // bash reports errors as `bash: line 1: <text>`; a line ending in `: <command>` is a report
    let output = "$ gti\nbash: line 1: gti";
    assert_eq!(
        Some("bash: line 1: gti".to_string()),
        find_command_output("gti", output.as_bytes().to_vec(), 100)
    );
}

fn chars(s: &str) -> Vec<char> {
    s.chars().collect()
}

#[test]
fn locate_output_skips_underlined_and_reported_lines() {
    let ls = vec![chars("$ gti"), chars("out"), chars("fish: Unknown command: gti"), chars("^~^")];
    let c = chars("gti");
    // The report line ends with the command but is a report; the first line is the command line.
    assert_eq!(Some(chars("out\nfish: Unknown command: gti\n^~^")), locate_output(&ls, &c, &vec![false, false, false, true], 10));
    // A command line followed by an underline is not taken.
    let ls2 = vec![chars("$ gti"), chars("^~^")];
    assert_eq!(None, locate_output(&ls2, &c, &vec![false, true], 10));
    assert_eq!(Some(chars("out")), locate_output(&vec![chars("$ gti"), chars("out")], &c, &vec![false, false], 10));
}

#[test]
fn quick_search_steps() {
    let sources = vec![TextSource::Tmux, TextSource::Zellij, TextSource::Kitty];
    // nothing asked yet: ask the first source
    assert!(matches!(next_quick_step(&sources, 0, None), QuickStep::Query(TextSource::Tmux)));
    // the first source had nothing: ask the second
    assert!(matches!(next_quick_step(&sources, 1, None), QuickStep::Query(TextSource::Zellij)));
    // the second source answered: done, no later source is asked
    match next_quick_step(&sources, 2, Some("out".to_string())) {
        QuickStep::Found(o) => assert_eq!("out", o),
        _ => panic!("expected the answer"),
    }
    // every source was asked without an answer: run the command again
    assert!(matches!(next_quick_step(&sources, 3, None), QuickStep::Rerun));
    assert!(matches!(next_quick_step(&vec![], 0, None), QuickStep::Rerun));
}
