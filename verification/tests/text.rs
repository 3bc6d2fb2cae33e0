use fixit::cmd::init::{render_alias, template_extension, Shell};
use fixit::packaging::{arch_version, aur_bin_stanza, download_prefix, homebrew_stanza, linux_platform};
use fixit::text::{
    chars_of, decimal_string, join_strings, lines_chars, replace_char_str, replace_first_str,
    str_contains, text_less, trim_chars, trim_end_chars,
};

fn chars(s: &str) -> Vec<char> {
    s.chars().collect()
}

#[test]
fn str_contains_test() {
    assert!(str_contains("hello world", "o w"));
    assert!(str_contains("abc", ""));
    assert!(!str_contains("abc", "abcd"));
    assert!(!str_contains("", "a"));
}

#[test]
fn trim_test() {
    assert_eq!(chars("a b"), trim_chars(&chars(" \t a b\u{3000}\n")));
    assert_eq!(chars(" a"), trim_end_chars(&chars(" a \r")));
    assert_eq!(Vec::<char>::new(), trim_chars(&chars("   ")));
}

#[test]
fn lines_test() {
    let l = lines_chars(&chars("a\r\nb\n\nc\r"));
    assert_eq!(vec![chars("a"), chars("b"), chars(""), chars("c\r")], l);
    assert!(lines_chars(&chars("")).is_empty());
    assert_eq!(vec![chars("")], lines_chars(&chars("\n")));
}

#[test]
fn join_strings_test() {
    let parts = vec!["a".to_string(), "b c".to_string(), "".to_string()];
    assert_eq!("a b c ", join_strings(&parts, " "));
    assert_eq!("", join_strings(&vec![], " "));
}

#[test]
fn decimal_string_test() {
    assert_eq!("0", decimal_string(0));
    assert_eq!("1000", decimal_string(1000));
    assert_eq!(usize::MAX.to_string(), decimal_string(usize::MAX));
}

#[test]
fn replace_test() {
    assert_eq!("x-b-__name__", replace_first_str("__name__-b-__name__", "__name__", "x"));
    assert_eq!("abc", replace_first_str("abc", "__name__", "x"));
    assert_eq!("0_3_1_beta", replace_char_str("0-3-1-beta", '-', "_"));
}

#[test]
fn text_order_test() {
    assert!(text_less(&chars("ab"), &chars("abc")));
    assert!(text_less(&chars("abc"), &chars("abd")));
    assert!(!text_less(&chars("b"), &chars("abc")));
    assert!(!text_less(&chars("x"), &chars("x")));
}

#[test]
fn chars_of_test() {
    assert_eq!(vec!['h', 'é', '🦀'], chars_of("hé🦀"));
}

#[test]
fn alias_test() {
    assert_eq!("alias f=fixit # __name__", render_alias("alias __name__=fixit # __name__", "f"));
    assert_eq!("sh", template_extension(Shell::Bash));
    assert_eq!("fish", template_extension(Shell::Fish));
    assert_eq!("zsh", template_extension(Shell::Zsh));
    assert_eq!("ps1", template_extension(Shell::Powershell));
}

#[test]
fn packaging_test() {
    assert_eq!("0.3.1_beta", arch_version("0.3.1-beta"));
    assert_eq!("url \"A\"\n      sha256 \"H\"", homebrew_stanza("A", "H"));
    assert_eq!("x86_64-unknown-linux-musl", linux_platform("x86_64"));
    assert_eq!(
        "https://github.com/eugene-babichenko/fixit/releases/download/v1.0/fixit-v1.0-x86_64-apple-darwin",
        download_prefix("1.0", "x86_64-apple-darwin")
    );
    assert_eq!(
        "source_x86_64=('fixit-x86_64-1.0.tar.gz::A')\nsha256sums_x86_64=('H')",
        aur_bin_stanza("1.0", "x86_64", "A", "H")
    );
}
