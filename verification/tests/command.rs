use ptyshell::command::{builtin_of, parse, split_arguments, Builtin, Invocation, Parsed};

fn command(name: &str, arguments: &str) -> Parsed {
    Parsed::Command(Invocation { command: name.to_string(), arguments: arguments.to_string() })
}

#[test]
fn quit_words_end_the_shell() {
    assert_eq!(parse("q"), Parsed::Quit);
    assert_eq!(parse("exit"), Parsed::Quit);
    assert_eq!(parse("quit"), Parsed::Quit);
}

#[test]
fn quit_words_are_trimmed_first() {
    assert_eq!(parse("  quit \t"), Parsed::Quit);
    assert_eq!(parse("\u{a0}q\u{3000}"), Parsed::Quit);
}

#[test]
fn quit_words_are_case_sensitive() {
    assert_eq!(parse("Quit"), command("Quit", ""));
    assert_eq!(parse("EXIT"), command("EXIT", ""));
    assert_eq!(parse("Q"), command("Q", ""));
}

#[test]
fn a_quit_word_with_arguments_is_a_command() {
    assert_eq!(parse("quit now"), command("quit", "now"));
    assert_eq!(parse("qq"), command("qq", ""));
    assert_eq!(parse("exi"), command("exi", ""));
}

#[test]
fn a_line_of_whitespace_is_blank() {
    assert_eq!(parse(""), Parsed::Blank);
    assert_eq!(parse("   "), Parsed::Blank);
    assert_eq!(parse(" \t\r\n"), Parsed::Blank);
}

#[test]
fn the_line_divides_at_its_first_run_of_whitespace() {
    assert_eq!(parse("echo hi"), command("echo", "hi"));
    assert_eq!(parse("  ls   -l  -a "), command("ls", "-l  -a"));
    assert_eq!(parse("a\tb c"), command("a", "b c"));
    assert_eq!(parse("cd /nonexistent"), command("cd", "/nonexistent"));
}

#[test]
fn a_lone_word_has_no_arguments() {
    assert_eq!(parse("ls"), command("ls", ""));
    assert_eq!(parse(" ls "), command("ls", ""));
}

#[test]
fn characters_beyond_ascii_are_kept() {
    assert_eq!(parse("écho grüß dich"), command("écho", "grüß dich"));
}

#[test]
fn arguments_are_the_words_of_the_text() {
    assert_eq!(split_arguments("-l  -a"), vec!["-l".to_string(), "-a".to_string()]);
    assert_eq!(split_arguments("  x "), vec!["x".to_string()]);
    assert_eq!(split_arguments("a\tb\nc"), vec!["a".to_string(), "b".to_string(), "c".to_string()]);
    assert_eq!(split_arguments("hi"), vec!["hi".to_string()]);
}

#[test]
fn no_text_gives_no_arguments() {
    assert_eq!(split_arguments(""), Vec::<String>::new());
    assert_eq!(split_arguments("   "), Vec::<String>::new());
}

#[test]
fn arguments_split_as_std_splits_words() {
    for text in ["a b", "  a   b  ", "one", "", " \u{2003}x\u{85}y ", "tab\there"] {
        let expected: Vec<String> = text.split_whitespace().map(String::from).collect();
        assert_eq!(split_arguments(text), expected);
    }
}

#[test]
fn cd_is_the_built_in_command() {
    assert_eq!(builtin_of("cd"), Some(Builtin::ChangeDirectory));
    assert_eq!(builtin_of("CD"), None);
    assert_eq!(builtin_of("cdx"), None);
    assert_eq!(builtin_of("c"), None);
    assert_eq!(builtin_of(""), None);
    assert_eq!(builtin_of("ls"), None);
}
