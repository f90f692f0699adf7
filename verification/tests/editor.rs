use ptyshell::command::Invocation;
use ptyshell::completion::candidates::DirEntry;
use ptyshell::completion::segment::Segment;
use ptyshell::editor::{KeyEvent, LineEditor, Reaction, Request};

fn file(name: &str) -> DirEntry {
    DirEntry { name: name.to_string(), is_dir: false }
}

fn typed(line: &str) -> LineEditor {
    let mut editor = LineEditor::new();
    for c in line.chars() {
        editor.handle_key(KeyEvent::Printable(c));
    }
    editor
}

fn reaction(output: &str, request: Request) -> Reaction {
    Reaction { output: output.to_string(), request }
}

#[test]
fn an_unused_editor_is_empty() {
    let editor = LineEditor::new();
    assert_eq!(editor.line(), "");
    assert_eq!(editor.len(), 0);
    assert_eq!(LineEditor::prompt(), "? ");
    assert_eq!(LineEditor::after_command(), "\r? ");
}

#[test]
fn a_character_goes_to_the_end_and_is_echoed() {
    let mut editor = LineEditor::with_line("ab");
    assert_eq!(editor.handle_key(KeyEvent::Printable('c')), reaction("c", Request::Continue));
    assert_eq!(editor.line(), "abc");
    assert_eq!(editor.handle_key(KeyEvent::Printable('ß')), reaction("ß", Request::Continue));
    assert_eq!(editor.line(), "abcß");
    assert_eq!(editor.len(), 4);
}

#[test]
fn typing_builds_the_line() {
    assert_eq!(typed("echo hi").line(), "echo hi");
    assert_eq!(typed("echo hi").line(), LineEditor::with_line("echo hi").line());
}

#[test]
fn backspace_takes_the_last_character() {
    let mut editor = LineEditor::with_line("ab");
    assert_eq!(editor.handle_key(KeyEvent::Backspace), reaction("\u{8} \u{8}", Request::Continue));
    assert_eq!(editor.line(), "a");
    assert_eq!(editor.handle_key(KeyEvent::Backspace), reaction("\u{8} \u{8}", Request::Continue));
    assert_eq!(editor.line(), "");
}

#[test]
fn backspace_on_an_empty_line_does_nothing() {
    let mut editor = LineEditor::new();
    assert_eq!(editor.handle_key(KeyEvent::Backspace), reaction("", Request::Continue));
    assert_eq!(editor.line(), "");
}

#[test]
fn enter_on_an_empty_line_draws_a_new_prompt() {
    let mut editor = LineEditor::new();
    assert_eq!(editor.handle_key(KeyEvent::Enter), reaction("\r\n\r? ", Request::Continue));
    assert_eq!(editor.line(), "");
}

#[test]
fn enter_commits_the_line_and_clears_it() {
    let mut editor = LineEditor::with_line("echo hi");
    let invocation = Invocation { command: "echo".to_string(), arguments: "hi".to_string() };
    assert_eq!(editor.handle_key(KeyEvent::Enter), reaction("\r\n", Request::Run(invocation)));
    assert_eq!(editor.line(), "");
}

#[test]
fn enter_on_a_quit_word_leaves_the_shell() {
    for word in ["q", "exit", "quit", "  quit  "] {
        let mut editor = LineEditor::with_line(word);
        assert_eq!(editor.handle_key(KeyEvent::Enter), reaction("\r\n", Request::Exit));
    }
}

#[test]
fn enter_on_a_blank_line_dispatches_nothing() {
    let mut editor = LineEditor::with_line("   ");
    assert_eq!(editor.handle_key(KeyEvent::Enter), reaction("\r\n\r? ", Request::Continue));
    assert_eq!(editor.line(), "");
}

#[test]
fn cancel_gives_the_line_up() {
    let mut editor = LineEditor::with_line("rm -rf");
    assert_eq!(editor.handle_key(KeyEvent::Cancel), reaction("\r\n\r? ", Request::Continue));
    assert_eq!(editor.line(), "");
}

#[test]
fn redraw_clears_the_screen_and_keeps_the_line() {
    let mut editor = LineEditor::with_line("ls -l");
    assert_eq!(
        editor.handle_key(KeyEvent::Redraw),
        reaction("\u{1b}[2J\u{1b}[H? ls -l", Request::Continue)
    );
    assert_eq!(editor.line(), "ls -l");
}

#[test]
fn tab_asks_for_completion_and_changes_nothing() {
    let mut editor = LineEditor::with_line("ls fo");
    assert_eq!(editor.handle_key(KeyEvent::Tab), reaction("", Request::Complete));
    assert_eq!(editor.line(), "ls fo");
}

#[test]
fn other_keys_are_ignored() {
    let mut editor = LineEditor::with_line("ls");
    assert_eq!(editor.handle_key(KeyEvent::Other), reaction("", Request::Continue));
    assert_eq!(editor.line(), "ls");
}

#[test]
fn no_key_at_all_leaves_the_editor_as_it_started() {
    let mut editor = LineEditor::new();
    let keys: Vec<KeyEvent> = Vec::new();
    let mut written = LineEditor::prompt();
    for key in keys {
        written.push_str(&editor.handle_key(key).output);
    }
    assert_eq!(written, "? ");
    assert_eq!(editor.line(), "");
}

#[test]
fn a_session_of_keys() {
    let mut editor = LineEditor::new();
    let mut screen = LineEditor::prompt();
    let mut requests = Vec::new();
    let keys = [
        KeyEvent::Printable('l'),
        KeyEvent::Printable('x'),
        KeyEvent::Backspace,
        KeyEvent::Printable('s'),
        KeyEvent::Other,
        KeyEvent::Enter,
        KeyEvent::Printable('q'),
        KeyEvent::Enter,
    ];
    for key in keys {
        let Reaction { output, request } = editor.handle_key(key);
        screen.push_str(&output);
        if request != Request::Continue {
            requests.push(request);
        }
    }
    assert_eq!(screen, "? lx\u{8} \u{8}s\r\nq\r\n");
    assert_eq!(
        requests,
        vec![
            Request::Run(Invocation { command: "ls".to_string(), arguments: String::new() }),
            Request::Exit,
        ]
    );
}

#[test]
fn characters_become_keys() {
    assert_eq!(KeyEvent::of_char('\t'), KeyEvent::Tab);
    assert_eq!(KeyEvent::of_char('\n'), KeyEvent::Enter);
    assert_eq!(KeyEvent::of_char('a'), KeyEvent::Printable('a'));
    assert_eq!(KeyEvent::of_char(' '), KeyEvent::Printable(' '));
    assert_eq!(KeyEvent::of_char('\r'), KeyEvent::Printable('\r'));
}

#[test]
fn chords_become_keys() {
    assert_eq!(KeyEvent::of_control('c'), KeyEvent::Cancel);
    assert_eq!(KeyEvent::of_control('l'), KeyEvent::Redraw);
    assert_eq!(KeyEvent::of_control('d'), KeyEvent::Other);
    assert_eq!(KeyEvent::of_control('C'), KeyEvent::Other);
}

#[test]
fn the_editor_cuts_the_segment_out_of_its_line() {
    let editor = LineEditor::with_line("ls src/ma");
    assert_eq!(
        editor.segment(9),
        Segment { start: 3, end: 9, text: "src/ma".to_string(), first_token: false }
    );
}

#[test]
fn completion_that_lists_writes_the_listing_and_the_line_again() {
    let mut editor = LineEditor::with_line("ls fo");
    let entries = vec![file("foo"), file("foobar"), file("fox")];
    let output = editor.complete(5, false, &entries, 80);
    assert_eq!(output, "\r\nfoo        foobar     fox        \n\r\u{1b}[2K\r? ls fo");
    assert_eq!(editor.line(), "ls fo");
}

#[test]
fn completion_that_extends_replaces_the_segment() {
    let mut editor = LineEditor::with_line("cat ma");
    let entries = vec![file("main.rs"), file("lib.rs")];
    let output = editor.complete(6, false, &entries, 80);
    assert_eq!(output, "\u{1b}[2K\r? cat main.rs ");
    assert_eq!(editor.line(), "cat main.rs ");
}

#[test]
fn completion_keeps_what_stands_behind_the_cursor() {
    let mut editor = LineEditor::with_line("cat ma x");
    let entries = vec![file("main.rs"), file("lib.rs")];
    let output = editor.complete(6, false, &entries, 80);
    assert_eq!(editor.line(), "cat main.rs  x");
    assert_eq!(output, "\u{1b}[2K\r? cat main.rs  x");
}

#[test]
fn completion_without_a_candidate_draws_the_line_again() {
    let mut editor = LineEditor::with_line("cat zz");
    let output = editor.complete(6, false, &vec![file("main.rs")], 80);
    assert_eq!(output, "\u{1b}[2K\r? cat zz");
    assert_eq!(editor.line(), "cat zz");
}

#[test]
fn completion_of_a_command_name() {
    let mut editor = LineEditor::with_line("ec");
    let entries = vec![file("echo"), file("env"), file("ed")];
    let output = editor.complete(2, false, &entries, 80);
    assert_eq!(editor.line(), "echo ");
    assert_eq!(output, "\u{1b}[2K\r? echo ");
}

#[test]
fn completion_of_a_directory_lists_it_and_leaves_the_line() {
    let mut editor = LineEditor::with_line("ls src");
    let entries = vec![file("main.rs"), file("lib.rs")];
    let output = editor.complete(6, true, &entries, 80);
    assert_eq!(output, "\r\nlib.rs      main.rs     \n\r\u{1b}[2K\r? ls src");
    assert_eq!(editor.line(), "ls src");
}

#[test]
fn the_cursor_column_counts_from_one_and_behind_the_prompt() {
    assert_eq!(LineEditor::cursor_offset(3), 0);
    assert_eq!(LineEditor::cursor_offset(4), 1);
    assert_eq!(LineEditor::cursor_offset(8), 5);
    assert_eq!(LineEditor::cursor_offset(65535), 65532);
}

#[test]
fn a_cursor_in_the_prompt_counts_as_one_at_the_start() {
    assert_eq!(LineEditor::cursor_offset(0), 0);
    assert_eq!(LineEditor::cursor_offset(1), 0);
    assert_eq!(LineEditor::cursor_offset(2), 0);
}

#[test]
fn the_cursor_behind_a_typed_line_finds_its_last_segment() {
    let editor = LineEditor::with_line("ls fo");
    let column = 2 + 5 + 1;
    assert_eq!(
        editor.segment(LineEditor::cursor_offset(column)),
        Segment { start: 3, end: 5, text: "fo".to_string(), first_token: false }
    );
}

#[test]
fn completion_that_lists_in_one_column_ends_its_rows_with_the_carriage_return_first() {
    let mut editor = LineEditor::with_line("ls fo");
    let entries = vec![file("foo"), file("fox")];
    let output = editor.complete(5, false, &entries, 10);
    assert_eq!(output, "\r\nfoo     \r\nfox     \r\n\u{1b}[2K\r? ls fo");
    assert_eq!(editor.line(), "ls fo");
}

#[test]
fn completion_of_an_empty_directory_steps_below_the_line_and_draws_it_again() {
    let mut editor = LineEditor::with_line("ls empty/");
    let output = editor.complete(9, true, &vec![], 80);
    assert_eq!(output, "\r\n\u{1b}[2K\r? ls empty/");
    assert_eq!(editor.line(), "ls empty/");
}
